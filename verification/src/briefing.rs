//! The pieces every input, processor and output shares.
use vstd::prelude::*;
use crate::text::{join, join_strings, push_str};

verus! {

/// What one input collected: the input's name and the text it produced.
#[derive(Debug, Clone)]
pub struct InputData {
    pub source: String,
    pub content: String,
}

/// A source of text for the briefing. Collecting is done by the application,
/// which drives the request shapes each input offers.
pub trait Input {
    fn name(&self) -> &str;
}

/// A destination for the finished briefing.
pub trait Output {
    fn name(&self) -> &str;
}

/// Writes the briefing from the collected inputs. Each processor builds the chat
/// request for them; the application sends it and hands the reply back.
pub trait Processor {
    fn request(&self, inputs: &[InputData]) -> ChatRequest;
}


/// The text block for one input: a header naming its source, then its content.
pub open spec fn input_section(i: InputData) -> Seq<char> {
    "=== "@ + i.source@ + " ===\n"@ + i.content@
}

/// All inputs as one text, sections separated by blank lines.
pub open spec fn combined_inputs(inputs: Seq<InputData>) -> Seq<char> {
    join(inputs.map_values(|i: InputData| input_section(i)), "\n\n"@)
}

/// Combines the collected inputs into the text handed to a processor.
pub fn combine_inputs(inputs: &[InputData]) -> (s: String)
    ensures
        s@ == combined_inputs(inputs@),
{
    let mut parts: Vec<String> = Vec::new();
    let mut i: usize = 0;
    while i < inputs.len()
        invariant
            i <= inputs@.len(),
            parts@.map_values(|p: String| p@) == inputs@.take(i as int).map_values(|x: InputData| input_section(x)),
        decreases inputs.len() - i,
    {
        let mut part = "=== ".to_owned();
        push_str(&mut part, inputs[i].source.as_str());
        push_str(&mut part, " ===\n");
        push_str(&mut part, inputs[i].content.as_str());
        let ghost old_parts = parts@;
        parts.push(part);
        i = i + 1;
        assert(parts@.map_values(|p: String| p@) =~= old_parts.map_values(|p: String| p@).push(input_section(inputs@[i - 1])));
        assert(inputs@.take(i as int).map_values(|x: InputData| input_section(x)) =~= inputs@.take(i - 1).map_values(|x: InputData| input_section(x)).push(input_section(inputs@[i - 1])));
    }
    assert(inputs@.take(inputs@.len() as int) =~= inputs@);
    join_strings(&parts, "\n\n")
}

/// One message of a chat request.
pub struct Message {
    pub role: String,
    pub content: String,
}

/// A chat completion request: the model, the token limit and the messages.
pub struct ChatRequest {
    pub model: String,
    pub max_tokens: u32,
    pub messages: Vec<Message>,
}

/// The views of the role and content of each message.
pub open spec fn messages_view(m: Seq<Message>) -> Seq<(Seq<char>, Seq<char>)> {
    m.map_values(|x: Message| (x.role@, x.content@))
}

} // verus!
