//! The Anthropic Messages API client: the request it sends and how it reads the reply.
use vstd::prelude::*;
use crate::briefing::{messages_view, ChatRequest, Message};
use crate::text::push_str;

verus! {

/// The Messages API endpoint.
pub fn api_url() -> (u: &'static str)
    ensures
        u@ == "https://api.anthropic.com/v1/messages"@,
{
    "https://api.anthropic.com/v1/messages"
}

/// The API version sent in the `anthropic-version` header.
pub fn api_version() -> (v: &'static str)
    ensures
        v@ == "2023-06-01"@,
{
    "2023-06-01"
}

/// Errors of the Anthropic client.
#[derive(Debug)]
pub enum Error {
    /// The HTTP exchange failed; the text says how.
    Http(String),
    Api(String),
    EmptyResponse,
}

impl Error {
    /// The text of the error's message.
    pub open spec fn message_view(&self) -> Seq<char> {
        match self {
            Error::Http(e) => "HTTP request failed: "@ + e@,
            Error::Api(e) => "Anthropic API error: "@ + e@,
            Error::EmptyResponse => "Empty response from Anthropic API"@,
        }
    }

    /// The error's message.
    pub fn message(&self) -> (m: String)
        ensures
            m@ == self.message_view(),
    {
        match self {
            Error::Http(e) => {
                let mut m = "HTTP request failed: ".to_owned();
                push_str(&mut m, e.as_str());
                m
            },
            Error::Api(e) => {
                let mut m = "Anthropic API error: ".to_owned();
                push_str(&mut m, e.as_str());
                m
            },
            Error::EmptyResponse => "Empty response from Anthropic API".to_owned(),
        }
    }
}

/// One content block of a reply.
pub struct ContentBlock {
    pub block_type: String,
    pub text: Option<String>,
}

/// The error object of a reply.
pub struct ApiError {
    pub message: String,
}

/// The fields of a reply that the client reads.
pub struct ResponseBody {
    pub content: Vec<ContentBlock>,
    pub error: Option<ApiError>,
}

/// The text of the first block of type `text`, if that block carries text.
pub open spec fn first_text(blocks: Seq<ContentBlock>) -> Option<Seq<char>>
    decreases blocks.len(),
{
    if blocks.len() == 0 {
        None
    } else if blocks[0].block_type@ == "text"@ {
        match blocks[0].text {
            Some(t) => Some(t@),
            None => None,
        }
    } else {
        first_text(blocks.drop_first())
    }
}

/// The user message: the prompt, a blank line, then the content.
pub open spec fn user_message(prompt: Seq<char>, content: Seq<char>) -> Seq<char> {
    prompt + "\n\n"@ + content
}

/// A client holding the API key.
pub struct AnthropicClient {
    api_key: String,
}

impl AnthropicClient {
    pub closed spec fn api_key_view(&self) -> Seq<char> {
        self.api_key@
    }

    /// A client using `api_key`.
    pub fn new(api_key: &str) -> (c: Self)
        ensures
            c.api_key_view() == api_key@,
    {
        AnthropicClient { api_key: api_key.to_owned() }
    }

    /// The key sent in the `x-api-key` header.
    pub fn api_key(&self) -> (k: &str)
        ensures
            k@ == self.api_key_view(),
    {
        self.api_key.as_str()
    }

    /// The request for `model`: one user message holding the prompt and the content.
    pub fn request(&self, model: &str, max_tokens: u32, prompt: &str, content: &str) -> (r: ChatRequest)
        ensures
            r.model@ == model@,
            r.max_tokens == max_tokens,
            messages_view(r.messages@) == seq![("user"@, user_message(prompt@, content@))],
    {
        let mut text = prompt.to_owned();
        push_str(&mut text, "\n\n");
        push_str(&mut text, content);
        let mut messages: Vec<Message> = Vec::new();
        messages.push(Message { role: "user".to_owned(), content: text });
        assert(messages_view(messages@) =~= seq![("user"@, user_message(prompt@, content@))]);
        ChatRequest { model: model.to_owned(), max_tokens, messages }
    }

    /// Reads a decoded reply received with the HTTP status `status`: an error object
    /// becomes `Api` naming the status and its message, otherwise the text of the
    /// first `text` block is the result, or `EmptyResponse` when it has none.
    pub fn reply_text(status: &str, body: ResponseBody) -> (r: Result<String, Error>)
        ensures
            match body.error {
                Some(e) => r matches Err(Error::Api(m)) && m@ == "HTTP "@ + status@ + ": "@ + e.message@,
                None => match first_text(body.content@) {
                    Some(t) => r matches Ok(s) && s@ == t,
                    None => r matches Err(Error::EmptyResponse),
                },
            },
    {
        if let Some(e) = body.error {
            let mut m = "HTTP ".to_owned();
            push_str(&mut m, status);
            push_str(&mut m, ": ");
            push_str(&mut m, e.message.as_str());
            return Err(Error::Api(m));
        }
        let blocks = body.content;
        let mut i: usize = 0;
        assert(blocks@.skip(0) =~= blocks@);
        while i < blocks.len()
            invariant
                i <= blocks@.len(),
                body.error is None,
                blocks@ == body.content@,
                first_text(blocks@) == first_text(blocks@.skip(i as int)),
            decreases blocks.len() - i,
        {
            assert(blocks@.skip(i as int)[0] == blocks@[i as int]);
            assert(blocks@.skip(i as int).drop_first() =~= blocks@.skip(i + 1));
            if blocks[i].block_type == "text".to_owned() {
                return match &blocks[i].text {
                    Some(t) => Ok(t.clone()),
                    None => Err(Error::EmptyResponse),
                };
            }
            i = i + 1;
        }
        Err(Error::EmptyResponse)
    }
}

} // verus!
