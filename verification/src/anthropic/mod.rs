//! The Anthropic processor: sends the collected inputs with a prompt to the Messages API.
use vstd::prelude::*;
use crate::briefing::{combine_inputs, combined_inputs, messages_view, ChatRequest, InputData, Processor};
use crate::anthropic::client::{user_message, AnthropicClient};
use crate::text::push_str;

pub mod client;

verus! {

/// Errors of the Anthropic processor.
#[derive(Debug)]
pub enum Error {
    Client(client::Error),
}

impl Error {
    /// The error's message.
    pub fn message(&self) -> (m: String)
        ensures
            m@ == match self {
                Error::Client(e) => "Anthropic client error: "@ + e.message_view(),
            },
    {
        match self {
            Error::Client(e) => {
                let mut m = "Anthropic client error: ".to_owned();
                let inner = e.message();
                push_str(&mut m, inner.as_str());
                m
            },
        }
    }
}

/// The settings of the Anthropic processor, with the API key already resolved.
#[derive(Debug, Clone)]
pub struct AnthropicConfig {
    pub api_key: String,
    pub model: String,
    pub max_tokens: u32,
    pub prompt: String,
}

/// The Anthropic processor: its settings and the client built from them.
pub struct AnthropicProcessor {
    config: AnthropicConfig,
    client: AnthropicClient,
}

impl AnthropicProcessor {
    pub closed spec fn config_view(&self) -> AnthropicConfig {
        self.config
    }

    pub closed spec fn client_view(&self) -> AnthropicClient {
        self.client
    }

    /// A processor for `config`, whose client uses `config.api_key`.
    pub fn new(config: AnthropicConfig) -> (p: Self)
        ensures
            p.config_view() == config,
            p.client_view().api_key_view() == config.api_key@,
    {
        let client = AnthropicClient::new(config.api_key.as_str());
        AnthropicProcessor { config, client }
    }

    /// The client.
    pub fn client(&self) -> (c: &AnthropicClient)
        ensures
            *c == self.client_view(),
    {
        &self.client
    }
}

impl Processor for AnthropicProcessor {
    /// The request for `inputs`: the configured model and token limit, and the prompt
    /// followed by every input under a header naming its source.
    fn request(&self, inputs: &[InputData]) -> (r: ChatRequest)
        ensures
            r.model@ == self.config_view().model@,
            r.max_tokens == self.config_view().max_tokens,
            messages_view(r.messages@) == seq![("user"@, user_message(self.config_view().prompt@, combined_inputs(inputs@)))],
    {
        let combined = combine_inputs(inputs);
        self.client.request(self.config.model.as_str(), self.config.max_tokens, self.config.prompt.as_str(), combined.as_str())
    }
}

} // verus!
