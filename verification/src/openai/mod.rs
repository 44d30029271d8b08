//! The OpenAI processor: sends the collected inputs with a system prompt to an
//! OpenAI-compatible endpoint.
use vstd::prelude::*;
use crate::briefing::{combine_inputs, combined_inputs, messages_view, ChatRequest, InputData, Processor};
use crate::openai::client::{default_base_url, opt_view, OpenAiClient};
use crate::text::{push_str, trim_end_char};

pub mod client;

verus! {

/// Errors of the OpenAI processor.
#[derive(Debug)]
pub enum Error {
    Client(client::Error),
}

impl Error {
    /// The error's message.
    pub fn message(&self) -> (m: String)
        ensures
            m@ == match self {
                Error::Client(e) => "OpenAI client error: "@ + e.message_view(),
            },
    {
        match self {
            Error::Client(e) => {
                let mut m = "OpenAI client error: ".to_owned();
                let inner = e.message();
                push_str(&mut m, inner.as_str());
                m
            },
        }
    }
}

/// The settings of the OpenAI processor.
#[derive(Debug, Clone)]
pub struct OpenAiConfig {
    /// Base URL for the OpenAI-compatible API, e.g. `https://api.openai.com/v1`
    /// or a local endpoint like `http://192.168.10.3:8080/v1`.
    /// Defaults to `https://api.openai.com/v1` if `None`.
    pub base_url: Option<String>,
    /// API key. `None` for local endpoints that don't require authentication.
    pub api_key: Option<String>,
    pub model: String,
    pub max_tokens: u32,
    pub prompt: String,
}

/// The OpenAI processor: its settings and the client built from them.
pub struct OpenAiProcessor {
    config: OpenAiConfig,
    client: OpenAiClient,
}

impl OpenAiProcessor {
    pub closed spec fn config_view(&self) -> OpenAiConfig {
        self.config
    }

    pub closed spec fn client_view(&self) -> OpenAiClient {
        self.client
    }

    /// A processor for `config`, whose client uses the configured base URL (or the
    /// default) and key.
    pub fn new(config: OpenAiConfig) -> (p: Self)
        ensures
            p.config_view() == config,
            p.client_view().base_url_view() == trim_end_char(
                match config.base_url {
                    Some(u) => u@,
                    None => default_base_url(),
                },
                '/',
            ),
            p.client_view().api_key_view() == opt_view(config.api_key),
    {
        let base = match &config.base_url {
            Some(u) => Some(u.as_str()),
            None => None,
        };
        let key = match &config.api_key {
            Some(k) => Some(k.as_str()),
            None => None,
        };
        let client = OpenAiClient::new(base, key);
        OpenAiProcessor { config, client }
    }

    /// The client.
    pub fn client(&self) -> (c: &OpenAiClient)
        ensures
            *c == self.client_view(),
    {
        &self.client
    }
}

impl Processor for OpenAiProcessor {
    /// The request for `inputs`: the configured model and token limit, the prompt as
    /// the system message and every input, under a header naming its source, as the
    /// user message.
    fn request(&self, inputs: &[InputData]) -> (r: ChatRequest)
        ensures
            r.model@ == self.config_view().model@,
            r.max_tokens == self.config_view().max_tokens,
            messages_view(r.messages@) == seq![("system"@, self.config_view().prompt@), ("user"@, combined_inputs(inputs@))],
    {
        let combined = combine_inputs(inputs);
        self.client.request(self.config.model.as_str(), self.config.max_tokens, self.config.prompt.as_str(), combined.as_str())
    }
}

} // verus!
