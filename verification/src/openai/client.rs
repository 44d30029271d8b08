//! The OpenAI-compatible chat completions client: the request it sends and how it
//! reads the reply.
use vstd::prelude::*;
use crate::briefing::{messages_view, ChatRequest, Message};
use crate::text::{push_str, trim_end_char, trim_trailing_slashes};

verus! {

/// The base URL used when none is configured.
pub open spec fn default_base_url() -> Seq<char> {
    "https://api.openai.com/v1"@
}

/// Errors of the OpenAI client.
#[derive(Debug)]
pub enum Error {
    /// The HTTP exchange failed; the text says how.
    Http(String),
    Api(String),
    EmptyResponse,
}

impl Error {
    /// The text of the error's message.
    pub open spec fn message_view(&self) -> Seq<char> {
        match self {
            Error::Http(e) => "HTTP request failed: "@ + e@,
            Error::Api(e) => "OpenAI API error: "@ + e@,
            Error::EmptyResponse => "Empty response from OpenAI API"@,
        }
    }

    /// The error's message.
    pub fn message(&self) -> (m: String)
        ensures
            m@ == self.message_view(),
    {
        match self {
            Error::Http(e) => {
                let mut m = "HTTP request failed: ".to_owned();
                push_str(&mut m, e.as_str());
                m
            },
            Error::Api(e) => {
                let mut m = "OpenAI API error: ".to_owned();
                push_str(&mut m, e.as_str());
                m
            },
            Error::EmptyResponse => "Empty response from OpenAI API".to_owned(),
        }
    }
}

/// The message of one choice.
pub struct ChoiceMessage {
    pub content: Option<String>,
}

/// One choice of a reply.
pub struct Choice {
    pub message: ChoiceMessage,
}

/// The error object of a reply.
pub struct ApiError {
    pub message: String,
}

/// The fields of a reply that the client reads.
pub struct ResponseBody {
    pub choices: Vec<Choice>,
    pub error: Option<ApiError>,
}

/// A client for an OpenAI-compatible endpoint.
pub struct OpenAiClient {
    base_url: String,
    api_key: Option<String>,
}

/// The views of an optional string.
pub open spec fn opt_view(s: Option<String>) -> Option<Seq<char>> {
    match s {
        Some(x) => Some(x@),
        None => None,
    }
}

impl OpenAiClient {
    pub closed spec fn base_url_view(&self) -> Seq<char> {
        self.base_url@
    }

    pub closed spec fn api_key_view(&self) -> Option<Seq<char>> {
        opt_view(self.api_key)
    }

    /// A client for `base_url` (the default endpoint when `None`), without trailing
    /// slashes, authenticating with `api_key` when one is given.
    pub fn new(base_url: Option<&str>, api_key: Option<&str>) -> (c: Self)
        ensures
            c.base_url_view() == trim_end_char(
                match base_url {
                    Some(u) => u@,
                    None => default_base_url(),
                },
                '/',
            ),
            c.api_key_view() == match api_key {
                Some(k) => Some(k@),
                None => None::<Seq<char>>,
            },
    {
        let url = match base_url {
            Some(u) => trim_trailing_slashes(u),
            None => trim_trailing_slashes("https://api.openai.com/v1"),
        };
        let key = match api_key {
            Some(k) => Some(k.to_owned()),
            None => None,
        };
        OpenAiClient { base_url: url, api_key: key }
    }

    /// The base URL.
    pub fn base_url(&self) -> (u: &str)
        ensures
            u@ == self.base_url_view(),
    {
        self.base_url.as_str()
    }

    /// The bearer token sent, if any.
    pub fn api_key(&self) -> (k: Option<&str>)
        ensures
            match k {
                Some(s) => self.api_key_view() == Some(s@),
                None => self.api_key_view() is None,
            },
    {
        match &self.api_key {
            Some(s) => Some(s.as_str()),
            None => None,
        }
    }

    /// The URL requests are posted to.
    pub fn completions_url(&self) -> (u: String)
        ensures
            u@ == self.base_url_view() + "/chat/completions"@,
    {
        let mut u = self.base_url.clone();
        push_str(&mut u, "/chat/completions");
        u
    }

    /// The request for `model`: a system message with the prompt, then a user
    /// message with the content.
    pub fn request(&self, model: &str, max_tokens: u32, system_prompt: &str, content: &str) -> (r: ChatRequest)
        ensures
            r.model@ == model@,
            r.max_tokens == max_tokens,
            messages_view(r.messages@) == seq![("system"@, system_prompt@), ("user"@, content@)],
    {
        let mut messages: Vec<Message> = Vec::new();
        messages.push(Message { role: "system".to_owned(), content: system_prompt.to_owned() });
        messages.push(Message { role: "user".to_owned(), content: content.to_owned() });
        assert(messages_view(messages@) =~= seq![("system"@, system_prompt@), ("user"@, content@)]);
        ChatRequest { model: model.to_owned(), max_tokens, messages }
    }

    /// Reads a decoded reply received with the HTTP status `status`: an error object
    /// becomes `Api` naming the status and its message, otherwise the content of the
    /// first choice is the result, or `EmptyResponse` when there is none.
    pub fn reply_text(status: &str, body: ResponseBody) -> (r: Result<String, Error>)
        ensures
            match body.error {
                Some(e) => r matches Err(Error::Api(m)) && m@ == "HTTP "@ + status@ + ": "@ + e.message@,
                None => if body.choices@.len() > 0 && body.choices@[0].message.content is Some {
                    r matches Ok(s) && s@ == body.choices@[0].message.content->0@
                } else {
                    r matches Err(Error::EmptyResponse)
                },
            },
    {
        if let Some(e) = body.error {
            let mut m = "HTTP ".to_owned();
            push_str(&mut m, status);
            push_str(&mut m, ": ");
            push_str(&mut m, e.message.as_str());
            return Err(Error::Api(m));
        }
        if body.choices.len() == 0 {
            return Err(Error::EmptyResponse);
        }
        match &body.choices[0].message.content {
            Some(t) => Ok(t.clone()),
            None => Err(Error::EmptyResponse),
        }
    }
}

} // verus!
