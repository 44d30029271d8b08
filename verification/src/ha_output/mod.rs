//! The Home Assistant output: posts the briefing as a persistent notification.
use vstd::prelude::*;
use crate::briefing::Output;
use crate::ha_output::client::{CreateNotificationRequest, HaClient};
use crate::text::{push_str, trim_end_char};

pub mod client;

verus! {

/// Errors of the Home Assistant output.
#[derive(Debug)]
pub enum Error {
    Client(client::Error),
}

impl Error {
    /// The error's message.
    pub fn message(&self) -> (m: String)
        ensures
            m@ == match self {
                Error::Client(e) => "Home Assistant client error: "@ + e.message_view(),
            },
    {
        match self {
            Error::Client(e) => {
                let mut m = "Home Assistant client error: ".to_owned();
                let inner = e.message();
                push_str(&mut m, inner.as_str());
                m
            },
        }
    }
}

/// The settings of a Home Assistant output, with the token already resolved.
#[derive(Debug, Clone)]
pub struct HomeAssistantConfig {
    pub name: String,
    pub url: String,
    pub token: String,
    pub title: String,
    pub notification_id: String,
}

/// A Home Assistant output: its settings and the client built from them.
pub struct HomeAssistantOutput {
    config: HomeAssistantConfig,
    client: HaClient,
}

impl HomeAssistantOutput {
    pub closed spec fn config_view(&self) -> HomeAssistantConfig {
        self.config
    }

    pub closed spec fn client_view(&self) -> HaClient {
        self.client
    }

    /// An output for `config`, whose client talks to `config.url` with `config.token`.
    pub fn new(config: HomeAssistantConfig) -> (o: Self)
        ensures
            o.config_view() == config,
            o.client_view().base_url_view() == trim_end_char(config.url@, '/'),
            o.client_view().token_view() == config.token@,
    {
        let client = HaClient::new(config.url.as_str(), config.token.as_str());
        HomeAssistantOutput { config, client }
    }

    /// The client.
    pub fn client(&self) -> (c: &HaClient)
        ensures
            *c == self.client_view(),
    {
        &self.client
    }

    /// The notification that carries `content`: the configured id and title, and
    /// `content` as the message.
    pub fn notification(&self, content: &str) -> (r: CreateNotificationRequest)
        ensures
            r.notification_id@ == self.config_view().notification_id@,
            r.title@ == self.config_view().title@,
            r.message@ == content@,
    {
        HaClient::notification(self.config.notification_id.as_str(), self.config.title.as_str(), content)
    }
}

impl Output for HomeAssistantOutput {
    fn name(&self) -> (n: &str)
        ensures
            n@ == self.config_view().name@,
    {
        self.config.name.as_str()
    }
}

} // verus!
