//! The Fever RSS input: turns the recent articles of a Fever-compatible
//! aggregator into one text block.
use vstd::prelude::*;
use crate::briefing::{Input, InputData};
use crate::clock::clock_now;
use crate::fever::client::{all_wanted, api_key_for, cutoff_secs, FeverClient, FeverPager};
use crate::text::push_str;

pub mod client;

verus! {

/// Errors of the Fever input.
#[derive(Debug)]
pub enum Error {
    Client(client::Error),
    NoItems,
}

impl Error {
    /// The error's message.
    pub fn message(&self) -> (m: String)
        ensures
            m@ == match self {
                Error::Client(e) => "Fever client error: "@ + e.message_view(),
                Error::NoItems => "No items found in the configured time window"@,
            },
    {
        match self {
            Error::Client(e) => {
                let mut m = "Fever client error: ".to_owned();
                let inner = e.message();
                push_str(&mut m, inner.as_str());
                m
            },
            Error::NoItems => "No items found in the configured time window".to_owned(),
        }
    }
}

/// The settings of one Fever input, with the credentials already resolved.
#[derive(Debug, Clone)]
pub struct FeverConfig {
    pub name: String,
    pub url: String,
    pub username: String,
    pub password: String,
    pub hours: u64,
    /// If true, collected items are marked as read after fetching.
    pub mark_as_read: bool,
}

/// The oldest creation time still collected when looking `hours` back from `now_secs`
/// (0 when that reaches before the epoch).
pub open spec fn cutoff_for(now_secs: u64, hours: u64) -> u64 {
    if now_secs >= hours * 3600 { (now_secs - hours * 3600) as u64 } else { 0 }
}

/// A Fever input: its settings and the client built from them.
pub struct FeverInput {
    config: FeverConfig,
    client: FeverClient,
}

impl FeverInput {
    pub closed spec fn config_view(&self) -> FeverConfig {
        self.config
    }

    pub closed spec fn client_view(&self) -> FeverClient {
        self.client
    }

    /// An input for `config`, whose client talks to `config.url` with the API key
    /// of `config.username` and `config.password`.
    pub fn new(config: FeverConfig) -> (i: Self)
        ensures
            i.config_view() == config,
            i.client_view().url_view() == config.url@,
            i.client_view().api_key_view() == api_key_for(config.username@, config.password@),
    {
        let client = FeverClient::new(config.url.as_str(), config.username.as_str(), config.password.as_str());
        FeverInput { config, client }
    }

    /// The settings.
    pub fn config(&self) -> (c: &FeverConfig)
        ensures
            *c == self.config_view(),
    {
        &self.config
    }

    /// The client.
    pub fn client(&self) -> (c: &FeverClient)
        ensures
            *c == self.client_view(),
    {
        &self.client
    }

    /// The walk over all items, keeping those created in the last `hours` before
    /// `now_secs` that are among the `unread` ids: the input collects unread
    /// articles only, whether or not it marks them read afterwards.
    pub fn pager(&self, now_secs: u64, unread: Vec<u64>) -> (p: FeverPager)
        requires
            self.config_view().hours * 3600 <= u64::MAX,
        ensures
            p.since_id == 0,
            p.cutoff == cutoff_for(now_secs, self.config_view().hours),
            p.unread == Some(unread),
            p.items@.len() == 0,
            !p.finished,
            all_wanted(p.items@, p.cutoff, p.unread_view()),
    {
        FeverPager::new(cutoff_secs(now_secs, self.config.hours), Some(unread))
    }

    /// The walk for a collection starting now: `pager` at the system clock's present
    /// in whole seconds (0 when the clock reads before the Unix epoch). The cutoff
    /// depends on the clock; the rest is fixed, and only the `unread` ids are kept.
    pub fn start(&self, unread: Vec<u64>) -> (p: FeverPager)
        requires
            self.config_view().hours * 3600 <= u64::MAX,
        ensures
            exists|now_secs: u64| p.cutoff == #[trigger] cutoff_for(now_secs, self.config_view().hours),
            p.since_id == 0,
            p.unread == Some(unread),
            p.items@.len() == 0,
            !p.finished,
            all_wanted(p.items@, p.cutoff, p.unread_view()),
    {
        let now_secs = clock_now().0 as u64;
        let p = self.pager(now_secs, unread);
        assert(p.cutoff == cutoff_for(now_secs, self.config_view().hours));
        p
    }

    /// What the input hands on for the collected `text`, and the ids to mark as read
    /// afterwards: all of `ids` when marking is on, none otherwise.
    pub fn finish(&self, text: String, ids: Vec<u64>) -> (r: (InputData, Vec<u64>))
        ensures
            r.0.source@ == self.config_view().name@,
            r.0.content == text,
            r.1@ == if self.config_view().mark_as_read { ids@ } else { Seq::<u64>::empty() },
    {
        let data = InputData { source: self.config.name.clone(), content: text };
        if self.config.mark_as_read {
            (data, ids)
        } else {
            (data, Vec::new())
        }
    }
}

impl Input for FeverInput {
    fn name(&self) -> (n: &str)
        ensures
            n@ == self.config_view().name@,
    {
        self.config.name.as_str()
    }
}

} // verus!
