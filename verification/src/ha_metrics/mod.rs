//! The Home Assistant metrics input: compares two consecutive windows of sensor history.
use vstd::prelude::*;
use crate::briefing::{Input, InputData};
use crate::ha_metrics::client::HaMetricsClient;
use crate::clock::{clock_now, representable};
use crate::text::{chars_of, push_str, trim, trim_chars, trim_end_char};

pub mod client;

verus! {

/// Errors of the metrics input.
#[derive(Debug)]
pub enum Error {
    Client(client::Error),
    NoData,
}

impl Error {
    /// The error's message.
    pub fn message(&self) -> (m: String)
        ensures
            m@ == match self {
                Error::Client(e) => "Home Assistant metrics client error: "@ + e.message_view(),
                Error::NoData => "No metrics data returned for any entity in either period"@,
            },
    {
        match self {
            Error::Client(e) => {
                let mut m = "Home Assistant metrics client error: ".to_owned();
                let inner = e.message();
                push_str(&mut m, inner.as_str());
                m
            },
            Error::NoData => "No metrics data returned for any entity in either period".to_owned(),
        }
    }
}

/// How an entity's readings are summarised: the change over each window for
/// counters, the latest reading for gauges.
#[derive(Debug, Clone, Copy, PartialEq, Eq, Structural)]
pub enum EntityKind {
    Cumulative,
    Gauge,
}

impl Default for EntityKind {
    fn default() -> (k: Self)
        ensures
            k == EntityKind::Cumulative,
    {
        EntityKind::Cumulative
    }
}

/// One entity to report on.
#[derive(Debug, Clone)]
pub struct EntityConfig {
    pub id: String,
    pub label: Option<String>,
    pub kind: EntityKind,
}

impl EntityConfig {
    /// The name the report uses for the entity: its label, or its id.
    pub open spec fn label_view(&self) -> Seq<char> {
        match self.label {
            Some(x) => x@,
            None => self.id@,
        }
    }

    /// The name the report uses for the entity: its label, or its id.
    pub fn display_label(&self) -> (l: &str)
        ensures
            l@ == self.label_view(),
    {
        match &self.label {
            Some(x) => x.as_str(),
            None => self.id.as_str(),
        }
    }
}

/// The settings of a metrics input, with the token already resolved.
#[derive(Debug, Clone)]
pub struct HaMetricsConfig {
    pub name: String,
    pub url: String,
    pub token: String,
    /// Length of each comparison period in hours.
    pub hours: u64,
    pub entities: Vec<EntityConfig>,
}

/// A metrics input: its settings and the client built from them.
pub struct HaMetricsInput {
    config: HaMetricsConfig,
    client: HaMetricsClient,
}

/// The instant a collection starts and the starts of its two windows, in seconds
/// after the Unix epoch.
#[derive(Debug, Clone, Copy, PartialEq, Eq, Structural)]
pub struct Windows {
    pub now_secs: i64,
    pub now_nanos: u32,
    /// The start of the current window, which ends now.
    pub current_start: i64,
    /// The start of the previous window, which ends where the current one starts.
    pub previous_start: i64,
}

/// The starts of the current and the previous window ending at `now_secs`, each
/// `hours` long.
pub open spec fn window_starts(now_secs: i64, hours: u64) -> (int, int) {
    (now_secs - hours * 3600, now_secs - hours * 7200)
}

/// The two windows are consecutive and equally long: the current one ends now and
/// the previous one ends where the current one starts, each `hours` long, so the
/// previous one starts twice `hours` before now.
pub proof fn windows_are_consecutive_and_equal(now_secs: i64, hours: u64)
    ensures
        now_secs - window_starts(now_secs, hours).0 == hours * 3600,
        window_starts(now_secs, hours).0 - window_starts(now_secs, hours).1 == hours * 3600,
        now_secs - window_starts(now_secs, hours).1 == 2 * hours * 3600,
{
}

impl HaMetricsInput {
    pub closed spec fn config_view(&self) -> HaMetricsConfig {
        self.config
    }

    pub closed spec fn client_view(&self) -> HaMetricsClient {
        self.client
    }

    /// An input for `config`, whose client talks to `config.url` with `config.token`.
    pub fn new(config: HaMetricsConfig) -> (i: Self)
        ensures
            i.config_view() == config,
            i.client_view().base_url_view() == trim_end_char(config.url@, '/'),
            i.client_view().token_view() == config.token@,
    {
        let client = HaMetricsClient::new(config.url.as_str(), config.token.as_str());
        HaMetricsInput { config, client }
    }

    /// The settings.
    pub fn config(&self) -> (c: &HaMetricsConfig)
        ensures
            *c == self.config_view(),
    {
        &self.config
    }

    /// The client.
    pub fn client(&self) -> (c: &HaMetricsClient)
        ensures
            *c == self.client_view(),
    {
        &self.client
    }

    /// The starts of the current and the previous window ending at `now_secs`.
    pub fn windows(&self, now_secs: i64) -> (r: (i64, i64))
        requires
            self.config_view().hours * 7200 <= i64::MAX / 1000,
            representable(now_secs - self.config_view().hours * 7200),
            representable(now_secs as int),
        ensures
            (r.0 as int, r.1 as int) == window_starts(now_secs, self.config_view().hours),
            now_secs - r.0 == self.config_view().hours * 3600,
            r.0 - r.1 == self.config_view().hours * 3600,
    {
        let h = self.config.hours as i64;
        (now_secs - h * 3600, now_secs - h * 7200)
    }

    /// Reads the clock and lays out the two windows ending now. There are none
    /// (`None`) only when the previous window would start before the earliest time
    /// `chrono` can represent, which takes windows over a billion hours long.
    pub fn windows_now(&self) -> (r: Option<Windows>)
        ensures
            r matches Some(w) ==> {
                &&& w.now_nanos < 1_000_000_000
                &&& w.now_secs >= 0
                &&& representable(w.now_secs as int)
                &&& representable(w.previous_start as int)
                &&& (w.current_start as int, w.previous_start as int) == window_starts(w.now_secs, self.config_view().hours)
                &&& w.now_secs - w.current_start == self.config_view().hours * 3600
                &&& w.current_start - w.previous_start == self.config_view().hours * 3600
            },
            r is None ==> exists|now_secs: i64| #![trigger representable(now_secs as int)]
                0 <= now_secs && representable(now_secs as int)
                && !representable(now_secs - self.config_view().hours * 7200),
            r is None ==> self.config_view().hours * 7200 > 8_334_601_228_800,
    {
        let (now_secs, now_nanos) = clock_now();
        let h = self.config.hours;
        if h > 2_400_000_000 {
            assert(!representable(now_secs - h * 7200));
            return None;
        }
        let span = (h * 7200) as i64;
        if now_secs - span < -8_334_601_228_800 {
            assert(!representable(now_secs - h * 7200));
            return None;
        }
        let (current_start, previous_start) = self.windows(now_secs);
        Some(Windows { now_secs, now_nanos, current_start, previous_start })
    }

    /// What the input hands on for the report `text`; a report with nothing but white
    /// space is `NoData`.
    pub fn finish(&self, text: String) -> (r: Result<InputData, Error>)
        ensures
            trim(text@).len() == 0 ==> r matches Err(Error::NoData),
            trim(text@).len() != 0 ==> (r matches Ok(d) && d.source@ == self.config_view().name@ && d.content == text),
    {
        let cs = chars_of(text.as_str());
        let t = trim_chars(&cs);
        if t.len() == 0 {
            return Err(Error::NoData);
        }
        Ok(InputData { source: self.config.name.clone(), content: text })
    }
}

impl Input for HaMetricsInput {
    fn name(&self) -> (n: &str)
        ensures
            n@ == self.config_view().name@,
    {
        self.config.name.as_str()
    }
}

} // verus!
