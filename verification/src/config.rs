//! The briefing's configuration: what the configuration file describes, and the
//! checks a configuration must pass before a run.
use vstd::prelude::*;
use crate::text::push_str;

verus! {

/// Why a configuration could not be loaded.
#[derive(Debug)]
pub enum Error {
    /// The file at `path` could not be read; `source` says why.
    ReadFile { path: String, source: String },
    /// The file is not a valid configuration; the text says why.
    Parse(String),
    /// The configuration breaks one of the rules of `Config::validate`.
    Validation(String),
}

impl Error {
    /// The text of the error's message.
    pub open spec fn message_view(&self) -> Seq<char> {
        match self {
            Error::ReadFile { path, source } => "Failed to read config file '"@ + path@ + "': "@ + source@,
            Error::Parse(e) => "Failed to parse config: "@ + e@,
            Error::Validation(e) => "Config validation error: "@ + e@,
        }
    }

    /// The error's message.
    pub fn message(&self) -> (m: String)
        ensures
            m@ == self.message_view(),
    {
        match self {
            Error::ReadFile { path, source } => {
                let mut m = "Failed to read config file '".to_owned();
                push_str(&mut m, path.as_str());
                push_str(&mut m, "': ");
                push_str(&mut m, source.as_str());
                m
            },
            Error::Parse(e) => {
                let mut m = "Failed to parse config: ".to_owned();
                push_str(&mut m, e.as_str());
                m
            },
            Error::Validation(e) => {
                let mut m = "Config validation error: ".to_owned();
                push_str(&mut m, e.as_str());
                m
            },
        }
    }
}

/// The outcome of reading and decoding a configuration file.
pub enum Loaded {
    /// The file could not be read; the text says why.
    ReadFailed(String),
    /// The file was read but does not decode as a configuration; the text says why.
    ParseFailed(String),
    /// The decoded configuration.
    Parsed(Config),
}

/// The whole configuration.
#[derive(Debug)]
pub struct Config {
    pub inputs: Vec<InputConfig>,
    pub processor: ProcessorConfig,
    pub outputs: Vec<OutputConfig>,
    pub schedule: Option<ScheduleConfig>,
    pub webserver: Option<WebServerConfig>,
}

/// `outputs` holds an output served by the web server (a web page or speech).
pub open spec fn needs_webserver(outputs: Seq<OutputConfig>) -> bool {
    exists|i: int| 0 <= i < outputs.len() && (#[trigger] outputs[i]).is_served()
}

/// The error `Config::validate` reports for `c`, if any: no inputs, no outputs, or an
/// output served by the web server without a `[webserver]` section, checked in that order.
pub open spec fn validation_error(c: Config) -> Option<Seq<char>> {
    if c.inputs@.len() == 0 {
        Some("At least one input must be configured"@)
    } else if c.outputs@.len() == 0 {
        Some("At least one output must be configured"@)
    } else if needs_webserver(c.outputs@) && c.webserver is None {
        Some("webpage and speech outputs require a [webserver] section"@)
    } else {
        None
    }
}

/// Validation does not look at where an output is listed: any web page or speech
/// output, at any position, without a `[webserver]` section makes the configuration
/// invalid; and two configurations whose outputs are the same up to order, with the
/// same inputs and web server, are valid or invalid together.
pub proof fn validation_ignores_output_order(c: Config, d: Config, i: int)
    ensures
        0 <= i < c.outputs@.len() && (c.outputs@[i] is Webpage || c.outputs@[i] is Speech) && c.webserver is None
            ==> validation_error(c) is Some,
        c.inputs@.len() == d.inputs@.len() && c.webserver is None == d.webserver is None
            && c.outputs@.to_multiset() == d.outputs@.to_multiset()
            ==> (validation_error(c) is None <==> validation_error(d) is None),
{
    if 0 <= i < c.outputs@.len() && (c.outputs@[i] is Webpage || c.outputs@[i] is Speech) && c.webserver is None {
        assert(c.outputs@[i].is_served());
    }
    if c.inputs@.len() == d.inputs@.len() && c.webserver is None == d.webserver is None
        && c.outputs@.to_multiset() == d.outputs@.to_multiset() {
        if needs_webserver(c.outputs@) {
            lemma_served_by_multiset(c.outputs@, d.outputs@);
        }
        if needs_webserver(d.outputs@) {
            lemma_served_by_multiset(d.outputs@, c.outputs@);
        }
        assert(c.outputs@.len() == d.outputs@.len()) by {
            c.outputs@.to_multiset_ensures();
            d.outputs@.to_multiset_ensures();
        }
    }
}

proof fn lemma_served_by_multiset(a: Seq<OutputConfig>, b: Seq<OutputConfig>)
    requires
        a.to_multiset() == b.to_multiset(),
        needs_webserver(a),
    ensures
        needs_webserver(b),
{
    let i = choose|i: int| 0 <= i < a.len() && (#[trigger] a[i]).is_served();
    a.to_multiset_ensures();
    b.to_multiset_ensures();
    assert(a.to_multiset().count(a[i]) > 0);
    assert(b.contains(a[i]));
    let j = choose|j: int| 0 <= j < b.len() && b[j] == a[i];
    assert(b[j].is_served());
}

impl Config {
    /// Loads the configuration from what reading and decoding `path` gave: a read
    /// failure and a decoding failure become errors naming them, a decoded
    /// configuration is returned when it validates.
    pub fn new(path: &str, loaded: Loaded) -> (r: Result<Config, Error>)
        ensures
            match loaded {
                Loaded::ReadFailed(e) => r matches Err(Error::ReadFile { path: p, source })
                    && p@ == path@ && source == e,
                Loaded::ParseFailed(e) => r matches Err(Error::Parse(m)) && m == e,
                Loaded::Parsed(c) => match validation_error(c) {
                    None => r == Ok::<Config, Error>(c),
                    Some(m) => r matches Err(Error::Validation(v)) && v@ == m,
                },
            },
    {
        match loaded {
            Loaded::ReadFailed(e) => Err(Error::ReadFile { path: path.to_owned(), source: e }),
            Loaded::ParseFailed(e) => Err(Error::Parse(e)),
            Loaded::Parsed(c) => {
                match c.validate() {
                    Ok(()) => Ok(c),
                    Err(e) => Err(e),
                }
            },
        }
    }

    /// Checks that at least one input and one output are configured, and that a
    /// `[webserver]` section is present when a web page or speech output is.
    pub fn validate(&self) -> (r: Result<(), Error>)
        ensures
            match validation_error(*self) {
                None => r is Ok,
                Some(m) => r matches Err(Error::Validation(v)) && v@ == m,
            },
            r is Ok <==> (self.inputs@.len() > 0 && self.outputs@.len() > 0 && (self.webserver is Some
                || forall|i: int| 0 <= i < self.outputs@.len() ==> !((#[trigger] self.outputs@[i]) is Webpage
                || self.outputs@[i] is Speech))),
            forall|i: int| 0 <= i < self.outputs@.len() && ((#[trigger] self.outputs@[i]) is Webpage
                || self.outputs@[i] is Speech) && self.webserver is None ==> r is Err,
    {
        if self.inputs.len() == 0 {
            return Err(Error::Validation("At least one input must be configured".to_owned()));
        }
        if self.outputs.len() == 0 {
            return Err(Error::Validation("At least one output must be configured".to_owned()));
        }
        let mut needs = false;
        let mut i: usize = 0;
        while i < self.outputs.len()
            invariant
                i <= self.outputs@.len(),
                needs == exists|k: int| 0 <= k < i && (#[trigger] self.outputs@[k]).is_served(),
            decreases self.outputs.len() - i,
        {
            let served = match &self.outputs[i] {
                OutputConfig::Webpage(_) | OutputConfig::Speech(_) => true,
                _ => false,
            };
            if served {
                needs = true;
            }
            i = i + 1;
        }
        if needs && self.webserver.is_none() {
            return Err(Error::Validation("webpage and speech outputs require a [webserver] section".to_owned()));
        }
        Ok(())
    }
}

/// When to run the pipeline.
#[derive(Debug)]
pub struct ScheduleConfig {
    /// Standard 5-field cron expression (min hour dom month dow).
    /// Examples: "0 8 * * *" (daily at 08:00), "0 6 * * 1-5" (weekdays at 06:00).
    pub cron: String,
}

/// The shared web server.
#[derive(Debug)]
pub struct WebServerConfig {
    pub host: String,
    pub port: u16,
    /// Name of the environment variable that holds the basic auth username.
    pub username_env: String,
    /// Name of the environment variable that holds the basic auth password.
    pub password_env: String,
}

/// The host the web server binds when none is given.
pub fn default_host() -> (h: String)
    ensures
        h@ == "0.0.0.0"@,
{
    "0.0.0.0".to_owned()
}

/// The number of hours an input looks back when none is given.
pub fn default_hours() -> (h: u64)
    ensures
        h == 24,
{
    24
}

/// One configured input.
#[derive(Debug)]
pub enum InputConfig {
    Fever(FeverInputConfig),
    HomeAssistantMetrics(HaMetricsInputConfig),
}

/// A Fever input.
#[derive(Debug)]
pub struct FeverInputConfig {
    pub name: String,
    pub url: String,
    /// Name of the environment variable that holds the Fever API username.
    pub username_env: String,
    /// Name of the environment variable that holds the Fever API password.
    pub password_env: String,
    pub hours: u64,
    /// If true, collected items are marked as read in the Fever API after fetching.
    pub mark_as_read: bool,
}

/// A Home Assistant metrics input.
#[derive(Debug)]
pub struct HaMetricsInputConfig {
    pub name: String,
    pub url: String,
    /// Name of the environment variable that holds the HA long-lived access token.
    pub token_env: String,
    pub hours: u64,
    pub entities: Vec<HaMetricsEntityConfig>,
}

/// One Home Assistant entity to report on.
#[derive(Debug)]
pub struct HaMetricsEntityConfig {
    pub id: String,
    pub label: Option<String>,
    /// `Cumulative` (the default) for counters whose change matters,
    /// `Gauge` for readings whose latest value matters.
    pub kind: EntityKind,
}

/// How an entity's readings are summarised.
#[derive(Debug, Clone, Copy, PartialEq, Eq, Structural)]
pub enum EntityKind {
    Cumulative,
    Gauge,
}

impl Default for EntityKind {
    fn default() -> (k: Self)
        ensures
            k == EntityKind::Cumulative,
    {
        EntityKind::Cumulative
    }
}

/// The processor that writes the briefing.
#[derive(Debug)]
pub enum ProcessorConfig {
    Anthropic(AnthropicProcessorConfig),
}

impl ProcessorConfig {
    /// The processor's type as the configuration file names it.
    pub fn kind_name(&self) -> (n: &str)
        ensures
            n@ == match self {
                ProcessorConfig::Anthropic(_) => "anthropic"@,
            },
    {
        match self {
            ProcessorConfig::Anthropic(_) => "anthropic",
        }
    }
}

/// The Anthropic processor.
#[derive(Debug)]
pub struct AnthropicProcessorConfig {
    /// Name of the environment variable that holds the Anthropic API key.
    pub api_key_env: String,
    pub model: String,
    pub max_tokens: u32,
    pub prompt: String,
}

/// One configured output.
#[derive(Debug)]
pub enum OutputConfig {
    HomeAssistant(HomeAssistantOutputConfig),
    Webpage(WebpageOutputConfig),
    Speech(SpeechOutputConfig),
}

impl OutputConfig {
    /// The output is served by the shared web server.
    pub open spec fn is_served(self) -> bool {
        self is Webpage || self is Speech
    }
}

/// A Home Assistant notification output.
#[derive(Debug)]
pub struct HomeAssistantOutputConfig {
    pub name: String,
    pub url: String,
    /// Name of the environment variable that holds the HA long-lived access token.
    pub token_env: String,
    pub title: String,
    pub notification_id: String,
}

/// A web page output.
#[derive(Debug)]
pub struct WebpageOutputConfig {
    pub name: String,
    /// Endpoint path served by the shared web server, e.g. `"/"`.
    pub endpoint: String,
    pub title: String,
}

/// A speech output.
#[derive(Debug)]
pub struct SpeechOutputConfig {
    pub name: String,
    /// Endpoint path served by the shared web server, e.g. `"/briefing.wav"`.
    pub endpoint: String,
    /// Path to the Piper `.onnx` voice model file.
    pub model: String,
    /// Speaker ID for multi-speaker models (omit for single-speaker models).
    pub speaker: Option<u32>,
}

} // verus!
