//! The speech output: the Piper invocation that voices the briefing, and the audio
//! file and player page it registers with the shared web server.
use vstd::prelude::*;
use crate::briefing::Output;
use crate::clock::clock_now;
use crate::text::{decimal, decimal_string, push_decimal, push_str, trim_end_char, trim_trailing_slashes};
use crate::webserver::{route_path, served, ContentEntry, ContentView, WebServer};

verus! {

/// Errors of the speech output.
#[derive(Debug)]
pub enum Error {
    Tts(String),
}

impl Error {
    /// The error's message.
    pub fn message(&self) -> (m: String)
        ensures
            m@ == match self {
                Error::Tts(e) => "TTS synthesis failed: "@ + e@,
            },
    {
        match self {
            Error::Tts(e) => {
                let mut m = "TTS synthesis failed: ".to_owned();
                push_str(&mut m, e.as_str());
                m
            },
        }
    }
}

/// The settings of a speech output.
pub struct SpeechConfig {
    pub name: String,
    /// Endpoint path this output is served at, e.g. `"/briefing.wav"`.
    pub endpoint: String,
    /// Path to the Piper `.onnx` voice model file.
    pub model_path: String,
    /// Speaker ID for multi-speaker models. `None` for single-speaker models.
    pub speaker: Option<u32>,
}

/// A speech output.
pub struct SpeechOutput {
    name: String,
    endpoint: String,
    model_path: String,
    speaker: Option<u32>,
}

/// The arguments Piper is run with: the model, output to standard output, and the
/// speaker when one is set.
pub open spec fn piper_args_view(model_path: Seq<char>, speaker: Option<u32>) -> Seq<Seq<char>> {
    let base = seq!["--model"@, model_path, "--output_file"@, "/dev/stdout"@];
    match speaker {
        Some(id) => base + seq!["--speaker"@, decimal(id as nat)],
        None => base,
    }
}

/// The arguments for running Piper with `model_path` and `speaker`.
pub fn piper_args(model_path: &str, speaker: Option<u32>) -> (args: Vec<String>)
    ensures
        args@.map_values(|a: String| a@) == piper_args_view(model_path@, speaker),
{
    let mut args: Vec<String> = Vec::new();
    args.push("--model".to_owned());
    args.push(model_path.to_owned());
    args.push("--output_file".to_owned());
    args.push("/dev/stdout".to_owned());
    match speaker {
        Some(id) => {
            args.push("--speaker".to_owned());
            args.push(decimal_string(id as u64));
        },
        None => {},
    }
    assert(args@.map_values(|a: String| a@) =~= piper_args_view(model_path@, speaker));
    args
}

/// Where the audio file of `endpoint` is served: the endpoint without trailing
/// slashes, then `/audio.wav`.
pub open spec fn audio_path(endpoint: Seq<char>) -> Seq<char> {
    trim_end_char(endpoint, '/') + "/audio.wav"@
}

/// The player page for the audio at `audio_path`, with `ts` as a cache-busting query.
pub open spec fn player_page(audio_path: Seq<char>, ts: u64) -> Seq<char> {
    "<!DOCTYPE html>\n<html lang=\"en\">\n<head><meta charset=\"utf-8\"><title>Daily Briefing</title>\n<style>body{font-family:sans-serif;display:flex;justify-content:center;align-items:center;height:100vh;margin:0;background:#1a1a1a;color:#eee}audio{width:400px}</style>\n</head>\n<body><audio controls autoplay src=\""@
        + audio_path + "?t="@ + decimal(ts as nat) + "\"></audio></body>\n</html>"@
}

/// Builds the player page.
pub fn render_player(audio_path: &str, ts: u64) -> (html: String)
    ensures
        html@ == player_page(audio_path@, ts),
{
    let mut html = "<!DOCTYPE html>\n<html lang=\"en\">\n<head><meta charset=\"utf-8\"><title>Daily Briefing</title>\n<style>body{font-family:sans-serif;display:flex;justify-content:center;align-items:center;height:100vh;margin:0;background:#1a1a1a;color:#eee}audio{width:400px}</style>\n</head>\n<body><audio controls autoplay src=\"".to_owned();
    push_str(&mut html, audio_path);
    push_str(&mut html, "?t=");
    push_decimal(&mut html, ts);
    push_str(&mut html, "\"></audio></body>\n</html>");
    html
}

impl SpeechOutput {
    pub closed spec fn endpoint_view(&self) -> Seq<char> {
        self.endpoint@
    }

    pub closed spec fn name_view(&self) -> Seq<char> {
        self.name@
    }

    pub closed spec fn model_path_view(&self) -> Seq<char> {
        self.model_path@
    }

    pub closed spec fn speaker_view(&self) -> Option<u32> {
        self.speaker
    }

    /// An output with the settings of `config`.
    pub fn new(config: SpeechConfig) -> (o: Self)
        ensures
            o.name_view() == config.name@,
            o.endpoint_view() == config.endpoint@,
            o.model_path_view() == config.model_path@,
            o.speaker_view() == config.speaker,
    {
        SpeechOutput { name: config.name, endpoint: config.endpoint, model_path: config.model_path, speaker: config.speaker }
    }

    /// The arguments Piper is run with for this output.
    pub fn synthesis_args(&self) -> (args: Vec<String>)
        ensures
            args@.map_values(|a: String| a@) == piper_args_view(self.model_path_view(), self.speaker_view()),
    {
        piper_args(self.model_path.as_str(), self.speaker)
    }

    /// Registers the synthesised `wav` at the output's audio path and, at its endpoint,
    /// the player page for it, stamped with the current time in seconds after the
    /// Unix epoch (0 when the clock reads before the epoch). The rest of the server's
    /// content stays as it was.
    pub fn write(&self, server: &mut WebServer, wav: Vec<u8>)
        ensures
            exists|ts: u64| final(server)@ == old(server)@
                .insert(route_path(audio_path(self.endpoint_view())), ContentView { content_type: "audio/wav"@, body: wav@ })
                .insert(route_path(self.endpoint_view()), ContentView {
                    content_type: "text/html; charset=utf-8"@,
                    body: vstd::utf8::encode_utf8(#[trigger] player_page(audio_path(self.endpoint_view()), ts)),
                }),
    {
        let mut path = trim_trailing_slashes(self.endpoint.as_str());
        push_str(&mut path, "/audio.wav");
        server.update(path.as_str(), ContentEntry { content_type: "audio/wav".to_owned(), body: wav });
        let ts = clock_now().0 as u64;
        let html = render_player(path.as_str(), ts);
        let body = vstd::slice::slice_to_vec(html.as_str().as_bytes());
        server.update(self.endpoint.as_str(), ContentEntry { content_type: "text/html; charset=utf-8".to_owned(), body });
        assert(player_page(audio_path(self.endpoint_view()), ts) == html@);
    }
}

impl Output for SpeechOutput {
    fn name(&self) -> (n: &str)
        ensures
            n@ == self.name_view(),
    {
        self.name.as_str()
    }
}


/// The audio file's path and the player page's path always differ: the audio path
/// ends in `audio.wav` and is longer than the endpoint whenever the endpoint ends in
/// the same character.
proof fn lemma_audio_path_differs(endpoint: Seq<char>)
    ensures
        route_path(audio_path(endpoint)) != route_path(endpoint),
{
    let a = audio_path(endpoint);
    let t = trim_end_char(endpoint, '/');
    assert(a == t + "/audio.wav"@);
    reveal_strlit("/audio.wav");
    assert(a.last() == 'v');
    assert(route_path(a).last() == 'v') by {
        if !(a.len() > 0 && a[0] == '/') {
            assert((seq!['/'] + a).last() == a.last());
        }
    }
    if endpoint.len() == 0 {
        assert(route_path(endpoint) =~= seq!['/']);
    } else if endpoint.last() != 'v' {
        assert(route_path(endpoint).last() == endpoint.last()) by {
            if !(endpoint[0] == '/') {
                assert((seq!['/'] + endpoint).last() == endpoint.last());
            }
        }
    } else {
        assert(t == endpoint);
        assert(route_path(a).len() >= a.len());
        assert(route_path(endpoint).len() <= endpoint.len() + 1);
    }
}

/// After a write the audio path serves the WAV and the endpoint serves the player
/// page, neither overwriting the other, and every other path serves what it served
/// before.
pub proof fn write_serves_audio_and_player(
    before: Map<Seq<char>, ContentView>,
    endpoint: Seq<char>,
    audio: ContentView,
    page: ContentView,
    path: Seq<char>,
)
    ensures
        ({
            let after = before.insert(route_path(audio_path(endpoint)), audio).insert(route_path(endpoint), page);
            &&& served(after, route_path(audio_path(endpoint))) == Some(audio)
            &&& served(after, route_path(endpoint)) == Some(page)
            &&& (path != route_path(audio_path(endpoint)) && path != route_path(endpoint)) ==> served(after, path)
                == served(before, path)
        }),
{
    lemma_audio_path_differs(endpoint);
}

} // verus!
