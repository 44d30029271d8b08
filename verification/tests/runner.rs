use daily_briefing::briefing::InputData;
use daily_briefing::config::{FeverInputConfig, SpeechOutputConfig};
use daily_briefing::runner::{
    after_outcome, after_run, collect_outcome, fever_settings, format_duration, missing_env_message, next_run,
    next_sleep, parse_cron,
    speech_settings, wait_until, write_outcome, NextStep,
};
use daily_briefing::speech::{piper_args, render_player, Error as SpeechError, SpeechConfig, SpeechOutput};
use daily_briefing::webserver::WebServer;

fn ok(name: &str, content: &str) -> (String, Result<InputData, String>) {
    (name.to_string(), Ok(InputData { source: name.to_string(), content: content.to_string() }))
}

fn failed(name: &str, e: &str) -> (String, Result<InputData, String>) {
    (name.to_string(), Err(e.to_string()))
}

#[test]
fn all_inputs_failing_fails_the_run() {
    let r = collect_outcome(vec![failed("a", "boom"), failed("b", "bang")]);
    assert_eq!(r.unwrap_err(), "All inputs failed: a: boom; b: bang");
    let (data, n) = collect_outcome(vec![failed("a", "boom"), ok("b", "x")]).unwrap();
    assert_eq!(n, 1);
    assert_eq!(data.len(), 1);
    assert_eq!(data[0].content, "x");
    let (data, n) = collect_outcome(vec![]).unwrap();
    assert!(data.is_empty() && n == 0);
}

#[test]
fn any_output_failing_fails_the_run() {
    assert!(write_outcome(vec![("a".into(), Ok(())), ("b".into(), Ok(()))]).is_ok());
    assert_eq!(
        write_outcome(vec![("a".into(), Err("x".into())), ("b".into(), Ok(())), ("c".into(), Err("y".into()))]).unwrap_err(),
        "Some outputs failed: a: x; c: y"
    );
}

#[test]
fn durations_are_formatted_by_size() {
    assert_eq!(format_duration(0), "0s");
    assert_eq!(format_duration(59), "59s");
    assert_eq!(format_duration(60), "1m 0s");
    assert_eq!(format_duration(3599), "59m 59s");
    assert_eq!(format_duration(3600), "1h 0m");
    assert_eq!(format_duration(90061), "25h 1m");
}

#[test]
fn cron_expressions_get_seconds_and_year() {
    assert!(parse_cron("0 8 * * *").is_ok());
    assert!(parse_cron("0 6 * * 1-5").is_ok());
    assert_eq!(parse_cron("0 8 * * *").unwrap().expression_text(), "0 0 8 * * * *");
    let e = parse_cron("not a cron").unwrap_err();
    assert!(e.starts_with("Invalid cron expression 'not a cron': "));
    assert!(e.len() > "Invalid cron expression 'not a cron': ".len());
}

#[test]
fn missing_environment_variables_are_named() {
    assert_eq!(
        missing_env_message("HA_TOKEN", "Home Assistant output", "ha"),
        "Home Assistant output 'ha': environment variable 'HA_TOKEN' is not set"
    );
}

#[test]
fn what_follows_a_run() {
    assert_eq!(after_run(true, true), NextStep::WaitForSchedule);
    assert_eq!(after_run(false, true), NextStep::ServeUntilShutdown);
    assert_eq!(after_run(false, false), NextStep::Stop);
}

#[test]
fn settings_follow_the_configuration() {
    let c = FeverInputConfig {
        name: "n".into(),
        url: "u".into(),
        username_env: "UE".into(),
        password_env: "PE".into(),
        hours: 3,
        mark_as_read: true,
    };
    let s = fever_settings(&c, "user".into(), "pw".into());
    assert_eq!(s.username, "user");
    assert_eq!(s.hours, 3);
    assert!(s.mark_as_read);
    let sp = speech_settings(&SpeechOutputConfig { name: "s".into(), endpoint: "/e".into(), model: "m.onnx".into(), speaker: Some(3) });
    assert_eq!(sp.model_path, "m.onnx");
    assert_eq!(sp.speaker, Some(3));
}

#[test]
fn speech_registers_audio_and_player() {
    assert_eq!(piper_args("m.onnx", None), vec!["--model", "m.onnx", "--output_file", "/dev/stdout"]);
    assert_eq!(piper_args("m.onnx", Some(12)), vec!["--model", "m.onnx", "--output_file", "/dev/stdout", "--speaker", "12"]);
    let out = SpeechOutput::new(SpeechConfig { name: "s".into(), endpoint: "/speech/".into(), model_path: "m".into(), speaker: None });
    let mut server = WebServer::empty();
    out.write(&mut server, vec![1, 2, 3]);
    let audio = server.get("/speech/audio.wav").unwrap();
    assert_eq!(audio.content_type, "audio/wav");
    assert_eq!(audio.body, vec![1, 2, 3]);
    let page = String::from_utf8(server.get("/speech/").unwrap().body).unwrap();
    assert!(page.contains("src=\"/speech/audio.wav?t="));
    assert!(!page.contains("?t=0\""));
    assert!(render_player("/a.wav", 5).ends_with("<audio controls autoplay src=\"/a.wav?t=5\"></audio></body>\n</html>"));
    assert_eq!(SpeechError::Tts("x".into()).message(), "TTS synthesis failed: x");
}

#[test]
fn wait_until_counts_down_to_the_whole_second() {
    assert_eq!(wait_until(100, 40, 0), (60, 0));
    assert_eq!(wait_until(100, 40, 250_000_000), (59, 750_000_000));
    assert_eq!(wait_until(100, 100, 0), (0, 0));
    assert_eq!(wait_until(100, 100, 1), (0, 0));
    assert_eq!(wait_until(100, 101, 0), (0, 0));
}

#[test]
fn next_sleep_waits_at_most_until_the_next_minute() {
    let every_minute = parse_cron("* * * * *").unwrap();
    let n = next_sleep(&every_minute).unwrap();
    assert!(n.wait_secs <= 60);
    assert!(n.wait_nanos < 1_000_000_000);
    assert_eq!(n.at_secs % 60, 0);
    let never = parse_cron("0 0 30 2 *").unwrap();
    assert_eq!(next_sleep(&never).unwrap_err(), "Cron schedule produced no future times");
}

#[test]
fn next_run_maps_the_next_time_to_a_wait() {
    assert_eq!(next_run(None, 100, 0).unwrap_err(), "Cron schedule produced no future times");
    let n = next_run(Some(160), 100, 250_000_000).unwrap();
    assert_eq!((n.at_secs, n.wait_secs, n.wait_nanos), (160, 59, 750_000_000));
    let late = next_run(Some(90), 100, 0).unwrap();
    assert_eq!((late.at_secs, late.wait_secs, late.wait_nanos), (90, 0, 0));
}

#[test]
fn a_failed_run_ends_the_loop_with_its_error() {
    assert_eq!(after_outcome(Err("boom".into()), true, true).unwrap_err(), "boom");
    assert_eq!(after_outcome(Ok(()), true, false).unwrap(), NextStep::WaitForSchedule);
    assert_eq!(after_outcome(Ok(()), false, true).unwrap(), NextStep::ServeUntilShutdown);
    assert_eq!(after_outcome(Ok(()), false, false).unwrap(), NextStep::Stop);
}
