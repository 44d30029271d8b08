use daily_briefing::config::{
    default_host, default_hours, AnthropicProcessorConfig, Config, EntityKind, Error, FeverInputConfig,
    HomeAssistantOutputConfig, InputConfig, Loaded, OutputConfig, ProcessorConfig, SpeechOutputConfig,
    WebServerConfig, WebpageOutputConfig,
};

fn fever(name: &str, url: &str, user_env: &str, pass_env: &str, hours: u64) -> InputConfig {
    InputConfig::Fever(FeverInputConfig {
        name: name.to_string(),
        url: url.to_string(),
        username_env: user_env.to_string(),
        password_env: pass_env.to_string(),
        hours,
        mark_as_read: false,
    })
}

fn anthropic(key_env: &str, max_tokens: u32, prompt: &str) -> ProcessorConfig {
    ProcessorConfig::Anthropic(AnthropicProcessorConfig {
        api_key_env: key_env.to_string(),
        model: "opus-4-6".to_string(),
        max_tokens,
        prompt: prompt.to_string(),
    })
}

fn ha_output(name: &str, url: &str, token_env: &str, notification_id: &str) -> OutputConfig {
    OutputConfig::HomeAssistant(HomeAssistantOutputConfig {
        name: name.to_string(),
        url: url.to_string(),
        token_env: token_env.to_string(),
        title: "Daily Summary".to_string(),
        notification_id: notification_id.to_string(),
    })
}

fn webpage_output() -> OutputConfig {
    OutputConfig::Webpage(WebpageOutputConfig {
        name: "page".to_string(),
        endpoint: "/".to_string(),
        title: "Daily Briefing".to_string(),
    })
}

fn speech_output() -> OutputConfig {
    OutputConfig::Speech(SpeechOutputConfig {
        name: "audio".to_string(),
        endpoint: "/briefing.wav".to_string(),
        model: String::new(),
        speaker: None,
    })
}

fn web_server() -> WebServerConfig {
    WebServerConfig {
        host: default_host(),
        port: 8080,
        username_env: "WS_USER".to_string(),
        password_env: "WS_PASS".to_string(),
    }
}

fn valid_config() -> Config {
    Config {
        inputs: vec![fever("rss_feed", "http://yarr.local:7070/fever/", "user@example.com", "secret", 12)],
        processor: anthropic("test_key", 512, "Summarize."),
        outputs: vec![ha_output("ha_summary", "http://homeassistant.local:8123", "test_token", "daily_briefing")],
        schedule: None,
        webserver: None,
    }
}

#[test]
fn test_default_hours() {
    assert_eq!(default_hours(), 24);
}

#[test]
fn test_validate_no_inputs() {
    let config = Config {
        inputs: vec![],
        processor: anthropic("key", 1024, "Summarize."),
        outputs: vec![ha_output("ha", "http://ha.local:8123", "token", "daily_briefing")],
        schedule: None,
        webserver: None,
    };
    assert!(config.validate().is_err());
}

#[test]
fn test_validate_no_outputs() {
    let config = Config {
        inputs: vec![fever("rss_feed", "http://yarr.local:7070/fever/", "user@example.com", "secret", 24)],
        processor: anthropic("key", 1024, "Summarize."),
        outputs: vec![],
        schedule: None,
        webserver: None,
    };
    assert!(config.validate().is_err());
}

#[test]
fn test_parse_webpage_and_speech_with_webserver() {
    let config = Config {
        inputs: vec![fever("rss_feed", "http://yarr.local/fever/", "u", "p", 24)],
        processor: anthropic("key", 512, "Brief."),
        outputs: vec![webpage_output(), speech_output()],
        schedule: None,
        webserver: Some(web_server()),
    };
    assert!(config.validate().is_ok());
    let ws = config.webserver.as_ref().unwrap();
    assert_eq!(ws.port, 8080);
    match &config.outputs[0] {
        OutputConfig::Webpage(c) => {
            assert_eq!(c.endpoint, "/");
            assert_eq!(c.title, "Daily Briefing");
        }
        _ => panic!("expected Webpage output"),
    }
    match &config.outputs[1] {
        OutputConfig::Speech(c) => assert_eq!(c.endpoint, "/briefing.wav"),
        _ => panic!("expected Speech output"),
    }
}

#[test]
fn test_validate_webpage_without_webserver_fails() {
    let config = Config {
        inputs: vec![fever("rss_feed", "http://yarr.local/fever/", "u", "p", 24)],
        processor: anthropic("key", 512, "Brief."),
        outputs: vec![webpage_output()],
        schedule: None,
        webserver: None,
    };
    assert!(config.validate().is_err());
}

#[test]
fn test_config_loads_from_file() {
    let config = Config::new("config.toml", Loaded::Parsed(valid_config())).expect("config should load");
    assert_eq!(config.inputs.len(), 1);
    assert_eq!(config.outputs.len(), 1);
}

#[test]
fn test_config_missing_file_returns_error() {
    let path = "/nonexistent/path/config.toml";
    let loaded = Loaded::ReadFailed("No such file or directory (os error 2)".to_string());
    let result = Config::new(path, loaded);
    assert!(result.is_err());
    let msg = result.unwrap_err().message();
    assert!(msg.contains("Failed to read config file"));
}

#[test]
fn test_config_invalid_toml_returns_error() {
    let result = Config::new("config.toml", Loaded::ParseFailed("expected `.`, `=`".to_string()));
    assert!(result.is_err());
}

#[test]
fn test_config_multiple_inputs_and_outputs() {
    let config = Config {
        inputs: vec![
            fever("feed1", "http://yarr.local/fever/", "u1", "p1", 24),
            fever("feed2", "http://yarr2.local/fever/", "u2", "p2", 6),
        ],
        processor: anthropic("key", 256, "Brief."),
        outputs: vec![
            ha_output("out1", "http://ha1.local:8123", "tok1", "daily_briefing_1"),
            ha_output("out2", "http://ha2.local:8123", "tok2", "daily_briefing_2"),
        ],
        schedule: None,
        webserver: None,
    };
    let config = Config::new("config.toml", Loaded::Parsed(config)).expect("config should load");
    assert_eq!(config.inputs.len(), 2);
    assert_eq!(config.outputs.len(), 2);
}

#[test]
fn test_config_empty_inputs_fails_validation() {
    let config = Config {
        inputs: vec![],
        processor: anthropic("key", 256, "Brief."),
        outputs: vec![ha_output("out1", "http://ha1.local:8123", "tok1", "daily_briefing")],
        schedule: None,
        webserver: None,
    };
    let result = Config::new("config.toml", Loaded::Parsed(config));
    assert!(result.is_err());
    let msg = result.unwrap_err().message();
    assert!(msg.contains("input"), "error should mention inputs, got: {}", msg);
}

#[test]
fn validation_messages_are_exact() {
    let mut config = valid_config();
    config.outputs = vec![];
    assert_eq!(
        config.validate().unwrap_err().message(),
        "Config validation error: At least one output must be configured"
    );
    let mut config = valid_config();
    config.outputs = vec![speech_output()];
    match config.validate() {
        Err(Error::Validation(m)) => assert_eq!(m, "webpage and speech outputs require a [webserver] section"),
        _ => panic!("expected a validation error"),
    }
    config.webserver = Some(web_server());
    assert!(config.validate().is_ok());
}

#[test]
fn load_errors_name_their_cause() {
    let e = Config::new("/etc/x.toml", Loaded::ReadFailed("denied".to_string())).unwrap_err();
    assert_eq!(e.message(), "Failed to read config file '/etc/x.toml': denied");
    let e = Config::new("/etc/x.toml", Loaded::ParseFailed("bad key".to_string())).unwrap_err();
    assert_eq!(e.message(), "Failed to parse config: bad key");
}

#[test]
fn defaults_and_names() {
    assert_eq!(default_host(), "0.0.0.0");
    assert_eq!(EntityKind::default(), EntityKind::Cumulative);
    assert_eq!(valid_config().processor.kind_name(), "anthropic");
}
