use daily_briefing::briefing::{Input, Output};
use daily_briefing::ha_metrics::client::{
    check_history_status, choose_figures, first_history, format_comparison, split_history, Error as MetricsClientError,
    Figures, HaMetricsClient, StateChange,
};
use daily_briefing::ha_metrics::{EntityConfig, EntityKind, Error as MetricsError, HaMetricsConfig, HaMetricsInput};
use daily_briefing::ha_output::client::{Error, HaClient};
use daily_briefing::ha_output::{HomeAssistantConfig, HomeAssistantOutput};

#[test]
fn test_create_notification_request_serialization() {
    let req = HaClient::notification("daily_briefing", "Daily Summary", "Today's briefing.");
    assert_eq!(req.notification_id, "daily_briefing");
    assert_eq!(req.title, "Daily Summary");
    assert_eq!(req.message, "Today's briefing.");
}

#[test]
fn test_base_url_trailing_slash_trimmed() {
    let client = HaClient::new("http://homeassistant.local:8123/", "token");
    assert_eq!(client.base_url(), "http://homeassistant.local:8123");
}

#[test]
fn test_base_url_no_trailing_slash() {
    let client = HaClient::new("http://homeassistant.local:8123", "token");
    assert_eq!(client.base_url(), "http://homeassistant.local:8123");
}

#[test]
fn notification_output_uses_its_settings() {
    let out = HomeAssistantOutput::new(HomeAssistantConfig {
        name: "ha".into(),
        url: "http://ha//".into(),
        token: "t".into(),
        title: "Daily Summary".into(),
        notification_id: "daily_briefing".into(),
    });
    assert_eq!(out.name(), "ha");
    assert_eq!(out.client().notification_url(), "http://ha/api/services/persistent_notification/create");
    assert_eq!(out.client().authorization(), "Bearer t");
    let n = out.notification("body");
    assert_eq!(n.message, "body");
    assert_eq!(n.notification_id, "daily_briefing");
    assert!(HaClient::check_status(204).is_ok());
    match HaClient::check_status(401) {
        Err(Error::Api { status }) => assert_eq!(status, 401),
        _ => panic!("expected an API error"),
    }
    assert_eq!(Error::Api { status: 503 }.message(), "Home Assistant API error: HTTP 503");
    assert_eq!(
        daily_briefing::ha_output::Error::Client(Error::Http("x".into())).message(),
        "Home Assistant client error: HTTP request failed: x"
    );
}

fn change(state: &str, secs: i64) -> StateChange {
    StateChange { state: state.to_string(), changed_secs: secs, changed_nanos: 0 }
}

#[test]
fn history_splits_at_the_window_start() {
    let history = vec![change("1", 10), change("2", 20), change("3", 30)];
    let (previous, current) = split_history(&history, 20, 0);
    assert_eq!(previous.iter().map(|c| c.state.as_str()).collect::<Vec<_>>(), vec!["1"]);
    assert_eq!(current.iter().map(|c| c.state.as_str()).collect::<Vec<_>>(), vec!["2", "3"]);
    assert_eq!(previous.len() + current.len(), history.len());
}

#[test]
fn history_request_and_windows() {
    let input = HaMetricsInput::new(HaMetricsConfig {
        name: "home".into(),
        url: "http://ha:8123/".into(),
        token: "tok".into(),
        hours: 24,
        entities: vec![EntityConfig { id: "sensor.grid".into(), label: None, kind: EntityKind::Cumulative }],
    });
    assert_eq!(input.name(), "home");
    let (a, b) = input.windows(1_000_000);
    assert_eq!(a, 1_000_000 - 86_400);
    assert_eq!(b, 1_000_000 - 172_800);
    let w = input.windows_now().unwrap();
    assert!(w.now_secs > 1_600_000_000 && w.now_nanos < 1_000_000_000);
    assert_eq!(w.current_start, w.now_secs - 86_400);
    assert_eq!(w.previous_start, w.now_secs - 172_800);
    let endless = HaMetricsInput::new(HaMetricsConfig {
        name: "far".into(),
        url: "http://ha".into(),
        token: "t".into(),
        hours: 2_000_000_000,
        entities: vec![],
    });
    assert!(endless.windows_now().is_none());
    let r = input.client().history_request(0, 60, 0, "sensor.grid");
    assert_eq!(r.url, "http://ha:8123/api/history/period/1970-01-01T00:00:00Z");
    assert_eq!(r.authorization, "Bearer tok");
    assert_eq!(r.query[0], ("end_time".to_string(), "1970-01-01T00:01:00+00:00".to_string()));
    assert_eq!(r.query[1].1, "sensor.grid");
    assert_eq!(r.query[2], ("minimal_response".to_string(), "true".to_string()));
    assert!(matches!(input.finish(" \n ".into()), Err(MetricsError::NoData)));
    let d = input.finish("report".into()).map_err(|_| ()).unwrap();
    assert_eq!(d.source, "home");
    assert_eq!(HaMetricsClient::new("http://x/", "t").base_url(), "http://x");
    let e = EntityConfig { id: "sensor.solar".into(), label: None, kind: EntityKind::default() };
    assert_eq!(e.display_label(), "sensor.solar");
    assert_eq!(e.kind, EntityKind::Cumulative);
}

#[test]
fn comparison_report_lays_out_each_entity() {
    let grid = EntityConfig { id: "sensor.grid".into(), label: Some("Grid".into()), kind: EntityKind::Cumulative };
    let solar = EntityConfig { id: "sensor.solar".into(), label: None, kind: EntityKind::Cumulative };
    let battery = EntityConfig { id: "sensor.battery".into(), label: Some("Battery".into()), kind: EntityKind::Gauge };
    let figures = vec![
        Figures::Totals {
            current: "12000".into(),
            previous: "10000".into(),
            change: "+2000".into(),
            percent: "+20.0".into(),
        },
        Figures::CurrentOnly("5000".into()),
        Figures::Reading(None),
    ];
    let text = format_comparison(&vec![grid, solar, battery], &figures, 1773820800, 1773907200, 1773734400, 1773820800);
    let expected = [
        "Home Assistant Metrics Report\n",
        "=============================\n\n",
        "Current period:  2026-03-18 08:00 UTC \u{2192} 2026-03-19 08:00 UTC\n",
        "Previous period: 2026-03-17 08:00 UTC \u{2192} 2026-03-18 08:00 UTC\n\n",
        "Grid (sensor.grid):\n",
        "  Current:  12000 Wh\n",
        "  Previous: 10000 Wh\n",
        "  Change:   +2000 Wh (+20.0%)\n\n",
        "sensor.solar (sensor.solar):\n",
        "  Current:  5000 Wh\n",
        "  Previous: no data\n\n",
        "Battery (sensor.battery):\n",
        "  No data available.\n\n",
    ]
    .concat();
    assert_eq!(text, expected);
    let rest = format_comparison(
        &vec![EntityConfig { id: "a".into(), label: None, kind: EntityKind::Gauge }, EntityConfig { id: "b".into(), label: None, kind: EntityKind::Cumulative }, EntityConfig { id: "c".into(), label: None, kind: EntityKind::Cumulative }],
        &vec![Figures::Reading(Some("87.5".into())), Figures::PreviousOnly("3".into()), Figures::NoTotals],
        0,
        0,
        0,
        0,
    );
    assert!(rest.ends_with("a (a):\n  Reading: 87.5\n\nb (b):\n  Current:  no data\n  Previous: 3 Wh\n\nc (c):\n  No data available for either period.\n\n"));
}

#[test]
fn metrics_errors_name_their_cause() {
    let api = MetricsClientError::ApiError("HTTP 401 Unauthorized: no".into());
    assert_eq!(api.message(), "Home Assistant API error: HTTP 401 Unauthorized: no");
    assert_eq!(MetricsClientError::Http("timeout".into()).message(), "HTTP request failed: timeout");
    assert_eq!(
        MetricsError::Client(MetricsClientError::Http("timeout".into())).message(),
        "Home Assistant metrics client error: HTTP request failed: timeout"
    );
    assert_eq!(MetricsError::NoData.message(), "No metrics data returned for any entity in either period");
}

#[test]
fn history_replies_are_checked_and_unwrapped() {
    assert!(check_history_status(200, "200 OK", "").is_ok());
    match check_history_status(404, "404 Not Found", "no such entity") {
        Err(MetricsClientError::ApiError(m)) => assert_eq!(m, "HTTP 404 Not Found: no such entity"),
        _ => panic!("expected an API error"),
    }
    assert!(first_history(vec![]).is_empty());
    let h = first_history(vec![vec![change("1", 1), change("2", 2)], vec![change("x", 3)]]);
    assert_eq!(h.iter().map(|c| c.state.as_str()).collect::<Vec<_>>(), vec!["1", "2"]);
}

fn reading_of(f: Figures) -> Option<String> {
    match f {
        Figures::Reading(r) => r,
        _ => panic!("expected a reading"),
    }
}

#[test]
fn figures_fall_back_and_pick_their_variant() {
    assert_eq!(reading_of(choose_figures(EntityKind::Gauge, Some("80.0".into()), Some("90.0".into()), None)), Some("80.0".to_string()));
    assert_eq!(reading_of(choose_figures(EntityKind::Gauge, None, Some("90.0".into()), None)), Some("90.0".to_string()));
    assert_eq!(reading_of(choose_figures(EntityKind::Gauge, None, None, None)), None);
    match choose_figures(EntityKind::Cumulative, Some("12".into()), Some("10".into()), Some(("+2".into(), "+20.0".into()))) {
        Figures::Totals { current, previous, change, percent } => {
            assert_eq!((current.as_str(), previous.as_str(), change.as_str(), percent.as_str()), ("12", "10", "+2", "+20.0"));
        }
        _ => panic!("expected totals"),
    }
    assert!(matches!(choose_figures(EntityKind::Cumulative, Some("5".into()), None, None), Figures::CurrentOnly(c) if c == "5"));
    assert!(matches!(choose_figures(EntityKind::Cumulative, None, Some("3".into()), None), Figures::PreviousOnly(p) if p == "3"));
    assert!(matches!(choose_figures(EntityKind::Cumulative, None, None, None), Figures::NoTotals));
}
