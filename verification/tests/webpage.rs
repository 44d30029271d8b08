use chrono::{TimeZone, Utc};
use daily_briefing::briefing::Output;
use daily_briefing::webpage::server::{index, render_page as render_content_page, PageContent};
use daily_briefing::webpage::{markdown_to_html, render_page, Error, WebpageConfig, WebpageOutput};
use daily_briefing::webserver::server::check_basic_auth;
use daily_briefing::webserver::WebServer;

#[test]
fn test_check_basic_auth_valid() {
    // "admin:secret" base64-encoded = "YWRtaW46c2VjcmV0"
    assert!(check_basic_auth(Some("Basic YWRtaW46c2VjcmV0".as_bytes()), "admin", "secret"));
}

#[test]
fn test_check_basic_auth_wrong_password() {
    assert!(!check_basic_auth(Some("Basic YWRtaW46c2VjcmV0".as_bytes()), "admin", "wrong"));
}

#[test]
fn test_check_basic_auth_missing_header() {
    assert!(!check_basic_auth(None, "admin", "secret"));
}

#[test]
fn test_check_basic_auth_malformed_header() {
    assert!(!check_basic_auth(Some("Bearer sometoken".as_bytes()), "admin", "secret"));
}

#[test]
fn test_markdown_to_html_basic() {
    let html = markdown_to_html("**bold** and *italic*");
    assert!(html.contains("<strong>bold</strong>"));
    assert!(html.contains("<em>italic</em>"));
}

#[test]
fn test_markdown_to_html_heading() {
    let html = markdown_to_html("# Hello");
    assert!(html.contains("<h1>"));
    assert!(html.contains("Hello"));
}

#[test]
fn test_render_page_empty_content() {
    let content = PageContent::empty();
    let html = render_content_page("My Title", &content);
    assert!(html.contains("My Title"));
    assert!(html.contains("No content yet"));
    assert!(html.contains("never"));
}

#[test]
fn test_render_page_with_content() {
    let content = PageContent::new("# Summary\n\nHello world.");
    let html = render_content_page("Daily", &content);
    assert!(html.contains("Daily"));
    assert!(html.contains("<h1>"));
    assert!(html.contains("Hello world."));
    assert!(!html.contains("No content yet"));
}

#[test]
fn test_page_content_new_sets_timestamp() {
    let content = PageContent::new("test");
    assert!(content.updated_at.is_some());
}

#[test]
fn test_page_content_empty_has_no_timestamp() {
    let content = PageContent::empty();
    assert!(content.updated_at.is_none());
}

#[test]
fn tests_test_markdown_to_html_basic() {
    let html = markdown_to_html("**bold** and *italic*");
    assert!(html.contains("<strong>bold</strong>"));
    assert!(html.contains("<em>italic</em>"));
}

#[test]
fn tests_test_markdown_to_html_heading() {
    let html = markdown_to_html("# Title");
    assert!(html.contains("<h1>"));
    assert!(html.contains("Title"));
}

#[test]
fn tests_test_render_page_with_content() {
    let ts = Utc.with_ymd_and_hms(2026, 3, 20, 8, 0, 0).unwrap().timestamp();
    let html = render_page("My Briefing", "## Hello\n\nWorld", ts);
    assert!(html.contains("<title>My Briefing</title>"));
    assert!(html.contains("<h2>"));
    assert!(html.contains("Hello"));
    assert!(html.contains("2026-03-20 08:00 UTC"));
}

#[test]
fn tests_test_render_page_empty_content() {
    let ts = Utc.with_ymd_and_hms(2026, 3, 20, 8, 0, 0).unwrap().timestamp();
    let html = render_page("My Briefing", "", ts);
    assert!(html.contains("No content yet"));
}

#[test]
fn page_starts_and_ends_as_a_document() {
    let html = render_page("T", "x", 0);
    assert!(html.starts_with("<!DOCTYPE html>\n<html lang=\"en\">"));
    assert!(html.ends_with("\n  </article>\n</body>\n</html>"));
    assert!(html.contains("Last updated: 1970-01-01 00:00 UTC</p>"));
}

#[test]
fn index_challenges_without_credentials() {
    let content = PageContent::empty();
    let r = index("T", &content, "admin", "secret", None);
    assert_eq!(r.status, 401);
    assert_eq!(r.headers[0].1, "Basic realm=\"Daily Summary\"");
    assert_eq!(r.body, b"Unauthorized".to_vec());
    let r = index("T", &content, "admin", "secret", Some("Basic YWRtaW46c2VjcmV0".as_bytes()));
    assert_eq!(r.status, 200);
    assert!(String::from_utf8(r.body).unwrap().contains("never"));
}

#[test]
fn write_registers_the_page() {
    let out = WebpageOutput::new(WebpageConfig { name: "page".into(), endpoint: "daily".into(), title: "News".into() });
    assert_eq!(out.name(), "page");
    let mut server = WebServer::empty();
    out.write(&mut server, "**hi**");
    let entry = server.get("/daily").unwrap();
    assert_eq!(entry.content_type, "text/html; charset=utf-8");
    let html = String::from_utf8(entry.body).unwrap();
    assert!(html.contains("<strong>hi</strong>"));
    assert!(html.contains("<title>News</title>"));
    assert_eq!(Error::Internal("x".into()).message(), "Webpage output error: x");
}

#[test]
fn times_render_across_the_whole_range() {
    assert!(render_page("t", "", 0).contains("Last updated: 1970-01-01 00:00 UTC</p>"));
    assert!(render_page("t", "", -8_334_601_228_800).contains("Last updated: -262143-01-01 00:00 UTC</p>"));
    assert!(render_page("t", "", 8_210_266_876_799).contains("Last updated: +262142-12-31 23:59 UTC</p>"));
    let fresh = PageContent::new("x");
    assert!(fresh.updated_at.unwrap() > 1_600_000_000);
}
