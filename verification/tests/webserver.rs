use base64::{engine::general_purpose::STANDARD, Engine};
use daily_briefing::webserver::server::{check_basic_auth, handle, Error as ServerError};
use daily_briefing::webserver::{route_path_exec, ContentEntry, WebServer};

fn auth_header(username: &str, password: &str) -> String {
    let encoded = STANDARD.encode(format!("{}:{}", username, password));
    format!("Basic {}", encoded)
}

fn entry(ct: &str, body: &[u8]) -> ContentEntry {
    ContentEntry { content_type: ct.to_string(), body: body.to_vec() }
}

#[test]
fn tests_test_check_basic_auth_valid() {
    let headers = auth_header("alice", "secret");
    assert!(check_basic_auth(Some(headers.as_bytes()), "alice", "secret"));
}

#[test]
fn tests_test_check_basic_auth_wrong_password() {
    let headers = auth_header("alice", "wrong");
    assert!(!check_basic_auth(Some(headers.as_bytes()), "alice", "secret"));
}

#[test]
fn tests_test_check_basic_auth_missing_header() {
    assert!(!check_basic_auth(None, "alice", "secret"));
}

#[test]
fn tests_test_check_basic_auth_malformed_header() {
    assert!(!check_basic_auth(Some("NotBasic abc".as_bytes()), "alice", "secret"));
}

#[test]
fn auth_rejects_unreadable_values_and_bad_base64() {
    let mut bytes = auth_header("alice", "secret").into_bytes();
    bytes.push(0x7f);
    assert!(!check_basic_auth(Some(&bytes), "alice", "secret"));
    assert!(!check_basic_auth(Some("Basic !!!!".as_bytes()), "alice", "secret"));
    assert!(!check_basic_auth(Some("Basic".as_bytes()), "alice", "secret"));
    let unicode = auth_header("jos\u{e9}", "p\u{e4}ss");
    assert!(check_basic_auth(Some(unicode.as_bytes()), "jos\u{e9}", "p\u{e4}ss"));
}

#[test]
fn update_then_get_returns_what_was_written() {
    let mut server = WebServer::empty();
    assert!(server.get("/").is_none());
    server.update("briefing", entry("text/plain", b"one"));
    let got = server.get("/briefing").unwrap();
    assert_eq!(got.content_type, "text/plain");
    assert_eq!(got.body, b"one".to_vec());
    server.update("/briefing", entry("text/html", b"two"));
    let got = server.get("/briefing").unwrap();
    assert_eq!(got.content_type, "text/html");
    assert_eq!(got.body, b"two".to_vec());
    assert!(server.get("briefing").is_none());
    server.update("/", entry("a", b"root"));
    assert_eq!(server.get("/").unwrap().body, b"root".to_vec());
    assert_eq!(server.get("/briefing").unwrap().body, b"two".to_vec());
}

#[test]
fn route_paths_gain_a_leading_slash() {
    assert_eq!(route_path_exec("x"), "/x");
    assert_eq!(route_path_exec("/x"), "/x");
    assert_eq!(route_path_exec(""), "/");
}

#[test]
fn handle_answers_by_auth_and_path() {
    let mut server = WebServer::empty();
    server.update("/page", entry("text/html", b"<p>hi</p>"));
    let good = auth_header("u", "p");
    let r = handle(&server, "u", "p", Some(good.as_bytes()), "/page");
    assert_eq!(r.status, 200);
    assert_eq!(r.headers, vec![("Content-Type".to_string(), "text/html".to_string())]);
    assert_eq!(r.body, b"<p>hi</p>".to_vec());
    let r = handle(&server, "u", "p", Some(good.as_bytes()), "/other");
    assert_eq!(r.status, 404);
    assert_eq!(r.body, b"Not found".to_vec());
    let r = handle(&server, "u", "p", None, "/page");
    assert_eq!(r.status, 401);
    assert_eq!(r.headers[0].1, "Basic realm=\"daily-briefing\"");
    assert!(r.body.is_empty());
}

#[test]
fn server_errors_name_their_cause() {
    let bind = ServerError::Bind { addr: "0.0.0.0:80".into(), source: "denied".into() };
    assert_eq!(bind.message(), "Failed to bind to 0.0.0.0:80: denied");
    assert_eq!(ServerError::Serve("closed".into()).message(), "Server error: closed");
    let page_bind = daily_briefing::webpage::server::Error::Bind { addr: "h:1".into(), source: "in use".into() };
    assert_eq!(page_bind.message(), "Failed to bind to h:1: in use");
    assert_eq!(daily_briefing::webpage::server::Error::Serve("x".into()).message(), "Server error: x");
}
