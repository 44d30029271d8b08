use daily_briefing::briefing::Input;
use daily_briefing::fever::client::{
    check_auth, cutoff_secs, format_items, parse_unread_ids, reply_unread_ids, strip_html, to_hex_lower, Error,
    Feed, FeverClient, FeverPager, FeverResponse, Item,
};
use daily_briefing::fever::{FeverConfig, FeverInput};

fn item(id: u64, feed_id: u64, created: u64, html: &str) -> Item {
    Item {
        id,
        feed_id,
        title: format!("Title {}", id),
        author: String::new(),
        html: html.to_string(),
        url: format!("http://example.com/{}", id),
        is_read: 0,
        created_on_time: created,
    }
}

#[test]
fn test_api_key_computation() {
    let client = FeverClient::new("http://localhost/fever/", "user@example.com", "secret");
    let raw = "user@example.com:secret";
    let expected = format!("{:x}", md5::compute(raw.as_bytes()));
    assert_eq!(client.api_key(), expected);
}

#[test]
fn test_strip_html_basic() {
    let html = "<p>Hello <b>world</b>!</p>";
    assert_eq!(strip_html(html), "Hello world!");
}

#[test]
fn test_strip_html_preserves_text() {
    let html = "<div><p>First paragraph.</p><p>Second paragraph.</p></div>";
    let result = strip_html(html);
    assert!(result.contains("First paragraph."));
    assert!(result.contains("Second paragraph."));
}

#[test]
fn test_strip_html_empty() {
    assert_eq!(strip_html(""), "");
}

#[test]
fn test_strip_html_no_tags() {
    let text = "Plain text without tags.";
    assert_eq!(strip_html(text), text);
}

#[test]
fn test_unread_ids_parsing() {
    let raw = "1,2,3,42,100";
    let ids: Vec<u64> = parse_unread_ids(raw);
    assert_eq!(ids, vec![1, 2, 3, 42, 100]);
}

#[test]
fn test_unread_ids_empty_string() {
    let raw = "";
    let ids: Vec<u64> = parse_unread_ids(raw);
    assert!(ids.is_empty());
}

#[test]
fn strip_html_collapses_blank_lines_and_trims() {
    let html = "  <h1>Title</h1>  \n\n\n\n  body line \r\n\n<br>end  ";
    assert_eq!(strip_html(html), "Title\n\nbody line\n\nend");
    assert_eq!(strip_html("a > b < c"), "a  b");
    assert_eq!(strip_html("\u{a0}x\u{3000}"), "x");
}

#[test]
fn stripping_plain_text_again_changes_nothing() {
    for html in ["  <h1>Title</h1>  \n\n\n\n  body line \r\n\n<br>end  ", "\n\n<p>a</p>\n \n", "", "<><>", "x\n\n\ny"] {
        let once = strip_html(html);
        assert_eq!(strip_html(&once), once);
    }
}

#[test]
fn stripped_lines_are_trimmed_and_never_three_newlines() {
    let out = strip_html("<p> a </p>\n\n\n\n\n<p>  b\t</p>\n \n \n<i>c</i>  ");
    assert_eq!(out, "a\n\nb\n\nc");
    assert!(out.lines().all(|l| l == l.trim()));
    assert!(!out.contains("\n\n\n"));
}

#[test]
fn stripped_text_has_no_angle_brackets() {
    let out = strip_html("x <y> z > w <");
    assert!(!out.contains('<') && !out.contains('>'));
    assert_eq!(out, out.trim());
}

#[test]
fn unread_ids_skip_bad_pieces() {
    assert_eq!(parse_unread_ids(" 7 ,,x,+8,-9,18446744073709551616,18446744073709551615"), vec![7, 8, u64::MAX]);
    assert_eq!(parse_unread_ids("+,+0"), vec![0]);
}

#[test]
fn id_list_round_trip_example() {
    let ids = vec![5u64, 0, 123456789];
    let text = ids.iter().map(|i| i.to_string()).collect::<Vec<_>>().join(",");
    assert_eq!(parse_unread_ids(&text), ids);
}

#[test]
fn hex_is_lowercase_two_digits_per_byte() {
    assert_eq!(to_hex_lower(&[0x00, 0x0f, 0xab, 0xff]), "000fabff");
}

#[test]
fn requests_carry_query_and_key() {
    let client = FeverClient::new("http://f/", "u", "p");
    let r = client.items_request(42);
    assert_eq!(r.url, "http://f/");
    let q: Vec<(&str, &str)> = r.query.iter().map(|(a, b)| (a.as_str(), b.as_str())).collect();
    assert_eq!(q, vec![("api", ""), ("items", ""), ("since_id", "42")]);
    assert_eq!(r.form, vec![("api_key".to_string(), client.api_key().to_string())]);
    let m = client.mark_read_request(7);
    let q: Vec<(&str, &str)> = m.query.iter().map(|(a, b)| (a.as_str(), b.as_str())).collect();
    assert_eq!(q, vec![("api", ""), ("mark", "item"), ("as", "read"), ("id", "7")]);
    let f = client.feeds_request();
    assert_eq!(f.query.len(), 2);
    assert_eq!(f.query[1].0, "feeds");
    let u = client.unread_ids_request();
    assert_eq!(u.query[1].0, "unread_item_ids");
}

#[test]
fn auth_failure_is_an_error() {
    let resp = FeverResponse { auth: 0, feeds: vec![], items: vec![], total_items: None, unread_item_ids: None };
    match check_auth(resp) {
        Err(Error::AuthFailed) => {}
        _ => panic!("expected AuthFailed"),
    }
    let ok = FeverResponse { auth: 1, feeds: vec![], items: vec![], total_items: None, unread_item_ids: Some("3,4".into()) };
    let ok = check_auth(ok).map_err(|_| ()).unwrap();
    assert_eq!(reply_unread_ids(&ok), vec![3, 4]);
    assert_eq!(Error::AuthFailed.message(), "Fever API authentication failed");
    assert_eq!(Error::Http("x".into()).message(), "HTTP request failed: x");
    assert_eq!(Error::InvalidResponse("y".into()).message(), "Invalid response from Fever API: y");
}

#[test]
fn pager_walks_pages_until_no_progress() {
    let mut pager = FeverPager::new(100, None);
    assert_eq!(pager.next_since_id(), Some(0));
    pager.accept(vec![item(1, 1, 50, "old"), item(2, 1, 150, "new")]);
    assert_eq!(pager.next_since_id(), Some(2));
    assert_eq!(pager.items.len(), 1);
    pager.accept(vec![item(2, 1, 150, "again")]);
    assert!(pager.finished);
    assert_eq!(pager.next_since_id(), None);

    let mut only_unread = FeverPager::new(0, Some(vec![4]));
    only_unread.accept(vec![item(3, 1, 10, "a"), item(4, 1, 10, "b")]);
    assert_eq!(only_unread.items.len(), 1);
    assert_eq!(only_unread.items[0].id, 4);
    only_unread.accept(vec![]);
    assert!(only_unread.finished);
}

#[test]
fn cutoff_saturates() {
    assert_eq!(cutoff_secs(100_000, 24), 100_000 - 86_400);
    assert_eq!(cutoff_secs(10, 24), 0);
}

#[test]
fn items_are_rendered_with_feed_titles() {
    let feeds = vec![
        Feed { id: 1, title: "Tech".into(), url: "u".into() },
        Feed { id: 1, title: "Tech News".into(), url: "u".into() },
    ];
    let items = vec![item(10, 1, 0, "<p>Hi</p>"), item(11, 9, 0, "Bye")];
    let (text, ids) = format_items(&feeds, &items);
    assert_eq!(ids, vec![10, 11]);
    assert_eq!(
        text,
        "Feed: Tech News\nTitle: Title 10\nURL: http://example.com/10\n\nHi\n\n---\n\nFeed: Unknown Feed\nTitle: Title 11\nURL: http://example.com/11\n\nBye"
    );
    let (none, no_ids) = format_items(&feeds, &vec![]);
    assert_eq!(none, "No new articles in the configured time window.");
    assert!(no_ids.is_empty());
}

#[test]
fn fever_input_marks_only_when_configured() {
    let config = FeverConfig {
        name: "rss".into(),
        url: "http://f".into(),
        username: "u".into(),
        password: "p".into(),
        hours: 2,
        mark_as_read: true,
    };
    let input = FeverInput::new(config.clone());
    assert_eq!(input.name(), "rss");
    let pager = input.pager(10_000, vec![3]);
    assert_eq!(pager.cutoff, 10_000 - 7_200);
    assert_eq!(pager.unread, Some(vec![3]));
    let started = input.start(vec![5]);
    assert!(started.cutoff > 1_600_000_000);
    assert_eq!(started.unread, Some(vec![5]));
    assert_eq!(started.next_since_id(), Some(0));
    let (data, mark) = input.finish("text".into(), vec![1, 2]);
    assert_eq!(data.source, "rss");
    assert_eq!(data.content, "text");
    assert_eq!(mark, vec![1, 2]);
    let quiet = FeverInput::new(FeverConfig { mark_as_read: false, ..config });
    let (_, mark) = quiet.finish("t".into(), vec![1]);
    assert!(mark.is_empty());
    assert_eq!(
        daily_briefing::fever::Error::NoItems.message(),
        "No items found in the configured time window"
    );
    assert_eq!(
        daily_briefing::fever::Error::Client(Error::AuthFailed).message(),
        "Fever client error: Fever API authentication failed"
    );
}

#[test]
fn fever_input_collects_only_unread_items_even_without_marking() {
    let quiet = FeverInput::new(FeverConfig {
        name: "rss".into(),
        url: "http://f".into(),
        username: "u".into(),
        password: "p".into(),
        hours: 1,
        mark_as_read: false,
    });
    let mut pager = quiet.pager(10_000, vec![2]);
    pager.accept(vec![item(1, 1, 9_000, "already read"), item(2, 1, 9_000, "unread")]);
    assert_eq!(pager.items.len(), 1);
    assert_eq!(pager.items[0].id, 2);
}
