//! The stand-alone page server: one page, behind basic authentication.
use vstd::prelude::*;
use crate::text::push_str;
use crate::clock::{clock_now, format_utc_minute, representable, utc_minute_text};
use crate::webpage::{assemble_page, page_body, page_html, render_body};
use crate::webserver::server::{authorized, check_basic_auth, Reply};

verus! {

/// Errors of the page server.
#[derive(Debug)]
pub enum Error {
    /// The address could not be bound; the text says why.
    Bind { addr: String, source: String },
    /// Serving failed; the text says why.
    Serve(String),
}

impl Error {
    /// The text of the error's message.
    pub open spec fn message_view(&self) -> Seq<char> {
        match self {
            Error::Bind { addr, source } => "Failed to bind to "@ + addr@ + ": "@ + source@,
            Error::Serve(e) => "Server error: "@ + e@,
        }
    }

    /// The error's message.
    pub fn message(&self) -> (m: String)
        ensures
            m@ == self.message_view(),
    {
        match self {
            Error::Bind { addr, source } => {
                let mut m = "Failed to bind to ".to_owned();
                push_str(&mut m, addr.as_str());
                push_str(&mut m, ": ");
                push_str(&mut m, source.as_str());
                m
            },
            Error::Serve(e) => {
                let mut m = "Server error: ".to_owned();
                push_str(&mut m, e.as_str());
                m
            },
        }
    }
}

/// The page's Markdown and when it was last set, in seconds after the Unix epoch.
pub struct PageContent {
    pub markdown: String,
    pub updated_at: Option<i64>,
}

impl PageContent {
    /// No content, never updated.
    pub fn empty() -> (c: Self)
        ensures
            c.markdown@.len() == 0,
            c.updated_at is None,
    {
        PageContent { markdown: String::new(), updated_at: None }
    }

    /// The content `markdown`, updated now.
    pub fn new(markdown: &str) -> (c: Self)
        ensures
            c.markdown@ == markdown@,
            c.updated_at matches Some(t) && t >= 0 && representable(t as int),
    {
        PageContent { markdown: markdown.to_owned(), updated_at: Some(clock_now().0) }
    }
}

/// The update time shown for `updated_at`: its rendering, or `never`.
pub open spec fn updated_text(updated_at: Option<i64>) -> Seq<char> {
    match updated_at {
        Some(t) => utc_minute_text(t),
        None => "never"@,
    }
}

/// Renders the page titled `title` for `content`.
pub fn render_page(title: &str, content: &PageContent) -> (html: String)
    requires
        content.updated_at matches Some(t) ==> representable(t as int),
    ensures
        html@ == page_html(title@, updated_text(content.updated_at), page_body(content.markdown@)),
{
    let updated = match content.updated_at {
        Some(t) => format_utc_minute(t),
        None => "never".to_owned(),
    };
    let body = render_body(content.markdown.as_str());
    assemble_page(title, updated.as_str(), body.as_str())
}

/// Answers a request for the page: 401 with a challenge and `Unauthorized` when
/// the `Authorization` value `header` does not carry `username:password`,
/// otherwise 200 with the rendered page.
pub fn index(title: &str, content: &PageContent, username: &str, password: &str, header: Option<&[u8]>) -> (r: Reply)
    requires
        content.updated_at matches Some(t) ==> representable(t as int),
    ensures
        !authorized(match header { Some(h) => Some(h@), None => None }, username@, password@) ==> {
            &&& r.status == 401
            &&& r.headers@.len() == 2
            &&& r.headers@[0].0@ == "WWW-Authenticate"@
            &&& r.headers@[0].1@ == "Basic realm=\"Daily Summary\""@
            &&& r.headers@[1].0@ == "Content-Type"@
            &&& r.headers@[1].1@ == "text/plain; charset=utf-8"@
            &&& r.body@ == vstd::utf8::encode_utf8("Unauthorized"@)
        },
        authorized(match header { Some(h) => Some(h@), None => None }, username@, password@) ==> {
            &&& r.status == 200
            &&& r.headers@.len() == 1
            &&& r.headers@[0].0@ == "Content-Type"@
            &&& r.headers@[0].1@ == "text/html; charset=utf-8"@
            &&& r.body@ == vstd::utf8::encode_utf8(page_html(title@, updated_text(content.updated_at), page_body(content.markdown@)))
        },
{
    if !check_basic_auth(header, username, password) {
        let mut headers: Vec<(String, String)> = Vec::new();
        headers.push(("WWW-Authenticate".to_owned(), "Basic realm=\"Daily Summary\"".to_owned()));
        headers.push(("Content-Type".to_owned(), "text/plain; charset=utf-8".to_owned()));
        let body = vstd::slice::slice_to_vec("Unauthorized".as_bytes());
        return Reply { status: 401, headers, body };
    }
    let html = render_page(title, content);
    let mut headers: Vec<(String, String)> = Vec::new();
    headers.push(("Content-Type".to_owned(), "text/html; charset=utf-8".to_owned()));
    let body = vstd::slice::slice_to_vec(html.as_str().as_bytes());
    Reply { status: 200, headers, body }
}

} // verus!
