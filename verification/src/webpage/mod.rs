//! The web page output: renders the briefing's Markdown as an HTML page and
//! registers it with the shared web server.
use vstd::prelude::*;
use crate::briefing::Output;
use crate::clock::{clock_now, format_utc_minute, representable, utc_minute_text};
use crate::text::push_str;
use crate::webserver::{route_path, ContentEntry, ContentView, WebServer};

pub mod server;

verus! {

/// Errors of the web page output.
#[derive(Debug)]
pub enum Error {
    Internal(String),
}

impl Error {
    /// The error's message.
    pub fn message(&self) -> (m: String)
        ensures
            m@ == match self {
                Error::Internal(e) => "Webpage output error: "@ + e@,
            },
    {
        match self {
            Error::Internal(e) => {
                let mut m = "Webpage output error: ".to_owned();
                push_str(&mut m, e.as_str());
                m
            },
        }
    }
}

/// The settings of a web page output.
pub struct WebpageConfig {
    pub name: String,
    /// Endpoint path this output is served at, e.g. `"/"`.
    pub endpoint: String,
    pub title: String,
}

/// A web page output.
pub struct WebpageOutput {
    name: String,
    endpoint: String,
    title: String,
}

/// The HTML `pulldown-cmark` renders for the Markdown `markdown` with every
/// extension enabled.
pub uninterp spec fn markdown_html(markdown: Seq<char>) -> Seq<char>;

/// `pulldown_cmark::Parser::new_ext(markdown, Options::all())` rendered with
/// `html::push_html`: the contract names the HTML and states nothing of it.
#[verifier::external_body]
pub fn markdown_to_html(markdown: &str) -> (html: String)
    ensures
        html@ == markdown_html(markdown@),
{
    let parser = pulldown_cmark::Parser::new_ext(markdown, pulldown_cmark::Options::all());
    let mut html = String::new();
    pulldown_cmark::html::push_html(&mut html, parser);
    html
}

/// The paragraph shown before any content exists.
pub open spec fn empty_notice() -> Seq<char> {
    "<p class=\"empty\">No content yet — waiting for the first pipeline run.</p>"@
}

/// The body of the page for `markdown`: its HTML, or the empty notice when there is none.
pub open spec fn page_body(markdown: Seq<char>) -> Seq<char> {
    if markdown.len() == 0 { empty_notice() } else { markdown_html(markdown) }
}

/// The page's text before the first use of the title.
pub open spec fn page_head() -> Seq<char> {
    "<!DOCTYPE html>\n<html lang=\"en\">\n<head>\n  <meta charset=\"UTF-8\">\n  <meta name=\"viewport\" content=\"width=device-width, initial-scale=1.0\">\n  <title>"@
}

/// The page's text between the two uses of the title.
pub open spec fn page_style() -> Seq<char> {
    "</title>\n  <style>\n    *, *::before, *::after { box-sizing: border-box; }\n    body {\n      font-family: -apple-system, BlinkMacSystemFont, 'Segoe UI', Roboto, sans-serif;\n      max-width: 860px;\n      margin: 0 auto;\n      padding: 2rem 1rem;\n      background: #f5f5f5;\n      color: #222;\n      line-height: 1.7;\n    }\n    article {\n      background: #fff;\n      border-radius: 8px;\n      padding: 2rem 2.5rem;\n      box-shadow: 0 1px 4px rgba(0,0,0,.08);\n    }\n    h1 { margin-top: 0; font-size: 1.6rem; }\n    h2 { font-size: 1.2rem; margin-top: 1.5rem; }\n    h3 { font-size: 1rem; }\n    .meta { color: #888; font-size: 0.85rem; margin-bottom: 1.5rem; border-bottom: 1px solid #eee; padding-bottom: 1rem; }\n    .empty { color: #aaa; font-style: italic; }\n    pre { background: #f8f8f8; padding: 1rem; border-radius: 4px; overflow-x: auto; font-size: 0.875rem; }\n    code { font-family: 'SF Mono', Consolas, 'Liberation Mono', monospace; font-size: 0.9em; }\n    a { color: #0066cc; }\n    hr { border: none; border-top: 1px solid #eee; margin: 1.5rem 0; }\n    ul, ol { padding-left: 1.5rem; }\n    blockquote { border-left: 3px solid #ddd; margin: 0; padding-left: 1rem; color: #555; }\n  </style>\n</head>\n<body>\n  <article>\n    <h1>"@
}

/// The page's text between the heading and the update time.
pub open spec fn page_meta() -> Seq<char> {
    "</h1>\n    <p class=\"meta\">Last updated: "@
}

/// The page's text between the update time and the body.
pub open spec fn page_meta_end() -> Seq<char> {
    "</p>\n    "@
}

/// The page's text after the body.
pub open spec fn page_tail() -> Seq<char> {
    "\n  </article>\n</body>\n</html>"@
}

/// The full page with title `title`, update time text `updated` and body `body`.
pub open spec fn page_html(title: Seq<char>, updated: Seq<char>, body: Seq<char>) -> Seq<char> {
    page_head() + title + page_style() + title + page_meta() + updated + page_meta_end() + body + page_tail()
}

/// Assembles the page from its parts.
pub fn assemble_page(title: &str, updated: &str, body: &str) -> (html: String)
    ensures
        html@ == page_html(title@, updated@, body@),
{
    let mut html = "<!DOCTYPE html>\n<html lang=\"en\">\n<head>\n  <meta charset=\"UTF-8\">\n  <meta name=\"viewport\" content=\"width=device-width, initial-scale=1.0\">\n  <title>".to_owned();
    push_str(&mut html, title);
    push_str(&mut html, "</title>\n  <style>\n    *, *::before, *::after { box-sizing: border-box; }\n    body {\n      font-family: -apple-system, BlinkMacSystemFont, 'Segoe UI', Roboto, sans-serif;\n      max-width: 860px;\n      margin: 0 auto;\n      padding: 2rem 1rem;\n      background: #f5f5f5;\n      color: #222;\n      line-height: 1.7;\n    }\n    article {\n      background: #fff;\n      border-radius: 8px;\n      padding: 2rem 2.5rem;\n      box-shadow: 0 1px 4px rgba(0,0,0,.08);\n    }\n    h1 { margin-top: 0; font-size: 1.6rem; }\n    h2 { font-size: 1.2rem; margin-top: 1.5rem; }\n    h3 { font-size: 1rem; }\n    .meta { color: #888; font-size: 0.85rem; margin-bottom: 1.5rem; border-bottom: 1px solid #eee; padding-bottom: 1rem; }\n    .empty { color: #aaa; font-style: italic; }\n    pre { background: #f8f8f8; padding: 1rem; border-radius: 4px; overflow-x: auto; font-size: 0.875rem; }\n    code { font-family: 'SF Mono', Consolas, 'Liberation Mono', monospace; font-size: 0.9em; }\n    a { color: #0066cc; }\n    hr { border: none; border-top: 1px solid #eee; margin: 1.5rem 0; }\n    ul, ol { padding-left: 1.5rem; }\n    blockquote { border-left: 3px solid #ddd; margin: 0; padding-left: 1rem; color: #555; }\n  </style>\n</head>\n<body>\n  <article>\n    <h1>");
    push_str(&mut html, title);
    push_str(&mut html, "</h1>\n    <p class=\"meta\">Last updated: ");
    push_str(&mut html, updated);
    push_str(&mut html, "</p>\n    ");
    push_str(&mut html, body);
    push_str(&mut html, "\n  </article>\n</body>\n</html>");
    html
}

/// The body of the page for `markdown`.
pub fn render_body(markdown: &str) -> (body: String)
    ensures
        body@ == page_body(markdown@),
{
    if markdown.is_empty() {
        "<p class=\"empty\">No content yet — waiting for the first pipeline run.</p>".to_owned()
    } else {
        markdown_to_html(markdown)
    }
}

/// Renders the page titled `title` for the Markdown `markdown`, last updated
/// `updated_at` seconds after the Unix epoch.
pub fn render_page(title: &str, markdown: &str, updated_at: i64) -> (html: String)
    requires
        representable(updated_at as int),
    ensures
        html@ == page_html(title@, utc_minute_text(updated_at), page_body(markdown@)),
{
    let updated = format_utc_minute(updated_at);
    let body = render_body(markdown);
    assemble_page(title, updated.as_str(), body.as_str())
}

/// The content type of the page.
pub open spec fn html_content_type() -> Seq<char> {
    "text/html; charset=utf-8"@
}

impl WebpageOutput {
    pub closed spec fn endpoint_view(&self) -> Seq<char> {
        self.endpoint@
    }

    pub closed spec fn title_view(&self) -> Seq<char> {
        self.title@
    }

    pub closed spec fn name_view(&self) -> Seq<char> {
        self.name@
    }

    /// An output with the settings of `config`.
    pub fn new(config: WebpageConfig) -> (o: Self)
        ensures
            o.name_view() == config.name@,
            o.endpoint_view() == config.endpoint@,
            o.title_view() == config.title@,
    {
        WebpageOutput { name: config.name, endpoint: config.endpoint, title: config.title }
    }

    /// Renders `content` as the page, stamped with the current time, and registers it
    /// at the output's endpoint. The rest of the server's content stays as it was.
    pub fn write(&self, server: &mut WebServer, content: &str)
        ensures
            exists|t: i64| representable(t as int) && #[trigger] final(server)@ == old(server)@.insert(
                route_path(self.endpoint_view()),
                ContentView {
                    content_type: html_content_type(),
                    body: vstd::utf8::encode_utf8(page_html(self.title_view(), utc_minute_text(t), page_body(content@))),
                },
            ),
    {
        let now = clock_now().0;
        let html = render_page(self.title.as_str(), content, now);
        let body = vstd::slice::slice_to_vec(html.as_str().as_bytes());
        let entry = ContentEntry { content_type: "text/html; charset=utf-8".to_owned(), body };
        server.update(self.endpoint.as_str(), entry);
    }
}

impl Output for WebpageOutput {
    fn name(&self) -> (n: &str)
        ensures
            n@ == self.name_view(),
    {
        self.name.as_str()
    }
}

} // verus!
