//! Answering requests: basic authentication and the lookup of registered content.
use vstd::prelude::*;
use base64::Engine;
use crate::text::push_str;
use crate::webserver::{served, WebServer};

verus! {

/// `b` is a visible ASCII byte or a tab: the bytes a header value may hold for it
/// to be read as text (`HeaderValue::to_str`).
pub open spec fn visible_ascii(b: u8) -> bool {
    (32 <= b && b < 127) || b == 9
}

/// The bytes of `"Basic "`.
pub open spec fn basic_prefix() -> Seq<u8> {
    seq![66u8, 97u8, 115u8, 105u8, 99u8, 32u8]
}

/// What the standard base64 engine (with padding) decodes `input` to, if it decodes.
pub uninterp spec fn base64_decoded(input: Seq<u8>) -> Option<Seq<u8>>;

/// `base64::engine::general_purpose::STANDARD.decode`: the decoded bytes, or
/// `None` when the input is not valid padded standard base64. The contract ties
/// the result to the input through `base64_decoded` and states nothing more.
#[verifier::external_body]
fn base64_decode(input: &[u8]) -> (r: Option<Vec<u8>>)
    ensures
        match r {
            Some(v) => base64_decoded(input@) == Some(v@),
            None => base64_decoded(input@) is None,
        },
{
    base64::engine::general_purpose::STANDARD.decode(input).ok()
}

/// The credentials `username:password` in UTF-8.
pub open spec fn credentials(username: Seq<char>, password: Seq<char>) -> Seq<u8> {
    vstd::utf8::encode_utf8(username + seq![':'] + password)
}

/// A request carrying the `Authorization` header value `header` (if any) is let in:
/// the value is readable text, starts with `Basic `, and the rest decodes from
/// base64 to exactly `username:password`.
pub open spec fn authorized(header: Option<Seq<u8>>, username: Seq<char>, password: Seq<char>) -> bool {
    match header {
        None => false,
        Some(h) => {
            &&& forall|i: int| 0 <= i < h.len() ==> visible_ascii(#[trigger] h[i])
            &&& h.len() >= 6
            &&& h.take(6) == basic_prefix()
            &&& base64_decoded(h.skip(6)) == Some(credentials(username, password))
        },
    }
}

fn bytes_equal(a: &[u8], b: &[u8]) -> (r: bool)
    ensures
        r == (a@ == b@),
{
    if a.len() != b.len() {
        return false;
    }
    let mut i: usize = 0;
    while i < a.len()
        invariant
            i <= a@.len() == b@.len(),
            forall|k: int| 0 <= k < i ==> a@[k] == b@[k],
        decreases a.len() - i,
    {
        if a[i] != b[i] {
            return false;
        }
        i = i + 1;
    }
    assert(a@ =~= b@);
    true
}

/// Checks an `Authorization` header value against `username` and `password`.
pub fn check_basic_auth(header: Option<&[u8]>, username: &str, password: &str) -> (ok: bool)
    ensures
        ok == authorized(
            match header {
                Some(h) => Some(h@),
                None => None,
            },
            username@,
            password@,
        ),
{
    let h = match header {
        None => return false,
        Some(h) => h,
    };
    let mut i: usize = 0;
    while i < h.len()
        invariant
            i <= h@.len(),
            header == Some(h),
            forall|k: int| 0 <= k < i ==> visible_ascii(#[trigger] h@[k]),
        decreases h.len() - i,
    {
        let b = h[i];
        if !((32 <= b && b < 127) || b == 9) {
            assert(!visible_ascii(h@[i as int]));
            assert(!(forall|q: int| 0 <= q < h@.len() ==> visible_ascii(#[trigger] h@[q])));
            return false;
        }
        i = i + 1;
    }
    if h.len() < 6 || !(h[0] == 66 && h[1] == 97 && h[2] == 115 && h[3] == 105 && h[4] == 99 && h[5] == 32) {
        assert(h.len() >= 6 ==> h@.take(6) != basic_prefix()) by {
            if h.len() >= 6 {
                assert(h@.take(6)[0] == h@[0] && h@.take(6)[1] == h@[1] && h@.take(6)[2] == h@[2]);
                assert(h@.take(6)[3] == h@[3] && h@.take(6)[4] == h@[4] && h@.take(6)[5] == h@[5]);
            }
        }
        return false;
    }
    assert(h@.take(6) =~= basic_prefix());
    let mut rest: Vec<u8> = Vec::new();
    let mut k: usize = 6;
    while k < h.len()
        invariant
            6 <= k <= h@.len(),
            rest@ == h@.subrange(6, k as int),
        decreases h.len() - k,
    {
        rest.push(h[k]);
        k = k + 1;
        assert(rest@ =~= h@.subrange(6, k as int));
    }
    assert(rest@ =~= h@.skip(6));
    let mut expected = username.to_owned();
    crate::text::push_char(&mut expected, ':');
    crate::text::push_str(&mut expected, password);
    assert(expected@ =~= username@ + seq![':'] + password@);
    match base64_decode(rest.as_slice()) {
        None => false,
        Some(decoded) => bytes_equal(decoded.as_slice(), expected.as_str().as_bytes()),
    }
}

/// Errors of the shared web server.
#[derive(Debug)]
pub enum Error {
    /// The address could not be bound; the text says why.
    Bind { addr: String, source: String },
    /// Serving failed; the text says why.
    Serve(String),
}

impl Error {
    /// The text of the error's message.
    pub open spec fn message_view(&self) -> Seq<char> {
        match self {
            Error::Bind { addr, source } => "Failed to bind to "@ + addr@ + ": "@ + source@,
            Error::Serve(e) => "Server error: "@ + e@,
        }
    }

    /// The error's message.
    pub fn message(&self) -> (m: String)
        ensures
            m@ == self.message_view(),
    {
        match self {
            Error::Bind { addr, source } => {
                let mut m = "Failed to bind to ".to_owned();
                push_str(&mut m, addr.as_str());
                push_str(&mut m, ": ");
                push_str(&mut m, source.as_str());
                m
            },
            Error::Serve(e) => {
                let mut m = "Server error: ".to_owned();
                push_str(&mut m, e.as_str());
                m
            },
        }
    }
}

/// An HTTP answer: status code, headers and body.
pub struct Reply {
    pub status: u16,
    pub headers: Vec<(String, String)>,
    pub body: Vec<u8>,
}

/// The bytes of `Not found`.
pub open spec fn not_found_body() -> Seq<u8> {
    seq![78u8, 111u8, 116u8, 32u8, 102u8, 111u8, 117u8, 110u8, 100u8]
}

/// Answers a request for `path` carrying the `Authorization` value `header`:
/// 401 with a basic-auth challenge when the credentials do not match, otherwise
/// 200 with the content registered at `path`, or 404 `Not found`.
pub fn handle(routes: &WebServer, username: &str, password: &str, header: Option<&[u8]>, path: &str) -> (r: Reply)
    ensures
        !authorized(match header { Some(h) => Some(h@), None => None }, username@, password@) ==> {
            &&& r.status == 401
            &&& r.headers@.len() == 1
            &&& r.headers@[0].0@ == "WWW-Authenticate"@
            &&& r.headers@[0].1@ == "Basic realm=\"daily-briefing\""@
            &&& r.body@.len() == 0
        },
        authorized(match header { Some(h) => Some(h@), None => None }, username@, password@) ==> match served(routes@, path@) {
            Some(c) => {
                &&& r.status == 200
                &&& r.headers@.len() == 1
                &&& r.headers@[0].0@ == "Content-Type"@
                &&& r.headers@[0].1@ == c.content_type
                &&& r.body@ == c.body
            },
            None => {
                &&& r.status == 404
                &&& r.headers@.len() == 0
                &&& r.body@ == not_found_body()
            },
        },
{
    if !check_basic_auth(header, username, password) {
        let mut headers: Vec<(String, String)> = Vec::new();
        headers.push(("WWW-Authenticate".to_owned(), "Basic realm=\"daily-briefing\"".to_owned()));
        return Reply { status: 401, headers, body: Vec::new() };
    }
    match routes.get(path) {
        Some(e) => {
            let mut headers: Vec<(String, String)> = Vec::new();
            headers.push(("Content-Type".to_owned(), e.content_type));
            Reply { status: 200, headers, body: e.body }
        },
        None => {
            let body: Vec<u8> = vec![78u8, 111u8, 116u8, 32u8, 102u8, 111u8, 117u8, 110u8, 100u8];
            assert(body@ =~= not_found_body());
            Reply { status: 404, headers: Vec::new(), body }
        },
    }
}

} // verus!
