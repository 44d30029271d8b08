//! The Home Assistant notification client: where it posts, what it sends, and
//! which replies count as success.
use vstd::prelude::*;
use crate::text::{decimal, push_decimal, push_str, trim_end_char, trim_trailing_slashes};

verus! {

/// Errors of the notification client.
#[derive(Debug)]
pub enum Error {
    /// The HTTP exchange failed; the text says how.
    Http(String),
    /// Home Assistant answered with a non-success status.
    Api { status: u16 },
}

impl Error {
    /// The text of the error's message.
    pub open spec fn message_view(&self) -> Seq<char> {
        match self {
            Error::Http(e) => "HTTP request failed: "@ + e@,
            Error::Api { status } => "Home Assistant API error: HTTP "@ + decimal(*status as nat),
        }
    }

    /// The error's message.
    pub fn message(&self) -> (m: String)
        ensures
            m@ == self.message_view(),
    {
        match self {
            Error::Http(e) => {
                let mut m = "HTTP request failed: ".to_owned();
                push_str(&mut m, e.as_str());
                m
            },
            Error::Api { status } => {
                let mut m = "Home Assistant API error: HTTP ".to_owned();
                push_decimal(&mut m, *status as u64);
                m
            },
        }
    }
}

/// The body of a `persistent_notification.create` call.
pub struct CreateNotificationRequest {
    pub notification_id: String,
    pub title: String,
    pub message: String,
}

/// A client for one Home Assistant instance.
pub struct HaClient {
    base_url: String,
    token: String,
}

/// A status code in the 2xx range.
pub open spec fn is_success(status: u16) -> bool {
    200 <= status && status < 300
}

impl HaClient {
    pub closed spec fn base_url_view(&self) -> Seq<char> {
        self.base_url@
    }

    pub closed spec fn token_view(&self) -> Seq<char> {
        self.token@
    }

    /// A client for `base_url` without its trailing slashes, using `token`.
    pub fn new(base_url: &str, token: &str) -> (c: Self)
        ensures
            c.base_url_view() == trim_end_char(base_url@, '/'),
            c.token_view() == token@,
    {
        HaClient { base_url: trim_trailing_slashes(base_url), token: token.to_owned() }
    }

    /// The base URL.
    pub fn base_url(&self) -> (u: &str)
        ensures
            u@ == self.base_url_view(),
    {
        self.base_url.as_str()
    }

    /// The value of the `Authorization` header.
    pub fn authorization(&self) -> (a: String)
        ensures
            a@ == "Bearer "@ + self.token_view(),
    {
        let mut a = "Bearer ".to_owned();
        push_str(&mut a, self.token.as_str());
        a
    }

    /// The URL a notification is posted to.
    pub fn notification_url(&self) -> (u: String)
        ensures
            u@ == self.base_url_view() + "/api/services/persistent_notification/create"@,
    {
        let mut u = self.base_url.clone();
        push_str(&mut u, "/api/services/persistent_notification/create");
        u
    }

    /// The body that creates notification `notification_id` with `title` and `message`.
    pub fn notification(notification_id: &str, title: &str, message: &str) -> (r: CreateNotificationRequest)
        ensures
            r.notification_id@ == notification_id@,
            r.title@ == title@,
            r.message@ == message@,
    {
        CreateNotificationRequest {
            notification_id: notification_id.to_owned(),
            title: title.to_owned(),
            message: message.to_owned(),
        }
    }

    /// Accepts a 2xx reply; any other status is an `Api` error carrying it.
    pub fn check_status(status: u16) -> (r: Result<(), Error>)
        ensures
            is_success(status) ==> r is Ok,
            !is_success(status) ==> (r matches Err(Error::Api { status: s }) && s == status),
    {
        if 200 <= status && status < 300 {
            Ok(())
        } else {
            Err(Error::Api { status })
        }
    }
}

} // verus!
