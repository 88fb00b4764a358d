//! Responses and their builders.
use vstd::prelude::*;
use vstd::string::*;
use crate::clock::now_secs;
use crate::cookie::{set_cookie_text, Cookie};
use crate::date::{http_date, imf_date};
use crate::headers::{add_entry, remove_entry, set_entry, HeaderEntry, Headers};
use crate::status::StatusCode;
use crate::text::{decimal, decimal_string};
use crate::version::Version;

verus! {

/// The `Server` header value.
pub open spec fn server_id() -> Seq<char> {
    "localhost/0.1.0"@
}

/// The headers every new response starts with, for a clock reading `now`.
pub open spec fn default_headers(now: u64) -> Seq<HeaderEntry> {
    set_entry(
        set_entry(Seq::<HeaderEntry>::empty(), "Server"@, server_id()),
        "Date"@,
        imf_date(now as nat),
    )
}

/// An HTTP response.
#[derive(Debug, Clone)]
pub struct Response {
    pub version: Version,
    pub status: StatusCode,
    pub headers: Headers,
    pub body: Vec<u8>,
    /// Send the body with chunked transfer coding.
    pub chunked: bool,
}

impl Response {
    /// A response stamped with the clock reading `now`: `Server` and `Date` set,
    /// empty body, not chunked.
    pub fn new_at(version: Version, status: StatusCode, now: u64) -> (r: Response)
        ensures
            r.version == version,
            r.status == status,
            r.headers@ == default_headers(now),
            r.body@ == Seq::<u8>::empty(),
            !r.chunked,
    {
        let mut headers = Headers::new();
        headers.set("Server".to_owned(), "localhost/0.1.0".to_owned());
        headers.set("Date".to_owned(), http_date(now));
        Response { version, status, headers, body: Vec::new(), chunked: false }
    }

    /// A response stamped with the current time.
    pub fn new(version: Version, status: StatusCode) -> (r: Response)
        ensures
            r.version == version,
            r.status == status,
            exists|t: u64| r.headers@ == default_headers(t),
            r.body@ == Seq::<u8>::empty(),
            !r.chunked,
    {
        let now = now_secs();
        Response::new_at(version, status, now)
    }

    pub fn ok(version: Version) -> (r: Response)
        ensures
            r.version == version,
            r.status.0 == 200,
            exists|t: u64| r.headers@ == default_headers(t),
            r.body@ == Seq::<u8>::empty(),
            !r.chunked,
    {
        Response::new(version, StatusCode::OK())
    }

    pub fn not_found(version: Version) -> (r: Response)
        ensures
            r.version == version,
            r.status.0 == 404,
            exists|t: u64| r.headers@ == default_headers(t),
            r.body@ == Seq::<u8>::empty(),
            !r.chunked,
    {
        Response::new(version, StatusCode::NOT_FOUND())
    }

    pub fn forbidden(version: Version) -> (r: Response)
        ensures
            r.version == version,
            r.status.0 == 403,
            exists|t: u64| r.headers@ == default_headers(t),
            r.body@ == Seq::<u8>::empty(),
            !r.chunked,
    {
        Response::new(version, StatusCode::FORBIDDEN())
    }

    pub fn method_not_allowed(version: Version) -> (r: Response)
        ensures
            r.version == version,
            r.status.0 == 405,
            exists|t: u64| r.headers@ == default_headers(t),
            r.body@ == Seq::<u8>::empty(),
            !r.chunked,
    {
        Response::new(version, StatusCode::METHOD_NOT_ALLOWED())
    }

    pub fn internal_error(version: Version) -> (r: Response)
        ensures
            r.version == version,
            r.status.0 == 500,
            exists|t: u64| r.headers@ == default_headers(t),
            r.body@ == Seq::<u8>::empty(),
            !r.chunked,
    {
        Response::new(version, StatusCode::INTERNAL_SERVER_ERROR())
    }

    pub fn found(version: Version) -> (r: Response)
        ensures
            r.version == version,
            r.status.0 == 302,
            exists|t: u64| r.headers@ == default_headers(t),
            r.body@ == Seq::<u8>::empty(),
            !r.chunked,
    {
        Response::new(version, StatusCode::FOUND())
    }

    pub fn bad_request(version: Version) -> (r: Response)
        ensures
            r.version == version,
            r.status.0 == 400,
            exists|t: u64| r.headers@ == default_headers(t),
            r.body@ == Seq::<u8>::empty(),
            !r.chunked,
    {
        Response::new(version, StatusCode::BAD_REQUEST())
    }

    /// A response of the given status whose body is `message`.
    pub fn with_message(version: Version, status: StatusCode, message: &str) -> (r: Response)
        ensures
            r.version == version,
            r.status == status,
            r.body@ == message.spec_bytes(),
            exists|t: u64|
                r.headers@ == set_entry(
                    default_headers(t),
                    "Content-Length"@,
                    decimal(message.spec_bytes().len()),
                ),
            !r.chunked,
    {
        let mut r = Response::new(version, status);
        r.set_body_str(message);
        r
    }

    pub fn not_found_with_message(version: Version, message: &str) -> (r: Response)
        ensures
            r.version == version,
            r.status.0 == 404,
            r.body@ == message.spec_bytes(),
            !r.chunked,
    {
        Response::with_message(version, StatusCode::NOT_FOUND(), message)
    }

    pub fn forbidden_with_message(version: Version, message: &str) -> (r: Response)
        ensures
            r.version == version,
            r.status.0 == 403,
            r.body@ == message.spec_bytes(),
            !r.chunked,
    {
        Response::with_message(version, StatusCode::FORBIDDEN(), message)
    }

    pub fn method_not_allowed_with_message(version: Version, message: &str) -> (r: Response)
        ensures
            r.version == version,
            r.status.0 == 405,
            r.body@ == message.spec_bytes(),
            !r.chunked,
    {
        Response::with_message(version, StatusCode::METHOD_NOT_ALLOWED(), message)
    }

    pub fn internal_error_with_message(version: Version, message: &str) -> (r: Response)
        ensures
            r.version == version,
            r.status.0 == 500,
            r.body@ == message.spec_bytes(),
            !r.chunked,
    {
        Response::with_message(version, StatusCode::INTERNAL_SERVER_ERROR(), message)
    }

    pub fn bad_request_with_message(version: Version, message: &str) -> (r: Response)
        ensures
            r.version == version,
            r.status.0 == 400,
            r.body@ == message.spec_bytes(),
            !r.chunked,
    {
        Response::with_message(version, StatusCode::BAD_REQUEST(), message)
    }

    pub fn gateway_timeout_with_message(version: Version, message: &str) -> (r: Response)
        ensures
            r.version == version,
            r.status.0 == 504,
            r.body@ == message.spec_bytes(),
            !r.chunked,
    {
        Response::with_message(version, StatusCode::GATEWAY_TIMEOUT(), message)
    }

    pub fn set_content_type(&mut self, content_type: &str)
        ensures
            final(self).headers@ == set_entry(old(self).headers@, "Content-Type"@, content_type@),
            final(self).version == old(self).version,
            final(self).status == old(self).status,
            final(self).body == old(self).body,
            final(self).chunked == old(self).chunked,
    {
        self.headers.set("Content-Type".to_owned(), content_type.to_owned());
    }

    pub fn set_content_length(&mut self, length: usize)
        ensures
            final(self).headers@ == set_entry(old(self).headers@, "Content-Length"@, decimal(length as nat)),
            final(self).version == old(self).version,
            final(self).status == old(self).status,
            final(self).body == old(self).body,
            final(self).chunked == old(self).chunked,
    {
        self.headers.set("Content-Length".to_owned(), decimal_string(length as u64));
    }

    pub fn set_location(&mut self, location: &str)
        ensures
            final(self).headers@ == set_entry(old(self).headers@, "Location"@, location@),
            final(self).version == old(self).version,
            final(self).status == old(self).status,
            final(self).body == old(self).body,
            final(self).chunked == old(self).chunked,
    {
        self.headers.set("Location".to_owned(), location.to_owned());
    }

    pub fn set_connection(&mut self, connection: &str)
        ensures
            final(self).headers@ == set_entry(old(self).headers@, "Connection"@, connection@),
            final(self).version == old(self).version,
            final(self).status == old(self).status,
            final(self).body == old(self).body,
            final(self).chunked == old(self).chunked,
    {
        self.headers.set("Connection".to_owned(), connection.to_owned());
    }

    /// Replaces the body; unless chunked, `Content-Length` follows it.
    pub fn set_body(&mut self, body: Vec<u8>)
        ensures
            final(self).body@ == body@,
            final(self).headers@ == (if old(self).chunked {
                remove_entry(old(self).headers@, "Content-Length"@)
            } else {
                set_entry(old(self).headers@, "Content-Length"@, decimal(body@.len()))
            }),
            final(self).version == old(self).version,
            final(self).status == old(self).status,
            final(self).chunked == old(self).chunked,
    {
        self.body = body;
        if !self.chunked {
            let n = self.body.len();
            self.set_content_length(n);
        } else {
            self.headers.remove("Content-Length");
        }
    }

    /// Replaces the body by the UTF-8 bytes of `body`.
    pub fn set_body_str(&mut self, body: &str)
        ensures
            final(self).body@ == body.spec_bytes(),
            final(self).headers@ == (if old(self).chunked {
                remove_entry(old(self).headers@, "Content-Length"@)
            } else {
                set_entry(old(self).headers@, "Content-Length"@, decimal(body.spec_bytes().len()))
            }),
            final(self).version == old(self).version,
            final(self).status == old(self).status,
            final(self).chunked == old(self).chunked,
    {
        let bytes = body.as_bytes_vec();
        self.set_body(bytes);
    }

    /// Switches to chunked transfer coding: `Transfer-Encoding: chunked` is set
    /// and `Content-Length` dropped.
    pub fn set_chunked(&mut self)
        ensures
            final(self).chunked,
            final(self).headers@ == remove_entry(
                set_entry(old(self).headers@, "Transfer-Encoding"@, "chunked"@),
                "Content-Length"@,
            ),
            final(self).version == old(self).version,
            final(self).status == old(self).status,
            final(self).body == old(self).body,
    {
        self.chunked = true;
        self.headers.set("Transfer-Encoding".to_owned(), "chunked".to_owned());
        self.headers.remove("Content-Length");
    }

    /// The status allows a body and the body is not empty.
    pub fn has_body(&self) -> (r: bool)
        ensures
            r == (crate::status::body_allowed(self.status.0) && self.body@.len() > 0),
    {
        self.status.allows_body() && self.body.len() > 0
    }

    /// The body length, unless the body is chunked.
    pub fn content_length(&self) -> (r: Option<usize>)
        ensures
            r == (if self.chunked { None } else { Some(self.body@.len() as usize) }),
    {
        if self.chunked {
            None
        } else {
            Some(self.body.len())
        }
    }

    /// Adds a `Set-Cookie` line for `cookie`.
    pub fn add_cookie(&mut self, cookie: Cookie)
        ensures
            final(self).headers@ == add_entry(old(self).headers@, "Set-Cookie"@, set_cookie_text(cookie)),
            final(self).version == old(self).version,
            final(self).status == old(self).status,
            final(self).body == old(self).body,
            final(self).chunked == old(self).chunked,
    {
        let v = cookie.to_set_cookie_string();
        self.headers.add("Set-Cookie".to_owned(), v);
    }

    /// Tells the client to drop cookie `name`: an empty value with `Max-Age=0`.
    pub fn remove_cookie(&mut self, name: &str, path: Option<&str>)
        ensures
            final(self).headers@ == add_entry(
                old(self).headers@,
                "Set-Cookie"@,
                name@ + "="@ + match path {
                    Some(p) => "; Path="@ + p@,
                    None => Seq::<char>::empty(),
                } + "; Max-Age=0"@,
            ),
            final(self).version == old(self).version,
            final(self).status == old(self).status,
            final(self).body == old(self).body,
            final(self).chunked == old(self).chunked,
    {
        let mut cookie = Cookie::new(name.to_owned(), String::new()).set_max_age(0);
        if let Some(p) = path {
            cookie = cookie.set_path(p.to_owned());
        }
        proof {
            reveal_strlit("");
            assert(decimal(0) =~= "0"@) by {
                reveal_strlit("0");
            }
            assert(set_cookie_text(cookie) =~= name@ + "="@ + match path {
                Some(p) => "; Path="@ + p@,
                None => Seq::<char>::empty(),
            } + "; Max-Age=0"@) by {
                reveal_strlit("; Max-Age=");
                reveal_strlit("; Max-Age=0");
            }
        }
        self.add_cookie(cookie);
    }
}

} // verus!
