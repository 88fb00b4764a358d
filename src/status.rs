//! Response status codes.
use vstd::prelude::*;
use crate::text::{decimal, decimal_string};

verus! {

/// An HTTP status code in `100..=599`.
#[derive(Debug, Clone, Copy, PartialEq, Eq, Hash, Structural)]
pub struct StatusCode(pub u16);

/// The reason phrase sent after a status code.
pub open spec fn reason_of(code: u16) -> Seq<char> {
    if code == 200 { "OK"@ }
    else if code == 201 { "Created"@ }
    else if code == 204 { "No Content"@ }
    else if code == 301 { "Moved Permanently"@ }
    else if code == 302 { "Found"@ }
    else if code == 304 { "Not Modified"@ }
    else if code == 400 { "Bad Request"@ }
    else if code == 403 { "Forbidden"@ }
    else if code == 404 { "Not Found"@ }
    else if code == 405 { "Method Not Allowed"@ }
    else if code == 413 { "Payload Too Large"@ }
    else if code == 500 { "Internal Server Error"@ }
    else if code == 501 { "Not Implemented"@ }
    else if code == 502 { "Bad Gateway"@ }
    else if code == 503 { "Service Unavailable"@ }
    else if code == 504 { "Gateway Timeout"@ }
    else { "Unknown"@ }
}

/// Statuses whose responses carry no body: 1xx, 204 and 304.
pub open spec fn body_allowed(code: u16) -> bool {
    !(100 <= code < 200) && code != 204 && code != 304
}

impl StatusCode {
    #[allow(non_snake_case)]
    pub fn OK() -> (r: StatusCode)
        ensures
            r.0 == 200,
    {
        StatusCode(200)
    }
    #[allow(non_snake_case)]
    pub fn CREATED() -> (r: StatusCode)
        ensures
            r.0 == 201,
    {
        StatusCode(201)
    }
    #[allow(non_snake_case)]
    pub fn NO_CONTENT() -> (r: StatusCode)
        ensures
            r.0 == 204,
    {
        StatusCode(204)
    }
    #[allow(non_snake_case)]
    pub fn MOVED_PERMANENTLY() -> (r: StatusCode)
        ensures
            r.0 == 301,
    {
        StatusCode(301)
    }
    #[allow(non_snake_case)]
    pub fn FOUND() -> (r: StatusCode)
        ensures
            r.0 == 302,
    {
        StatusCode(302)
    }
    #[allow(non_snake_case)]
    pub fn NOT_MODIFIED() -> (r: StatusCode)
        ensures
            r.0 == 304,
    {
        StatusCode(304)
    }
    #[allow(non_snake_case)]
    pub fn BAD_REQUEST() -> (r: StatusCode)
        ensures
            r.0 == 400,
    {
        StatusCode(400)
    }
    #[allow(non_snake_case)]
    pub fn FORBIDDEN() -> (r: StatusCode)
        ensures
            r.0 == 403,
    {
        StatusCode(403)
    }
    #[allow(non_snake_case)]
    pub fn NOT_FOUND() -> (r: StatusCode)
        ensures
            r.0 == 404,
    {
        StatusCode(404)
    }
    #[allow(non_snake_case)]
    pub fn METHOD_NOT_ALLOWED() -> (r: StatusCode)
        ensures
            r.0 == 405,
    {
        StatusCode(405)
    }
    #[allow(non_snake_case)]
    pub fn PAYLOAD_TOO_LARGE() -> (r: StatusCode)
        ensures
            r.0 == 413,
    {
        StatusCode(413)
    }
    #[allow(non_snake_case)]
    pub fn INTERNAL_SERVER_ERROR() -> (r: StatusCode)
        ensures
            r.0 == 500,
    {
        StatusCode(500)
    }
    #[allow(non_snake_case)]
    pub fn NOT_IMPLEMENTED() -> (r: StatusCode)
        ensures
            r.0 == 501,
    {
        StatusCode(501)
    }
    #[allow(non_snake_case)]
    pub fn BAD_GATEWAY() -> (r: StatusCode)
        ensures
            r.0 == 502,
    {
        StatusCode(502)
    }
    #[allow(non_snake_case)]
    pub fn SERVICE_UNAVAILABLE() -> (r: StatusCode)
        ensures
            r.0 == 503,
    {
        StatusCode(503)
    }
    #[allow(non_snake_case)]
    pub fn GATEWAY_TIMEOUT() -> (r: StatusCode)
        ensures
            r.0 == 504,
    {
        StatusCode(504)
    }

    /// A status code, when `code` lies in `100..=599`.
    pub fn new(code: u16) -> (r: Option<StatusCode>)
        ensures
            r == (if 100 <= code <= 599 { Some(StatusCode(code)) } else { None::<StatusCode> }),
    {
        if code >= 100 && code <= 599 {
            Some(StatusCode(code))
        } else {
            None
        }
    }

    pub fn as_u16(&self) -> (r: u16)
        ensures
            r == self.0,
    {
        self.0
    }

    pub fn is_informational(&self) -> (r: bool)
        ensures
            r == (100 <= self.0 < 200),
    {
        self.0 >= 100 && self.0 < 200
    }

    pub fn is_success(&self) -> (r: bool)
        ensures
            r == (200 <= self.0 < 300),
    {
        self.0 >= 200 && self.0 < 300
    }

    pub fn is_redirection(&self) -> (r: bool)
        ensures
            r == (300 <= self.0 < 400),
    {
        self.0 >= 300 && self.0 < 400
    }

    pub fn is_client_error(&self) -> (r: bool)
        ensures
            r == (400 <= self.0 < 500),
    {
        self.0 >= 400 && self.0 < 500
    }

    pub fn is_server_error(&self) -> (r: bool)
        ensures
            r == (500 <= self.0 < 600),
    {
        self.0 >= 500 && self.0 < 600
    }

    /// Whether a response with this status may carry a body.
    pub fn allows_body(&self) -> (r: bool)
        ensures
            r == body_allowed(self.0),
    {
        !self.is_informational() && self.0 != 204 && self.0 != 304
    }

    pub fn reason_phrase(&self) -> (r: &'static str)
        ensures
            r@ == reason_of(self.0),
    {
        match self.0 {
            200 => "OK",
            201 => "Created",
            204 => "No Content",
            301 => "Moved Permanently",
            302 => "Found",
            304 => "Not Modified",
            400 => "Bad Request",
            403 => "Forbidden",
            404 => "Not Found",
            405 => "Method Not Allowed",
            413 => "Payload Too Large",
            500 => "Internal Server Error",
            501 => "Not Implemented",
            502 => "Bad Gateway",
            503 => "Service Unavailable",
            504 => "Gateway Timeout",
            _ => "Unknown",
        }
    }

    /// The numeric code in decimal.
    pub fn to_string(&self) -> (r: String)
        ensures
            r@ == decimal(self.0 as nat),
    {
        decimal_string(self.0 as u64)
    }
}

} // verus!
