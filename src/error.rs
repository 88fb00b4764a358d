//! The library's error type.
use vstd::prelude::*;

verus! {

/// What went wrong, with a short description.
#[derive(Debug, Clone, PartialEq, Eq)]
pub enum ServerError {
    IoError(String),
    ConfigError(String),
    ParseError(String),
    NetworkError(String),
    HttpError(String),
    CgiError(String),
    TimeoutError(String),
}

/// The message shown for an error: its kind, then its description.
pub open spec fn error_text(e: ServerError) -> Seq<char> {
    match e {
        ServerError::IoError(m) => "IO error: "@ + m@,
        ServerError::ConfigError(m) => "Configuration error: "@ + m@,
        ServerError::ParseError(m) => "Parse error: "@ + m@,
        ServerError::NetworkError(m) => "Network error: "@ + m@,
        ServerError::HttpError(m) => "HTTP error: "@ + m@,
        ServerError::CgiError(m) => "CGI error: "@ + m@,
        ServerError::TimeoutError(m) => "Timeout error: "@ + m@,
    }
}

impl ServerError {
    /// The message shown for this error.
    pub fn to_string(&self) -> (r: String)
        ensures
            r@ == error_text(*self),
    {
        let (prefix, msg) = match self {
            ServerError::IoError(m) => ("IO error: ", m),
            ServerError::ConfigError(m) => ("Configuration error: ", m),
            ServerError::ParseError(m) => ("Parse error: ", m),
            ServerError::NetworkError(m) => ("Network error: ", m),
            ServerError::HttpError(m) => ("HTTP error: ", m),
            ServerError::CgiError(m) => ("CGI error: ", m),
            ServerError::TimeoutError(m) => ("Timeout error: ", m),
        };
        let mut s = prefix.to_owned();
        s.append(msg.as_str());
        s
    }
}

} // verus!
