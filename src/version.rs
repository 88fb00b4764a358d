//! Protocol versions.
use vstd::prelude::*;
use crate::text::eq_str;

verus! {

/// An HTTP protocol version.
#[derive(Debug, Clone, Copy, PartialEq, Eq, Hash, Structural)]
pub enum Version {
    Http09,
    Http10,
    Http11,
}

/// The error returned for an unknown version token.
#[derive(Debug, Clone)]
pub enum VersionParseError {
    InvalidVersion(String),
}

/// The wire form of a version.
pub open spec fn version_text(v: Version) -> Seq<char> {
    match v {
        Version::Http09 => "HTTP/0.9"@,
        Version::Http10 => "HTTP/1.0"@,
        Version::Http11 => "HTTP/1.1"@,
    }
}

impl Version {
    pub fn major(&self) -> (r: u8)
        ensures
            r == (if *self == Version::Http09 { 0u8 } else { 1u8 }),
    {
        match self {
            Version::Http09 => 0,
            Version::Http10 => 1,
            Version::Http11 => 1,
        }
    }

    pub fn minor(&self) -> (r: u8)
        ensures
            r == (match *self {
                Version::Http09 => 9u8,
                Version::Http10 => 0u8,
                Version::Http11 => 1u8,
            }),
    {
        match self {
            Version::Http09 => 9,
            Version::Http10 => 0,
            Version::Http11 => 1,
        }
    }

    /// HTTP/1.0 and HTTP/1.1 can keep a connection open.
    pub fn supports_keep_alive(&self) -> (r: bool)
        ensures
            r == (*self != Version::Http09),
    {
        match self {
            Version::Http09 => false,
            _ => true,
        }
    }

    /// Only HTTP/1.1 has chunked transfer coding.
    pub fn supports_chunked(&self) -> (r: bool)
        ensures
            r == (*self == Version::Http11),
    {
        match self {
            Version::Http11 => true,
            _ => false,
        }
    }

    /// The version whose wire form is `s`.
    pub fn from_str(s: &str) -> (r: Result<Version, VersionParseError>)
        ensures
            match r {
                Ok(v) => version_text(v) == s@,
                Err(VersionParseError::InvalidVersion(t)) => t@ == s@
                    && s@ != "HTTP/0.9"@ && s@ != "HTTP/1.0"@ && s@ != "HTTP/1.1"@,
            },
    {
        if eq_str(s, "HTTP/0.9") {
            Ok(Version::Http09)
        } else if eq_str(s, "HTTP/1.0") {
            Ok(Version::Http10)
        } else if eq_str(s, "HTTP/1.1") {
            Ok(Version::Http11)
        } else {
            Err(VersionParseError::InvalidVersion(s.to_owned()))
        }
    }

    /// The wire form, such as `HTTP/1.1`.
    pub fn as_str(&self) -> (r: &'static str)
        ensures
            r@ == version_text(*self),
    {
        match self {
            Version::Http09 => "HTTP/0.9",
            Version::Http10 => "HTTP/1.0",
            Version::Http11 => "HTTP/1.1",
        }
    }

    pub fn to_string(&self) -> (r: String)
        ensures
            r@ == version_text(*self),
    {
        self.as_str().to_owned()
    }
}

impl Default for Version {
    fn default() -> (r: Version)
        ensures
            r == Version::Http11,
    {
        Version::Http11
    }
}

} // verus!
