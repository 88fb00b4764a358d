//! Request methods.
use vstd::prelude::*;
use crate::text::eq_str;

verus! {

/// An HTTP request method.
#[allow(clippy::upper_case_acronyms)]
#[derive(Debug, Clone, Copy, PartialEq, Eq, Hash, Structural)]
pub enum Method {
    GET,
    POST,
    DELETE,
    PUT,
    PATCH,
    HEAD,
    OPTIONS,
    TRACE,
    CONNECT,
}

/// The error returned for an unknown method token.
#[derive(Debug, Clone)]
pub enum MethodParseError {
    InvalidMethod(String),
}

/// The wire form of a method.
pub open spec fn method_text(m: Method) -> Seq<char> {
    match m {
        Method::GET => "GET"@,
        Method::POST => "POST"@,
        Method::DELETE => "DELETE"@,
        Method::PUT => "PUT"@,
        Method::PATCH => "PATCH"@,
        Method::HEAD => "HEAD"@,
        Method::OPTIONS => "OPTIONS"@,
        Method::TRACE => "TRACE"@,
        Method::CONNECT => "CONNECT"@,
    }
}

/// Some method is written `s`.
pub open spec fn is_method_text(s: Seq<char>) -> bool {
    exists|m: Method| method_text(m) == s
}

/// Methods whose requests may carry a body.
pub open spec fn body_method(m: Method) -> bool {
    m == Method::POST || m == Method::PUT || m == Method::PATCH
}

impl Method {
    /// GET, HEAD, OPTIONS and TRACE do not change server state.
    pub fn is_safe(&self) -> (r: bool)
        ensures
            r == (*self == Method::GET || *self == Method::HEAD || *self == Method::OPTIONS
                || *self == Method::TRACE),
    {
        match self {
            Method::GET | Method::HEAD | Method::OPTIONS | Method::TRACE => true,
            _ => false,
        }
    }

    /// All methods but POST, PATCH and CONNECT can be repeated safely.
    pub fn is_idempotent(&self) -> (r: bool)
        ensures
            r == !(*self == Method::POST || *self == Method::PATCH || *self == Method::CONNECT),
    {
        match self {
            Method::POST | Method::PATCH | Method::CONNECT => false,
            _ => true,
        }
    }

    /// POST, PUT and PATCH carry a request body.
    pub fn allows_body(&self) -> (r: bool)
        ensures
            r == body_method(*self),
    {
        match self {
            Method::POST | Method::PUT | Method::PATCH => true,
            _ => false,
        }
    }

    /// The wire form, such as `GET`.
    pub fn as_str(&self) -> (r: &'static str)
        ensures
            r@ == method_text(*self),
    {
        match self {
            Method::GET => "GET",
            Method::POST => "POST",
            Method::DELETE => "DELETE",
            Method::PUT => "PUT",
            Method::PATCH => "PATCH",
            Method::HEAD => "HEAD",
            Method::OPTIONS => "OPTIONS",
            Method::TRACE => "TRACE",
            Method::CONNECT => "CONNECT",
        }
    }

    pub fn to_string(&self) -> (r: String)
        ensures
            r@ == method_text(*self),
    {
        self.as_str().to_owned()
    }

    /// The method whose wire form is `s` (exact, case-sensitive).
    pub fn from_str(s: &str) -> (r: Result<Method, MethodParseError>)
        ensures
            match r {
                Ok(m) => method_text(m) == s@,
                Err(MethodParseError::InvalidMethod(t)) => t@ == s@ && !is_method_text(s@),
            },
    {
        let all = [
            Method::GET,
            Method::POST,
            Method::DELETE,
            Method::PUT,
            Method::PATCH,
            Method::HEAD,
            Method::OPTIONS,
            Method::TRACE,
            Method::CONNECT,
        ];
        let mut i: usize = 0;
        while i < 9
            invariant
                all@ == seq![
                    Method::GET,
                    Method::POST,
                    Method::DELETE,
                    Method::PUT,
                    Method::PATCH,
                    Method::HEAD,
                    Method::OPTIONS,
                    Method::TRACE,
                    Method::CONNECT,
                ],
                i <= 9,
                forall|j: int| 0 <= j < i ==> method_text(all@[j]) != s@,
            decreases 9 - i,
        {
            let m = all[i];
            if eq_str(m.as_str(), s) {
                return Ok(m);
            }
            i = i + 1;
        }
        assert(!is_method_text(s@)) by {
            if exists|m: Method| method_text(m) == s@ {
                let m = choose|m: Method| method_text(m) == s@;
                match m {
                    Method::GET => assert(method_text(all@[0]) != s@),
                    Method::POST => assert(method_text(all@[1]) != s@),
                    Method::DELETE => assert(method_text(all@[2]) != s@),
                    Method::PUT => assert(method_text(all@[3]) != s@),
                    Method::PATCH => assert(method_text(all@[4]) != s@),
                    Method::HEAD => assert(method_text(all@[5]) != s@),
                    Method::OPTIONS => assert(method_text(all@[6]) != s@),
                    Method::TRACE => assert(method_text(all@[7]) != s@),
                    Method::CONNECT => assert(method_text(all@[8]) != s@),
                }
            }
        }
        Err(MethodParseError::InvalidMethod(s.to_owned()))
    }
}

} // verus!
