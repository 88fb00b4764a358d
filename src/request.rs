//! Parsed requests.
use vstd::prelude::*;
use crate::cookie::{cookie_pairs, parse_cookie_header};
use crate::headers::{first_value, HeaderEntry, Headers};
use crate::method::{body_method, Method};
use crate::params::{lookup, split_first, split_on, split_once, split_str, url_decode, url_decoded, ParamMap};
use crate::text::{all_digits, digits_value, eq_ignore_case, eq_nocase, find_char, parse_decimal};
use crate::version::Version;

verus! {

/// The path part of a request target: everything before the first `?`.
pub open spec fn path_of(target: Seq<char>) -> Seq<char> {
    match split_first(target, '?') {
        Some((p, _)) => p,
        None => target,
    }
}

/// The query part of a request target: everything after the first `?`.
pub open spec fn query_of(target: Seq<char>) -> Option<Seq<char>> {
    match split_first(target, '?') {
        Some((_, q)) => Some(q),
        None => None,
    }
}

/// One `&`-separated piece of a query as a decoded pair; empty pieces give none.
pub open spec fn query_pair(piece: Seq<char>) -> Option<(Seq<char>, Seq<char>)> {
    match split_first(piece, '=') {
        Some((k, v)) => Some((url_decoded(k), url_decoded(v))),
        None => if piece.len() > 0 {
            Some((url_decoded(piece), Seq::<char>::empty()))
        } else {
            None
        },
    }
}

/// The decoded pairs of all query pieces, in order.
pub open spec fn query_pairs(pieces: Seq<Seq<char>>) -> Seq<(Seq<char>, Seq<char>)>
    decreases pieces.len(),
{
    if pieces.len() == 0 {
        seq![]
    } else {
        let rest = query_pairs(pieces.drop_last());
        match query_pair(pieces.last()) {
            Some(p) => rest.push(p),
            None => rest,
        }
    }
}

/// The `Content-Length` of headers: a run of decimal digits that fits in `usize`.
pub open spec fn content_length_of(h: Seq<HeaderEntry>) -> Option<usize> {
    match first_value(h, "Content-Length"@) {
        Some(v) => if v.len() > 0 && all_digits(v) && digits_value(v, 10) <= usize::MAX {
            Some(digits_value(v, 10) as usize)
        } else {
            None
        },
        None => None,
    }
}

/// Headers ask for chunked transfer coding.
pub open spec fn chunked_of(h: Seq<HeaderEntry>) -> bool {
    match first_value(h, "Transfer-Encoding"@) {
        Some(v) => eq_nocase(v, "chunked"@),
        None => false,
    }
}

/// The connection stays open after this exchange: a `Connection` header keeps
/// it only when it says `keep-alive`; without one, HTTP/1.0 and 1.1 keep it.
pub open spec fn keep_alive_of(h: Seq<HeaderEntry>, v: Version) -> bool {
    match first_value(h, "Connection"@) {
        Some(c) => eq_nocase(c, "keep-alive"@),
        None => v != Version::Http09,
    }
}

/// An HTTP request.
#[derive(Debug, Clone)]
pub struct Request {
    pub method: Method,
    /// Path and query as sent.
    pub target: String,
    pub version: Version,
    pub headers: Headers,
    pub body: Vec<u8>,
    pub query_params: ParamMap,
}

impl Request {
    /// A request with no headers, body or parameters.
    pub fn new(method: Method, target: String, version: Version) -> (r: Request)
        ensures
            r.method == method,
            r.target == target,
            r.version == version,
            r.headers@ == Seq::<HeaderEntry>::empty(),
            r.body@ == Seq::<u8>::empty(),
            r.query_params@ == Seq::<(Seq<char>, Seq<char>)>::empty(),
    {
        Request {
            method,
            target,
            version,
            headers: Headers::new(),
            body: Vec::new(),
            query_params: ParamMap::new(),
        }
    }

    /// The target without its query.
    pub fn path(&self) -> (r: &str)
        ensures
            r@ == path_of(self.target@),
    {
        let t = self.target.as_str();
        match find_char(t, '?') {
            Some(k) => {
                proof {
                    let l = t@;
                    let k2 = choose|j: int|
                        0 <= j < l.len() && l[j] == '?' && forall|m: int| 0 <= m < j ==> l[m] != '?';
                    assert(exists|j: int| 0 <= j < l.len() && l[j] == '?');
                    assert(l[k as int] == '?' && forall|m: int| 0 <= m < k ==> l[m] != '?');
                    if k2 < k {
                        assert(l[k2] != '?');
                    } else if k2 > k {
                        assert(l[k as int] != '?');
                    }
                }
                t.substring_char(0, k)
            },
            None => t,
        }
    }

    /// The query, when the target has a `?`.
    pub fn query_string(&self) -> (r: Option<&str>)
        ensures
            match r {
                Some(q) => query_of(self.target@) == Some(q@),
                None => query_of(self.target@) is None,
            },
    {
        let t = self.target.as_str();
        match find_char(t, '?') {
            Some(k) => {
                proof {
                    let l = t@;
                    let k2 = choose|j: int|
                        0 <= j < l.len() && l[j] == '?' && forall|m: int| 0 <= m < j ==> l[m] != '?';
                    assert(exists|j: int| 0 <= j < l.len() && l[j] == '?');
                    assert(l[k as int] == '?' && forall|m: int| 0 <= m < k ==> l[m] != '?');
                    if k2 < k {
                        assert(l[k2] != '?');
                    } else if k2 > k {
                        assert(l[k as int] != '?');
                    }
                }
                let n = t.unicode_len();
                Some(t.substring_char(k + 1, n))
            },
            None => None,
        }
    }

    /// Adds the decoded `key=value` pairs of the query to `query_params`.
    pub fn parse_query_params(&mut self)
        ensures
            final(self).method == old(self).method,
            final(self).target == old(self).target,
            final(self).version == old(self).version,
            final(self).headers == old(self).headers,
            final(self).body == old(self).body,
            final(self).query_params@ == old(self).query_params@ + match query_of(old(self).target@) {
                Some(q) => query_pairs(split_on(q, '&')),
                None => Seq::<(Seq<char>, Seq<char>)>::empty(),
            },
    {
        let q = match self.query_string() {
            Some(q) => q.to_owned(),
            None => {
                assert(old(self).query_params@ =~= old(self).query_params@ + Seq::<(Seq<char>, Seq<char>)>::empty());
                return;
            },
        };
        let pieces = split_str(q.as_str(), '&');
        let ghost ps = pieces@.map_values(|x: String| x@);
        let ghost base = self.query_params@;
        let mut i: usize = 0;
        assert(ps.subrange(0, 0).len() == 0);
        assert(base =~= base + query_pairs(ps.subrange(0, 0)));
        while i < pieces.len()
            invariant
                ps == pieces@.map_values(|x: String| x@),
                i <= pieces@.len(),
                self.method == old(self).method,
                self.target == old(self).target,
                self.version == old(self).version,
                self.headers == old(self).headers,
                self.body == old(self).body,
                self.query_params@ == base + query_pairs(ps.subrange(0, i as int)),
            decreases pieces@.len() - i,
        {
            let ghost pre = ps.subrange(0, i + 1);
            assert(pre.drop_last() =~= ps.subrange(0, i as int));
            assert(pre.last() == pieces@[i as int]@);
            let piece = pieces[i].as_str();
            match split_once(piece, '=') {
                Some((k, v)) => {
                    let key = url_decode(k.as_str());
                    let value = url_decode(v.as_str());
                    self.query_params.insert(key, value);
                    assert(self.query_params@ =~= base + query_pairs(pre));
                },
                None => {
                    if piece.unicode_len() > 0 {
                        let key = url_decode(piece);
                        self.query_params.insert(key, String::new());
                        assert(self.query_params@ =~= base + query_pairs(pre));
                    }
                },
            }
            i = i + 1;
        }
        assert(ps.subrange(0, i as int) =~= ps);
    }

    /// The `Content-Length` header read as a number.
    pub fn content_length(&self) -> (r: Option<usize>)
        ensures
            r == content_length_of(self.headers@),
    {
        match self.headers.get("Content-Length") {
            Some(v) => parse_decimal(v.as_str()),
            None => None,
        }
    }

    /// The method carries a body and a positive `Content-Length` is declared.
    pub fn has_body(&self) -> (r: bool)
        ensures
            r == (body_method(self.method) && match content_length_of(self.headers@) {
                Some(n) => n > 0,
                None => false,
            }),
    {
        if !self.method.allows_body() {
            return false;
        }
        match self.content_length() {
            Some(n) => n > 0,
            None => false,
        }
    }

    pub fn host(&self) -> (r: Option<&String>)
        ensures
            match r {
                Some(v) => first_value(self.headers@, "Host"@) == Some(v@),
                None => first_value(self.headers@, "Host"@) is None,
            },
    {
        self.headers.get("Host")
    }

    pub fn connection(&self) -> (r: Option<&String>)
        ensures
            match r {
                Some(v) => first_value(self.headers@, "Connection"@) == Some(v@),
                None => first_value(self.headers@, "Connection"@) is None,
            },
    {
        self.headers.get("Connection")
    }

    /// Whether the connection stays open after the response.
    pub fn should_keep_alive(&self) -> (r: bool)
        ensures
            r == keep_alive_of(self.headers@, self.version),
    {
        match self.connection() {
            Some(c) => eq_ignore_case(c.as_str(), "keep-alive"),
            None => self.version.supports_keep_alive(),
        }
    }

    pub fn transfer_encoding(&self) -> (r: Option<&String>)
        ensures
            match r {
                Some(v) => first_value(self.headers@, "Transfer-Encoding"@) == Some(v@),
                None => first_value(self.headers@, "Transfer-Encoding"@) is None,
            },
    {
        self.headers.get("Transfer-Encoding")
    }

    /// `Transfer-Encoding: chunked`, without regard to case.
    pub fn is_chunked(&self) -> (r: bool)
        ensures
            r == chunked_of(self.headers@),
    {
        match self.transfer_encoding() {
            Some(v) => eq_ignore_case(v.as_str(), "chunked"),
            None => false,
        }
    }

    pub fn content_type(&self) -> (r: Option<&String>)
        ensures
            match r {
                Some(v) => first_value(self.headers@, "Content-Type"@) == Some(v@),
                None => first_value(self.headers@, "Content-Type"@) is None,
            },
    {
        self.headers.get("Content-Type")
    }

    /// The cookies of the `Cookie` header.
    pub fn cookies(&self) -> (r: ParamMap)
        ensures
            r@ == match first_value(self.headers@, "Cookie"@) {
                Some(v) => cookie_pairs(split_on(v, ';')),
                None => Seq::<(Seq<char>, Seq<char>)>::empty(),
            },
    {
        match self.headers.get("Cookie") {
            Some(v) => parse_cookie_header(v.as_str()),
            None => ParamMap::new(),
        }
    }

    /// The value of one cookie.
    pub fn cookie(&self, name: &str) -> (r: Option<String>)
        ensures
            match r {
                Some(v) => lookup(self.cookies_spec(), name@) == Some(v@),
                None => lookup(self.cookies_spec(), name@) is None,
            },
    {
        let c = self.cookies();
        match c.get(name) {
            Some(v) => Some(v.clone()),
            None => None,
        }
    }

    pub open spec fn cookies_spec(&self) -> Seq<(Seq<char>, Seq<char>)> {
        match first_value(self.headers@, "Cookie"@) {
            Some(v) => cookie_pairs(split_on(v, ';')),
            None => Seq::<(Seq<char>, Seq<char>)>::empty(),
        }
    }
}

} // verus!
