//! Cookies: the `Set-Cookie` form and the `Cookie` request header.
use vstd::prelude::*;
use crate::clock::now_secs;
use crate::date::{http_date, imf_date};
use crate::params::{split_first, split_on, split_once, split_str, ParamMap};
use crate::text::{decimal, push_decimal, trim, trim_str};

verus! {

/// The `SameSite` attribute.
#[derive(Debug, Clone, Copy, PartialEq, Eq, Structural)]
pub enum SameSite {
    Strict,
    Lax,
    NoRestriction,
}

pub open spec fn same_site_text(s: SameSite) -> Seq<char> {
    match s {
        SameSite::Strict => "Strict"@,
        SameSite::Lax => "Lax"@,
        SameSite::NoRestriction => "None"@,
    }
}

/// A cookie with its attributes; `expires` is in seconds since the Unix epoch.
#[derive(Debug, Clone)]
pub struct Cookie {
    pub name: String,
    pub value: String,
    pub path: Option<String>,
    pub domain: Option<String>,
    pub expires: Option<u64>,
    pub max_age: Option<u64>,
    pub secure: bool,
    pub http_only: bool,
    pub same_site: Option<SameSite>,
}

pub open spec fn opt_attr(prefix: Seq<char>, v: Option<String>) -> Seq<char> {
    match v {
        Some(s) => prefix + s@,
        None => seq![],
    }
}

pub open spec fn expires_attr(e: Option<u64>) -> Seq<char> {
    match e {
        Some(e) => "; Expires="@ + imf_date(e as nat),
        None => seq![],
    }
}

pub open spec fn max_age_attr(a: Option<u64>) -> Seq<char> {
    match a {
        Some(a) => "; Max-Age="@ + decimal(a as nat),
        None => seq![],
    }
}

pub open spec fn flag_attr(on: bool, text: Seq<char>) -> Seq<char> {
    if on {
        text
    } else {
        seq![]
    }
}

pub open spec fn same_site_attr(s: Option<SameSite>) -> Seq<char> {
    match s {
        Some(s) => "; SameSite="@ + same_site_text(s),
        None => seq![],
    }
}

/// The `Set-Cookie` header value: `name=value` and then each attribute that is
/// set, all separated by `; `.
pub open spec fn set_cookie_text(c: Cookie) -> Seq<char> {
    c.name@ + "="@ + c.value@ + opt_attr("; Path="@, c.path) + opt_attr("; Domain="@, c.domain)
        + expires_attr(c.expires) + max_age_attr(c.max_age) + flag_attr(c.secure, "; Secure"@)
        + flag_attr(c.http_only, "; HttpOnly"@) + same_site_attr(c.same_site)
}

fn push_opt(s: &mut String, prefix: &str, v: &Option<String>)
    ensures
        final(s)@ == old(s)@ + match *v {
            Some(x) => prefix@ + x@,
            None => Seq::<char>::empty(),
        },
{
    if let Some(x) = v {
        s.append(prefix);
        s.append(x.as_str());
    }
    assert(final(s)@ =~= old(s)@ + match *v {
        Some(x) => prefix@ + x@,
        None => Seq::<char>::empty(),
    });
}

fn push_expires(s: &mut String, e: Option<u64>)
    ensures
        final(s)@ == old(s)@ + expires_attr(e),
{
    if let Some(e) = e {
        s.append("; Expires=");
        let t = http_date(e);
        s.append(t.as_str());
    }
    assert(final(s)@ =~= old(s)@ + expires_attr(e));
}

fn push_max_age(s: &mut String, a: Option<u64>)
    ensures
        final(s)@ == old(s)@ + max_age_attr(a),
{
    if let Some(a) = a {
        s.append("; Max-Age=");
        push_decimal(s, a);
    }
    assert(final(s)@ =~= old(s)@ + max_age_attr(a));
}

fn push_flags(s: &mut String, secure: bool, http_only: bool)
    ensures
        final(s)@ == old(s)@ + flag_attr(secure, "; Secure"@) + flag_attr(http_only, "; HttpOnly"@),
{
    let ghost s0 = s@;
    if secure {
        s.append("; Secure");
    }
    assert(s@ =~= s0 + flag_attr(secure, "; Secure"@));
    let ghost s1 = s@;
    if http_only {
        s.append("; HttpOnly");
    }
    assert(s@ =~= s1 + flag_attr(http_only, "; HttpOnly"@));
}

impl Cookie {
    /// A cookie with no attributes.
    pub fn new(name: String, value: String) -> (r: Cookie)
        ensures
            r.name == name,
            r.value == value,
            r.path is None,
            r.domain is None,
            r.expires is None,
            r.max_age is None,
            !r.secure,
            !r.http_only,
            r.same_site is None,
    {
        Cookie {
            name,
            value,
            path: None,
            domain: None,
            expires: None,
            max_age: None,
            secure: false,
            http_only: false,
            same_site: None,
        }
    }

    pub fn set_path(self, path: String) -> (r: Cookie)
        ensures
            r == (Cookie { path: Some(path), ..self }),
    {
        Cookie { path: Some(path), ..self }
    }

    pub fn set_domain(self, domain: String) -> (r: Cookie)
        ensures
            r == (Cookie { domain: Some(domain), ..self }),
    {
        Cookie { domain: Some(domain), ..self }
    }

    pub fn set_expires(self, expires: u64) -> (r: Cookie)
        ensures
            r == (Cookie { expires: Some(expires), ..self }),
    {
        Cookie { expires: Some(expires), ..self }
    }

    pub fn set_max_age(self, max_age: u64) -> (r: Cookie)
        ensures
            r == (Cookie { max_age: Some(max_age), ..self }),
    {
        Cookie { max_age: Some(max_age), ..self }
    }

    pub fn set_secure(self, secure: bool) -> (r: Cookie)
        ensures
            r == (Cookie { secure, ..self }),
    {
        Cookie { secure, ..self }
    }

    pub fn set_http_only(self, http_only: bool) -> (r: Cookie)
        ensures
            r == (Cookie { http_only, ..self }),
    {
        Cookie { http_only, ..self }
    }

    pub fn set_same_site(self, same_site: SameSite) -> (r: Cookie)
        ensures
            r == (Cookie { same_site: Some(same_site), ..self }),
    {
        Cookie { same_site: Some(same_site), ..self }
    }

    /// Expired at `now` (seconds since the epoch): only an `Expires` in the past counts.
    pub fn is_expired_at(&self, now: u64) -> (r: bool)
        ensures
            r == (match self.expires {
                Some(e) => now > e,
                None => false,
            }),
    {
        match self.expires {
            Some(e) => now > e,
            None => false,
        }
    }

    /// Expired by the wall clock.
    pub fn is_expired(&self) -> (r: bool)
        ensures
            self.expires is None ==> !r,
    {
        let now = now_secs();
        self.is_expired_at(now)
    }

    /// The `Set-Cookie` header value.
    pub fn to_set_cookie_string(&self) -> (r: String)
        ensures
            r@ == set_cookie_text(*self),
    {
        let mut s = self.name.clone();
        s.append("=");
        s.append(self.value.as_str());
        push_opt(&mut s, "; Path=", &self.path);
        push_opt(&mut s, "; Domain=", &self.domain);
        push_expires(&mut s, self.expires);
        push_max_age(&mut s, self.max_age);
        push_flags(&mut s, self.secure, self.http_only);
        let ghost p6 = s@;
        if let Some(ss) = self.same_site {
            s.append("; SameSite=");
            let t = match ss {
                SameSite::Strict => "Strict",
                SameSite::Lax => "Lax",
                SameSite::NoRestriction => "None",
            };
            s.append(t);
        }
        assert(s@ =~= p6 + same_site_attr(self.same_site));
        assert(s@ =~= set_cookie_text(*self));
        s
    }
}

/// The name/value pair in one `;`-separated piece of a `Cookie` header.
pub open spec fn cookie_pair(piece: Seq<char>) -> Option<(Seq<char>, Seq<char>)> {
    match split_first(trim(piece), '=') {
        Some((a, b)) => Some((trim(a), trim(b))),
        None => None,
    }
}

/// The pairs of all pieces that hold an `=`, in order.
pub open spec fn cookie_pairs(pieces: Seq<Seq<char>>) -> Seq<(Seq<char>, Seq<char>)>
    decreases pieces.len(),
{
    if pieces.len() == 0 {
        seq![]
    } else {
        let rest = cookie_pairs(pieces.drop_last());
        match cookie_pair(pieces.last()) {
            Some(p) => rest.push(p),
            None => rest,
        }
    }
}

/// Reads `name=value; name2=value2`; pieces without `=` are skipped, names and
/// values are trimmed, and a later pair hides an earlier one of the same name.
pub fn parse_cookie_header(cookie_header: &str) -> (r: ParamMap)
    ensures
        r@ == cookie_pairs(split_on(cookie_header@, ';')),
{
    let pieces = split_str(cookie_header, ';');
    let ghost ps = pieces@.map_values(|x: String| x@);
    let mut out = ParamMap::new();
    let mut i: usize = 0;
    assert(ps.subrange(0, 0).len() == 0);
    while i < pieces.len()
        invariant
            ps == pieces@.map_values(|x: String| x@),
            i <= pieces@.len(),
            out@ == cookie_pairs(ps.subrange(0, i as int)),
        decreases pieces@.len() - i,
    {
        let ghost pre = ps.subrange(0, i + 1);
        assert(pre.drop_last() =~= ps.subrange(0, i as int));
        assert(pre.last() == pieces@[i as int]@);
        let part = trim_str(pieces[i].as_str());
        match split_once(part.as_str(), '=') {
            Some((a, b)) => {
                let name = trim_str(a.as_str());
                let value = trim_str(b.as_str());
                out.insert(name, value);
            },
            None => {},
        }
        i = i + 1;
    }
    assert(ps.subrange(0, i as int) =~= ps);
    out
}

} // verus!
