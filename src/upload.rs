//! Uploads: where the file name and media type come from, which media types
//! are accepted, how a free name is found, and the reply.
use vstd::prelude::*;
use vstd::string::*;
use crate::buffer::{find_bytes, occurs_at};
use vstd::utf8::{decode_utf8, encode_utf8, valid_utf8};
use crate::handlers::{extension, extension_of, mime_for};
use crate::response::Response;
use crate::request::Request;
use crate::method::Method;
use crate::headers::first_value;
use crate::router::Router;
use crate::status::StatusCode;
use crate::text::{decimal, eq_ignore_case, eq_nocase, find_sub, push_decimal, rfind_char, sub_at, substring, trim, trim_str};
use crate::version::Version;

verus! {

/// The media types an upload may have.
pub open spec fn allowed_mime(m: Seq<char>) -> bool {
    eq_nocase(m, "text/html"@) || eq_nocase(m, "text/css"@) || eq_nocase(m, "application/javascript"@)
        || eq_nocase(m, "application/json"@) || eq_nocase(m, "text/plain"@) || eq_nocase(m, "application/xml"@)
        || eq_nocase(m, "application/pdf"@) || eq_nocase(m, "application/zip"@) || eq_nocase(m, "image/png"@)
        || eq_nocase(m, "image/jpeg"@) || eq_nocase(m, "image/gif"@) || eq_nocase(m, "image/webp"@)
        || eq_nocase(m, "image/svg+xml"@) || eq_nocase(m, "image/x-icon"@) || eq_nocase(m, "video/mp4"@)
        || eq_nocase(m, "audio/mpeg"@)
}

pub fn is_allowed_mime(m: &str) -> (r: bool)
    ensures
        r == allowed_mime(m@),
{
    eq_ignore_case(m, "text/html") || eq_ignore_case(m, "text/css") || eq_ignore_case(m, "application/javascript")
        || eq_ignore_case(m, "application/json") || eq_ignore_case(m, "text/plain") || eq_ignore_case(
        m,
        "application/xml",
    ) || eq_ignore_case(m, "application/pdf") || eq_ignore_case(m, "application/zip") || eq_ignore_case(
        m,
        "image/png",
    ) || eq_ignore_case(m, "image/jpeg") || eq_ignore_case(m, "image/gif") || eq_ignore_case(m, "image/webp")
        || eq_ignore_case(m, "image/svg+xml") || eq_ignore_case(m, "image/x-icon") || eq_ignore_case(
        m,
        "video/mp4",
    ) || eq_ignore_case(m, "audio/mpeg")
}

/// A media type without its parameters, trimmed.
pub open spec fn essence(t: Seq<char>) -> Seq<char> {
    match crate::params::split_first(t, ';') {
        Some((a, _)) => trim(a),
        None => trim(t),
    }
}

/// The media type an upload is stored under: the declared one when given,
/// else the one its file name implies; none when that is not accepted.
pub open spec fn upload_mime_of(declared: Option<Seq<char>>, filename: Seq<char>) -> Option<Seq<char>> {
    let m = match declared {
        Some(t) => essence(t),
        None => mime_for(extension_of(filename)),
    };
    if allowed_mime(m) {
        Some(m)
    } else {
        None
    }
}

/// The media type an upload is stored under, if accepted.
pub fn upload_mime(declared: Option<&str>, filename: &str) -> (r: Option<String>)
    ensures
        match r {
            Some(m) => upload_mime_of(
                match declared {
                    Some(t) => Some(t@),
                    None => None,
                },
                filename@,
            ) == Some(m@),
            None => upload_mime_of(
                match declared {
                    Some(t) => Some(t@),
                    None => None,
                },
                filename@,
            ) is None,
        },
{
    let m = match declared {
        Some(t) => match crate::params::split_once(t, ';') {
            Some((a, _)) => trim_str(a.as_str()),
            None => trim_str(t),
        },
        None => crate::handlers::mime_type(filename).to_owned(),
    };
    if is_allowed_mime(m.as_str()) {
        Some(m)
    } else {
        None
    }
}

/// A file name without any directory part (either slash).
pub open spec fn basename_of(name: Seq<char>) -> Seq<char> {
    if exists|i: int| 0 <= i < name.len() && (name[i] == '/' || name[i] == '\\') {
        let k = choose|i: int|
            0 <= i < name.len() && (name[i] == '/' || name[i] == '\\') && forall|j: int|
                i < j < name.len() ==> !(name[j] == '/' || name[j] == '\\');
        name.subrange(k + 1, name.len() as int)
    } else {
        name
    }
}

/// A file name without any directory part.
pub fn basename(name: &str) -> (r: String)
    ensures
        r@ == basename_of(name@),
        forall|k: int| 0 <= k < r@.len() ==> r@[k] != '/' && r@[k] != '\\',
{
    let n = name.unicode_len();
    let mut i: usize = n;
    while i > 0
        invariant
            n == name@.len(),
            i <= n,
            forall|j: int| i <= j < n ==> !(name@[j] == '/' || name@[j] == '\\'),
        decreases i,
    {
        let c = name.get_char(i - 1);
        if c == '/' || c == '\\' {
            proof {
                let l = name@;
                let k = (i - 1) as int;
                let k2 = choose|x: int|
                    0 <= x < l.len() && (l[x] == '/' || l[x] == '\\') && forall|j: int|
                        x < j < l.len() ==> !(l[j] == '/' || l[j] == '\\');
                assert(0 <= k < l.len() && (l[k] == '/' || l[k] == '\\'));
                if k2 < k {
                    assert(!(l[k] == '/' || l[k] == '\\'));
                } else if k2 > k {
                    assert(!(l[k2] == '/' || l[k2] == '\\'));
                }
            }
            return substring(name, i, n);
        }
        i = i - 1;
    }
    name.to_owned()
}

/// The `filename` parameter of a `Content-Disposition` value: what follows
/// `filename=` up to the next `;`, trimmed, with one pair of quotes removed.
pub open spec fn disposition_filename_of(h: Seq<char>) -> Option<Seq<char>> {
    if exists|i: int| sub_at(h, "filename="@, i) {
        let i = choose|i: int| sub_at(h, "filename="@, i) && forall|j: int| 0 <= j < i ==> !sub_at(h, "filename="@, j);
        let rest = h.subrange(i + 9, h.len() as int);
        let v = trim(match crate::params::split_first(rest, ';') {
            Some((a, _)) => a,
            None => rest,
        });
        Some(unquote(v))
    } else {
        None
    }
}

/// `v` without one pair of surrounding double or single quotes.
pub open spec fn unquote(v: Seq<char>) -> Seq<char> {
    if v.len() >= 2 && ((v[0] == '"' && v.last() == '"') || (v[0] == '\'' && v.last() == '\'')) {
        v.subrange(1, v.len() - 1)
    } else {
        v
    }
}

/// The file name a `Content-Disposition` value gives.
pub fn disposition_filename(header: &str) -> (r: Option<String>)
    ensures
        match r {
            Some(f) => disposition_filename_of(header@) == Some(f@),
            None => disposition_filename_of(header@) is None,
        },
{
    proof {
        reveal_strlit("filename=");
    }
    match find_sub(header, "filename=") {
        Some(i) => {
            let n = header.unicode_len();
            let rest = substring(header, i + 9, n);
            let v = match crate::params::split_once(rest.as_str(), ';') {
                Some((a, _)) => trim_str(a.as_str()),
                None => trim_str(rest.as_str()),
            };
            let m = v.as_str().unicode_len();
            let out = if m >= 2 && ((v.as_str().get_char(0) == '"' && v.as_str().get_char(m - 1) == '"') || (
            v.as_str().get_char(0) == '\'' && v.as_str().get_char(m - 1) == '\'')) {
                substring(v.as_str(), 1, m - 1)
            } else {
                v
            };
            proof {
                let h = header@;
                let p = "filename="@;
                let k2 = choose|x: int| sub_at(h, p, x) && forall|j: int| 0 <= j < x ==> !sub_at(h, p, j);
                assert(sub_at(h, p, i as int));
                if k2 < i {
                    assert(!sub_at(h, p, k2));
                } else if k2 > i {
                    assert(!sub_at(h, p, i as int));
                }
            }
            Some(out)
        },
        None => None,
    }
}

/// `name` with `_n` put before its extension (or at the end without one).
pub open spec fn numbered(name: Seq<char>, n: nat) -> Seq<char> {
    match dot_split(name) {
        Some((stem, ext)) => stem + "_"@ + decimal(n) + "."@ + ext,
        None => name + "_"@ + decimal(n),
    }
}

/// A name split at its last `.`, when that dot is not the first character.
pub open spec fn dot_split(name: Seq<char>) -> Option<(Seq<char>, Seq<char>)> {
    if exists|i: int| 0 < i < name.len() && name[i] == '.' && forall|j: int| i < j < name.len() ==> name[j] != '.' {
        let k = choose|i: int| 0 < i < name.len() && name[i] == '.' && forall|j: int| i < j < name.len() ==> name[j] != '.';
        Some((name.subrange(0, k), name.subrange(k + 1, name.len() as int)))
    } else {
        None
    }
}

fn numbered_name(name: &str, n: u64) -> (r: String)
    ensures
        r@ == numbered(name@, n as nat),
{
    match rfind_char(name, '.') {
        Some(k) => {
            if k > 0 {
                let len = name.unicode_len();
                proof {
                    let l = name@;
                    assert(0 < k < l.len() && l[k as int] == '.' && forall|j: int| k < j < l.len() ==> l[j] != '.');
                    let k2 = choose|i: int| 0 < i < l.len() && l[i] == '.' && forall|j: int| i < j < l.len() ==> l[j] != '.';
                    if k2 < k {
                        assert(l[k as int] != '.');
                    } else if k2 > k {
                        assert(l[k2] != '.');
                    }
                }
                let mut s = substring(name, 0, k);
                s.append("_");
                push_decimal(&mut s, n);
                s.append(".");
                let ext = substring(name, k + 1, len);
                s.append(ext.as_str());
                return s;
            }
            proof {
                let l = name@;
                if exists|i: int| 0 < i < l.len() && l[i] == '.' && forall|j: int| i < j < l.len() ==> l[j] != '.' {
                    let k2 = choose|i: int| 0 < i < l.len() && l[i] == '.' && forall|j: int| i < j < l.len() ==> l[j] != '.';
                    assert(l[k2] != '.');
                }
            }
        },
        None => {},
    }
    let mut s = name.to_owned();
    s.append("_");
    push_decimal(&mut s, n);
    s
}

/// Some entry of `taken` is `x`.
pub open spec fn is_taken(taken: Seq<String>, x: Seq<char>) -> bool {
    exists|i: int| 0 <= i < taken.len() && taken[i]@ == x
}

/// Numbering a name with different numbers gives different names.
proof fn lemma_numbered_injective(name: Seq<char>, a: nat, b: nat)
    requires
        numbered(name, a) == numbered(name, b),
    ensures
        a == b,
{
    reveal_strlit("_");
    reveal_strlit(".");
    let x = numbered(name, a);
    let y = numbered(name, b);
    match dot_split(name) {
        Some((stem, ext)) => {
            let l: int = stem.len() as int + 1;
            assert(x.len() == l + decimal(a).len() + 1 + ext.len());
            assert(y.len() == l + decimal(b).len() + 1 + ext.len());
            assert(x.subrange(l, l + decimal(a).len() as int) =~= decimal(a));
            assert(y.subrange(l, l + decimal(b).len() as int) =~= decimal(b));
        },
        None => {
            let l: int = name.len() as int + 1;
            assert(x.subrange(l, x.len() as int) =~= decimal(a));
            assert(y.subrange(l, y.len() as int) =~= decimal(b));
        },
    }
    crate::text::lemma_decimal_injective(a, b);
}

/// Distinct positions below `m` number at most `m`.
proof fn lemma_distinct_below(hits: Seq<int>, m: int)
    requires
        hits.no_duplicates(),
        0 <= m,
        forall|k: int| 0 <= k < hits.len() ==> 0 <= #[trigger] hits[k] < m,
    ensures
        hits.len() <= m,
{
    hits.unique_seq_to_set();
    vstd::set_lib::lemma_int_range(0, m);
    assert(hits.to_set().subset_of(vstd::set_lib::set_int_range(0, m))) by {
        assert forall|v: int| hits.to_set().contains(v) implies vstd::set_lib::set_int_range(0, m).contains(v) by {
            let k = choose|k: int| 0 <= k < hits.len() && hits[k] == v;
        }
    }
    vstd::set_lib::lemma_len_subset(hits.to_set(), vstd::set_lib::set_int_range(0, m));
}

fn taken_index(taken: &Vec<String>, name: &str) -> (r: Option<usize>)
    ensures
        match r {
            Some(i) => i < taken@.len() && taken@[i as int]@ == name@,
            None => !is_taken(taken@, name@),
        },
{
    let mut i: usize = 0;
    while i < taken.len()
        invariant
            i <= taken@.len(),
            forall|j: int| 0 <= j < i ==> taken@[j]@ != name@,
        decreases taken@.len() - i,
    {
        if crate::text::eq_str(taken[i].as_str(), name) {
            return Some(i);
        }
        i = i + 1;
    }
    None
}

/// A name for the upload that is not in `taken`: `name` itself when free,
/// else `name` numbered `_1`, `_2`, ... with the first free number.
pub fn unique_name(name: &str, taken: &Vec<String>) -> (r: Option<String>)
    ensures
        r matches Some(x) ==> !is_taken(taken@, x@) && (x@ == name@ || exists|n: nat|
            1 <= n && x@ == numbered(name@, n) && forall|k: nat| 1 <= k < n ==> is_taken(taken@, #[trigger] numbered(name@, k))),
        !is_taken(taken@, name@) ==> (r matches Some(x) && x@ == name@),
        taken@.len() + 2 < u64::MAX ==> r is Some,
{
    if taken_index(taken, name).is_none() {
        return Some(name.to_owned());
    }
    let m = taken.len();
    let limit: u64 = if m as u64 >= u64::MAX - 1 { u64::MAX - 1 } else { m as u64 + 1 };
    let mut n: u64 = 1;
    let ghost mut hits: Seq<int> = seq![];
    while n <= limit
        invariant
            1 <= n,
            limit < u64::MAX,
            m == taken@.len(),
            m + 2 < u64::MAX ==> limit == m + 1,
            is_taken(taken@, name@),
            hits.len() == n - 1,
            hits.no_duplicates(),
            forall|k: int| 0 <= k < hits.len() ==> 0 <= #[trigger] hits[k] < m,
            forall|k: int| 0 <= k < hits.len() ==> taken@[hits[k]]@ == numbered(name@, (k + 1) as nat),
            forall|k: nat| 1 <= k < n ==> is_taken(taken@, #[trigger] numbered(name@, k)),
        decreases limit + 1 - n,
    {
        let candidate = numbered_name(name, n);
        match taken_index(taken, candidate.as_str()) {
            None => {
                return Some(candidate);
            },
            Some(i) => {
                proof {
                    assert forall|k: int| 0 <= k < hits.len() implies hits[k] != i by {
                        if hits[k] == i {
                            lemma_numbered_injective(name@, (k + 1) as nat, n as nat);
                        }
                    }
                    let h2 = hits.push(i as int);
                    assert forall|a: int, b: int| 0 <= a < h2.len() && 0 <= b < h2.len() && a != b implies h2[a] != h2[b] by {
                        if a < hits.len() && b < hits.len() {
                        } else if a == hits.len() {
                            assert(h2[b] == hits[b]);
                        } else {
                            assert(h2[a] == hits[a]);
                        }
                    }
                    assert forall|k: nat| 1 <= k < n + 1 implies is_taken(taken@, #[trigger] numbered(name@, k)) by {
                        if k == n {
                            assert(taken@[i as int]@ == numbered(name@, k));
                        }
                    }
                    hits = h2;
                }
            },
        }
        n = n + 1;
    }
    proof {
        if m + 2 < u64::MAX {
            lemma_distinct_below(hits, m as int);
        }
    }
    None
}

/// The reply to a stored upload: 201 with a JSON description.
pub open spec fn upload_json(filename: Seq<char>, mime: Seq<char>) -> Seq<char> {
    "{\"status\": \"success\", \"message\": \"File uploaded successfully\", \"filename\": \""@ + filename
        + "\", \"mime_type\": \""@ + mime + "\"}"@
}

/// Stores uploads in a directory.
pub struct UploadHandler {
    router: Router,
    upload_dir: String,
}

impl UploadHandler {
    pub fn new(router: Router, upload_dir: String) -> (r: UploadHandler)
        ensures
            r.router() == router,
            r.dir() == upload_dir@,
    {
        UploadHandler { router, upload_dir }
    }

    pub closed spec fn router(&self) -> Router {
        self.router
    }

    pub closed spec fn dir(&self) -> Seq<char> {
        self.upload_dir@
    }

    pub fn upload_dir(&self) -> (r: &str)
        ensures
            r@ == self.dir(),
    {
        self.upload_dir.as_str()
    }

    /// 201 Created with the stored name and media type as JSON.
    pub fn created_response(version: Version, filename: &str, mime: &str) -> (r: Response)
        ensures
            r.status.0 == 201,
            r.version == version,
            r.body@ == crate::utf8::encode(upload_json(filename@, mime@)),
            !r.chunked,
    {
        let mut resp = Response::new(version, StatusCode::CREATED());
        resp.set_content_type("application/json");
        let mut json = "{\"status\": \"success\", \"message\": \"File uploaded successfully\", \"filename\": \"".to_owned();
        json.append(filename);
        json.append("\", \"mime_type\": \"");
        json.append(mime);
        json.append("\"}");
        assert(json@ =~= upload_json(filename@, mime@));
        resp.set_body_str(json.as_str());
        resp
    }
}

/// A multipart file part: the file name and media type its headers give, and its bytes.
pub struct FilePart {
    pub filename: String,
    pub content_type: Option<String>,
    pub data: Vec<u8>,
}

/// The first position of `pat` in `s`.
pub open spec fn first_sub(s: Seq<char>, pat: Seq<char>) -> int {
    choose|i: int| sub_at(s, pat, i) && forall|j: int| 0 <= j < i ==> !sub_at(s, pat, j)
}

/// `v` without one pair of surrounding double quotes.
pub open spec fn unquote_double(v: Seq<char>) -> Seq<char> {
    if v.len() >= 2 && v[0] == '"' && v.last() == '"' {
        v.subrange(1, v.len() - 1)
    } else {
        v
    }
}

/// The boundary of a `multipart/form-data` content type: what follows the
/// first `boundary=` up to the next `;`, trimmed and unquoted; none for other
/// types, without the parameter, or when it is empty.
pub open spec fn boundary_of(ct: Seq<char>) -> Option<Seq<char>> {
    if !eq_nocase(essence(ct), "multipart/form-data"@) || !(exists|i: int| sub_at(ct, "boundary="@, i)) {
        None
    } else {
        let rest = ct.subrange(first_sub(ct, "boundary="@) + 9, ct.len() as int);
        let v = trim(
            match crate::params::split_first(rest, ';') {
                Some((a, _)) => a,
                None => rest,
            },
        );
        let b = unquote_double(v);
        if b.len() == 0 {
            None
        } else {
            Some(b)
        }
    }
}

/// The `boundary` parameter of a `multipart/form-data` content type.
#[verifier::rlimit(50)]
pub fn multipart_boundary(content_type: &str) -> (r: Option<String>)
    ensures
        r matches Some(b) ==> b@.len() > 0,
        match r {
            Some(b) => boundary_of(content_type@) == Some(b@),
            None => boundary_of(content_type@) is None,
        },
{
    let e = essence_str(content_type);
    if !eq_ignore_case(e.as_str(), "multipart/form-data") {
        return None;
    }
    let i = match find_sub(content_type, "boundary=") {
        Some(i) => i,
        None => {
            return None;
        },
    };
    proof {
        reveal_strlit("boundary=");
        let h = content_type@;
        let p = "boundary="@;
        let k2 = first_sub(h, p);
        assert(sub_at(h, p, i as int));
        assert(sub_at(h, p, k2) && forall|j: int| 0 <= j < k2 ==> !sub_at(h, p, j));
        if k2 < i {
            assert(!sub_at(h, p, k2));
        } else if k2 > i {
            assert(!sub_at(h, p, i as int));
        }
    }
    let n = content_type.unicode_len();
    let rest = substring(content_type, i + 9, n);
    let v = match crate::params::split_once(rest.as_str(), ';') {
        Some((a, _)) => trim_str(a.as_str()),
        None => trim_str(rest.as_str()),
    };
    let b = unquote_dq(v.as_str());
    if b.as_str().unicode_len() == 0 {
        None
    } else {
        Some(b)
    }
}

fn essence_str(t: &str) -> (r: String)
    ensures
        r@ == essence(t@),
{
    match crate::params::split_once(t, ';') {
        Some((a, _)) => trim_str(a.as_str()),
        None => trim_str(t),
    }
}

fn unquote_dq(v: &str) -> (r: String)
    ensures
        r@ == unquote_double(v@),
{
    let m = v.unicode_len();
    if m >= 2 && v.get_char(0) == '"' && v.get_char(m - 1) == '"' {
        substring(v, 1, m - 1)
    } else {
        v.to_owned()
    }
}

fn copy_bytes(v: &Vec<u8>, from: usize, to: usize) -> (r: Vec<u8>)
    requires
        from <= to <= v@.len(),
    ensures
        r@ == v@.subrange(from as int, to as int),
{
    let mut out: Vec<u8> = Vec::new();
    let mut i = from;
    while i < to
        invariant
            from <= i <= to,
            to <= v@.len(),
            out@ == v@.subrange(from as int, i as int),
        decreases to - i,
    {
        out.push(v[i]);
        assert(out@ =~= v@.subrange(from as int, i + 1));
        i = i + 1;
    }
    out
}

/// What one header line of a part sets: the file name of a `form-data`
/// disposition, or the content type.
pub open spec fn line_fields(l: Seq<char>, f: (Option<Seq<char>>, Option<Seq<char>>)) -> (
    Option<Seq<char>>,
    Option<Seq<char>>,
) {
    match crate::params::split_first(trim(l), ':') {
        Some((n, v)) => {
            let name = trim(n);
            let value = trim(v);
            if eq_nocase(name, "Content-Disposition"@) {
                let kind = match crate::params::split_first(value, ';') {
                    Some((k, _)) => trim(k),
                    None => value,
                };
                if eq_nocase(kind, "form-data"@) {
                    (disposition_filename_of(value), f.1)
                } else {
                    f
                }
            } else if eq_nocase(name, "Content-Type"@) {
                (f.0, Some(value))
            } else {
                f
            }
        },
        None => f,
    }
}

/// The file name and content type set by a part's header lines (a later line wins).
pub open spec fn part_fields(ls: Seq<Seq<char>>) -> (Option<Seq<char>>, Option<Seq<char>>)
    decreases ls.len(),
{
    if ls.len() == 0 {
        (None, None)
    } else {
        line_fields(ls.last(), part_fields(ls.drop_last()))
    }
}

/// A part's file name and content type, when its headers name a file.
pub open spec fn file_part_info(text: Seq<char>) -> Option<(Seq<char>, Option<Seq<char>>)> {
    let f = part_fields(crate::params::split_on(text, '\n'));
    match f.0 {
        Some(name) => Some((name, f.1)),
        None => None,
    }
}

/// The first position at or after `from` where `pat` occurs.
pub open spec fn first_from(b: Seq<u8>, pat: Seq<u8>, from: int) -> Option<int> {
    if exists|i: int| from <= i && occurs_at(b, pat, i) {
        Some(choose|i: int| from <= i && occurs_at(b, pat, i) && forall|j: int| from <= j < i ==> !occurs_at(b, pat, j))
    } else {
        None
    }
}

/// The first file part from the delimiter at `pos` on.
pub open spec fn file_part_from(body: Seq<u8>, delim: Seq<u8>, pos: int) -> Option<
    (Seq<char>, Option<Seq<char>>, Seq<u8>),
>
    decreases body.len() - pos,
{
    if pos < 0 || pos > body.len() || body.len() - pos < delim.len() {
        None
    } else {
        match first_from(body, seq![13u8, 10u8, 13u8, 10u8], pos + delim.len()) {
            None => None,
            Some(h) => match first_from(body, seq![13u8, 10u8] + delim, h + 4) {
                None => None,
                Some(nx) => {
                    let head = body.subrange(pos + delim.len(), h);
                    if valid_utf8(head) && file_part_info(decode_utf8(head)) is Some {
                        let info = file_part_info(decode_utf8(head)).unwrap();
                        Some((info.0, info.1, body.subrange(h + 4, nx)))
                    } else if pos < nx + 2 <= body.len() {
                        file_part_from(body, delim, nx + 2)
                    } else {
                        None
                    }
                },
            },
        }
    }
}

/// The first part of a multipart body whose headers name a file: its file
/// name, content type, and the bytes up to the CRLF before the next delimiter.
pub open spec fn first_file_part(body: Seq<u8>, boundary: Seq<char>) -> Option<
    (Seq<char>, Option<Seq<char>>, Seq<u8>),
> {
    let delim = encode_utf8("--"@ + boundary);
    match first_from(body, delim, 0) {
        Some(p) => file_part_from(body, delim, p),
        None => None,
    }
}

proof fn lemma_first_from(b: Seq<u8>, pat: Seq<u8>, from: int, r: Option<usize>)
    requires
        pat.len() > 0,
        match r {
            Some(i) => from <= i && occurs_at(b, pat, i as int) && forall|j: int| from <= j < i ==> !occurs_at(b, pat, j),
            None => forall|j: int| from <= j <= b.len() ==> !occurs_at(b, pat, j),
        },
    ensures
        first_from(b, pat, from) == match r {
            Some(i) => Some(i as int),
            None => None::<int>,
        },
{
    match r {
        Some(i) => {
            let k = choose|k: int| from <= k && occurs_at(b, pat, k) && forall|j: int| from <= j < k ==> !occurs_at(b, pat, j);
            assert(from <= i && occurs_at(b, pat, i as int));
            if k < i {
                assert(!occurs_at(b, pat, k));
            } else if k > i {
                assert(!occurs_at(b, pat, i as int));
            }
        },
        None => {
            if exists|i: int| from <= i && occurs_at(b, pat, i) {
                let i = choose|i: int| from <= i && occurs_at(b, pat, i);
                assert(i <= b.len());
            }
        },
    }
}

/// The first part of a multipart body whose `Content-Disposition` is
/// `form-data` with a file name, with its content type and bytes.
#[verifier::rlimit(100)]
pub fn multipart_file(body: &Vec<u8>, boundary: &str) -> (r: Option<FilePart>)
    ensures
        match r {
            Some(p) => first_file_part(body@, boundary@) == Some((p.filename@, opt_string(p.content_type), p.data@)),
            None => first_file_part(body@, boundary@) is None,
        },
{
    let mut delim_text = "--".to_owned();
    delim_text.append(boundary);
    let delim = delim_text.as_str().as_bytes_vec();
    proof {
        reveal_strlit("--");
        vstd::utf8::encode_utf8_first_scalar(delim_text@);
    }
    let ghost d = delim@;
    assert(d == encode_utf8("--"@ + boundary@));
    let crlf2: [u8; 4] = [13u8, 10u8, 13u8, 10u8];
    assert(crlf2@ == seq![13u8, 10u8, 13u8, 10u8]);
    let line_delim = {
        let mut ld: Vec<u8> = Vec::new();
        ld.push(13u8);
        ld.push(10u8);
        ld.extend_from_slice(delim.as_slice());
        ld
    };
    assert(line_delim@ =~= seq![13u8, 10u8] + d);
    let first = find_bytes(body, delim.as_slice(), 0);
    proof {
        lemma_first_from(body@, d, 0, first);
    }
    let mut pos: usize = match first {
        Some(p) => p,
        None => {
            return None;
        },
    };
    loop
        invariant
            pos <= body@.len(),
            d == delim@,
            d.len() > 0,
            line_delim@ == seq![13u8, 10u8] + d,
            crlf2@ == seq![13u8, 10u8, 13u8, 10u8],
            first_file_part(body@, boundary@) == file_part_from(body@, d, pos as int),
        decreases body@.len() - pos,
    {
        if body.len() - pos < delim.len() {
            return None;
        }
        let start = pos + delim.len();
        let found = find_bytes(body, crlf2.as_slice(), start);
        proof {
            lemma_first_from(body@, seq![13u8, 10u8, 13u8, 10u8], start as int, found);
        }
        let head_end = match found {
            Some(h) => h,
            None => {
                return None;
            },
        };
        let data_start = head_end + 4;
        let found2 = find_bytes(body, line_delim.as_slice(), data_start);
        proof {
            lemma_first_from(body@, seq![13u8, 10u8] + d, data_start as int, found2);
        }
        let next = match found2 {
            Some(x) => x,
            None => {
                return None;
            },
        };
        let head = copy_bytes(body, start, head_end);
        let ghost hv = head@;
        match crate::utf8::utf8_string(head) {
            Some(text) => {
                match file_part_headers(text.as_str()) {
                    Some((filename, ctype)) => {
                        let data = copy_bytes(body, data_start, next);
                        return Some(FilePart { filename, content_type: ctype, data });
                    },
                    None => {},
                }
            },
            None => {},
        }
        pos = next + 2;
    }
}

/// What an upload request stores: the file name (without directories), its
/// media type and its bytes; or the status it is refused with (405 for other
/// methods, 400 when no file part is found or the type is not accepted).
pub open spec fn upload_plan_of(req: Request) -> Result<(Seq<char>, Seq<char>, Seq<u8>), u16> {
    let ct = first_value(req.headers@, "Content-Type"@);
    if req.method != Method::POST {
        Err(405)
    } else {
        let picked: Option<(Seq<char>, Option<Seq<char>>, Seq<u8>)> = match ct {
            Some(t) => match boundary_of(t) {
                Some(b) => first_file_part(req.body@, b),
                None => Some(
                    (
                        match first_value(req.headers@, "Content-Disposition"@) {
                            Some(h) => match disposition_filename_of(h) {
                                Some(f) => f,
                                None => "upload.bin"@,
                            },
                            None => "upload.bin"@,
                        },
                        ct,
                        req.body@,
                    ),
                ),
            },
            None => Some(
                (
                    match first_value(req.headers@, "Content-Disposition"@) {
                        Some(h) => match disposition_filename_of(h) {
                            Some(f) => f,
                            None => "upload.bin"@,
                        },
                        None => "upload.bin"@,
                    },
                    ct,
                    req.body@,
                ),
            ),
        };
        match picked {
            None => Err(400),
            Some((f, declared, data)) => match upload_mime_of(declared, basename_of(f)) {
                Some(m) => Ok((basename_of(f), m, data)),
                None => Err(400),
            },
        }
    }
}

fn plain_upload_name(req: &Request) -> (r: String)
    ensures
        r@ == match first_value(req.headers@, "Content-Disposition"@) {
            Some(h) => match disposition_filename_of(h) {
                Some(f) => f,
                None => "upload.bin"@,
            },
            None => "upload.bin"@,
        },
{
    match req.headers.get("Content-Disposition") {
        Some(h) => match disposition_filename(h.as_str()) {
            Some(f) => f,
            None => "upload.bin".to_owned(),
        },
        None => "upload.bin".to_owned(),
    }
}

/// Decides what an upload request stores, or the response that refuses it.
pub fn upload_plan(req: &Request) -> (r: Result<(String, String, Vec<u8>), Response>)
    ensures
        match r {
            Ok((name, mime, data)) => upload_plan_of(*req) == Ok::<(Seq<char>, Seq<char>, Seq<u8>), u16>(
                (name@, mime@, data@),
            ),
            Err(resp) => upload_plan_of(*req) == Err::<(Seq<char>, Seq<char>, Seq<u8>), u16>(resp.status.0),
        },
{
    if req.method != Method::POST {
        return Err(Response::method_not_allowed_with_message(req.version, "Only POST method is allowed for file uploads"));
    }
    let ct = req.content_type();
    let picked: Option<(String, Option<String>, Vec<u8>)> = match ct {
        Some(t) => match multipart_boundary(t.as_str()) {
            Some(b) => match multipart_file(&req.body, b.as_str()) {
                Some(part) => Some((part.filename, part.content_type, part.data)),
                None => None,
            },
            None => Some((plain_upload_name(req), Some(t.clone()), req.body.clone())),
        },
        None => Some((plain_upload_name(req), None, req.body.clone())),
    };
    match picked {
        None => Err(Response::bad_request_with_message(req.version, "No file part found")),
        Some((f, declared, data)) => {
            let name = basename(f.as_str());
            let declared_ref: Option<&str> = match &declared {
                Some(d) => Some(d.as_str()),
                None => None,
            };
            match upload_mime(declared_ref, name.as_str()) {
                Some(m) => Ok((name, m, data)),
                None => Err(Response::bad_request_with_message(req.version, "Unsupported or unknown file type")),
            }
        },
    }
}

/// The view of an optional string.
pub open spec fn opt_string(o: Option<String>) -> Option<Seq<char>> {
    match o {
        Some(s) => Some(s@),
        None => None,
    }
}

/// From a part's header block: the file name of a `form-data` disposition,
/// and the part's content type.
fn file_part_headers(text: &str) -> (r: Option<(String, Option<String>)>)
    ensures
        match r {
            Some((f, c)) => file_part_info(text@) == Some((f@, opt_string(c))),
            None => file_part_info(text@) is None,
        },
{
    let lines = crate::params::split_str(text, '\n');
    let ghost ls = lines@.map_values(|x: String| x@);
    let mut filename: Option<String> = None;
    let mut ctype: Option<String> = None;
    let mut i: usize = 0;
    assert(ls.subrange(0, 0).len() == 0);
    while i < lines.len()
        invariant
            i <= lines@.len(),
            ls == lines@.map_values(|x: String| x@),
            (opt_string(filename), opt_string(ctype)) == part_fields(ls.subrange(0, i as int)),
        decreases lines@.len() - i,
    {
        let ghost pre = ls.subrange(0, i + 1);
        assert(pre.drop_last() =~= ls.subrange(0, i as int));
        assert(pre.last() == lines@[i as int]@);
        let line = trim_str(lines[i].as_str());
        match crate::params::split_once(line.as_str(), ':') {
            Some((name, value)) => {
                let name = trim_str(name.as_str());
                let value = trim_str(value.as_str());
                if eq_ignore_case(name.as_str(), "Content-Disposition") {
                    let kind = match crate::params::split_once(value.as_str(), ';') {
                        Some((k, _)) => trim_str(k.as_str()),
                        None => value.clone(),
                    };
                    if eq_ignore_case(kind.as_str(), "form-data") {
                        filename = disposition_filename(value.as_str());
                    }
                } else if eq_ignore_case(name.as_str(), "Content-Type") {
                    ctype = Some(value);
                }
            },
            None => {},
        }
        i = i + 1;
    }
    assert(ls.subrange(0, i as int) =~= ls);
    match filename {
        Some(f) => Some((f, ctype)),
        None => None,
    }
}

} // verus!
