//! Incremental request parser with a body-size cap enforced while bytes arrive.
use vstd::prelude::*;

use crate::buffer::{occurs_at, Buffer};
use vstd::utf8::{decode_utf8, valid_utf8};
use crate::headers::{has_name, headers_from, line_ok, HeaderEntry, Headers};
use crate::method::{body_method, is_method_text, method_text, Method};
use crate::params::{split_first, split_on, split_once, split_str};
use crate::request::{chunked_of, content_length_of, Request};
use crate::text::{all_hex_digits, digits_value, eq_str, parse_hex, trim, trim_str};
use crate::utf8::utf8_string;
use crate::version::Version;

verus! {

/// Room allowed for the request line and headers on top of the body cap.
pub const HEADER_SLACK: usize = 8192;

/// The body cap used when none is configured: 10 MiB.
pub const DEFAULT_MAX_BODY_SIZE: usize = 10485760;

/// Why a request was refused.
#[derive(Debug, Clone, Copy, PartialEq, Eq, Structural)]
pub enum ParseErrorKind {
    MalformedLine,
    UnknownMethod,
    UnsupportedVersion,
    BadHeader,
    InvalidChunkSize,
    PayloadTooLarge,
    InvalidUtf8,
}

/// How the end of the headers went, given the lines gathered and the request:
/// a request without framing and without a body method is handed out, a
/// declared length over the cap is refused, a declared length within it
/// starts the body.
spec fn framing_outcome(
    hl: Seq<Seq<char>>,
    req: Option<Request>,
    cap: usize,
    r: HeaderStep,
    after: RequestParser,
) -> bool {
    let h = headers_from(hl);
    ((forall|i: int| 0 <= i < hl.len() ==> line_ok(#[trigger] hl[i])) && req is Some ==> {
        &&& (unframed(h) && !body_method(req.unwrap().method)) ==> (r matches HeaderStep::Done(Some(x))
            && x.headers@ == h)
        &&& (!chunked_of(h) && (content_length_of(h) matches Some(n) && n > cap)) ==> (r matches HeaderStep::Failed(
            k,
        ) && k == ParseErrorKind::PayloadTooLarge)
        &&& (!chunked_of(h) && (content_length_of(h) matches Some(n) && n <= cap)) ==> (r is Continue
            && after.state_of() == ParseState::Body && after.expected() == content_length_of(h) && after.pending_headers()
            == Some(h))
        &&& chunked_of(h) ==> (r is Continue && after.state_of() == ParseState::ChunkedBody)
    }) && ((exists|i: int| 0 <= i < hl.len() && !line_ok(#[trigger] hl[i])) ==> (r matches HeaderStep::Failed(k)
        && k == ParseErrorKind::BadHeader)) && (after.state_of() == ParseState::Body ==> (!chunked_of(h) && content_length_of(h) is Some
        && after.expected() == content_length_of(h) && after.pending_headers() == Some(h))) && (after.state_of()
        == ParseState::ChunkedBody ==> chunked_of(h) && after.gathered() == 0 && after.pending_headers() == Some(h))
}

/// The outcome of one step through the header lines.
enum HeaderStep {
    Continue,
    NeedMore,
    Done(Option<Request>),
    Failed(ParseErrorKind),
}

/// Where the parser stands.
#[derive(Debug, Clone, Copy, PartialEq, Eq, Structural)]
pub enum ParseState {
    RequestLine,
    Headers,
    Body,
    ChunkedBody,
    Complete,
    Error(ParseErrorKind),
}

/// The non-empty pieces of `pieces`, in order.
pub open spec fn nonempty(pieces: Seq<Seq<char>>) -> Seq<Seq<char>>
    decreases pieces.len(),
{
    if pieces.len() == 0 {
        seq![]
    } else if pieces.last().len() == 0 {
        nonempty(pieces.drop_last())
    } else {
        nonempty(pieces.drop_last()).push(pieces.last())
    }
}

/// The space-separated words of a line.
pub open spec fn words(line: Seq<char>) -> Seq<Seq<char>> {
    nonempty(split_on(line, ' '))
}

/// The verdict on a request line: method word, target word, `HTTP/1.1`.
pub open spec fn request_line_error(line: Seq<char>) -> Option<ParseErrorKind> {
    let w = words(line);
    if w.len() != 3 {
        Some(ParseErrorKind::MalformedLine)
    } else if !is_method_text(w[0]) {
        Some(ParseErrorKind::UnknownMethod)
    } else if w[2] != "HTTP/1.1"@ {
        Some(ParseErrorKind::UnsupportedVersion)
    } else {
        None
    }
}

/// The size in a chunk-size line: hex digits, extensions after `;` ignored.
pub open spec fn chunk_size_of(line: Seq<char>) -> Option<nat> {
    let head = match split_first(line, ';') {
        Some((h, _)) => h,
        None => line,
    };
    let t = trim(head);
    if t.len() > 0 && all_hex_digits(t) && digits_value(t, 16) <= usize::MAX {
        Some(digits_value(t, 16))
    } else {
        None
    }
}

fn words_of(line: &str) -> (r: Vec<String>)
    ensures
        r@.map_values(|x: String| x@) == words(line@),
{
    let pieces = split_str(line, ' ');
    let ghost ps = pieces@.map_values(|x: String| x@);
    let mut out: Vec<String> = Vec::new();
    let mut i: usize = 0;
    assert(ps.subrange(0, 0).len() == 0);
    while i < pieces.len()
        invariant
            ps == pieces@.map_values(|x: String| x@),
            ps == split_on(line@, ' '),
            i <= pieces@.len(),
            out@.map_values(|x: String| x@) == nonempty(ps.subrange(0, i as int)),
        decreases pieces@.len() - i,
    {
        let ghost pre = ps.subrange(0, i + 1);
        assert(pre.drop_last() =~= ps.subrange(0, i as int));
        assert(pre.last() == pieces@[i as int]@);
        if pieces[i].unicode_len() > 0 {
            let w = pieces[i].clone();
            let ghost before = out@;
            out.push(w);
            assert(out@.map_values(|x: String| x@) =~= before.map_values(|x: String| x@).push(w@));
        }
        i = i + 1;
    }
    assert(ps.subrange(0, i as int) =~= ps);
    out
}

/// The space-separated words of a line.
pub fn split_words(line: &str) -> (r: Vec<String>)
    ensures
        r@.map_values(|x: String| x@) == words(line@),
{
    words_of(line)
}

/// The buffer holds a CRLF.
#[verifier::opaque]
pub open spec fn has_crlf(b: Seq<u8>) -> bool {
    exists|i: int| occurs_at(b, seq![13u8, 10u8], i)
}

/// The position of the first CRLF.
#[verifier::opaque]
pub open spec fn first_crlf(b: Seq<u8>) -> int {
    choose|i: int| occurs_at(b, seq![13u8, 10u8], i) && forall|j: int| 0 <= j < i ==> !occurs_at(b, seq![13u8, 10u8], j)
}

/// The bytes before the first CRLF.
pub open spec fn first_line(b: Seq<u8>) -> Seq<u8> {
    b.subrange(0, first_crlf(b))
}

/// What follows the first line and its CRLF.
pub open spec fn after_first_line(b: Seq<u8>) -> Seq<u8> {
    b.subrange(first_crlf(b) + 2, b.len() as int)
}

/// The header lines at the front of `b`, up to the empty line that ends them,
/// and what follows that empty line; none while it has not arrived.
pub open spec fn header_block(b: Seq<u8>) -> Option<(Seq<Seq<u8>>, Seq<u8>)>
    decreases b.len(),
{
    if has_crlf(b) && 0 <= first_crlf(b) && first_crlf(b) + 2 <= b.len() {
        if first_crlf(b) == 0 {
            Some((Seq::<Seq<u8>>::empty(), b.subrange(2, b.len() as int)))
        } else {
            match header_block(b.subrange(first_crlf(b) + 2, b.len() as int)) {
                Some((ls, rest)) => Some((seq![b.subrange(0, first_crlf(b))] + ls, rest)),
                None => None,
            }
        }
    } else {
        None
    }
}

/// The text of raw lines.
pub open spec fn decoded(ls: Seq<Seq<u8>>) -> Seq<Seq<char>> {
    ls.map_values(|l: Seq<u8>| decode_utf8(l))
}

/// Headers that declare no body: neither chunked nor with a `Content-Length`.
pub open spec fn unframed(h: Seq<HeaderEntry>) -> bool {
    !chunked_of(h) && !has_name(h, "Content-Length"@)
}

/// Every raw line is UTF-8.
pub open spec fn lines_utf8(ls: Seq<Seq<u8>>) -> bool {
    forall|i: int| 0 <= i < ls.len() ==> valid_utf8(#[trigger] ls[i])
}

/// Every line is a well-formed header line.
pub open spec fn all_lines_ok(ls: Seq<Seq<char>>) -> bool {
    forall|i: int| 0 <= i < ls.len() ==> line_ok(#[trigger] ls[i])
}

/// The request line and the whole header block have arrived: a valid request
/// line, and header lines that are UTF-8 up to the empty line.
pub open spec fn complete_head(b: Seq<u8>) -> bool {
    &&& has_crlf(b)
    &&& valid_utf8(first_line(b))
    &&& request_line_error(decode_utf8(first_line(b))) is None
    &&& header_block(after_first_line(b)) is Some
    &&& lines_utf8(header_block(after_first_line(b)).unwrap().0)
}

/// The header lines of a complete head.
pub open spec fn head_lines(b: Seq<u8>) -> Seq<Seq<char>> {
    decoded(header_block(after_first_line(b)).unwrap().0)
}

/// The headers of a complete head.
pub open spec fn head_headers(b: Seq<u8>) -> Seq<HeaderEntry> {
    headers_from(head_lines(b))
}

/// The bytes after a complete head.
pub open spec fn head_tail(b: Seq<u8>) -> Seq<u8> {
    header_block(after_first_line(b)).unwrap().1
}

/// The method word of the request line names a method that carries a body.
pub open spec fn body_method_word(b: Seq<u8>) -> bool {
    let w = words(decode_utf8(first_line(b)))[0];
    w == "POST"@ || w == "PUT"@ || w == "PATCH"@
}

/// A whole request without a body is buffered: a complete head with
/// well-formed header lines, whose method carries no body and whose headers
/// declare none.
pub open spec fn complete_bodiless(b: Seq<u8>) -> bool {
    complete_head(b) && all_lines_ok(head_lines(b)) && !body_method_word(b) && unframed(head_headers(b))
}

/// The rest of the header block has arrived, its lines UTF-8.
pub open spec fn header_ready(b: Seq<u8>) -> bool {
    &&& header_block(b) is Some
    &&& lines_utf8(header_block(b).unwrap().0)
}

/// The lines gathered so far and the rest of the header block make up `full`.
pub open spec fn on_track(hl: Seq<Seq<char>>, b: Seq<u8>, full: Seq<Seq<char>>) -> bool {
    header_ready(b) && full == hl + decoded(header_block(b).unwrap().0)
}

proof fn lemma_on_track_start(b: Seq<u8>)
    requires
        complete_head(b),
    ensures
        on_track(Seq::<Seq<char>>::empty(), after_first_line(b), head_lines(b)),
{
    assert(Seq::<Seq<char>>::empty() + head_lines(b) =~= head_lines(b));
}

proof fn lemma_body_method_word(m: Method, w: Seq<char>)
    requires
        method_text(m) == w,
    ensures
        body_method(m) <==> (w == "POST"@ || w == "PUT"@ || w == "PATCH"@),
{
    reveal_strlit("GET");
    reveal_strlit("POST");
    reveal_strlit("DELETE");
    reveal_strlit("PUT");
    reveal_strlit("PATCH");
    reveal_strlit("HEAD");
    reveal_strlit("OPTIONS");
    reveal_strlit("TRACE");
    reveal_strlit("CONNECT");
    if !body_method(m) {
        assert(w[0] != 'P');
        assert("POST"@[0] == 'P' && "PUT"@[0] == 'P' && "PATCH"@[0] == 'P');
    }
}

proof fn lemma_on_track_step(hl: Seq<Seq<char>>, b: Seq<u8>, b2: Seq<u8>, full: Seq<Seq<char>>)
    requires
        on_track(hl, b, full),
        header_block(b).unwrap().0.len() > 0,
        header_block(b2) == Some((header_block(b).unwrap().0.drop_first(), header_block(b).unwrap().1)),
    ensures
        on_track(hl.push(decode_utf8(header_block(b).unwrap().0[0])), b2, full),
{
    let ls = header_block(b).unwrap().0;
    let hl2 = hl.push(decode_utf8(ls[0]));
    assert(decoded(ls) =~= seq![decode_utf8(ls[0])] + decoded(ls.drop_first()));
    assert(hl2 + decoded(ls.drop_first()) =~= hl + decoded(ls));
    assert(lines_utf8(ls.drop_first())) by {
        assert forall|i: int| 0 <= i < ls.drop_first().len() implies valid_utf8(#[trigger] ls.drop_first()[i]) by {
            assert(ls.drop_first()[i] == ls[i + 1]);
        }
    }
}

proof fn lemma_on_track_done(hl: Seq<Seq<char>>, b: Seq<u8>, full: Seq<Seq<char>>)
    requires
        on_track(hl, b, full),
        header_block(b).unwrap().0.len() == 0,
    ensures
        hl == full,
{
    assert(decoded(header_block(b).unwrap().0) =~= Seq::<Seq<char>>::empty());
    assert(hl + decoded(header_block(b).unwrap().0) =~= hl);
}

/// A complete chunked encoding at the front of `b`: the data of its chunks in
/// order, and what follows the empty line after the last chunk's trailers;
/// none while it is incomplete or when a size line or chunk end is malformed.
pub open spec fn chunked_decode(b: Seq<u8>) -> Option<(Seq<u8>, Seq<u8>)>
    decreases b.len(),
{
    if has_crlf(b) && 0 <= first_crlf(b) && first_crlf(b) + 2 <= b.len() && valid_utf8(first_line(b))
        && chunk_size_of(decode_utf8(first_line(b))) is Some {
        let n = chunk_size_of(decode_utf8(first_line(b))).unwrap() as int;
        let rest = b.subrange(first_crlf(b) + 2, b.len() as int);
        if n == 0 {
            match header_block(rest) {
                Some((_, after)) => Some((Seq::<u8>::empty(), after)),
                None => None,
            }
        } else if rest.len() >= n + 2 && rest[n] == 13u8 && rest[n + 1] == 10u8 {
            match chunked_decode(rest.subrange(n + 2, rest.len() as int)) {
                Some((d, t)) => Some((rest.subrange(0, n) + d, t)),
                None => None,
            }
        } else {
            None
        }
    } else {
        None
    }
}

/// `p` is the first CRLF of `b`.
proof fn lemma_first_crlf_at(b: Seq<u8>, p: int)
    requires
        occurs_at(b, seq![13u8, 10u8], p),
        forall|j: int| 0 <= j < p ==> !occurs_at(b, seq![13u8, 10u8], j),
    ensures
        has_crlf(b),
        first_crlf(b) == p,
        first_line(b) == b.subrange(0, p),
{
    reveal(has_crlf);
    reveal(first_crlf);
    let k = first_crlf(b);
    assert(occurs_at(b, seq![13u8, 10u8], k) && forall|j: int| 0 <= j < k ==> !occurs_at(b, seq![13u8, 10u8], j));
    if k < p {
        assert(!occurs_at(b, seq![13u8, 10u8], k));
    } else if k > p {
        assert(!occurs_at(b, seq![13u8, 10u8], p));
    }
}

/// A readable `Content-Length` is a `Content-Length` header.
pub proof fn lemma_length_named(h: Seq<HeaderEntry>)
    ensures
        content_length_of(h) is Some ==> has_name(h, "Content-Length"@),
{
}

/// One step of a header block: its first line, and the block after it.
pub proof fn lemma_header_block_step(b: Seq<u8>)
    requires
        header_block(b) is Some,
    ensures
        has_crlf(b),
        0 <= first_crlf(b),
        first_crlf(b) + 2 <= b.len(),
        first_crlf(b) == 0 ==> header_block(b).unwrap().0.len() == 0 && header_block(b).unwrap().1 == b.subrange(
            2,
            b.len() as int,
        ),
        first_crlf(b) > 0 ==> ({
            let hb = header_block(b).unwrap();
            &&& hb.0.len() > 0
            &&& hb.0[0] == b.subrange(0, first_crlf(b))
            &&& header_block(b.subrange(first_crlf(b) + 2, b.len() as int)) == Some((hb.0.drop_first(), hb.1))
        }),
{
    let p = first_crlf(b);
    if p > 0 {
        let inner = header_block(b.subrange(p + 2, b.len() as int));
        assert((seq![b.subrange(0, p)] + inner.unwrap().0).drop_first() =~= inner.unwrap().0);
    }
}

/// Reads `METHOD target HTTP/1.1`.
pub fn parse_request_line(line: &str) -> (r: Result<Request, ParseErrorKind>)
    ensures
        match r {
            Ok(req) => request_line_error(line@) is None && method_text(req.method) == words(line@)[0]
                && req.target@ == words(line@)[1] && req.version == Version::Http11 && req.headers@
                == Seq::<HeaderEntry>::empty() && req.body@.len() == 0,
            Err(k) => request_line_error(line@) == Some(k),
        },
{
    let w = words_of(line);
    let ghost ws = w@.map_values(|x: String| x@);
    if w.len() != 3 {
        return Err(ParseErrorKind::MalformedLine);
    }
    assert(ws[0] == w@[0]@ && ws[1] == w@[1]@ && ws[2] == w@[2]@);
    let method = match Method::from_str(w[0].as_str()) {
        Ok(m) => m,
        Err(_) => {
            return Err(ParseErrorKind::UnknownMethod);
        },
    };
    if !eq_str(w[2].as_str(), "HTTP/1.1") {
        return Err(ParseErrorKind::UnsupportedVersion);
    }
    Ok(Request::new(method, w[1].clone(), Version::Http11))
}

/// Reads a chunk-size line.
pub fn parse_chunk_size(line: &str) -> (r: Option<usize>)
    ensures
        match r {
            Some(n) => chunk_size_of(line@) == Some(n as nat),
            None => chunk_size_of(line@) is None,
        },
{
    let head = match split_once(line, ';') {
        Some((h, _)) => h,
        None => line.to_owned(),
    };
    let t = trim_str(head.as_str());
    parse_hex(t.as_str())
}

/// An incremental HTTP/1.1 request parser.
pub struct RequestParser {
    state: ParseState,
    buffer: Buffer,
    request: Option<Request>,
    expected_body_size: Option<usize>,
    header_lines: Vec<String>,
    max_body_size: usize,
    body: Vec<u8>,
}

impl RequestParser {
    pub closed spec fn state_of(&self) -> ParseState {
        self.state
    }

    /// Bytes received and not yet consumed.
    pub closed spec fn buffered(&self) -> Seq<u8> {
        self.buffer@
    }

    /// The declared body length, once the headers have been read.
    pub closed spec fn expected(&self) -> Option<usize> {
        self.expected_body_size
    }

    /// The headers of the request being read.
    pub closed spec fn pending_headers(&self) -> Option<Seq<HeaderEntry>> {
        match self.request {
            Some(q) => Some(q.headers@),
            None => None,
        }
    }

    /// A parser with nothing in progress: at the request line, nothing
    /// buffered, no partial request, no body length, no header lines or body.
    pub closed spec fn is_fresh(&self) -> bool {
        &&& self.state == ParseState::RequestLine
        &&& self.buffer@.len() == 0
        &&& self.request is None
        &&& self.expected_body_size is None
        &&& self.header_lines@.len() == 0
        &&& self.body@.len() == 0
    }

    /// The header block has fully arrived, with UTF-8 lines: from the request
    /// line (a valid one first), or from the headers phase.
    pub closed spec fn head_complete(&self) -> bool {
        if self.state == ParseState::RequestLine {
            complete_head(self.buffer@)
        } else if self.state == ParseState::Headers {
            header_ready(self.buffer@)
        } else {
            false
        }
    }

    /// All header lines of the request: those gathered and those still buffered.
    pub closed spec fn head_full(&self) -> Seq<Seq<char>> {
        if self.state == ParseState::RequestLine {
            head_lines(self.buffer@)
        } else {
            self.header_lines@.map_values(|x: String| x@) + decoded(header_block(self.buffer@).unwrap().0)
        }
    }

    /// The bytes after the header block.
    pub closed spec fn head_rest(&self) -> Seq<u8> {
        if self.state == ParseState::RequestLine {
            head_tail(self.buffer@)
        } else {
            header_block(self.buffer@).unwrap().1
        }
    }

    /// The request's method carries a body.
    pub closed spec fn head_body_method(&self) -> bool {
        if self.state == ParseState::RequestLine {
            body_method_word(self.buffer@)
        } else {
            self.request matches Some(q) && body_method(q.method)
        }
    }

    /// For a parser at the request line, the head facts are those of its buffer.
    pub proof fn lemma_head_of_buffer(&self)
        requires
            self.state_of() == ParseState::RequestLine,
        ensures
            self.head_complete() == complete_head(self.buffered()),
            self.head_full() == head_lines(self.buffered()),
            self.head_rest() == head_tail(self.buffered()),
            self.head_body_method() == body_method_word(self.buffered()),
    {
    }

    /// The decoded body bytes gathered so far.
    pub closed spec fn gathered_bytes(&self) -> Seq<u8> {
        self.body@
    }

    /// The body cap.
    pub closed spec fn cap(&self) -> nat {
        self.max_body_size as nat
    }

    /// Decoded body bytes gathered so far.
    pub closed spec fn gathered(&self) -> nat {
        self.body@.len()
    }

    pub open spec fn in_body(&self) -> bool {
        self.state_of() == ParseState::Body || self.state_of() == ParseState::ChunkedBody
    }

    /// What may be buffered: the cap plus header room before the body, the cap
    /// less what was gathered once the body has begun.
    pub open spec fn room(&self) -> nat {
        if self.in_body() {
            (self.cap() - self.gathered()) as nat
        } else {
            (self.cap() + HEADER_SLACK) as nat
        }
    }

    pub closed spec fn wf(&self) -> bool {
        &&& self.max_body_size + HEADER_SLACK <= usize::MAX
        &&& self.buffer@.len() <= self.max_body_size + HEADER_SLACK
        &&& self.body@.len() <= self.max_body_size
        &&& (self.state == ParseState::Headers || self.in_body()) ==> self.request is Some
        &&& self.state == ParseState::Body ==> (self.expected_body_size matches Some(n)
            && n <= self.max_body_size)
        &&& self.request matches Some(q) ==> q.version == Version::Http11 && q.body@.len()
            <= self.max_body_size
    }

    /// The parser can hold what it may buffer.
    pub proof fn lemma_bounds(&self)
        requires
            self.wf(),
        ensures
            self.buffered().len() <= self.cap() + HEADER_SLACK,
            self.gathered() <= self.cap(),
    {
    }

    /// A parser with the default body cap.
    pub fn new() -> (r: RequestParser)
        ensures
            r.wf(),
            r.state_of() == ParseState::RequestLine,
            r.buffered().len() == 0,
            r.gathered() == 0,
            r.cap() == DEFAULT_MAX_BODY_SIZE,
            r.is_fresh(),
    {
        RequestParser::with_max_body_size(DEFAULT_MAX_BODY_SIZE)
    }

    /// A parser whose decoded bodies may not exceed `max_body_size` bytes.
    pub fn with_max_body_size(max_body_size: usize) -> (r: RequestParser)
        requires
            max_body_size <= usize::MAX - HEADER_SLACK,
        ensures
            r.wf(),
            r.state_of() == ParseState::RequestLine,
            r.buffered().len() == 0,
            r.gathered() == 0,
            r.cap() == max_body_size,
            r.is_fresh(),
    {
        RequestParser {
            state: ParseState::RequestLine,
            buffer: Buffer::new(),
            request: None,
            expected_body_size: None,
            header_lines: Vec::new(),
            max_body_size,
            body: Vec::new(),
        }
    }

    /// Appends received bytes. Refuses them, and enters the error state, when
    /// the buffer would exceed its room: bytes beyond the cap are never taken.
    pub fn add_data(&mut self, data: &[u8]) -> (r: Result<(), ParseErrorKind>)
        requires
            old(self).wf(),
        ensures
            final(self).wf(),
            final(self).cap() == old(self).cap(),
            final(self).gathered() == old(self).gathered(),
            (r is Err) == (old(self).buffered().len() + data@.len() > old(self).room()),
            r is Ok ==> final(self).buffered() == old(self).buffered() + data@ && final(self).state_of()
                == old(self).state_of(),
            r matches Err(k) ==> k == ParseErrorKind::PayloadTooLarge && final(self).state_of()
                == ParseState::Error(ParseErrorKind::PayloadTooLarge) && final(self).buffered()
                == old(self).buffered(),
    {
        let in_body = match self.state {
            ParseState::Body | ParseState::ChunkedBody => true,
            _ => false,
        };
        let room = if in_body {
            self.max_body_size - self.body.len()
        } else {
            self.max_body_size + HEADER_SLACK
        };
        if self.buffer.len() > room || data.len() > room - self.buffer.len() {
            self.state = ParseState::Error(ParseErrorKind::PayloadTooLarge);
            return Err(ParseErrorKind::PayloadTooLarge);
        }
        self.buffer.extend(data);
        Ok(())
    }

    /// Takes one CRLF-terminated line off the buffer, without its CRLF.
    fn take_line(&mut self) -> (r: Option<Vec<u8>>)
        requires
            old(self).wf(),
        ensures
            final(self).wf(),
            final(self).state == old(self).state,
            final(self).request == old(self).request,
            final(self).expected_body_size == old(self).expected_body_size,
            final(self).max_body_size == old(self).max_body_size,
            final(self).body == old(self).body,
            final(self).header_lines == old(self).header_lines,
            match r {
                Some(l) => old(self).buffer@ == l@ + seq![13u8, 10u8] + final(self).buffer@ && has_crlf(
                    old(self).buffer@,
                ) && l@ == first_line(old(self).buffer@) && 0 <= first_crlf(old(self).buffer@) && first_crlf(
                    old(self).buffer@,
                ) + 2 <= old(self).buffer@.len() && final(self).buffer@ == after_first_line(old(self).buffer@),
                None => final(self).buffer@ == old(self).buffer@ && !has_crlf(old(self).buffer@),
            },
    {
        let crlf: [u8; 2] = [13u8, 10u8];
        match self.buffer.find(crlf.as_slice()) {
            Some(p) => {
                let ghost b = self.buffer@;
                let line = self.buffer.drain(p);
                let _ = self.buffer.drain(2);
                assert(crlf@ == seq![13u8, 10u8]);
                assert(b =~= line@ + seq![13u8, 10u8] + self.buffer@);
                proof {
                    reveal(has_crlf);
                    reveal(first_crlf);
                    assert(occurs_at(b, seq![13u8, 10u8], p as int));
                    let k = first_crlf(b);
                    assert(occurs_at(b, seq![13u8, 10u8], k) && forall|j: int| 0 <= j < k ==> !occurs_at(b, seq![13u8, 10u8], j));
                    if k < p {
                        assert(!occurs_at(b, seq![13u8, 10u8], k));
                    } else if k > p {
                        assert(!occurs_at(b, seq![13u8, 10u8], p as int));
                    }
                }
                assert(self.buffer@ =~= b.subrange(p + 2, b.len() as int));
                Some(line)
            },
            None => {
                assert(crlf@ == seq![13u8, 10u8]);
                assert(!has_crlf(self.buffer@)) by {
                    reveal(has_crlf);
                    if has_crlf(self.buffer@) {
                        let i = choose|i: int| occurs_at(self.buffer@, seq![13u8, 10u8], i);
                        assert(0 <= i <= self.buffer@.len());
                    }
                }
                None
            },
        }
    }

    /// Reads the body framing from the headers once they are complete.
    fn prepare_body(&mut self) -> (r: Result<bool, ParseErrorKind>)
        requires
            old(self).wf(),
            old(self).state == ParseState::Headers,
        ensures
            final(self).wf(),
            final(self).buffer@.len() <= old(self).buffer@.len(),
            final(self).max_body_size == old(self).max_body_size,
            match r {
                Ok(true) => final(self).state == ParseState::Complete && final(self).request is Some
                    && final(self).body@.len() <= final(self).max_body_size,
                Ok(false) => final(self).in_body() && final(self).buffer == old(self).buffer,
                Err(_) => true,
            },
            final(self).request matches Some(q) ==> (old(self).request matches Some(o) && q.method == o.method
                && q.target == o.target),
            final(self).state == ParseState::ChunkedBody ==> chunked_of(
                headers_from(old(self).header_lines@.map_values(|x: String| x@)),
            ) && final(self).body@.len() == 0 && (final(self).request matches Some(q) && q.headers@ == headers_from(
                old(self).header_lines@.map_values(|x: String| x@),
            )),
            final(self).state == ParseState::Body ==> ({
                let h = headers_from(old(self).header_lines@.map_values(|x: String| x@));
                !chunked_of(h) && content_length_of(h) is Some && final(self).expected_body_size
                    == content_length_of(h) && (final(self).request matches Some(q) && q.headers@ == h)
            }),
            ({
                let hl = old(self).header_lines@.map_values(|x: String| x@);
                let h = headers_from(hl);
                (exists|i: int| 0 <= i < hl.len() && !line_ok(#[trigger] hl[i])) ==> r == Err::<bool, ParseErrorKind>(
                    ParseErrorKind::BadHeader,
                )
            }),
            ({
                let hl = old(self).header_lines@.map_values(|x: String| x@);
                let h = headers_from(hl);
                (forall|i: int| 0 <= i < hl.len() ==> line_ok(#[trigger] hl[i])) && old(self).request is Some ==> {
                    &&& (unframed(h) && !body_method(old(self).request.unwrap().method)) ==> (r == Ok::<
                        bool,
                        ParseErrorKind,
                    >(true) && (final(self).request matches Some(q) && q.headers@ == h))
                    &&& (!chunked_of(h) && (content_length_of(h) matches Some(n) && n > old(self).max_body_size))
                        ==> r == Err::<bool, ParseErrorKind>(ParseErrorKind::PayloadTooLarge)
                    &&& chunked_of(h) ==> (r == Ok::<bool, ParseErrorKind>(false) && final(self).state
                        == ParseState::ChunkedBody)
                    &&& (!chunked_of(h) && (content_length_of(h) matches Some(n) && n <= old(self).max_body_size))
                        ==> (r == Ok::<bool, ParseErrorKind>(false) && final(self).state == ParseState::Body
                        && final(self).expected_body_size == content_length_of(h) && (final(self).request matches Some(
                        q,
                    ) && q.headers@ == h))
                }
            }),
    {
        let ghost hl = self.header_lines@.map_values(|x: String| x@);
        let headers = match Headers::from_lines(self.header_lines.as_slice()) {
            Ok(h) => h,
            Err(_) => {
                proof {
                    let lines = self.header_lines@;
                    if forall|i: int| 0 <= i < hl.len() ==> line_ok(#[trigger] hl[i]) {
                        let i = choose|i: int| 0 <= i < lines.len() && !line_ok(#[trigger] lines[i]@);
                        assert(hl[i] == lines[i]@);
                    }
                }
                self.state = ParseState::Error(ParseErrorKind::BadHeader);
                return Err(ParseErrorKind::BadHeader);
            },
        };
        let mut req = match self.request.take() {
            Some(q) => q,
            None => {
                self.state = ParseState::Error(ParseErrorKind::BadHeader);
                        return Err(ParseErrorKind::BadHeader);
            },
        };
        req.headers = headers;
        self.body = Vec::new();
        if req.is_chunked() {
            self.request = Some(req);
            self.state = ParseState::ChunkedBody;
            return Ok(false);
        }
        if req.headers.contains("Content-Length") {
            match req.content_length() {
                Some(n) => {
                    if n > self.max_body_size {
                        self.state = ParseState::Error(ParseErrorKind::PayloadTooLarge);
                        return Err(ParseErrorKind::PayloadTooLarge);
                    }
                    self.expected_body_size = Some(n);
                    self.request = Some(req);
                    self.state = ParseState::Body;
                    return Ok(false);
                },
                None => {
                    self.state = ParseState::Error(ParseErrorKind::BadHeader);
                        return Err(ParseErrorKind::BadHeader);
                },
            }
        }
        if req.method.allows_body() {
            let n = self.buffer.len();
            if n > self.max_body_size {
                self.state = ParseState::Error(ParseErrorKind::PayloadTooLarge);
                        return Err(ParseErrorKind::PayloadTooLarge);
            }
            req.body = self.buffer.drain(n);
        }
        self.request = Some(req);
        self.state = ParseState::Complete;
        Ok(true)
    }

    /// Consumes whole chunks; `Ok(true)` once the last chunk and its empty line are read.
    fn parse_chunks(&mut self) -> (r: Result<bool, ParseErrorKind>)
        requires
            old(self).wf(),
            old(self).state == ParseState::ChunkedBody,
        ensures
            final(self).wf(),
            final(self).state == old(self).state,
            final(self).request == old(self).request,
            final(self).max_body_size == old(self).max_body_size,
            final(self).buffer@.len() <= old(self).buffer@.len(),
            chunked_decode(old(self).buffer@) is Some && old(self).body@.len() + chunked_decode(
                old(self).buffer@,
            ).unwrap().0.len() <= old(self).max_body_size ==> (r == Ok::<bool, ParseErrorKind>(true)
                && final(self).body@ == old(self).body@ + chunked_decode(old(self).buffer@).unwrap().0),
    {
        let crlf: [u8; 2] = [13u8, 10u8];
        assert(crlf@ == seq![13u8, 10u8]);
        let ghost whole = match chunked_decode(old(self).buffer@) {
            Some((d, _)) => old(self).body@ + d,
            None => Seq::<u8>::empty(),
        };
        let ghost good = chunked_decode(old(self).buffer@) is Some && whole.len() <= self.max_body_size;
        loop
            invariant
                self.wf(),
                self.state == old(self).state,
                self.request == old(self).request,
                self.max_body_size == old(self).max_body_size,
                self.buffer@.len() <= old(self).buffer@.len(),
                crlf@ == seq![13u8, 10u8],
                good ==> (chunked_decode(self.buffer@) is Some && self.body@ + chunked_decode(self.buffer@).unwrap().0
                    == whole),
                good ==> whole.len() <= self.max_body_size,
                good == (chunked_decode(old(self).buffer@) is Some && whole.len() <= self.max_body_size),
                chunked_decode(old(self).buffer@) is Some ==> whole == old(self).body@ + chunked_decode(
                    old(self).buffer@,
                ).unwrap().0,
            decreases self.buffer@.len(),
        {
            let ghost b = self.buffer@;
            let p = match self.buffer.find(crlf.as_slice()) {
                Some(p) => p,
                None => {
                    proof {
                        reveal(has_crlf);
                        if good {
                            if has_crlf(b) {
                                let i = choose|i: int| occurs_at(b, seq![13u8, 10u8], i);
                                assert(0 <= i <= b.len());
                            }
                        }
                    }
                    return Ok(false);
                },
            };
            proof {
                lemma_first_crlf_at(b, p as int);
            }
            let line_bytes = self.buffer.copy_range(0, p);
            assert(line_bytes@ == first_line(b));
            let line = match utf8_string(line_bytes) {
                Some(l) => l,
                None => {
                    return Err(ParseErrorKind::InvalidUtf8);
                },
            };
            let size = match parse_chunk_size(line.as_str()) {
                Some(n) => n,
                None => {
                    return Err(ParseErrorKind::InvalidChunkSize);
                },
            };
            proof {
                if good {
                    let dd = chunked_decode(b).unwrap().0;
                    if size > 0 {
                        assert(dd == b.subrange(p + 2, b.len() as int).subrange(0, size as int) + chunked_decode(
                            b.subrange(p + 2, b.len() as int).subrange(size + 2, b.len() - p - 2),
                        ).unwrap().0);
                        assert(dd.len() >= size);
                    }
                    assert(self.body@.len() + dd.len() <= self.max_body_size);
                }
            }
            if size > self.max_body_size - self.body.len() {
                return Err(ParseErrorKind::PayloadTooLarge);
            }
            if size == 0 {
                // skip trailer lines up to the empty line that ends the message
                let _ = self.buffer.drain(p + 2);
                proof {
                    if good {
                        assert(self.buffer@ =~= b.subrange(p + 2, b.len() as int));
                        assert(chunked_decode(b).unwrap().0.len() == 0);
                        assert(self.body@ =~= whole);
                    }
                }
                loop
                    invariant
                        self.wf(),
                        self.state == old(self).state,
                        self.request == old(self).request,
                        self.max_body_size == old(self).max_body_size,
                        self.buffer@.len() <= old(self).buffer@.len(),
                        good ==> (header_block(self.buffer@) is Some && self.body@ == whole),
                        good == (chunked_decode(old(self).buffer@) is Some && whole.len() <= self.max_body_size),
                        chunked_decode(old(self).buffer@) is Some ==> whole == old(self).body@ + chunked_decode(
                            old(self).buffer@,
                        ).unwrap().0,
                    decreases self.buffer@.len(),
                {
                    let ghost b2 = self.buffer@;
                    match self.take_line() {
                        Some(l) => {
                            proof {
                                if good {
                                    lemma_header_block_step(b2);
                                }
                            }
                            if l.len() == 0 {
                                return Ok(true);
                            }
                            proof {
                                if good {
                                    assert(self.buffer@ == b2.subrange(first_crlf(b2) + 2, b2.len() as int));
                                }
                            }
                        },
                        None => {
                            proof {
                                if good {
                                    lemma_header_block_step(b2);
                                }
                            }
                            return Ok(false);
                        },
                    }
                }
            }
            if self.buffer.len() - p - 2 < size {
                return Ok(false);
            }
            let need = p + 2 + size;
            if self.buffer.len() - need < 2 {
                return Ok(false);
            }
            if self.buffer.byte_at(need) != 13u8 || self.buffer.byte_at(need + 1) != 10u8 {
                return Err(ParseErrorKind::InvalidChunkSize);
            }
            let ghost body0 = self.body@;
            let _ = self.buffer.drain(p + 2);
            let data = self.buffer.drain(size);
            let _ = self.buffer.drain(2);
            self.body.extend_from_slice(data.as_slice());
            proof {
                let rest = b.subrange(p + 2, b.len() as int);
                assert(data@ == rest.subrange(0, size as int));
                assert(self.buffer@ =~= rest.subrange(size + 2, rest.len() as int));
                if good {
                    let d2 = chunked_decode(self.buffer@).unwrap().0;
                    assert(chunked_decode(b).unwrap().0 == rest.subrange(0, size as int) + d2);
                    assert(self.body@ + d2 =~= body0 + chunked_decode(b).unwrap().0);
                }
            }
        }
    }

    /// Parses what is buffered: `Ok(Some(request))` once a whole request has
    /// arrived, `Ok(None)` when more bytes are needed (or the request was
    /// already handed out), `Err` when the request is refused. The error state
    /// is final until `reset`; bytes are only ever consumed, never added.
    #[verifier::rlimit(100)]
    pub fn parse(&mut self) -> (r: Result<Option<Request>, ParseErrorKind>)
        requires
            old(self).wf(),
        ensures
            final(self).wf(),
            final(self).cap() == old(self).cap(),
            final(self).buffered().len() <= old(self).buffered().len(),
            old(self).state_of() matches ParseState::Error(k) ==> r == Err::<Option<Request>, ParseErrorKind>(k)
                && final(self).state_of() == old(self).state_of(),
            old(self).state_of() == ParseState::Complete ==> r matches Ok(None),
            r matches Err(k) ==> final(self).state_of() == ParseState::Error(k),
            r matches Ok(Some(req)) ==> final(self).state_of() == ParseState::Complete && req.version
                == Version::Http11 && req.body@.len() <= old(self).cap(),
            old(self).state_of() == ParseState::RequestLine && !has_crlf(old(self).buffered()) ==> (r matches Ok(
                None,
            ) && final(self).buffered() == old(self).buffered()),
            old(self).state_of() == ParseState::RequestLine && has_crlf(old(self).buffered()) && !valid_utf8(
                first_line(old(self).buffered()),
            ) ==> r == Err::<Option<Request>, ParseErrorKind>(ParseErrorKind::InvalidUtf8),
            old(self).state_of() == ParseState::RequestLine && has_crlf(old(self).buffered()) && valid_utf8(
                first_line(old(self).buffered()),
            ) && request_line_error(decode_utf8(first_line(old(self).buffered()))) is Some ==> r == Err::<
                Option<Request>,
                ParseErrorKind,
            >(request_line_error(decode_utf8(first_line(old(self).buffered()))).unwrap()),
            r matches Ok(None) && (final(self).state_of() == ParseState::RequestLine || final(self).state_of()
                == ParseState::Headers) ==> !has_crlf(final(self).buffered()),
            old(self).head_complete() && all_lines_ok(old(self).head_full()) && unframed(
                headers_from(old(self).head_full()),
            ) && !old(self).head_body_method() ==> (r matches Ok(Some(req)) && req.headers@ == headers_from(
                old(self).head_full(),
            )),
            old(self).head_complete() && !all_lines_ok(old(self).head_full()) ==> r == Err::<
                Option<Request>,
                ParseErrorKind,
            >(ParseErrorKind::BadHeader),
            old(self).head_complete() && all_lines_ok(old(self).head_full()) && !chunked_of(
                headers_from(old(self).head_full()),
            ) && (content_length_of(headers_from(old(self).head_full())) matches Some(n) && n > old(self).cap())
                ==> r == Err::<Option<Request>, ParseErrorKind>(ParseErrorKind::PayloadTooLarge),
            old(self).head_complete() && all_lines_ok(old(self).head_full()) && !chunked_of(
                headers_from(old(self).head_full()),
            ) && (content_length_of(headers_from(old(self).head_full())) matches Some(n) && n <= old(self).cap()
                && n <= old(self).head_rest().len()) ==> (r matches Ok(Some(req)) && req.headers@ == headers_from(
                old(self).head_full(),
            ) && req.body@ == old(self).head_rest().subrange(
                0,
                content_length_of(headers_from(old(self).head_full())).unwrap() as int,
            )),
            old(self).state_of() == ParseState::ChunkedBody && chunked_decode(old(self).buffered()) is Some && old(
                self,
            ).gathered() + chunked_decode(old(self).buffered()).unwrap().0.len() <= old(self).cap() ==> (r matches Ok(
                Some(req),
            ) && req.body@ == old(self).gathered_bytes() + chunked_decode(old(self).buffered()).unwrap().0),
            old(self).head_complete() && all_lines_ok(old(self).head_full()) && chunked_of(
                headers_from(old(self).head_full()),
            ) && chunked_decode(old(self).head_rest()) is Some && chunked_decode(old(self).head_rest()).unwrap().0.len()
                <= old(self).cap() ==> (r matches Ok(Some(req)) && req.headers@ == headers_from(
                old(self).head_full(),
            ) && req.body@ == chunked_decode(old(self).head_rest()).unwrap().0),
            old(self).state_of() == ParseState::Body && old(self).expected() is Some && old(self).expected().unwrap()
                <= old(self).buffered().len() ==> (r matches Ok(Some(req)) && req.body@ == old(
                self,
            ).buffered().subrange(0, old(self).expected().unwrap() as int)),
            r matches Ok(Some(req)) ==> (old(self).state_of() == ParseState::RequestLine ==> method_text(
                req.method,
            ) == words(decode_utf8(first_line(old(self).buffered())))[0] && req.target@ == words(
                decode_utf8(first_line(old(self).buffered())),
            )[1]),
    {
        if self.state == ParseState::RequestLine {
            match self.start_line() {
                Ok(true) => {
                    proof {
                        if complete_head(old(self).buffer@) {
                            lemma_on_track_start(old(self).buffer@);
                            assert(header_block(self.buffer@).unwrap().1 == old(self).head_rest());
                            assert(self.header_lines@.map_values(|x: String| x@) =~= Seq::<Seq<char>>::empty());
                            lemma_body_method_word(self.request.unwrap().method, words(decode_utf8(first_line(old(self).buffer@)))[0]);
                        }
                    }
                },
                Ok(false) => {
                    return Ok(None);
                },
                Err(k) => {
                    return Err(k);
                },
            }
        }
        loop
            invariant
                self.state != ParseState::RequestLine,
                old(self).state == ParseState::RequestLine ==> (has_crlf(old(self).buffer@) && valid_utf8(
                    first_line(old(self).buffer@),
                ) && request_line_error(decode_utf8(first_line(old(self).buffer@))) is None),
                old(self).head_complete() ==> (self.state == ParseState::Headers || self.state == ParseState::Body
                    || self.state == ParseState::ChunkedBody),
                old(self).head_complete() && self.state == ParseState::Headers ==> (on_track(
                    self.header_lines@.map_values(|x: String| x@),
                    self.buffer@,
                    old(self).head_full(),
                ) && (self.request matches Some(q) && (body_method(q.method) <==> old(self).head_body_method()))
                    && header_block(self.buffer@).unwrap().1 == old(self).head_rest()),
                old(self).head_complete() && self.state == ParseState::ChunkedBody ==> chunked_of(
                    headers_from(old(self).head_full()),
                ) && all_lines_ok(old(self).head_full()) && self.buffer@ == old(self).head_rest() && self.body@.len()
                    == 0 && (self.request matches Some(q) && q.headers@ == headers_from(old(self).head_full())),
                old(self).state == ParseState::ChunkedBody ==> (self.state == ParseState::ChunkedBody && self.buffer@
                    == old(self).buffer@ && self.body@ == old(self).body@),
                old(self).head_complete() && self.state == ParseState::Body ==> (!chunked_of(
                    headers_from(old(self).head_full()),
                ) && content_length_of(headers_from(old(self).head_full())) == self.expected_body_size
                    && self.buffer@ == old(self).head_rest() && (self.request matches Some(q) && q.headers@
                    == headers_from(old(self).head_full())) && all_lines_ok(old(self).head_full())),
                old(self).state == ParseState::Body ==> (self.state == ParseState::Body && self.buffer@ == old(
                    self,
                ).buffer@ && self.expected_body_size == old(self).expected_body_size),
                old(self).state == ParseState::RequestLine ==> (self.request matches Some(q) ==> method_text(
                    q.method,
                ) == words(decode_utf8(first_line(old(self).buffer@)))[0] && q.target@ == words(
                    decode_utf8(first_line(old(self).buffer@)),
                )[1]),
                self.wf(),
                self.max_body_size == old(self).max_body_size,
                self.buffer@.len() <= old(self).buffer@.len(),
                old(self).state matches ParseState::Error(k) ==> self.state == old(self).state,
                old(self).state == ParseState::Complete ==> self.state == ParseState::Complete,
            decreases self.buffer@.len() * 8 + match self.state {
                ParseState::RequestLine => 5int,
                ParseState::Headers => 4int,
                ParseState::ChunkedBody => 3int,
                ParseState::Body => 2int,
                _ => 0int,
            },
        {
            match self.state {
                ParseState::RequestLine => {
                    // the request line was read before the loop
                    return Ok(None);
                },
                ParseState::Headers => {
                    let ghost hl0 = self.header_lines@.map_values(|x: String| x@);
                    let ghost b0 = self.buffer@;
                    let ghost all = old(self).head_full();
                    proof {
                        if old(self).head_complete() {
                            if header_block(b0).unwrap().0.len() == 0 {
                                lemma_on_track_done(hl0, b0, all);
                            }
                        }
                    }
                    let ghost r0 = self.request;
                    let step = self.header_step();
                    proof {
                        if old(self).head_complete() && header_block(b0).unwrap().0.len() == 0 {
                            assert(hl0 == all);
                            assert(framing_outcome(hl0, r0, self.max_body_size, step, *self));
                            assert(r0 matches Some(q) && (body_method(q.method) <==> old(self).head_body_method()));
                            if !all_lines_ok(all) {
                                let i = choose|i: int| 0 <= i < all.len() && !line_ok(#[trigger] all[i]);
                                assert(!line_ok(hl0[i]));
                                assert(exists|i: int| 0 <= i < hl0.len() && !line_ok(#[trigger] hl0[i]));
                                assert(step matches HeaderStep::Failed(k) && k == ParseErrorKind::BadHeader);
                            }
                            if self.state == ParseState::ChunkedBody {
                                assert(chunked_of(headers_from(hl0)));
                                assert(self.buffer@ == header_block(b0).unwrap().1);
                                assert(self.gathered() == 0);
                            }
                            if self.state == ParseState::Body {
                                assert(self.pending_headers() == Some(headers_from(hl0)));
                                assert(self.expected() == content_length_of(headers_from(hl0)));
                                assert(self.buffer@ == header_block(b0).unwrap().1);
                            }
                        }
                    }
                    match step {
                        HeaderStep::Continue => {
                            proof {
                                if old(self).head_complete() && header_block(b0).unwrap().0.len() > 0 {
                                    lemma_on_track_step(hl0, b0, self.buffer@, all);
                                }
                            }
                        },
                        HeaderStep::NeedMore => {
                            return Ok(None);
                        },
                        HeaderStep::Done(q) => {
                            return Ok(q);
                        },
                        HeaderStep::Failed(k) => {
                            return Err(k);
                        },
                    }
                },
                ParseState::Body => {
                    proof {
                        if old(self).head_complete() {
                            let h = headers_from(old(self).head_full());
                            lemma_length_named(h);
                            assert(self.expected_body_size is Some);
                            assert(content_length_of(h) is Some);
                            assert(has_name(h, "Content-Length"@));
                            assert(!unframed(h));
                            assert(content_length_of(h).unwrap() <= self.max_body_size);
                        }
                    }
                    let n = match self.expected_body_size {
                        Some(n) => n,
                        None => 0,
                    };
                    if self.buffer.len() < n {
                        return Ok(None);
                    }
                    let data = self.buffer.drain(n);
                    let mut req = match self.request.take() {
                        Some(q) => q,
                        None => {
                            return Ok(None);
                        },
                    };
                    req.body = data;
                    self.request = Some(req);
                    self.state = ParseState::Complete;
                    return Ok(self.finish());
                },
                ParseState::ChunkedBody => {
                    match self.parse_chunks() {
                        Ok(true) => {
                            let mut req = match self.request.take() {
                                Some(q) => q,
                                None => {
                                    return Ok(None);
                                },
                            };
                            let mut body: Vec<u8> = Vec::new();
                            std::mem::swap(&mut body, &mut self.body);
                            req.body = body;
                            self.request = Some(req);
                            self.state = ParseState::Complete;
                            return Ok(self.finish());
                        },
                        Ok(false) => {
                            return Ok(None);
                        },
                        Err(k) => {
                            self.state = ParseState::Error(k);
                            return Err(k);
                        },
                    }
                },
                ParseState::Complete => {
                    return Ok(None);
                },
                ParseState::Error(k) => {
                    return Err(k);
                },
            }
        }
    }

    /// After the empty line that ends the headers: reads the framing, and hands
    /// out the request when it has no body.
    fn end_of_headers(&mut self) -> (r: HeaderStep)
        requires
            old(self).wf(),
            old(self).state == ParseState::Headers,
        ensures
            final(self).wf(),
            final(self).max_body_size == old(self).max_body_size,
            final(self).buffer@.len() <= old(self).buffer@.len(),
            match r {
                HeaderStep::Continue => final(self).in_body() && final(self).buffer == old(self).buffer,
                HeaderStep::NeedMore => false,
                HeaderStep::Done(q) => final(self).state == ParseState::Complete && (q matches Some(x) ==> (
                old(self).request matches Some(o) && x.method == o.method && x.target == o.target
                    && x.version == Version::Http11 && x.body@.len() <= old(self).max_body_size)),
                HeaderStep::Failed(k) => final(self).state == ParseState::Error(k),
            },
            final(self).request matches Some(q) ==> (old(self).request matches Some(o) && q.method == o.method
                && q.target == o.target),
            framing_outcome(
                old(self).header_lines@.map_values(|x: String| x@),
                old(self).request,
                old(self).max_body_size,
                r,
                *final(self),
            ),
    {
        match self.prepare_body() {
            Ok(true) => HeaderStep::Done(self.finish()),
            Ok(false) => HeaderStep::Continue,
            Err(k) => {
                self.state = ParseState::Error(k);
                HeaderStep::Failed(k)
            },
        }
    }

    /// Takes one header line; on the empty line that ends them, reads the
    /// body framing (and hands out the request when it has no body).
    fn header_step(&mut self) -> (r: HeaderStep)
        requires
            old(self).wf(),
            old(self).state == ParseState::Headers,
        ensures
            final(self).wf(),
            final(self).max_body_size == old(self).max_body_size,
            final(self).buffer@.len() <= old(self).buffer@.len(),
            match r {
                HeaderStep::Continue => final(self).buffer@.len() < old(self).buffer@.len() && final(self).state
                    != ParseState::RequestLine && (final(self).state == ParseState::Headers || final(self).in_body()),
                HeaderStep::NeedMore => !has_crlf(old(self).buffer@) && final(self).buffer@ == old(self).buffer@
                    && final(self).state == old(self).state,
                HeaderStep::Done(q) => final(self).state == ParseState::Complete && (q matches Some(x) ==> (
                old(self).request matches Some(o) && x.method == o.method && x.target == o.target
                    && x.version == Version::Http11 && x.body@.len() <= old(self).max_body_size)),
                HeaderStep::Failed(k) => final(self).state == ParseState::Error(k),
            },
            final(self).request matches Some(q) ==> (old(self).request matches Some(o) && q.method == o.method
                && q.target == o.target),
            header_ready(old(self).buffer@) && header_block(
                old(self).buffer@,
            ).unwrap().0.len() == 0 ==> final(self).buffer@.len() <= header_block(old(self).buffer@).unwrap().1.len()
                && (r is Continue ==> final(self).buffer@ == header_block(old(self).buffer@).unwrap().1 && (final(
                self).state == ParseState::Body || final(self).state == ParseState::ChunkedBody))
                && framing_outcome(
                old(self).header_lines@.map_values(|x: String| x@),
                old(self).request,
                old(self).max_body_size,
                r,
                *final(self),
            ),
            header_ready(old(self).buffer@) && header_block(
                old(self).buffer@,
            ).unwrap().0.len() > 0 ==> (r is Continue && final(self).state == ParseState::Headers
                && final(self).header_lines@.map_values(|x: String| x@) == old(self).header_lines@.map_values(
                |x: String| x@,
            ).push(decode_utf8(header_block(old(self).buffer@).unwrap().0[0])) && header_block(final(self).buffer@)
                == Some(
                (
                    header_block(old(self).buffer@).unwrap().0.drop_first(),
                    header_block(old(self).buffer@).unwrap().1,
                ),
            ) && final(self).request == old(self).request),
    {
        let ghost hb = header_block(self.buffer@);
        let ghost b = self.buffer@;
        let ghost hl = self.header_lines@.map_values(|x: String| x@);
        match self.take_line() {
            Some(l) => {
                proof {
                    if header_ready(b) {
                        lemma_header_block_step(b);
                        assert(l@ =~= b.subrange(0, first_crlf(b)));
                        if first_crlf(b) == 0 {
                            assert(hl + decoded(hb.unwrap().0) =~= hl);
                        }
                    }
                }
                if l.len() == 0 {
                    self.end_of_headers()
                } else {
                    match utf8_string(l) {
                        Some(t) => {
                            let ghost before = self.header_lines@.map_values(|x: String| x@);
                            self.header_lines.push(t);
                            assert(self.header_lines@.map_values(|x: String| x@) =~= before.push(t@));
                            HeaderStep::Continue
                        },
                        None => {
                            self.state = ParseState::Error(ParseErrorKind::InvalidUtf8);
                            HeaderStep::Failed(ParseErrorKind::InvalidUtf8)
                        },
                    }
                }
            },
            None => HeaderStep::NeedMore,
        }
    }

    /// Reads the request line, if a whole one has arrived: `Ok(false)` when
    /// more bytes are needed, `Ok(true)` once the headers come next.
    fn start_line(&mut self) -> (r: Result<bool, ParseErrorKind>)
        requires
            old(self).wf(),
            old(self).state == ParseState::RequestLine,
        ensures
            final(self).wf(),
            final(self).max_body_size == old(self).max_body_size,
            final(self).buffer@.len() <= old(self).buffer@.len(),
            !has_crlf(old(self).buffer@) ==> r == Ok::<bool, ParseErrorKind>(false) && final(self).buffer@
                == old(self).buffer@ && final(self).state == old(self).state,
            has_crlf(old(self).buffer@) && !valid_utf8(first_line(old(self).buffer@)) ==> r == Err::<
                bool,
                ParseErrorKind,
            >(ParseErrorKind::InvalidUtf8),
            has_crlf(old(self).buffer@) && valid_utf8(first_line(old(self).buffer@)) && request_line_error(
                decode_utf8(first_line(old(self).buffer@)),
            ) is Some ==> r == Err::<bool, ParseErrorKind>(
                request_line_error(decode_utf8(first_line(old(self).buffer@))).unwrap(),
            ),
            r == Ok::<bool, ParseErrorKind>(true) ==> final(self).state == ParseState::Headers && has_crlf(
                old(self).buffer@,
            ) && valid_utf8(first_line(old(self).buffer@)) && request_line_error(
                decode_utf8(first_line(old(self).buffer@)),
            ) is None && (final(self).request matches Some(q) && method_text(q.method) == words(
                decode_utf8(first_line(old(self).buffer@)),
            )[0] && q.target@ == words(decode_utf8(first_line(old(self).buffer@)))[1]) && final(self).buffer@
                == after_first_line(old(self).buffer@) && final(self).header_lines@.len() == 0,
            r matches Err(k) ==> final(self).state == ParseState::Error(k),
            r == Ok::<bool, ParseErrorKind>(false) ==> !has_crlf(old(self).buffer@),
            has_crlf(old(self).buffer@) && valid_utf8(first_line(old(self).buffer@)) && request_line_error(
                decode_utf8(first_line(old(self).buffer@)),
            ) is None ==> r == Ok::<bool, ParseErrorKind>(true),
    {
        match self.take_line() {
            Some(l) => {
                let text = match utf8_string(l) {
                    Some(t) => t,
                    None => {
                        self.state = ParseState::Error(ParseErrorKind::InvalidUtf8);
                        return Err(ParseErrorKind::InvalidUtf8);
                    },
                };
                match parse_request_line(text.as_str()) {
                    Ok(req) => {
                        self.request = Some(req);
                        self.header_lines = Vec::new();
                        self.state = ParseState::Headers;
                        Ok(true)
                    },
                    Err(k) => {
                        self.state = ParseState::Error(k);
                        Err(k)
                    },
                }
            },
            None => Ok(false),
        }
    }

    /// Hands out the completed request with its query parameters parsed.
    fn finish(&mut self) -> (r: Option<Request>)
        requires
            old(self).wf(),
            old(self).state == ParseState::Complete,
        ensures
            final(self).wf(),
            final(self).state == ParseState::Complete,
            final(self).buffer == old(self).buffer,
            final(self).max_body_size == old(self).max_body_size,
            r matches Some(q) ==> q.version == Version::Http11 && q.body@.len() <= old(self).max_body_size,
            r matches Some(q) ==> (old(self).request matches Some(o) && q.method == o.method && q.target
                == o.target && q.headers == o.headers && q.body == o.body),
            old(self).request is Some ==> r is Some,
            final(self).request is None,
    {
        match self.request.take() {
            Some(mut q) => {
                q.parse_query_params();
                Some(q)
            },
            None => None,
        }
    }

    /// Back to the start, for the next request on the connection.
    pub fn reset(&mut self)
        requires
            old(self).wf(),
        ensures
            final(self).wf(),
            final(self).state_of() == ParseState::RequestLine,
            final(self).buffered().len() == 0,
            final(self).gathered() == 0,
            final(self).cap() == old(self).cap(),
            final(self).is_fresh(),
            final(self).pending_headers() is None,
            final(self).expected() is None,
    {
        self.state = ParseState::RequestLine;
        self.buffer.clear();
        self.request = None;
        self.expected_body_size = None;
        self.header_lines = Vec::new();
        self.body = Vec::new();
    }

    pub fn is_error(&self) -> (r: bool)
        ensures
            r == (self.state_of() is Error),
    {
        match self.state {
            ParseState::Error(_) => true,
            _ => false,
        }
    }

    pub fn state(&self) -> (r: ParseState)
        ensures
            r == self.state_of(),
    {
        self.state
    }
}

} // verus!
