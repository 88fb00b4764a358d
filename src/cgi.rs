//! CGI marshalling: the environment handed to a script, and the reading of
//! the document it writes back.
use vstd::prelude::*;
use crate::buffer::{find_bytes, occurs_at};
use crate::error::ServerError;
use crate::headers::{first_value, has_name, headers_from, line_ok, remove_entry, set_entry, HeaderEntry, Headers};
use crate::method::method_text;
use crate::params::{lookup, split_on, split_str, ParamMap};
use crate::parser::words;
use crate::request::{content_length_of, path_of, query_of, Request};
use crate::response::Response;
use crate::status::StatusCode;
use crate::text::{all_digits, decimal, decimal_string, digits_value, parse_decimal, push_char, trim, trim_str};
use crate::utf8::utf8_string;
use crate::version::{version_text, Version};

verus! {

/// The environment-variable form of a header-name character.
pub open spec fn env_char(c: char) -> char {
    if 'a' <= c && c <= 'z' {
        (((c as u8) - 32) as u8) as char
    } else if c == '-' {
        '_'
    } else {
        c
    }
}

/// `HTTP_` and the header name upper-cased with `-` turned into `_`.
pub open spec fn env_name(name: Seq<char>) -> Seq<char> {
    "HTTP_"@ + name.map_values(|c: char| env_char(c))
}

/// `base` followed by one variable per header, holding its first value.
pub open spec fn header_vars(base: Seq<(Seq<char>, Seq<char>)>, h: Seq<HeaderEntry>) -> Seq<(Seq<char>, Seq<char>)>
    decreases h.len(),
{
    if h.len() == 0 {
        base
    } else if h.last().1.len() > 0 {
        header_vars(base, h.drop_last()).push((env_name(h.last().0), h.last().1[0]))
    } else {
        header_vars(base, h.drop_last())
    }
}

/// `base` followed by the variables that describe the request and the server.
pub open spec fn request_vars(base: Seq<(Seq<char>, Seq<char>)>, r: Request, server_name: Seq<char>, port: u16) -> Seq<
    (Seq<char>, Seq<char>),
> {
    let s = base.push(("REQUEST_METHOD"@, method_text(r.method))).push(("REQUEST_URI"@, r.target@)).push(
        ("SCRIPT_NAME"@, path_of(r.target@)),
    ).push(
        ("QUERY_STRING"@, match query_of(r.target@) {
            Some(q) => q,
            None => ""@,
        }),
    ).push(("PATH_INFO"@, ""@)).push(("PATH_TRANSLATED"@, ""@)).push(("SERVER_NAME"@, server_name)).push(
        ("SERVER_PORT"@, decimal(port as nat)),
    ).push(("SERVER_PROTOCOL"@, version_text(r.version))).push(("SERVER_SOFTWARE"@, "localhost/0.1.0"@));
    let s2 = match first_value(r.headers@, "Content-Type"@) {
        Some(t) => s.push(("CONTENT_TYPE"@, t)),
        None => s,
    };
    s2.push(
        ("CONTENT_LENGTH"@, match content_length_of(r.headers@) {
            Some(n) => decimal(n as nat),
            None => "0"@,
        }),
    )
}

/// The whole CGI environment, in the order it is built (a later entry wins).
pub open spec fn cgi_env(r: Request, script_filename: Option<Seq<char>>, server_name: Seq<char>, port: u16) -> Seq<
    (Seq<char>, Seq<char>),
> {
    let s = header_vars(request_vars(seq![], r, server_name, port), r.headers@).push(
        ("REMOTE_ADDR"@, "127.0.0.1"@),
    ).push(("REMOTE_HOST"@, ""@));
    let s2 = match script_filename {
        Some(f) => s.push(("SCRIPT_FILENAME"@, f)),
        None => s,
    };
    s2.push(("DOCUMENT_ROOT"@, ""@))
}

fn env_name_of(name: &str) -> (r: String)
    ensures
        r@ == env_name(name@),
{
    let mut s = "HTTP_".to_owned();
    let n = name.unicode_len();
    let ghost base = s@;
    let mut i: usize = 0;
    while i < n
        invariant
            n == name@.len(),
            i <= n,
            base == "HTTP_"@,
            s@ == base + name@.subrange(0, i as int).map_values(|c: char| env_char(c)),
        decreases n - i,
    {
        let c = name.get_char(i);
        let d = if 'a' <= c && c <= 'z' {
            ((c as u8) - 32) as char
        } else if c == '-' {
            '_'
        } else {
            c
        };
        push_char(&mut s, d);
        assert(name@.subrange(0, i + 1).map_values(|c: char| env_char(c)) =~= name@.subrange(0, i as int).map_values(
            |c: char| env_char(c),
        ).push(env_char(c)));
        i = i + 1;
    }
    assert(name@.subrange(0, n as int) =~= name@);
    s
}

fn push_var(env: &mut ParamMap, k: &str, v: &str)
    ensures
        final(env)@ == old(env)@.push((k@, v@)),
{
    env.insert(k.to_owned(), v.to_owned());
}

fn push_request_vars(env: &mut ParamMap, request: &Request, server_name: &str, server_port: u16)
    ensures
        final(env)@ == request_vars(old(env)@, *request, server_name@, server_port),
{
    let ghost start = env@;
    push_var(env, "REQUEST_METHOD", request.method.as_str());
    push_var(env, "REQUEST_URI", request.target.as_str());
    push_var(env, "SCRIPT_NAME", request.path());
    match request.query_string() {
        Some(q) => push_var(env, "QUERY_STRING", q),
        None => push_var(env, "QUERY_STRING", ""),
    }
    push_var(env, "PATH_INFO", "");
    push_var(env, "PATH_TRANSLATED", "");
    push_var(env, "SERVER_NAME", server_name);
    let port = decimal_string(server_port as u64);
    push_var(env, "SERVER_PORT", port.as_str());
    push_var(env, "SERVER_PROTOCOL", request.version.as_str());
    push_var(env, "SERVER_SOFTWARE", "localhost/0.1.0");
    if let Some(t) = request.content_type() {
        push_var(env, "CONTENT_TYPE", t.as_str());
    }
    match request.content_length() {
        Some(n) => {
            let t = decimal_string(n as u64);
            push_var(env, "CONTENT_LENGTH", t.as_str());
        },
        None => push_var(env, "CONTENT_LENGTH", "0"),
    }
}

fn push_header_vars(env: &mut ParamMap, headers: &Headers)
    ensures
        final(env)@ == header_vars(old(env)@, headers@),
{
    let ghost base = env@;
    let entries = headers.iter();
    let ghost h = headers@;
    let n = entries.len();
    let mut i: usize = 0;
    assert(h.subrange(0, 0).len() == 0);
    while i < n
        invariant
            n == entries@.len(),
            entries@.map_values(|e: (String, Vec<String>)| crate::headers::entry_view(e)) == h,
            i <= n,
            env@ == header_vars(base, h.subrange(0, i as int)),
        decreases n - i,
    {
        let ghost pre = h.subrange(0, i + 1);
        assert(pre.drop_last() =~= h.subrange(0, i as int));
        let name = entries[i].0.as_str();
        let vs = &entries[i].1;
        assert(pre.last() == crate::headers::entry_view(entries@[i as int]));
        assert(pre.last().1 == vs@.map_values(|s: String| s@));
        if vs.len() > 0 {
            let k = env_name_of(name);
            push_var(env, k.as_str(), vs[0].as_str());
        }
        i = i + 1;
    }
    assert(h.subrange(0, n as int) =~= h);
}

/// Builds CGI environments.
pub struct CgiEnvironment;

impl CgiEnvironment {
    /// The environment for running a script for `request`. `script_filename`
    /// is the script's canonical path when it could be found.
    pub fn build(request: &Request, script_filename: Option<&str>, server_name: &str, server_port: u16) -> (r:
        ParamMap)
        ensures
            r@ == cgi_env(*request, match script_filename {
                Some(f) => Some(f@),
                None => None,
            }, server_name@, server_port),
    {
        let mut env = ParamMap::new();
        push_request_vars(&mut env, request, server_name, server_port);
        push_header_vars(&mut env, &request.headers);
        push_var(&mut env, "REMOTE_ADDR", "127.0.0.1");
        push_var(&mut env, "REMOTE_HOST", "");
        if let Some(f) = script_filename {
            push_var(&mut env, "SCRIPT_FILENAME", f);
        }
        push_var(&mut env, "DOCUMENT_ROOT", "");
        env
    }
}

/// The status a CGI `Status` value asks for: its first word as a code in `100..=599`.
pub open spec fn cgi_status(value: Seq<char>) -> Option<u16> {
    let w = words(trim(value));
    if w.len() > 0 && w[0].len() > 0 && all_digits(w[0]) && digits_value(w[0], 10) <= usize::MAX && 100
        <= digits_value(w[0], 10) <= 599 {
        Some(digits_value(w[0], 10) as u16)
    } else {
        None
    }
}

/// The header lines of a CGI document: split at line feeds, carriage returns
/// at line ends dropped.
pub open spec fn cgi_lines(text: Seq<char>) -> Seq<Seq<char>> {
    if text.len() == 0 {
        seq![]
    } else {
        split_on(text, '\n').map_values(|l: Seq<char>| strip_cr(l))
    }
}

pub open spec fn strip_cr(l: Seq<char>) -> Seq<char> {
    if l.len() > 0 && l.last() == '\r' {
        l.drop_last()
    } else {
        l
    }
}

/// The interpreter configured for a script: the handler for its extension
/// written with a dot (`.py`).
pub open spec fn interpreter_of(handlers: Seq<(Seq<char>, Seq<char>)>, script: Seq<char>) -> Option<Seq<char>> {
    match crate::handlers::extension_of(script) {
        Some(e) => lookup(handlers, "."@ + e),
        None => None,
    }
}

/// A script is run through CGI: its extension is the route's CGI extension, or
/// a server CGI handler is configured for it.
pub open spec fn is_cgi_of(route_ext: Option<Seq<char>>, handlers: Seq<(Seq<char>, Seq<char>)>, script: Seq<char>) -> bool {
    match crate::handlers::extension_of(script) {
        Some(e) => route_ext == Some(e) || lookup(handlers, "."@ + e) is Some,
        None => false,
    }
}

/// Decides which requests go to CGI and through which interpreter.
pub struct CgiHandler {
    handlers: ParamMap,
    server_name: String,
    server_port: u16,
    executor: CgiExecutor,
}

impl CgiHandler {
    /// From a server's `(extension, interpreter)` list, name and port.
    pub fn new(cgi_handlers: &Vec<(String, String)>, server_name: String, server_port: u16) -> (r: CgiHandler)
        ensures
            r.handlers() == cgi_handlers@.map_values(|e: (String, String)| (e.0@, e.1@)),
            r.server_name_spec() == server_name@,
            r.port() == server_port,
    {
        let mut m = ParamMap::new();
        let mut i: usize = 0;
        while i < cgi_handlers.len()
            invariant
                i <= cgi_handlers@.len(),
                m@ == cgi_handlers@.subrange(0, i as int).map_values(|e: (String, String)| (e.0@, e.1@)),
            decreases cgi_handlers@.len() - i,
        {
            m.insert(cgi_handlers[i].0.clone(), cgi_handlers[i].1.clone());
            assert(cgi_handlers@.subrange(0, i + 1).map_values(|e: (String, String)| (e.0@, e.1@)) =~= cgi_handlers@.subrange(
                0,
                i as int,
            ).map_values(|e: (String, String)| (e.0@, e.1@)).push((cgi_handlers@[i as int].0@, cgi_handlers@[i as int].1@)));
            i = i + 1;
        }
        assert(cgi_handlers@.subrange(0, i as int) =~= cgi_handlers@);
        CgiHandler {
            handlers: m,
            server_name,
            server_port,
            executor: CgiExecutor::new(crate::config::DEFAULT_TIMEOUT_SECS),
        }
    }

    pub closed spec fn handlers(&self) -> Seq<(Seq<char>, Seq<char>)> {
        self.handlers@
    }

    pub closed spec fn server_name_spec(&self) -> Seq<char> {
        self.server_name@
    }

    pub closed spec fn port(&self) -> u16 {
        self.server_port
    }

    pub fn server_name(&self) -> (r: &str)
        ensures
            r@ == self.server_name_spec(),
    {
        self.server_name.as_str()
    }

    pub fn server_port(&self) -> (r: u16)
        ensures
            r == self.port(),
    {
        self.server_port
    }

    pub fn executor(&self) -> &CgiExecutor {
        &self.executor
    }

    /// The answer to a CGI request: the script's response, 500 for a CGI
    /// error, 504 for a timeout; other errors are passed on.
    pub fn result_response(version: Version, result: Result<Response, ServerError>) -> (r: Result<Response, ServerError>)
        ensures
            match result {
                Ok(resp) => r == Ok::<Response, ServerError>(resp),
                Err(ServerError::CgiError(_)) => r matches Ok(x) && x.status.0 == 500,
                Err(ServerError::TimeoutError(_)) => r matches Ok(x) && x.status.0 == 504,
                Err(e) => r == Err::<Response, ServerError>(e),
            },
    {
        match result {
            Ok(resp) => Ok(resp),
            Err(ServerError::CgiError(m)) => {
                let mut msg = "CGI Error: ".to_owned();
                msg.append(m.as_str());
                Ok(Response::internal_error_with_message(version, msg.as_str()))
            },
            Err(ServerError::TimeoutError(m)) => {
                let mut msg = "CGI Timeout: ".to_owned();
                msg.append(m.as_str());
                Ok(Response::gateway_timeout_with_message(version, msg.as_str()))
            },
            Err(e) => Err(e),
        }
    }

    /// The interpreter to run `script` with, if one is configured.
    pub fn get_interpreter(&self, script: &str) -> (r: Option<String>)
        ensures
            match r {
                Some(i) => interpreter_of(self.handlers(), script@) == Some(i@),
                None => interpreter_of(self.handlers(), script@) is None,
            },
    {
        match crate::handlers::extension(script) {
            Some(e) => {
                let mut key = ".".to_owned();
                key.append(e.as_str());
                match self.handlers.get(key.as_str()) {
                    Some(v) => Some(v.clone()),
                    None => None,
                }
            },
            None => None,
        }
    }

    /// Whether `script` is to be run through CGI under a route with the given CGI extension.
    pub fn is_cgi_script(&self, route_extension: Option<&str>, script: &str) -> (r: bool)
        ensures
            r == is_cgi_of(
                match route_extension {
                    Some(x) => Some(x@),
                    None => None,
                },
                self.handlers(),
                script@,
            ),
    {
        match crate::handlers::extension(script) {
            Some(e) => {
                let by_route = match route_extension {
                    Some(x) => crate::text::eq_str(x, e.as_str()),
                    None => false,
                };
                let mut key = ".".to_owned();
                key.append(e.as_str());
                by_route || self.handlers.contains_key(key.as_str())
            },
            None => false,
        }
    }
}

/// Runs CGI scripts; the spawning itself is done by the server.
pub struct CgiExecutor {
    timeout_secs: u64,
}

impl CgiExecutor {
    pub fn new(timeout_secs: u64) -> (r: CgiExecutor)
        ensures
            r.timeout() == timeout_secs,
    {
        CgiExecutor { timeout_secs }
    }

    pub closed spec fn timeout(&self) -> u64 {
        self.timeout_secs
    }

    /// The response for a script that has run: a failed exit is a CGI error
    /// carrying what it wrote to stderr; otherwise its output is read as a CGI document.
    pub fn complete(&self, exited_ok: bool, stdout: &[u8], stderr: &str) -> (r: Result<Response, ServerError>)
        ensures
            !exited_ok ==> (r matches Err(e) && e is CgiError),
            r matches Err(e) ==> e is CgiError,
            exited_ok ==> (r is Ok <==> cgi_doc_ok(stdout@)),
            r matches Ok(resp) ==> cgi_response_of(stdout@, resp),
    {
        if !exited_ok {
            let mut msg = "CGI script failed: ".to_owned();
            msg.append(stderr);
            return Err(ServerError::CgiError(msg));
        }
        CgiIo::parse_cgi_output(stdout)
    }

    /// The longest a script may run, in seconds.
    pub fn timeout_secs(&self) -> (r: u64)
        ensures
            r == self.timeout(),
    {
        self.timeout_secs
    }
}

/// Reads CGI documents.
pub struct CgiIo;

impl CgiIo {
    /// The status a `Status` header value asks for.
    pub fn parse_status_header(status_str: &str) -> (r: Result<StatusCode, ServerError>)
        ensures
            match r {
                Ok(s) => cgi_status(status_str@) == Some(s.0),
                Err(e) => cgi_status(status_str@) is None && e is CgiError,
            },
    {
        let t = trim_str(status_str);
        let w = crate::parser::split_words(t.as_str());
        if w.len() == 0 {
            return Err(ServerError::CgiError("Empty Status header".to_owned()));
        }
        assert(w@[0]@ == words(trim(status_str@))[0]);
        let code = match parse_decimal(w[0].as_str()) {
            Some(c) => c,
            None => {
                return Err(ServerError::CgiError("Invalid status code in Status header".to_owned()));
            },
        };
        if code < 100 || code > 599 {
            return Err(ServerError::CgiError("Invalid HTTP status code".to_owned()));
        }
        Ok(StatusCode(code as u16))
    }

    /// Reads a CGI document: header lines, an empty line (CRLF CRLF), the
    /// body. The `Status` header picks the status (200 without one) and is not
    /// passed on; the other headers are.
    #[verifier::rlimit(80)]
    pub fn parse_cgi_output(output: &[u8]) -> (r: Result<Response, ServerError>)
        ensures
            r is Ok <==> cgi_doc_ok(output@),
            match r {
                Ok(resp) => cgi_response_of(output@, resp),
                Err(e) => e is CgiError,
            },
    {
        let mut v: Vec<u8> = Vec::new();
        v.extend_from_slice(output);
        let sep: [u8; 4] = [13u8, 10u8, 13u8, 10u8];
        assert(sep@ == seq![13u8, 10u8, 13u8, 10u8]);
        assert(v@ == output@);
        let k = match find_bytes(&v, sep.as_slice(), 0) {
            Some(k) => k,
            None => {
                assert(!cgi_doc_ok(output@)) by {
                    if exists|j: int| occurs_at(output@, seq![13u8, 10u8, 13u8, 10u8], j) {
                        let j = choose|j: int| occurs_at(output@, seq![13u8, 10u8, 13u8, 10u8], j);
                        assert(0 <= j <= output@.len());
                    }
                }
                return Err(ServerError::CgiError("CGI output missing header separator".to_owned()));
            },
        };
        proof {
            let o = output@;
            let sp = seq![13u8, 10u8, 13u8, 10u8];
            assert(occurs_at(o, sp, k as int));
            let k2 = first_sep(o);
            assert(occurs_at(o, sp, k2) && forall|j: int| 0 <= j < k2 ==> !occurs_at(o, sp, j));
            if k2 < k {
                assert(!occurs_at(o, sp, k2));
            } else if k2 > k {
                assert(!occurs_at(o, sp, k as int));
            }
            assert(first_sep(o) == k);
        }
        let mut head: Vec<u8> = Vec::new();
        let mut i: usize = 0;
        while i < k
            invariant
                i <= k,
                k + 4 <= v@.len(),
                head@ == v@.subrange(0, i as int),
            decreases k - i,
        {
            head.push(v[i]);
            assert(head@ =~= v@.subrange(0, i + 1));
            i = i + 1;
        }
        let text = match utf8_string(head) {
            Some(t) => t,
            None => {
                return Err(ServerError::CgiError("CGI headers are not UTF-8".to_owned()));
            },
        };
        let lines = cgi_lines_of(text.as_str());
        let ghost ls = lines@.map_values(|x: String| x@);
        let headers = match Headers::from_lines(lines.as_slice()) {
            Ok(h) => h,
            Err(_) => {
                assert(!cgi_doc_ok(output@)) by {
                    let i = choose|i: int| 0 <= i < lines@.len() && !line_ok(#[trigger] lines@[i]@);
                    assert(ls[i] == lines@[i]@);
                }
                return Err(ServerError::CgiError("Failed to parse CGI headers".to_owned()));
            },
        };
        let status = match headers.get("Status") {
            Some(s) => match CgiIo::parse_status_header(s.as_str()) {
                Ok(c) => c,
                Err(e) => {
                    return Err(e);
                },
            },
            None => StatusCode::OK(),
        };
        let mut body: Vec<u8> = Vec::new();
        let n = v.len();
        let mut j: usize = k + 4;
        while j < n
            invariant
                k + 4 <= j <= n,
                n == v@.len(),
                body@ == v@.subrange(k + 4, j as int),
            decreases n - j,
        {
            body.push(v[j]);
            assert(body@ =~= v@.subrange(k + 4, j + 1));
            j = j + 1;
        }
        let mut resp = Response::new(Version::Http11, status);
        let mut hs = headers;
        hs.remove("Status");
        let now = crate::clock::now_secs();
        with_defaults(&mut hs, now);
        resp.headers = hs;
        resp.body = body;
        Ok(resp)
    }
}

/// The position of the first CRLF CRLF.
pub open spec fn first_sep(out: Seq<u8>) -> int {
    choose|k: int|
        occurs_at(out, seq![13u8, 10u8, 13u8, 10u8], k) && forall|j: int|
            0 <= j < k ==> !occurs_at(out, seq![13u8, 10u8, 13u8, 10u8], j)
}

/// A readable CGI document: a CRLF CRLF, a UTF-8 head before the first one
/// with well-formed header lines, and a valid code in any `Status` header.
pub open spec fn cgi_doc_ok(out: Seq<u8>) -> bool {
    &&& exists|k: int| occurs_at(out, seq![13u8, 10u8, 13u8, 10u8], k)
    &&& vstd::utf8::valid_utf8(out.subrange(0, first_sep(out)))
    &&& {
        let lines = cgi_lines(vstd::utf8::decode_utf8(out.subrange(0, first_sep(out))));
        &&& forall|i: int| 0 <= i < lines.len() ==> line_ok(#[trigger] lines[i])
        &&& (first_value(headers_from(lines), "Status"@) matches Some(v) ==> cgi_status(v) is Some)
    }
}

/// `resp` is what the CGI document `out` describes: the body after the first
/// CRLF CRLF, and the status and headers of the head before it.
pub open spec fn cgi_response_of(out: Seq<u8>, resp: Response) -> bool {
    &&& occurs_at(out, seq![13u8, 10u8, 13u8, 10u8], first_sep(out))
    &&& resp.body@ == out.subrange(first_sep(out) + 4, out.len() as int)
    &&& valid_header_block(out.subrange(0, first_sep(out)), resp)
}

/// The header block `head` of a CGI document gave `resp` its status and headers.
pub open spec fn valid_header_block(head: Seq<u8>, resp: Response) -> bool {
    &&& vstd::utf8::valid_utf8(head)
    &&& {
        let lines = cgi_lines(vstd::utf8::decode_utf8(head));
        let h = headers_from(lines);
        &&& forall|i: int| 0 <= i < lines.len() ==> line_ok(#[trigger] lines[i])
        &&& exists|t: u64| resp.headers@ == defaults_added(remove_entry(h, "Status"@), t)
        &&& resp.status.0 == match first_value(h, "Status"@) {
            Some(v) => cgi_status(v).unwrap(),
            None => 200u16,
        }
        &&& (first_value(h, "Status"@) matches Some(v) ==> cgi_status(v) is Some)
        &&& resp.version == Version::Http11
        &&& !resp.chunked
    }
}

/// `Server` and `Date` (for clock reading `t`) added when absent.
pub open spec fn defaults_added(h: Seq<HeaderEntry>, t: u64) -> Seq<HeaderEntry> {
    let h1 = if has_name(h, "Server"@) { h } else { set_entry(h, "Server"@, crate::response::server_id()) };
    if has_name(h1, "Date"@) { h1 } else { set_entry(h1, "Date"@, crate::date::imf_date(t as nat)) }
}

fn with_defaults(h: &mut Headers, now: u64)
    ensures
        final(h)@ == defaults_added(old(h)@, now),
{
    if !h.contains("Server") {
        h.set("Server".to_owned(), "localhost/0.1.0".to_owned());
    }
    if !h.contains("Date") {
        h.set("Date".to_owned(), crate::date::http_date(now));
    }
}

fn cgi_lines_of(text: &str) -> (r: Vec<String>)
    ensures
        r@.map_values(|x: String| x@) == cgi_lines(text@),
{
    if text.unicode_len() == 0 {
        let v: Vec<String> = Vec::new();
        assert(v@.map_values(|x: String| x@) =~= cgi_lines(text@));
        return v;
    }
    let pieces = split_str(text, '\n');
    let ghost ps = pieces@.map_values(|x: String| x@);
    let mut out: Vec<String> = Vec::new();
    let mut i: usize = 0;
    while i < pieces.len()
        invariant
            ps == pieces@.map_values(|x: String| x@),
            ps == split_on(text@, '\n'),
            i <= pieces@.len(),
            out@.map_values(|x: String| x@) == ps.subrange(0, i as int).map_values(|l: Seq<char>| strip_cr(l)),
        decreases pieces@.len() - i,
    {
        let p = pieces[i].as_str();
        assert(p@ == ps[i as int]);
        let m = p.unicode_len();
        let l = if m > 0 && p.get_char(m - 1) == '\r' {
            p.substring_char(0, m - 1).to_owned()
        } else {
            p.to_owned()
        };
        assert(l@ == strip_cr(ps[i as int]));
        let ghost before = out@.map_values(|x: String| x@);
        out.push(l);
        assert(out@.map_values(|x: String| x@) =~= before.push(l@));
        assert(ps.subrange(0, i + 1).map_values(|l: Seq<char>| strip_cr(l)) =~= ps.subrange(0, i as int).map_values(
            |l: Seq<char>| strip_cr(l),
        ).push(strip_cr(ps[i as int])));
        i = i + 1;
    }
    assert(ps.subrange(0, i as int) =~= ps);
    out
}

} // verus!
