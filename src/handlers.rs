//! Request handlers: what each produces from a request and the facts the
//! server gathered for it.
use vstd::prelude::*;
use vstd::string::*;
use crate::config::{RouteConfig, ServerConfig};
use crate::error::ServerError;
use crate::headers::set_entry;

use crate::request::{path_of, Request};
use crate::response::Response;
use crate::router::Router;
use crate::status::{reason_of, StatusCode};
use crate::text::{decimal, eq_ignore_case, eq_nocase, eq_str, has_prefix, push_decimal, rfind_char, starts_with, substring};
use crate::version::Version;

verus! {

/// Handles one request.
pub trait RequestHandler {
    fn handle(&self, request: &Request) -> Result<Response, ServerError>;
}

/// Where a redirect points: absolute URLs and absolute paths stand as
/// written, a relative target is taken from the request path's directory.
pub open spec fn location_for(target: Seq<char>, request_path: Seq<char>) -> Seq<char> {
    if has_prefix(target, "http://"@) || has_prefix(target, "https://"@) || has_prefix(target, "/"@) {
        target
    } else if exists|i: int| 0 <= i < request_path.len() && request_path[i] == '/' {
        let k = choose|i: int|
            0 <= i < request_path.len() && request_path[i] == '/' && forall|j: int|
                i < j < request_path.len() ==> request_path[j] != '/';
        request_path.subrange(0, k + 1) + target
    } else {
        "/"@ + target
    }
}

/// The Location for a redirect target seen from a request path.
pub fn redirect_location(target: &str, request_path: &str) -> (r: String)
    ensures
        r@ == location_for(target@, request_path@),
{
    if starts_with(target, "http://") || starts_with(target, "https://") || starts_with(target, "/") {
        return target.to_owned();
    }
    match rfind_char(request_path, '/') {
        Some(k) => {
            proof {
                let l = request_path@;
                assert(0 <= k < l.len() && l[k as int] == '/');
                let k2 = choose|i: int|
                    0 <= i < l.len() && l[i] == '/' && forall|j: int| i < j < l.len() ==> l[j] != '/';
                if k2 < k {
                    assert(l[k as int] != '/');
                } else if k2 > k {
                    assert(l[k2] != '/');
                }
            }
            let n = request_path.unicode_len();
            let mut s = substring(request_path, 0, k + 1);
            s.append(target);
            s
        },
        None => {
            let mut s = "/".to_owned();
            s.append(target);
            s
        },
    }
}

/// The redirect status of a route: 301 when configured so, else 302.
pub open spec fn redirect_status(route: RouteConfig) -> u16 {
    match route.redirect_type {
        Some(t) => if t@ == "301"@ { 301 } else { 302 },
        None => 302,
    }
}

/// Issues the redirects routes are configured with.
pub struct RedirectionHandler {
    router: Router,
}

impl RedirectionHandler {
    pub fn new(router: Router) -> (r: RedirectionHandler)
        ensures
            r.router() == router,
    {
        RedirectionHandler { router }
    }

    pub closed spec fn router(&self) -> Router {
        self.router
    }

    /// The redirect for `route`: its status, `Location`, and an empty body.
    pub fn redirect(route: &RouteConfig, request: &Request) -> (r: Result<Response, ServerError>)
        ensures
            match r {
                Ok(resp) => route.redirect matches Some(t) && resp.status.0 == redirect_status(*route)
                    && resp.version == request.version && resp.body@.len() == 0 && exists|h|
                    resp.headers@ == set_entry(
                        set_entry(h, "Location"@, location_for(t@, path_of(request.target@))),
                        "Content-Length"@,
                        "0"@,
                    ),
                Err(e) => route.redirect is None && e is HttpError,
            },
    {
        let target = match &route.redirect {
            Some(t) => t,
            None => {
                return Err(ServerError::HttpError("Route does not have redirect configured".to_owned()));
            },
        };
        let permanent = match &route.redirect_type {
            Some(t) => eq_str(t.as_str(), "301"),
            None => false,
        };
        let status = if permanent { StatusCode::MOVED_PERMANENTLY() } else { StatusCode::FOUND() };
        let mut resp = Response::new(request.version, status);
        let loc = redirect_location(target.as_str(), request.path());
        resp.set_location(loc.as_str());
        resp.set_body_str("");
        proof {
            reveal_strlit("");
            reveal_strlit("0");
            assert(decimal(0) =~= "0"@);
        }
        Ok(resp)
    }
}

impl RequestHandler for RedirectionHandler {
    fn handle(&self, request: &Request) -> Result<Response, ServerError> {
        let route = match self.router.match_route(request) {
            Some(r) => r,
            None => {
                return Err(ServerError::HttpError("No matching route".to_owned()));
            },
        };
        RedirectionHandler::redirect(route, request)
    }
}

/// The extension of a path: what follows the last `.` of its last segment.
pub open spec fn extension_of(path: Seq<char>) -> Option<Seq<char>> {
    if exists|i: int| 0 <= i < path.len() && path[i] == '.' {
        let k = last_dot(path);
        if forall|j: int| k < j < path.len() ==> path[j] != '/' {
            Some(path.subrange(k + 1, path.len() as int))
        } else {
            None
        }
    } else {
        None
    }
}

/// The position of the last `.`.
pub open spec fn last_dot(path: Seq<char>) -> int {
    choose|i: int| 0 <= i < path.len() && path[i] == '.' && forall|j: int| i < j < path.len() ==> path[j] != '.'
}

/// The extension of a path.
pub fn extension(path: &str) -> (r: Option<String>)
    ensures
        match r {
            Some(e) => extension_of(path@) == Some(e@),
            None => extension_of(path@) is None,
        },
{
    match rfind_char(path, '.') {
        Some(k) => {
            let n = path.unicode_len();
            let ghost l = path@;
            proof {
                assert(0 <= k < l.len() && l[k as int] == '.' && forall|j: int| k < j < l.len() ==> l[j] != '.');
                let k2 = last_dot(l);
                if k2 < k {
                    assert(l[k as int] != '.');
                } else if k2 > k {
                    assert(l[k2] != '.');
                }
                assert(last_dot(l) == k);
            }
            let mut j = k + 1;
            while j < n
                invariant
                    l == path@,
                    last_dot(l) == k,
                    n == l.len(),
                    k < j <= n,
                    forall|m: int| k < m < j ==> l[m] != '/',
                decreases n - j,
            {
                if path.get_char(j) == '/' {
                    assert(l[j as int] == '/' && k < j < l.len());
                    assert(!(forall|m: int| last_dot(l) < m < l.len() ==> l[m] != '/'));
                    return None;
                }
                j = j + 1;
            }
            Some(substring(path, k + 1, n))
        },
        None => None,
    }
}

/// The media type for an extension (any case); `application/octet-stream` otherwise.
pub open spec fn mime_for(ext: Option<Seq<char>>) -> Seq<char> {
    match ext {
        Some(e) => {
            if eq_nocase(e, "html"@) || eq_nocase(e, "htm"@) { "text/html"@ }
            else if eq_nocase(e, "css"@) { "text/css"@ }
            else if eq_nocase(e, "js"@) { "application/javascript"@ }
            else if eq_nocase(e, "json"@) { "application/json"@ }
            else if eq_nocase(e, "png"@) { "image/png"@ }
            else if eq_nocase(e, "jpg"@) || eq_nocase(e, "jpeg"@) { "image/jpeg"@ }
            else if eq_nocase(e, "gif"@) { "image/gif"@ }
            else if eq_nocase(e, "webp"@) { "image/webp"@ }
            else if eq_nocase(e, "svg"@) { "image/svg+xml"@ }
            else if eq_nocase(e, "ico"@) { "image/x-icon"@ }
            else if eq_nocase(e, "pdf"@) { "application/pdf"@ }
            else if eq_nocase(e, "txt"@) { "text/plain"@ }
            else if eq_nocase(e, "xml"@) { "application/xml"@ }
            else if eq_nocase(e, "zip"@) { "application/zip"@ }
            else if eq_nocase(e, "mp4"@) { "video/mp4"@ }
            else if eq_nocase(e, "mp3"@) { "audio/mpeg"@ }
            else { "application/octet-stream"@ }
        },
        None => "application/octet-stream"@,
    }
}

fn mime_for_ext(e: &str) -> (r: &'static str)
    ensures
        r@ == mime_for(Some(e@)),
{
    if eq_ignore_case(e, "html") || eq_ignore_case(e, "htm") {
        "text/html"
    } else if eq_ignore_case(e, "css") {
        "text/css"
    } else if eq_ignore_case(e, "js") {
        "application/javascript"
    } else if eq_ignore_case(e, "json") {
        "application/json"
    } else if eq_ignore_case(e, "png") {
        "image/png"
    } else if eq_ignore_case(e, "jpg") || eq_ignore_case(e, "jpeg") {
        "image/jpeg"
    } else if eq_ignore_case(e, "gif") {
        "image/gif"
    } else if eq_ignore_case(e, "webp") {
        "image/webp"
    } else if eq_ignore_case(e, "svg") {
        "image/svg+xml"
    } else if eq_ignore_case(e, "ico") {
        "image/x-icon"
    } else if eq_ignore_case(e, "pdf") {
        "application/pdf"
    } else if eq_ignore_case(e, "txt") {
        "text/plain"
    } else if eq_ignore_case(e, "xml") {
        "application/xml"
    } else if eq_ignore_case(e, "zip") {
        "application/zip"
    } else if eq_ignore_case(e, "mp4") {
        "video/mp4"
    } else if eq_ignore_case(e, "mp3") {
        "audio/mpeg"
    } else {
        "application/octet-stream"
    }
}

/// Serves files from disk.
pub struct StaticFileHandler {
    router: Router,
}

impl StaticFileHandler {
    pub fn new(router: Router) -> (r: StaticFileHandler)
        ensures
            r.router() == router,
    {
        StaticFileHandler { router }
    }

    pub closed spec fn router(&self) -> Router {
        self.router
    }

    pub fn router_ref(&self) -> (r: &Router)
        ensures
            *r == self.router(),
    {
        &self.router
    }

    /// The media type for a file path, from its extension.
    pub fn get_mime_type(&self, path: &str) -> (r: &'static str)
        ensures
            r@ == mime_for(extension_of(path@)),
    {
        mime_type(path)
    }

    /// 200 with the file's bytes and the media type of its path.
    pub fn file_response(version: Version, path: &str, content: Vec<u8>) -> (r: Response)
        ensures
            r.status.0 == 200,
            r.version == version,
            r.body@ == content@,
            !r.chunked,
            exists|h|
                r.headers@ == set_entry(
                    set_entry(h, "Content-Type"@, mime_for(extension_of(path@))),
                    "Content-Length"@,
                    decimal(content@.len()),
                ),
    {
        let mut resp = Response::ok(version);
        resp.set_content_type(mime_type(path));
        resp.set_body(content);
        resp
    }
}

/// The media type for a file path, from its extension.
pub fn mime_type(path: &str) -> (r: &'static str)
    ensures
        r@ == mime_for(extension_of(path@)),
{
    match extension(path) {
        Some(e) => mime_for_ext(e.as_str()),
        None => "application/octet-stream",
    }
}

/// What the file system said about a file to delete.
#[derive(Debug, Clone, PartialEq, Eq)]
pub enum DeleteOutcome {
    Missing,
    Directory,
    NotRegularFile,
    Deleted,
    PermissionDenied,
    Failed(String),
}

/// The status a delete outcome is answered with.
pub open spec fn delete_status(o: DeleteOutcome) -> u16 {
    match o {
        DeleteOutcome::Missing => 404,
        DeleteOutcome::Directory => 403,
        DeleteOutcome::NotRegularFile => 403,
        DeleteOutcome::Deleted => 200,
        DeleteOutcome::PermissionDenied => 403,
        DeleteOutcome::Failed(_) => 500,
    }
}

/// The plain-text message a delete outcome is answered with.
pub open spec fn delete_message(o: DeleteOutcome) -> Seq<char> {
    match o {
        DeleteOutcome::Missing => "File not found"@,
        DeleteOutcome::Directory => "Cannot delete directory"@,
        DeleteOutcome::NotRegularFile => "Path is not a file"@,
        DeleteOutcome::Deleted => "File deleted successfully"@,
        DeleteOutcome::PermissionDenied => "Permission denied"@,
        DeleteOutcome::Failed(m) => "Failed to delete file: "@ + m@,
    }
}

/// Deletes regular files.
pub struct DeleteHandler {
    router: Router,
}

impl DeleteHandler {
    pub fn new(router: Router) -> (r: DeleteHandler)
        ensures
            r.router() == router,
    {
        DeleteHandler { router }
    }

    pub closed spec fn router(&self) -> Router {
        self.router
    }

    pub fn router_ref(&self) -> (r: &Router)
        ensures
            *r == self.router(),
    {
        &self.router
    }

    /// The answer to a DELETE given what happened on disk.
    pub fn delete_response(version: Version, outcome: &DeleteOutcome) -> (r: Response)
        ensures
            r.status.0 == delete_status(*outcome),
            r.version == version,
            r.body@ == crate::utf8::encode(delete_message(*outcome)),
            !r.chunked,
    {
        let (status, msg): (StatusCode, String) = match outcome {
            DeleteOutcome::Missing => (StatusCode::NOT_FOUND(), "File not found".to_owned()),
            DeleteOutcome::Directory => (StatusCode::FORBIDDEN(), "Cannot delete directory".to_owned()),
            DeleteOutcome::NotRegularFile => (StatusCode::FORBIDDEN(), "Path is not a file".to_owned()),
            DeleteOutcome::Deleted => (StatusCode::OK(), "File deleted successfully".to_owned()),
            DeleteOutcome::PermissionDenied => (StatusCode::FORBIDDEN(), "Permission denied".to_owned()),
            DeleteOutcome::Failed(m) => {
                let mut t = "Failed to delete file: ".to_owned();
                t.append(m.as_str());
                (StatusCode::INTERNAL_SERVER_ERROR(), t)
            },
        };
        Response::with_message(version, status, msg.as_str())
    }
}

/// The built-in error page for a status.
pub open spec fn error_html(code: u16) -> Seq<char> {
    "<!DOCTYPE html>\n<html lang=\"en\">\n<head>\n<meta charset=\"UTF-8\">\n<title>"@ + decimal(code as nat) + " "@
        + reason_of(code) + "</title>\n</head>\n<body>\n<h1>"@ + decimal(code as nat) + "</h1>\n<p>"@ + reason_of(
        code,
    ) + "</p>\n</body>\n</html>\n"@
}

/// Custom error pages with a built-in fallback.
pub struct ErrorPageHandler {
    root_path: String,
    error_pages: Vec<(String, String)>,
}

impl ErrorPageHandler {
    /// The pages a server configures, taken under `root_path`.
    pub fn new(config: &ServerConfig, root_path: String) -> (r: ErrorPageHandler)
        ensures
            r.root() == root_path@,
            r.pages() == config.errors@.map_values(|e: (String, crate::config::ErrorPageConfig)| (e.0@, e.1.filename@)),
    {
        let mut pages: Vec<(String, String)> = Vec::new();
        let mut i: usize = 0;
        while i < config.errors.len()
            invariant
                i <= config.errors@.len(),
                pages@.map_values(|e: (String, String)| (e.0@, e.1@)) == config.errors@.subrange(0, i as int).map_values(
                    |e: (String, crate::config::ErrorPageConfig)| (e.0@, e.1.filename@),
                ),
            decreases config.errors@.len() - i,
        {
            let e = (config.errors[i].0.clone(), config.errors[i].1.filename.clone());
            let ghost before = pages@.map_values(|e: (String, String)| (e.0@, e.1@));
            pages.push(e);
            assert(pages@.map_values(|e: (String, String)| (e.0@, e.1@)) =~= before.push((e.0@, e.1@)));
            assert(config.errors@.subrange(0, i + 1).map_values(
                |e: (String, crate::config::ErrorPageConfig)| (e.0@, e.1.filename@),
            ) =~= config.errors@.subrange(0, i as int).map_values(
                |e: (String, crate::config::ErrorPageConfig)| (e.0@, e.1.filename@),
            ).push((config.errors@[i as int].0@, config.errors@[i as int].1.filename@)));
            i = i + 1;
        }
        assert(config.errors@.subrange(0, i as int) =~= config.errors@);
        ErrorPageHandler { root_path, error_pages: pages }
    }

    pub closed spec fn root(&self) -> Seq<char> {
        self.root_path@
    }

    /// (status code text, file name) pairs.
    pub closed spec fn pages(&self) -> Seq<(Seq<char>, Seq<char>)> {
        self.error_pages@.map_values(|e: (String, String)| (e.0@, e.1@))
    }

    /// Where the custom page for `status` lives, if one is configured.
    pub fn page_path(&self, status: StatusCode) -> (r: Option<String>)
        ensures
            match r {
                Some(p) => exists|i: int|
                    0 <= i < self.pages().len() && self.pages()[i].0 == decimal(status.0 as nat) && p@
                        == crate::router::resolve_against(self.root(), self.pages()[i].1),
                None => forall|i: int| 0 <= i < self.pages().len() ==> self.pages()[i].0 != decimal(status.0 as nat),
            },
    {
        let code = status.to_string();
        let n = self.error_pages.len();
        let mut i: usize = 0;
        while i < n
            invariant
                n == self.error_pages@.len(),
                i <= n,
                code@ == decimal(status.0 as nat),
                forall|j: int| 0 <= j < i ==> self.pages()[j].0 != decimal(status.0 as nat),
            decreases n - i,
        {
            assert(self.pages()[i as int] == (self.error_pages@[i as int].0@, self.error_pages@[i as int].1@));
            if eq_str(self.error_pages[i].0.as_str(), code.as_str()) {
                let f = self.error_pages[i].1.as_str();
                let p = if starts_with(f, "/") {
                    f.to_owned()
                } else {
                    crate::router::join(self.root_path.as_str(), f)
                };
                return Some(p);
            }
            i = i + 1;
        }
        None
    }

    /// A custom page's bytes sent as HTML with the status.
    pub fn create_html_response(version: Version, status: StatusCode, content: Vec<u8>) -> (r: Response)
        ensures
            r.status == status,
            r.version == version,
            r.body@ == content@,
            !r.chunked,
            exists|t: u64|
                r.headers@ == set_entry(
                    set_entry(crate::response::default_headers(t), "Content-Type"@, "text/html"@),
                    "Content-Length"@,
                    decimal(r.body@.len()),
                ),
    {
        let mut resp = Response::new(version, status);
        resp.set_content_type("text/html");
        resp.set_body(content);
        resp
    }

    /// The built-in page for the status.
    pub fn generate_default_error_response(&self, status: StatusCode, version: Version) -> (r: Response)
        ensures
            r.status == status,
            r.version == version,
            r.body@ == crate::utf8::encode(error_html(status.0)),
            !r.chunked,
            exists|t: u64|
                r.headers@ == set_entry(
                    set_entry(crate::response::default_headers(t), "Content-Type"@, "text/html"@),
                    "Content-Length"@,
                    decimal(r.body@.len()),
                ),
    {
        default_error_response(status, version)
    }

    /// The error response: the custom page when `page` holds its bytes, else the built-in one.
    pub fn generate_error_response(&self, status: StatusCode, version: Version, page: Option<Vec<u8>>) -> (r:
        Response)
        ensures
            r.status == status,
            r.version == version,
            match page {
                Some(c) => r.body@ == c@,
                None => r.body@ == crate::utf8::encode(error_html(status.0)),
            },
            !r.chunked,
            exists|t: u64|
                r.headers@ == set_entry(
                    set_entry(crate::response::default_headers(t), "Content-Type"@, "text/html"@),
                    "Content-Length"@,
                    decimal(r.body@.len()),
                ),
    {
        match page {
            Some(c) => ErrorPageHandler::create_html_response(version, status, c),
            None => default_error_response(status, version),
        }
    }
}

/// The built-in error page for a status, as HTML.
pub fn default_error_response(status: StatusCode, version: Version) -> (r: Response)
    ensures
        r.status == status,
        r.version == version,
        r.body@ == crate::utf8::encode(error_html(status.0)),
        !r.chunked,
        exists|t: u64|
            r.headers@ == set_entry(
                set_entry(crate::response::default_headers(t), "Content-Type"@, "text/html"@),
                "Content-Length"@,
                decimal(r.body@.len()),
            ),
{
    let mut resp = Response::new(version, status);
    resp.set_content_type("text/html");
    let mut html = "<!DOCTYPE html>\n<html lang=\"en\">\n<head>\n<meta charset=\"UTF-8\">\n<title>".to_owned();
    push_decimal(&mut html, status.0 as u64);
    html.append(" ");
    html.append(status.reason_phrase());
    html.append("</title>\n</head>\n<body>\n<h1>");
    push_decimal(&mut html, status.0 as u64);
    html.append("</h1>\n<p>");
    html.append(status.reason_phrase());
    html.append("</p>\n</body>\n</html>\n");
    assert(html@ =~= error_html(status.0));
    resp.set_body_str(html.as_str());
    resp
}

} // verus!
