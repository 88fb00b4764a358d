//! Route matching, method checks and lexical path resolution.
use vstd::prelude::*;
use crate::config::{RouteConfig, ServerConfig};
use crate::error::ServerError;
use crate::method::{method_text, Method};
use crate::params::{split_on, split_str};
use crate::request::{path_of, Request};
use crate::response::Response;
use crate::text::{eq_ignore_case, eq_nocase, eq_str, has_prefix, starts_with, substring};

verus! {

/// `route` is a prefix of `path` that ends at a segment boundary.
pub open spec fn aligned(route: Seq<char>, path: Seq<char>) -> bool {
    &&& has_prefix(path, route)
    &&& (route.len() == path.len() || (route.len() > 0 && route.last() == '/') || path[route.len() as int]
        == '/')
}

/// Route `i` is the longest aligned prefix of `path` (the first among equals).
pub open spec fn best_route(paths: Seq<Seq<char>>, path: Seq<char>, i: int) -> bool {
    &&& 0 <= i < paths.len()
    &&& aligned(paths[i], path)
    &&& forall|j: int|
        0 <= j < paths.len() && aligned(#[trigger] paths[j], path) ==> paths[j].len() <= paths[i].len()
            && (paths[j].len() == paths[i].len() ==> i <= j)
}

/// No route prefix fits `path`.
pub open spec fn no_route(paths: Seq<Seq<char>>, path: Seq<char>) -> bool {
    forall|j: int| 0 <= j < paths.len() ==> !aligned(#[trigger] paths[j], path)
}

/// `rel` appended to `base` with one separator.
pub open spec fn join_path(base: Seq<char>, rel: Seq<char>) -> Seq<char> {
    if base.len() > 0 && base.last() == '/' {
        base + rel
    } else {
        base + "/"@ + rel
    }
}

/// A configured path: absolute paths stand as written, relative ones are
/// taken under `root`.
pub open spec fn resolve_against(root: Seq<char>, p: Seq<char>) -> Seq<char> {
    if has_prefix(p, "/"@) {
        p
    } else {
        join_path(root, p)
    }
}

/// The pieces that name something: empty pieces and `.` dropped.
pub open spec fn clean(parts: Seq<Seq<char>>) -> Seq<Seq<char>>
    decreases parts.len(),
{
    if parts.len() == 0 {
        seq![]
    } else if parts.last().len() == 0 || parts.last() == "."@ {
        clean(parts.drop_last())
    } else {
        clean(parts.drop_last()).push(parts.last())
    }
}

/// Pieces joined with `/`.
pub open spec fn join_parts(parts: Seq<Seq<char>>) -> Seq<char>
    decreases parts.len(),
{
    if parts.len() == 0 {
        seq![]
    } else if parts.len() == 1 {
        parts[0]
    } else {
        join_parts(parts.drop_last()) + "/"@ + parts.last()
    }
}

/// Some piece is `..`.
pub open spec fn climbs(parts: Seq<Seq<char>>) -> bool {
    exists|i: int| 0 <= i < parts.len() && parts[i] == ".."@
}

/// The normalized form of a relative path, or none when it climbs with `..`.
pub open spec fn sanitized(rel: Seq<char>) -> Option<Seq<char>> {
    if climbs(split_on(rel, '/')) {
        None
    } else {
        Some(join_parts(clean(split_on(rel, '/'))))
    }
}

/// A relative path made of named pieces only: none empty, `.`, `..` or holding `/`.
pub open spec fn safe_parts(parts: Seq<Seq<char>>) -> bool {
    forall|i: int|
        0 <= i < parts.len() ==> (#[trigger] parts[i]).len() > 0 && parts[i] != ".."@ && parts[i] != "."@
            && forall|k: int| 0 <= k < parts[i].len() ==> parts[i][k] != '/'
}

/// `p` is `base` itself or lies lexically beneath it.
pub open spec fn beneath(base: Seq<char>, p: Seq<char>) -> bool {
    p == base || exists|parts: Seq<Seq<char>>| safe_parts(parts) && p == join_path(base, join_parts(parts))
}

/// The route prefix used to strip a request path: the best match, else `/`.
pub open spec fn prefix_for(paths: Seq<Seq<char>>, path: Seq<char>) -> Seq<char> {
    if exists|i: int| best_route(paths, path, i) {
        paths[choose|i: int| best_route(paths, path, i)]
    } else {
        "/"@
    }
}

/// What a request path resolves to on disk under `route`, or none when the
/// path climbs out with `..`.
pub open spec fn resolved(root: Seq<char>, prefix: Seq<char>, route: RouteConfig, path: Seq<char>) -> Option<
    Seq<char>,
> {
    match route.filename {
        Some(f) => Some(resolve_against(root, f@)),
        None => match route.directory {
            Some(d) => {
                let base = resolve_against(root, d@);
                let rel = if path.len() > prefix.len() {
                    path.subrange(prefix.len() as int, path.len() as int)
                } else {
                    Seq::<char>::empty()
                };
                if rel.len() == 0 {
                    Some(base)
                } else {
                    match sanitized(rel) {
                        Some(s) => Some(join_path(base, s)),
                        None => None,
                    }
                }
            },
            None => {
                let rel = if path.len() > 0 {
                    path.subrange(1, path.len() as int)
                } else {
                    Seq::<char>::empty()
                };
                if rel.len() == 0 || path == "/"@ {
                    Some(root)
                } else {
                    match sanitized(rel) {
                        Some(s) => Some(join_path(root, s)),
                        None => None,
                    }
                }
            },
        },
    }
}

/// The pieces of a split never hold the separator.
proof fn lemma_split_no_sep(s: Seq<char>, sep: char)
    ensures
        forall|i: int, k: int|
            0 <= i < split_on(s, sep).len() && 0 <= k < split_on(s, sep)[i].len() ==> split_on(s, sep)[i][k]
                != sep,
        split_on(s, sep).len() >= 1,
    decreases s.len(),
{
    if s.len() > 0 {
        lemma_split_no_sep(s.drop_last(), sep);
        let p = split_on(s.drop_last(), sep);
        if s.last() != sep {
            let q = p.update(p.len() - 1, p.last().push(s.last()));
            assert forall|i: int, k: int| 0 <= i < q.len() && 0 <= k < q[i].len() implies q[i][k] != sep by {
                if i == p.len() - 1 {
                    if k < p.last().len() {
                        assert(q[i][k] == p[i][k]);
                    }
                } else {
                    assert(q[i] == p[i]);
                }
            }
        } else {
            let q = p.push(Seq::<char>::empty());
            assert forall|i: int, k: int| 0 <= i < q.len() && 0 <= k < q[i].len() implies q[i][k] != sep by {
                if i < p.len() {
                    assert(q[i] == p[i]);
                }
            }
        }
    }
}

/// Cleaning keeps only pieces that were there, and drops empty and `.` ones.
proof fn lemma_clean(parts: Seq<Seq<char>>)
    ensures
        forall|i: int| 0 <= i < clean(parts).len() ==> exists|j: int| 0 <= j < parts.len() && #[trigger] clean(parts)[i] == parts[j],
        forall|i: int| 0 <= i < clean(parts).len() ==> (#[trigger] clean(parts)[i]).len() > 0 && clean(parts)[i] != "."@,
    decreases parts.len(),
{
    if parts.len() > 0 {
        lemma_clean(parts.drop_last());
        let c0 = clean(parts.drop_last());
        assert forall|i: int| 0 <= i < clean(parts).len() implies exists|j: int| 0 <= j < parts.len() && #[trigger] clean(parts)[i] == parts[j] by {
            if i < c0.len() {
                assert(clean(parts)[i] == c0[i]);
                let j = choose|j: int| 0 <= j < parts.drop_last().len() && c0[i] == parts.drop_last()[j];
                assert(parts[j] == parts.drop_last()[j]);
            } else {
                assert(clean(parts)[i] == parts[parts.len() - 1]);
            }
        }
        assert forall|i: int| 0 <= i < clean(parts).len() implies (#[trigger] clean(parts)[i]).len() > 0 && clean(parts)[i] != "."@ by {
            if i < c0.len() {
                assert(clean(parts)[i] == c0[i]);
            }
        }
    }
}

/// A sanitized path is made of named pieces only.
pub proof fn lemma_sanitized_safe(rel: Seq<char>)
    requires
        sanitized(rel) is Some,
    ensures
        safe_parts(clean(split_on(rel, '/'))),
        sanitized(rel) == Some(join_parts(clean(split_on(rel, '/')))),
{
    let parts = split_on(rel, '/');
    lemma_split_no_sep(rel, '/');
    lemma_clean(parts);
    let c = clean(parts);
    assert forall|i: int| 0 <= i < c.len() implies (#[trigger] c[i]).len() > 0 && c[i] != ".."@ && c[i] != "."@
        && forall|k: int| 0 <= k < c[i].len() ==> c[i][k] != '/' by {
        let j = choose|j: int| 0 <= j < parts.len() && c[i] == parts[j];
        assert(parts[j] != ".."@);
    }
}

/// Unless a route names a fixed file, what a request resolves to is the
/// serving directory itself or lies lexically beneath it: no `..` survives.
pub proof fn lemma_resolved_beneath(root: Seq<char>, prefix: Seq<char>, route: RouteConfig, path: Seq<char>)
    requires
        route.filename is None,
    ensures
        resolved(root, prefix, route, path) matches Some(p) ==> beneath(
            match route.directory {
                Some(d) => resolve_against(root, d@),
                None => root,
            },
            p,
        ),
{
    let base = match route.directory {
        Some(d) => resolve_against(root, d@),
        None => root,
    };
    let rel = match route.directory {
        Some(_) => if path.len() > prefix.len() {
            path.subrange(prefix.len() as int, path.len() as int)
        } else {
            Seq::<char>::empty()
        },
        None => if path.len() > 0 {
            path.subrange(1, path.len() as int)
        } else {
            Seq::<char>::empty()
        },
    };
    if let Some(p) = resolved(root, prefix, route, path) {
        if p != base {
            assert(sanitized(rel) is Some);
            lemma_sanitized_safe(rel);
            let parts = clean(split_on(rel, '/'));
            assert(safe_parts(parts) && p == join_path(base, join_parts(parts)));
        }
    }
}

/// Matches routes to requests and maps request paths onto the file system.
pub struct Router {
    routes: Vec<(String, RouteConfig)>,
    root_path: String,
}

impl Router {
    /// The route prefixes, in configuration order.
    pub closed spec fn paths(&self) -> Seq<Seq<char>> {
        self.routes@.map_values(|r: (String, RouteConfig)| r.0@)
    }

    pub closed spec fn root(&self) -> Seq<char> {
        self.root_path@
    }

    pub closed spec fn route_at(&self, i: int) -> RouteConfig {
        self.routes@[i].1
    }

    /// A router over a server's routes, rooted at `root_path`.
    pub fn new(config: &ServerConfig, root_path: String) -> (r: Router)
        ensures
            r.paths() == config.routes@.map_values(|e: (String, RouteConfig)| e.0@),
            r.root() == root_path@,
    {
        let mut routes: Vec<(String, RouteConfig)> = Vec::new();
        let mut i: usize = 0;
        while i < config.routes.len()
            invariant
                i <= config.routes@.len(),
                routes@.map_values(|e: (String, RouteConfig)| e.0@) == config.routes@.subrange(0, i as int).map_values(
                    |e: (String, RouteConfig)| e.0@,
                ),
            decreases config.routes@.len() - i,
        {
            let p = config.routes[i].0.clone();
            let ghost before = routes@.map_values(|e: (String, RouteConfig)| e.0@);
            routes.push((p, config.routes[i].1.clone()));
            assert(routes@.map_values(|e: (String, RouteConfig)| e.0@) =~= before.push(p@));
            assert(config.routes@.subrange(0, i + 1).map_values(|e: (String, RouteConfig)| e.0@) =~= config.routes@.subrange(
                0,
                i as int,
            ).map_values(|e: (String, RouteConfig)| e.0@).push(config.routes@[i as int].0@));
            i = i + 1;
        }
        assert(config.routes@.subrange(0, i as int) =~= config.routes@);
        Router { routes, root_path }
    }

    /// A router over explicit routes.
    pub fn from_routes(routes: Vec<(String, RouteConfig)>, root_path: String) -> (r: Router)
        ensures
            r.paths() == routes@.map_values(|e: (String, RouteConfig)| e.0@),
            r.root() == root_path@,
            forall|i: int| 0 <= i < routes@.len() ==> r.route_at(i) == routes@[i].1,
    {
        Router { routes, root_path }
    }

    /// `p` taken under the server root unless absolute.
    pub fn resolve_path(&self, path: &str) -> (r: String)
        ensures
            r@ == resolve_against(self.root(), path@),
    {
        if starts_with(path, "/") {
            path.to_owned()
        } else {
            join(self.root_path.as_str(), path)
        }
    }

    /// The index of the route that serves `path`.
    pub fn route_index(&self, path: &str) -> (r: Option<usize>)
        ensures
            match r {
                Some(i) => best_route(self.paths(), path@, i as int),
                None => no_route(self.paths(), path@),
            },
    {
        let n = self.routes.len();
        let mut best: Option<usize> = None;
        let mut i: usize = 0;
        while i < n
            invariant
                n == self.routes@.len(),
                i <= n,
                match best {
                    Some(b) => b < i && aligned(self.paths()[b as int], path@) && forall|j: int|
                        0 <= j < i && aligned(#[trigger] self.paths()[j], path@) ==> self.paths()[j].len()
                            <= self.paths()[b as int].len() && (self.paths()[j].len() == self.paths()[b as int].len()
                            ==> b <= j),
                    None => forall|j: int| 0 <= j < i ==> !aligned(#[trigger] self.paths()[j], path@),
                },
            decreases n - i,
        {
            let p = self.routes[i].0.as_str();
            assert(self.paths()[i as int] == p@);
            if is_aligned(p, path) {
                match best {
                    Some(b) => {
                        if p.unicode_len() > self.routes[b].0.unicode_len() {
                            best = Some(i);
                        }
                    },
                    None => {
                        best = Some(i);
                    },
                }
            }
            i = i + 1;
        }
        best
    }

    /// The route that serves the request path.
    pub fn match_route(&self, request: &Request) -> (r: Option<&RouteConfig>)
        ensures
            match r {
                Some(route) => exists|i: int|
                    best_route(self.paths(), path_of(request.target@), i) && *route == self.route_at(i),
                None => no_route(self.paths(), path_of(request.target@)),
            },
    {
        match self.route_index(request.path()) {
            Some(i) => {
                assert(best_route(self.paths(), path_of(request.target@), i as int));
                assert(self.routes@[i as int].1 == self.route_at(i as int));
                Some(&self.routes[i].1)
            },
            None => None,
        }
    }

    /// The number of routes.
    pub fn len(&self) -> (r: usize)
        ensures
            r == self.paths().len(),
    {
        self.routes.len()
    }

    /// Route `i`.
    pub fn route(&self, i: usize) -> (r: &RouteConfig)
        requires
            i < self.paths().len(),
        ensures
            *r == self.route_at(i as int),
    {
        &self.routes[i].1
    }

    /// The route lists no methods or lists the request's (ignoring case).
    pub fn is_method_allowed(&self, request: &Request, route: &RouteConfig) -> (r: bool)
        ensures
            r == method_allowed(route, request.method),
    {
        method_listed(route, request.method)
    }

    /// The route for the request, with a 405 response when its method is not allowed.
    pub fn validate_request(&self, request: &Request) -> (r: Result<(&RouteConfig, Option<Response>), ServerError>)
        ensures
            match r {
                Ok((route, resp)) => (exists|i: int|
                    best_route(self.paths(), path_of(request.target@), i) && *route == self.route_at(i)) && (
                resp is Some <==> !method_allowed(route, request.method)) && (resp matches Some(x) ==> x.status.0
                    == 405),
                Err(e) => no_route(self.paths(), path_of(request.target@)) && e is HttpError,
            },
    {
        let route = match self.match_route(request) {
            Some(route) => route,
            None => {
                return Err(ServerError::HttpError("No matching route".to_owned()));
            },
        };
        if !self.is_method_allowed(request, route) {
            return Ok((route, Some(Response::method_not_allowed_with_message(request.version, "Method Not Allowed"))));
        }
        Ok((route, None))
    }

    /// The file-system path for the request under `route`; a path that climbs
    /// with `..` is refused.
    pub fn resolve_file_path(&self, request: &Request, route: &RouteConfig) -> (r: Result<String, ServerError>)
        ensures
            match r {
                Ok(p) => resolved(self.root(), prefix_for(self.paths(), path_of(request.target@)), *route, path_of(
                    request.target@,
                )) == Some(p@),
                Err(e) => resolved(self.root(), prefix_for(self.paths(), path_of(request.target@)), *route, path_of(
                    request.target@,
                )) is None && e is HttpError,
            },
    {
        let path = request.path();
        if let Some(f) = &route.filename {
            return Ok(self.resolve_path(f.as_str()));
        }
        let n = path.unicode_len();
        if let Some(d) = &route.directory {
            let prefix_len = match self.route_index(path) {
                Some(i) => {
                    proof {
                        let ghost ps = self.paths();
                        assert(exists|j: int| best_route(ps, path@, j));
                        let k = choose|j: int| best_route(ps, path@, j);
                        if k != i {
                            assert(ps[k].len() <= ps[i as int].len());
                            assert(ps[i as int].len() <= ps[k].len());
                        }
                        assert(self.paths()[i as int] == self.routes@[i as int].0@);
                    }
                    self.routes[i].0.unicode_len()
                },
                None => {
                    proof {
                        reveal_strlit("/");
                        if exists|j: int| best_route(self.paths(), path@, j) {
                            let k = choose|j: int| best_route(self.paths(), path@, j);
                            assert(!aligned(self.paths()[k], path@));
                        }
                    }
                    1
                },
            };
            let base = self.resolve_path(d.as_str());
            if n <= prefix_len {
                return Ok(base);
            }
            let rel = substring(path, prefix_len, n);
            return match sanitize(rel.as_str()) {
                Some(s) => Ok(join(base.as_str(), s.as_str())),
                None => Err(ServerError::HttpError("Path contains '..'".to_owned())),
            };
        }
        proof {
            reveal_strlit("/");
        }
        if n <= 1 || eq_str(path, "/") {
            return Ok(self.root_path.clone());
        }
        let rel = substring(path, 1, n);
        match sanitize(rel.as_str()) {
            Some(s) => Ok(join(self.root_path.as_str(), s.as_str())),
            None => Err(ServerError::HttpError("Path contains '..'".to_owned())),
        }
    }

    pub fn get_default_file<'a>(&self, route: &'a RouteConfig) -> (r: Option<&'a String>)
        ensures
            match r {
                Some(v) => route.default_file == Some(*v),
                None => route.default_file is None,
            },
    {
        route.default_file.as_ref()
    }

    pub fn is_directory_listing_enabled(&self, route: &RouteConfig) -> (r: bool)
        ensures
            r == route.directory_listing,
    {
        route.directory_listing
    }

    pub fn get_redirect<'a>(&self, route: &'a RouteConfig) -> (r: Option<&'a String>)
        ensures
            match r {
                Some(v) => route.redirect == Some(*v),
                None => route.redirect is None,
            },
    {
        route.redirect.as_ref()
    }
}

/// The route accepts `m`: it lists no methods, or lists `m` in any case.
pub open spec fn method_allowed(route: &RouteConfig, m: Method) -> bool {
    route.methods@.len() == 0 || exists|i: int|
        0 <= i < route.methods@.len() && eq_nocase(#[trigger] route.methods@[i]@, method_text(m))
}

fn method_listed(route: &RouteConfig, m: Method) -> (r: bool)
    ensures
        r == method_allowed(route, m),
{
    let n = route.methods.len();
    if n == 0 {
        return true;
    }
    let name = m.as_str();
    let mut i: usize = 0;
    while i < n
        invariant
            n == route.methods@.len(),
            name@ == method_text(m),
            i <= n,
            forall|j: int| 0 <= j < i ==> !eq_nocase(#[trigger] route.methods@[j]@, method_text(m)),
        decreases n - i,
    {
        if eq_ignore_case(route.methods[i].as_str(), name) {
            return true;
        }
        i = i + 1;
    }
    false
}

fn is_aligned(route: &str, path: &str) -> (r: bool)
    ensures
        r == aligned(route@, path@),
{
    if !starts_with(path, route) {
        return false;
    }
    let m = route.unicode_len();
    let n = path.unicode_len();
    m == n || (m > 0 && route.get_char(m - 1) == '/') || path.get_char(m) == '/'
}

/// `rel` appended to `base` with one separator.
pub fn join(base: &str, rel: &str) -> (r: String)
    ensures
        r@ == join_path(base@, rel@),
{
    let n = base.unicode_len();
    let mut s = base.to_owned();
    if !(n > 0 && base.get_char(n - 1) == '/') {
        s.append("/");
    }
    s.append(rel);
    s
}

/// The normalized form of a relative path: empty and `.` pieces dropped; none
/// when a piece is `..`.
pub fn sanitize(rel: &str) -> (r: Option<String>)
    ensures
        match r {
            Some(s) => sanitized(rel@) == Some(s@),
            None => sanitized(rel@) is None,
        },
{
    let parts = split_str(rel, '/');
    let ghost ps = parts@.map_values(|x: String| x@);
    let mut out = String::new();
    let mut count: usize = 0;
    let ghost mut kept: Seq<Seq<char>> = seq![];
    let mut i: usize = 0;
    assert(ps.subrange(0, 0).len() == 0);
    while i < parts.len()
        invariant
            ps == parts@.map_values(|x: String| x@),
            ps == split_on(rel@, '/'),
            i <= parts@.len(),
            kept == clean(ps.subrange(0, i as int)),
            count == kept.len(),
            count <= i,
            out@ == join_parts(kept),
            forall|j: int| 0 <= j < i ==> ps[j] != ".."@,
        decreases parts@.len() - i,
    {
        let p = parts[i].as_str();
        assert(p@ == ps[i as int]);
        let ghost pre = ps.subrange(0, i + 1);
        assert(pre.drop_last() =~= ps.subrange(0, i as int));
        if eq_str(p, "..") {
            assert(climbs(ps));
            return None;
        }
        if p.unicode_len() == 0 || eq_str(p, ".") {
        } else {
            if count > 0 {
                out.append("/");
            }
            out.append(p);
            proof {
                let ghost k2 = kept.push(p@);
                assert(k2.drop_last() =~= kept);
                if kept.len() == 0 {
                    assert(out@ =~= join_parts(k2));
                } else {
                    assert(out@ =~= join_parts(k2));
                }
                kept = k2;
            }
            count = count + 1;
        }
        i = i + 1;
    }
    assert(ps.subrange(0, i as int) =~= ps);
    Some(out)
}

/// The kinds of handler a request can be dispatched to.
#[derive(Debug, Clone, Copy, PartialEq, Eq, Structural)]
pub enum HandlerKind {
    Redirect,
    Delete,
    Upload,
    Cgi,
    DefaultFile,
    DirectoryListing,
    Forbidden,
    Static,
}

/// The dispatch decision for a matched route: redirects first, then DELETE,
/// then uploads (POST to a route with an upload directory), then CGI scripts,
/// then directories (default file, listing, or 403), then static files.
pub open spec fn handler_for(
    route: RouteConfig,
    method: Method,
    is_cgi: bool,
    is_dir: bool,
    default_exists: bool,
) -> HandlerKind {
    if route.redirect is Some {
        HandlerKind::Redirect
    } else if method == Method::DELETE {
        HandlerKind::Delete
    } else if method == Method::POST && route.upload_dir is Some {
        HandlerKind::Upload
    } else if is_cgi {
        HandlerKind::Cgi
    } else if is_dir {
        if route.default_file is Some && default_exists {
            HandlerKind::DefaultFile
        } else if route.directory_listing {
            HandlerKind::DirectoryListing
        } else {
            HandlerKind::Forbidden
        }
    } else {
        HandlerKind::Static
    }
}

/// Chooses the handler for a matched route; the file-system facts are given.
pub fn classify(route: &RouteConfig, method: Method, is_cgi: bool, is_dir: bool, default_exists: bool) -> (r:
    HandlerKind)
    ensures
        r == handler_for(*route, method, is_cgi, is_dir, default_exists),
{
    if route.redirect.is_some() {
        HandlerKind::Redirect
    } else if method == Method::DELETE {
        HandlerKind::Delete
    } else if method == Method::POST && route.upload_dir.is_some() {
        HandlerKind::Upload
    } else if is_cgi {
        HandlerKind::Cgi
    } else if is_dir {
        if route.default_file.is_some() && default_exists {
            HandlerKind::DefaultFile
        } else if route.directory_listing {
            HandlerKind::DirectoryListing
        } else {
            HandlerKind::Forbidden
        }
    } else {
        HandlerKind::Static
    }
}

} // verus!
