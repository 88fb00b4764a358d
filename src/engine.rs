//! Decisions the server makes around each exchange: which session the
//! response carries, and how handler errors are answered.
use vstd::prelude::*;
use crate::cookie::{set_cookie_text, Cookie};
use crate::error::ServerError;
use crate::headers::add_entry;
use crate::params::lookup;
use crate::request::Request;
use crate::response::Response;
use crate::session::{live, SessionManager};
use crate::status::StatusCode;
use crate::text::decimal;
use crate::router::{best_route, method_allowed, no_route, prefix_for, resolved, Router};
use crate::request::path_of;
use crate::handlers::{location_for, redirect_status, RedirectionHandler};
use crate::headers::set_entry;

verus! {

/// The session cookie sent for identifier `id`: path `/`, HttpOnly, Max-Age the timeout.
pub open spec fn session_cookie_text(name: Seq<char>, id: Seq<char>, timeout: u64) -> Seq<char> {
    name + "="@ + id + "; Path="@ + "/"@ + "; Max-Age="@ + decimal(timeout as nat) + "; HttpOnly"@
}

/// Attaches the session for `request` (at clock reading `now`) to `response`:
/// the session its cookie names when live, else a fresh one.
pub fn attach_session_at(sessions: &mut SessionManager, request: &Request, response: &mut Response, now: u64) -> (r:
    String)
    requires
        old(sessions).wf(),
        old(sessions).can_issue(),
    ensures
        final(sessions).wf(),
        live(final(sessions).sessions(), r@, now),
        match lookup(request.cookies_spec(), old(sessions).cookie_name_spec()) {
            Some(id) => live(old(sessions).sessions(), id, now) ==> r@ == id,
            None => true,
        },
        !(lookup(request.cookies_spec(), old(sessions).cookie_name_spec()) matches Some(id) && live(
            old(sessions).sessions(),
            id,
            now,
        )) ==> !old(sessions).issued().contains(r@),
        final(response).headers@ == add_entry(
            old(response).headers@,
            "Set-Cookie"@,
            session_cookie_text(old(sessions).cookie_name_spec(), r@, old(sessions).timeout()),
        ),
        final(response).status == old(response).status,
        final(response).body == old(response).body,
{
    let cookie_value = request.cookie(sessions.cookie_name());
    let id = match &cookie_value {
        Some(v) => sessions.get_or_create_session_at(Some(v.as_str()), now),
        None => sessions.get_or_create_session_at(None, now),
    };
    let c = Cookie::new(sessions.cookie_name().to_owned(), id.clone()).set_path("/".to_owned()).set_http_only(
        true,
    ).set_max_age(sessions.timeout_secs());
    proof {
        reveal_strlit("");
        assert(set_cookie_text(c) =~= session_cookie_text(old(sessions).cookie_name_spec(), id@, old(sessions).timeout()));
    }
    response.add_cookie(c);
    id
}

/// What a request comes to before the file system is consulted.
pub enum Prepared {
    /// No route serves the path (404).
    NoRoute,
    /// The route redirects; this is the answer.
    Redirect(Response),
    /// The route does not allow the method (405).
    MethodNotAllowed,
    /// The path climbs out of its root with `..` (403).
    Climbs,
    /// Route `index` serves the request from `path`.
    Target(usize, String),
}

/// Matches the route, answers redirects (before the method check), checks
/// the method and resolves the path.
pub fn prepare(router: &Router, request: &Request) -> (r: Prepared)
    ensures
        ({
            let path = path_of(request.target@);
            match r {
                Prepared::NoRoute => no_route(router.paths(), path),
                Prepared::Redirect(resp) => exists|i: int|
                    best_route(router.paths(), path, i) && router.route_at(i).redirect is Some && resp.status.0
                        == redirect_status(router.route_at(i)) && resp.body@.len() == 0 && exists|h|
                        resp.headers@ == set_entry(
                            set_entry(
                                h,
                                "Location"@,
                                location_for(router.route_at(i).redirect.unwrap()@, path),
                            ),
                            "Content-Length"@,
                            "0"@,
                        ),
                Prepared::MethodNotAllowed => exists|i: int|
                    best_route(router.paths(), path, i) && router.route_at(i).redirect is None && !method_allowed(
                        &router.route_at(i),
                        request.method,
                    ),
                Prepared::Climbs => exists|i: int|
                    best_route(router.paths(), path, i) && router.route_at(i).redirect is None && method_allowed(
                        &router.route_at(i),
                        request.method,
                    ) && resolved(router.root(), prefix_for(router.paths(), path), router.route_at(i), path)
                        is None,
                Prepared::Target(i, p) => best_route(router.paths(), path, i as int) && router.route_at(
                    i as int,
                ).redirect is None && method_allowed(&router.route_at(i as int), request.method) && resolved(
                    router.root(),
                    prefix_for(router.paths(), path),
                    router.route_at(i as int),
                    path,
                ) == Some(p@),
            }
        }),
{
    let i = match router.route_index(request.path()) {
        Some(i) => i,
        None => {
            return Prepared::NoRoute;
        },
    };
    let route = router.route(i);
    if route.redirect.is_some() {
        return match RedirectionHandler::redirect(route, request) {
            Ok(resp) => Prepared::Redirect(resp),
            Err(_) => Prepared::NoRoute,
        };
    }
    if !router.is_method_allowed(request, route) {
        return Prepared::MethodNotAllowed;
    }
    match router.resolve_file_path(request, route) {
        Ok(p) => Prepared::Target(i, p),
        Err(_) => Prepared::Climbs,
    }
}

/// The status a handler failure is answered with: a missing route or file is
/// 404, anything else 500.
pub open spec fn error_status(e: ServerError) -> u16 {
    match e {
        ServerError::HttpError(_) => 404,
        _ => 500,
    }
}

pub fn status_for_error(e: &ServerError) -> (r: StatusCode)
    ensures
        r.0 == error_status(*e),
{
    match e {
        ServerError::HttpError(_) => StatusCode::NOT_FOUND(),
        _ => StatusCode::INTERNAL_SERVER_ERROR(),
    }
}

} // verus!
