//! The server configuration and its validation.
use vstd::prelude::*;
use crate::error::ServerError;
use crate::text::{eq_ignore_case, eq_nocase, eq_str, has_prefix, starts_with};

verus! {

/// Request timeout used when none is configured, in seconds.
pub const DEFAULT_TIMEOUT_SECS: u64 = 30;

/// Body cap used when none is configured: 10 MiB.
pub const DEFAULT_MAX_BODY: usize = 10485760;

/// One route: what a URL prefix serves and how.
#[derive(Debug, Clone)]
pub struct RouteConfig {
    pub methods: Vec<String>,
    pub filename: Option<String>,
    pub directory: Option<String>,
    pub default_file: Option<String>,
    pub directory_listing: bool,
    pub upload_dir: Option<String>,
    pub redirect: Option<String>,
    /// `"301"` or `"302"`; 302 when absent.
    pub redirect_type: Option<String>,
    pub cgi_extension: Option<String>,
}

/// A custom error page.
#[derive(Debug, Clone)]
pub struct ErrorPageConfig {
    pub filename: String,
}

/// Administrator credentials.
#[derive(Debug, Clone)]
pub struct AdminConfig {
    pub username: String,
    pub password: String,
}

/// One virtual server. The address is kept in its textual form; routes, error
/// pages and CGI handlers are lists of (key, value) pairs with distinct keys.
#[derive(Debug, Clone)]
pub struct ServerConfig {
    pub server_address: String,
    pub ports: Vec<u16>,
    pub server_name: String,
    pub root: String,
    pub admin_access: bool,
    pub routes: Vec<(String, RouteConfig)>,
    pub errors: Vec<(String, ErrorPageConfig)>,
    pub cgi_handlers: Vec<(String, String)>,
}

/// The whole configuration.
#[derive(Debug, Clone)]
pub struct Config {
    pub client_timeout_secs: u64,
    pub client_max_body_size: usize,
    pub servers: Vec<ServerConfig>,
    pub admin: Option<AdminConfig>,
}

impl RouteConfig {
    /// A route with no method, target or option set.
    pub fn new() -> (r: RouteConfig)
        ensures
            r.methods@.len() == 0,
            r.filename is None,
            r.directory is None,
            r.default_file is None,
            !r.directory_listing,
            r.upload_dir is None,
            r.redirect is None,
            r.redirect_type is None,
            r.cgi_extension is None,
    {
        RouteConfig {
            methods: Vec::new(),
            filename: None,
            directory: None,
            default_file: None,
            directory_listing: false,
            upload_dir: None,
            redirect: None,
            redirect_type: None,
            cgi_extension: None,
        }
    }
}

impl Default for RouteConfig {
    fn default() -> (r: RouteConfig)
        ensures
            r.methods@.len() == 0,
            r.filename is None && r.directory is None && r.default_file is None,
            !r.directory_listing,
            r.upload_dir is None && r.redirect is None && r.redirect_type is None && r.cgi_extension is None,
    {
        RouteConfig::new()
    }
}

impl Default for Config {
    fn default() -> (r: Config)
        ensures
            r.client_timeout_secs == DEFAULT_TIMEOUT_SECS,
            r.client_max_body_size == DEFAULT_MAX_BODY,
            r.servers@.len() == 0,
            r.admin is None,
    {
        Config::new()
    }
}

impl Config {
    /// No servers, default timeout and body cap.
    pub fn new() -> (r: Config)
        ensures
            r.client_timeout_secs == DEFAULT_TIMEOUT_SECS,
            r.client_max_body_size == DEFAULT_MAX_BODY,
            r.servers@.len() == 0,
            r.admin is None,
    {
        Config {
            client_timeout_secs: DEFAULT_TIMEOUT_SECS,
            client_max_body_size: DEFAULT_MAX_BODY,
            servers: Vec::new(),
            admin: None,
        }
    }
}

/// The methods a route may list.
pub open spec fn route_method_ok(m: Seq<char>) -> bool {
    m == "GET"@ || m == "POST"@ || m == "DELETE"@ || m == "PUT"@ || m == "PATCH"@ || m == "HEAD"@
        || m == "OPTIONS"@
}

/// The statuses that may have a custom page.
pub open spec fn error_code_ok(c: Seq<char>) -> bool {
    c == "400"@ || c == "403"@ || c == "404"@ || c == "405"@ || c == "413"@ || c == "500"@
}

pub open spec fn opt_nonempty(o: Option<String>) -> bool {
    match o {
        Some(s) => s@.len() > 0,
        None => true,
    }
}

pub open spec fn count_targets(r: RouteConfig) -> int {
    (if r.filename is Some { 1int } else { 0int }) + (if r.directory is Some { 1int } else { 0int }) + (
    if r.redirect is Some {
        1int
    } else {
        0int
    })
}

/// A route is acceptable under `path`.
pub open spec fn route_ok(path: Seq<char>, r: RouteConfig) -> bool {
    &&& path.len() > 0 && path[0] == '/'
    &&& r.methods@.len() > 0
    &&& forall|i: int| 0 <= i < r.methods@.len() ==> route_method_ok(#[trigger] r.methods@[i]@)
    &&& count_targets(r) <= 1
    &&& opt_nonempty(r.filename)
    &&& opt_nonempty(r.directory)
    &&& match r.redirect {
        Some(t) => has_prefix(t@, "/"@) || has_prefix(t@, "http://"@) || has_prefix(t@, "https://"@),
        None => true,
    }
    &&& match r.redirect_type {
        Some(t) => t@ == "301"@ || t@ == "302"@,
        None => true,
    }
}

/// The address binds no particular interface.
pub open spec fn unspecified_address(a: Seq<char>) -> bool {
    a == "0.0.0.0"@ || a == "::"@
}

/// A server definition is acceptable (the root directory is checked on disk elsewhere).
pub open spec fn server_ok(s: ServerConfig) -> bool {
    &&& !unspecified_address(s.server_address@)
    &&& s.ports@.len() > 0
    &&& forall|i: int| 0 <= i < s.ports@.len() ==> #[trigger] s.ports@[i] != 0
    &&& s.server_name@.len() > 0
    &&& forall|i: int| 0 <= i < s.routes@.len() ==> route_ok(#[trigger] s.routes@[i].0@, s.routes@[i].1)
    &&& forall|i: int| 0 <= i < s.errors@.len() ==> error_entry_ok(#[trigger] s.errors@[i])
    &&& forall|i: int| 0 <= i < s.cgi_handlers@.len() ==> cgi_entry_ok(#[trigger] s.cgi_handlers@[i])
}

/// A custom page for an allowed status, with a file name.
pub open spec fn error_entry_ok(e: (String, ErrorPageConfig)) -> bool {
    error_code_ok(e.0@) && e.1.filename@.len() > 0
}

/// A CGI handler for an extension written with its dot, with an interpreter.
pub open spec fn cgi_entry_ok(e: (String, String)) -> bool {
    has_prefix(e.0@, "."@) && e.1@.len() > 0
}

/// Two servers listen on a common port.
pub open spec fn share_port(a: ServerConfig, b: ServerConfig) -> bool {
    exists|i: int, j: int|
        0 <= i < a.ports@.len() && 0 <= j < b.ports@.len() && #[trigger] a.ports@[i] == #[trigger] b.ports@[j]
}

/// Servers sharing a port use one address and distinct names (ignoring case).
pub open spec fn ports_ok(ss: Seq<ServerConfig>) -> bool {
    forall|i: int, j: int|
        0 <= i < j < ss.len() && share_port(#[trigger] ss[i], #[trigger] ss[j]) ==> ss[i].server_address@
            == ss[j].server_address@ && !eq_nocase(ss[i].server_name@, ss[j].server_name@)
}

/// The configuration is acceptable.
pub open spec fn config_ok(c: Config) -> bool {
    &&& c.client_timeout_secs > 0
    &&& c.client_max_body_size > 0
    &&& c.servers@.len() > 0
    &&& ports_ok(c.servers@)
    &&& forall|i: int| 0 <= i < c.servers@.len() ==> server_ok(#[trigger] c.servers@[i])
    &&& match c.admin {
        Some(a) => a.username@.len() > 0 && a.password@.len() > 0,
        None => true,
    }
}

fn config_error(msg: &str) -> (r: ServerError)
    ensures
        r is ConfigError,
{
    ServerError::ConfigError(msg.to_owned())
}

fn is_route_method(m: &str) -> (r: bool)
    ensures
        r == route_method_ok(m@),
{
    eq_str(m, "GET") || eq_str(m, "POST") || eq_str(m, "DELETE") || eq_str(m, "PUT") || eq_str(m, "PATCH")
        || eq_str(m, "HEAD") || eq_str(m, "OPTIONS")
}

fn opt_has_text(o: &Option<String>) -> (r: bool)
    ensures
        r == opt_nonempty(*o),
{
    match o {
        Some(s) => s.unicode_len() > 0,
        None => true,
    }
}

/// Checks one route.
pub fn validate_route(route: &RouteConfig, path: &str) -> (r: Result<(), ServerError>)
    ensures
        r is Ok <==> route_ok(path@, *route),
        r matches Err(e) ==> e is ConfigError,
{
    if path.unicode_len() == 0 || path.get_char(0) != '/' {
        return Err(config_error("route path must start with '/'"));
    }
    if route.methods.len() == 0 {
        return Err(config_error("route must specify at least one method"));
    }
    let mut i: usize = 0;
    while i < route.methods.len()
        invariant
            i <= route.methods@.len(),
            forall|j: int| 0 <= j < i ==> route_method_ok(#[trigger] route.methods@[j]@),
        decreases route.methods@.len() - i,
    {
        if !is_route_method(route.methods[i].as_str()) {
            return Err(config_error("route has an invalid method"));
        }
        i = i + 1;
    }
    let targets: u8 = (if route.filename.is_some() { 1u8 } else { 0u8 }) + (if route.directory.is_some() {
        1u8
    } else {
        0u8
    }) + (if route.redirect.is_some() { 1u8 } else { 0u8 });
    if targets > 1 {
        return Err(config_error("route cannot specify several of filename, directory, redirect"));
    }
    if !opt_has_text(&route.filename) {
        return Err(config_error("route filename cannot be empty"));
    }
    if !opt_has_text(&route.directory) {
        return Err(config_error("route directory cannot be empty"));
    }
    if let Some(t) = &route.redirect {
        if !(starts_with(t.as_str(), "/") || starts_with(t.as_str(), "http://") || starts_with(
            t.as_str(),
            "https://",
        )) {
            return Err(config_error("route redirect must start with '/', 'http://' or 'https://'"));
        }
    }
    if let Some(t) = &route.redirect_type {
        if !(eq_str(t.as_str(), "301") || eq_str(t.as_str(), "302")) {
            return Err(config_error("route redirect_type must be 301 or 302"));
        }
    }
    Ok(())
}

fn is_error_code(c: &str) -> (r: bool)
    ensures
        r == error_code_ok(c@),
{
    eq_str(c, "400") || eq_str(c, "403") || eq_str(c, "404") || eq_str(c, "405") || eq_str(c, "413")
        || eq_str(c, "500")
}

/// Checks one server definition.
pub fn validate_server(server: &ServerConfig) -> (r: Result<(), ServerError>)
    ensures
        r is Ok <==> server_ok(*server),
        r matches Err(e) ==> e is ConfigError,
{
    let a = server.server_address.as_str();
    if eq_str(a, "0.0.0.0") || eq_str(a, "::") {
        return Err(config_error("server_address cannot be 0.0.0.0 or ::"));
    }
    if server.ports.len() == 0 {
        return Err(config_error("at least one port must be specified"));
    }
    let mut i: usize = 0;
    while i < server.ports.len()
        invariant
            i <= server.ports@.len(),
            forall|j: int| 0 <= j < i ==> #[trigger] server.ports@[j] != 0,
        decreases server.ports@.len() - i,
    {
        if server.ports[i] == 0 {
            return Err(config_error("port cannot be 0"));
        }
        i = i + 1;
    }
    if server.server_name.unicode_len() == 0 {
        return Err(config_error("server_name cannot be empty"));
    }
    let mut i: usize = 0;
    while i < server.routes.len()
        invariant
            i <= server.routes@.len(),
            forall|j: int| 0 <= j < i ==> route_ok(#[trigger] server.routes@[j].0@, server.routes@[j].1),
        decreases server.routes@.len() - i,
    {
        let (p, route) = &server.routes[i];
        validate_route(route, p.as_str())?;
        i = i + 1;
    }
    let mut i: usize = 0;
    while i < server.errors.len()
        invariant
            i <= server.errors@.len(),
            forall|j: int| 0 <= j < i ==> error_entry_ok(#[trigger] server.errors@[j]),
        decreases server.errors@.len() - i,
    {
        let code = &server.errors[i].0;
        let page = &server.errors[i].1;
        validate_error_code(code.as_str())?;
        if page.filename.unicode_len() == 0 {
            return Err(config_error("error page filename cannot be empty"));
        }
        assert(error_entry_ok(server.errors@[i as int]));
        i = i + 1;
    }
    let mut i: usize = 0;
    while i < server.cgi_handlers.len()
        invariant
            i <= server.cgi_handlers@.len(),
            forall|j: int| 0 <= j < i ==> cgi_entry_ok(#[trigger] server.cgi_handlers@[j]),
        decreases server.cgi_handlers@.len() - i,
    {
        let ext = &server.cgi_handlers[i].0;
        let interp = &server.cgi_handlers[i].1;
        if !starts_with(ext.as_str(), ".") {
            return Err(config_error("CGI extension must start with '.'"));
        }
        if interp.unicode_len() == 0 {
            return Err(config_error("CGI interpreter cannot be empty"));
        }
        assert(cgi_entry_ok(server.cgi_handlers@[i as int]));
        i = i + 1;
    }
    Ok(())
}

fn shares_port(a: &ServerConfig, b: &ServerConfig) -> (r: bool)
    ensures
        r == share_port(*a, *b),
{
    let mut i: usize = 0;
    while i < a.ports.len()
        invariant
            i <= a.ports@.len(),
            forall|x: int, y: int|
                0 <= x < i && 0 <= y < b.ports@.len() ==> #[trigger] a.ports@[x] != #[trigger] b.ports@[y],
        decreases a.ports@.len() - i,
    {
        let mut j: usize = 0;
        while j < b.ports.len()
            invariant
                i < a.ports@.len(),
                j <= b.ports@.len(),
                forall|x: int, y: int|
                    0 <= x < i && 0 <= y < b.ports@.len() ==> #[trigger] a.ports@[x] != #[trigger] b.ports@[y],
                forall|y: int| 0 <= y < j ==> a.ports@[i as int] != #[trigger] b.ports@[y],
            decreases b.ports@.len() - j,
        {
            if a.ports[i] == b.ports[j] {
                return true;
            }
            j = j + 1;
        }
        i = i + 1;
    }
    false
}

/// Checks that servers sharing a port agree on the address and differ in name.
pub fn validate_port_conflicts(config: &Config) -> (r: Result<(), ServerError>)
    ensures
        r is Ok <==> ports_ok(config.servers@),
        r matches Err(e) ==> e is ConfigError,
{
    let n = config.servers.len();
    let mut i: usize = 0;
    while i < n
        invariant
            n == config.servers@.len(),
            i <= n,
            forall|a: int, b: int|
                0 <= a < i && a < b < n && share_port(#[trigger] config.servers@[a], #[trigger] config.servers@[b]) ==> config.servers@[a].server_address@
                    == config.servers@[b].server_address@ && !eq_nocase(config.servers@[a].server_name@, config.servers@[b].server_name@),
        decreases n - i,
    {
        let mut j: usize = i + 1;
        while j < n
            invariant
                n == config.servers@.len(),
                i < n,
                i + 1 <= j <= n,
                forall|a: int, b: int|
                    0 <= a < i && a < b < n && share_port(#[trigger] config.servers@[a], #[trigger] config.servers@[b]) ==> config.servers@[a].server_address@
                        == config.servers@[b].server_address@ && !eq_nocase(config.servers@[a].server_name@, config.servers@[b].server_name@),
                forall|b: int|
                    i < b < j && share_port(config.servers@[i as int], #[trigger] config.servers@[b]) ==> config.servers@[i as int].server_address@
                        == config.servers@[b].server_address@ && !eq_nocase(config.servers@[i as int].server_name@, config.servers@[b].server_name@),
            decreases n - j,
        {
            if shares_port(&config.servers[i], &config.servers[j]) {
                assert(share_port(config.servers@[i as int], config.servers@[j as int]));
                if !eq_str(config.servers[i].server_address.as_str(), config.servers[j].server_address.as_str()) {
                    assert(!ports_ok(config.servers@)) by {
                        let a = config.servers@[i as int];
                        let b = config.servers@[j as int];
                        assert(share_port(a, b) && a.server_address@ != b.server_address@);
                    }
                    return Err(config_error("servers sharing a port must use the same server_address"));
                }
                if eq_ignore_case(config.servers[i].server_name.as_str(), config.servers[j].server_name.as_str()) {
                    assert(!ports_ok(config.servers@)) by {
                        let a = config.servers@[i as int];
                        let b = config.servers@[j as int];
                        assert(share_port(a, b) && eq_nocase(a.server_name@, b.server_name@));
                    }
                    return Err(config_error("servers sharing a port must have distinct server_name values"));
                }
            }
            j = j + 1;
        }
        i = i + 1;
    }
    Ok(())
}

/// Checks the global limits: both must be positive.
pub fn validate_global_settings(config: &Config) -> (r: Result<(), ServerError>)
    ensures
        r is Ok <==> (config.client_timeout_secs > 0 && config.client_max_body_size > 0),
        r matches Err(e) ==> e is ConfigError,
{
    if config.client_timeout_secs == 0 {
        return Err(config_error("client_timeout_secs must be greater than 0"));
    }
    if config.client_max_body_size == 0 {
        return Err(config_error("client_max_body_size must be greater than 0"));
    }
    Ok(())
}

/// Checks that a custom page is for 400, 403, 404, 405, 413 or 500.
pub fn validate_error_code(code: &str) -> (r: Result<(), ServerError>)
    ensures
        r is Ok <==> error_code_ok(code@),
        r matches Err(e) ==> e is ConfigError,
{
    if is_error_code(code) {
        Ok(())
    } else {
        Err(config_error("invalid error code; valid codes are 400, 403, 404, 405, 413, 500"))
    }
}

/// Checks that administrator credentials are not empty.
pub fn validate_admin(admin: &AdminConfig) -> (r: Result<(), ServerError>)
    ensures
        r is Ok <==> (admin.username@.len() > 0 && admin.password@.len() > 0),
        r matches Err(e) ==> e is ConfigError,
{
    if admin.username.unicode_len() == 0 || admin.password.unicode_len() == 0 {
        return Err(config_error("admin username and password cannot be empty"));
    }
    Ok(())
}

/// Checks the whole configuration; the first problem found is reported.
pub fn validate_config(config: &Config) -> (r: Result<(), ServerError>)
    ensures
        r is Ok <==> config_ok(*config),
        r matches Err(e) ==> e is ConfigError,
{
    validate_global_settings(config)?;
    if config.servers.len() == 0 {
        return Err(config_error("at least one server must be configured"));
    }
    validate_port_conflicts(config)?;
    let mut i: usize = 0;
    while i < config.servers.len()
        invariant
            i <= config.servers@.len(),
            forall|j: int| 0 <= j < i ==> server_ok(#[trigger] config.servers@[j]),
        decreases config.servers@.len() - i,
    {
        validate_server(&config.servers[i])?;
        i = i + 1;
    }
    if let Some(admin) = &config.admin {
        validate_admin(admin)?;
    }
    Ok(())
}

} // verus!
