use localhost::cgi::{CgiEnvironment, CgiIo};
use localhost::config::{validate_config, Config, RouteConfig, ServerConfig};
use localhost::connection::{Connection, ConnectionState, PollAction, ReadOutcome, Registration};
use localhost::date::http_date;
use localhost::handlers::{
    default_error_response, mime_type, redirect_location, DeleteHandler, DeleteOutcome, RedirectionHandler,
    StaticFileHandler,
};
use localhost::method::Method;
use localhost::params::url_decode;
use localhost::parser::{ParseErrorKind, ParseState, RequestParser};
use localhost::request::Request;
use localhost::response::Response;
use localhost::router::{classify, sanitize, HandlerKind, Router};
use localhost::serializer::ResponseSerializer;
use localhost::status::StatusCode;
use localhost::text::{decimal_string, parse_hex};
use localhost::version::Version;
use localhost::vhost::{normalize_host, VirtualHosts};

fn server(name: &str, port: u16, routes: Vec<(String, RouteConfig)>) -> ServerConfig {
    ServerConfig {
        server_address: "127.0.0.1".to_string(),
        ports: vec![port],
        server_name: name.to_string(),
        root: "/srv/www".to_string(),
        admin_access: false,
        routes,
        errors: vec![],
        cgi_handlers: vec![(".py".to_string(), "python3".to_string())],
    }
}

fn text(bytes: Vec<u8>) -> String {
    String::from_utf8(bytes).unwrap()
}

#[test]
fn scenario_static_file() {
    let mut route = RouteConfig::new();
    route.methods = vec!["GET".to_string()];
    route.directory = Some("static".to_string());
    let cfg = server("localhost", 8080, vec![("/static".to_string(), route)]);
    let router = Router::new(&cfg, "/srv/www".to_string());
    let mut parser = RequestParser::new();
    parser.add_data(b"GET /static/test.txt HTTP/1.1\r\nHost: localhost\r\n\r\n").unwrap();
    let req = parser.parse().unwrap().unwrap();
    let route = router.match_route(&req).unwrap();
    let path = router.resolve_file_path(&req, route).unwrap();
    assert_eq!(path, "/srv/www/static/test.txt");
    let resp = StaticFileHandler::file_response(req.version, &path, b"Hello, World!".to_vec());
    let out = text(ResponseSerializer::serialize_auto(&resp).unwrap());
    assert!(out.starts_with("HTTP/1.1 200 OK\r\n"));
    assert!(out.contains("Content-Length: 13\r\n"));
    assert!(out.contains("Content-Type: text/plain\r\n"));
    assert!(out.ends_with("\r\n\r\nHello, World!"));
}

#[test]
fn scenario_body_too_large() {
    let mut conn = Connection::with_port(8080, 0, 100);
    let mut data = b"POST /upload HTTP/1.1\r\nHost: localhost\r\nContent-Length: 200\r\n\r\n".to_vec();
    data.extend(std::iter::repeat(b'x').take(200));
    let outcome = conn.on_data(&data, 1);
    assert!(matches!(outcome, ReadOutcome::TooLarge));
    assert!(!conn.should_keep_alive());
    let resp = default_error_response(StatusCode::PAYLOAD_TOO_LARGE(), Version::Http11);
    let bytes = ResponseSerializer::serialize_auto(&resp).unwrap();
    assert!(text(bytes.clone()).starts_with("HTTP/1.1 413 Payload Too Large\r\n"));
    assert_eq!(conn.queue_response(&bytes, false), PollAction::SwitchToWrite);
    assert_eq!(conn.on_written(bytes.len()), PollAction::Close);
    assert_eq!(conn.state(), ConnectionState::Closed);
}

#[test]
fn scenario_redirect() {
    let mut route = RouteConfig::new();
    route.redirect = Some("/new".to_string());
    route.redirect_type = Some("301".to_string());
    let req = Request::new(Method::GET, "/old".to_string(), Version::Http11);
    let resp = RedirectionHandler::redirect(&route, &req).unwrap();
    assert_eq!(resp.status.as_u16(), 301);
    assert_eq!(resp.headers.get("Location"), Some(&"/new".to_string()));
    assert!(resp.body.is_empty());
    let out = text(ResponseSerializer::serialize_auto(&resp).unwrap());
    assert!(out.starts_with("HTTP/1.1 301 Moved Permanently\r\n"));
    assert!(out.ends_with("\r\n\r\n"));
}

#[test]
fn scenario_delete() {
    let resp = DeleteHandler::delete_response(Version::Http11, &DeleteOutcome::Deleted);
    assert_eq!(resp.status.as_u16(), 200);
    assert_eq!(resp.body, b"File deleted successfully".to_vec());
    let missing = DeleteHandler::delete_response(Version::Http11, &DeleteOutcome::Missing);
    assert_eq!(missing.status.as_u16(), 404);
    let dir = DeleteHandler::delete_response(Version::Http11, &DeleteOutcome::Directory);
    assert_eq!(dir.status.as_u16(), 403);
    let failed = DeleteHandler::delete_response(Version::Http11, &DeleteOutcome::Failed("disk".to_string()));
    assert_eq!(failed.status.as_u16(), 500);
    assert_eq!(failed.body, b"Failed to delete file: disk".to_vec());
}

#[test]
fn scenario_cgi() {
    let mut parser = RequestParser::new();
    parser
        .add_data(b"POST /cgi/test.py HTTP/1.1\r\nHost: localhost\r\nContent-Type: text/plain\r\nContent-Length: 5\r\n\r\nhello")
        .unwrap();
    let req = parser.parse().unwrap().unwrap();
    assert_eq!(req.body, b"hello".to_vec());
    let env = CgiEnvironment::build(&req, Some("/srv/www/cgi/test.py"), "localhost", 8080);
    assert_eq!(env.get("REQUEST_METHOD"), Some(&"POST".to_string()));
    assert_eq!(env.get("CONTENT_LENGTH"), Some(&"5".to_string()));
    assert_eq!(env.get("CONTENT_TYPE"), Some(&"text/plain".to_string()));
    assert_eq!(env.get("HTTP_HOST"), Some(&"localhost".to_string()));
    assert_eq!(env.get("SERVER_PORT"), Some(&"8080".to_string()));
    assert_eq!(env.get("SCRIPT_FILENAME"), Some(&"/srv/www/cgi/test.py".to_string()));
    let resp = CgiIo::parse_cgi_output(b"Content-Type: text/plain\r\nStatus: 200 OK\r\n\r\ngot:hello").unwrap();
    assert_eq!(resp.status.as_u16(), 200);
    assert_eq!(resp.headers.get("Content-Type"), Some(&"text/plain".to_string()));
    assert!(resp.headers.get("Status").is_none());
    assert_eq!(resp.body, b"got:hello".to_vec());
    assert_eq!(resp.headers.get("Server"), Some(&"localhost/0.1.0".to_string()));
    assert!(resp.headers.get("Date").is_some());
}

#[test]
fn scenario_virtual_hosts() {
    let servers = vec![server("a.example", 8080, vec![]), server("b.example", 8080, vec![])];
    let hosts = VirtualHosts::new(&servers);
    assert_eq!(hosts.find_server(8080, Some("b.example")), Some(1));
    assert_eq!(hosts.find_server(8080, Some("B.Example:8080")), Some(1));
    assert_eq!(hosts.find_server(8080, Some("unknown")), Some(0));
    assert_eq!(hosts.find_server(8080, None), Some(0));
    assert_eq!(hosts.find_server(9090, Some("a.example")), None);
    assert_eq!(normalize_host("127.0.0.1:8080"), "localhost");
    assert_eq!(normalize_host("[::1]:80"), "localhost");
}

#[test]
fn test_route_matching() {
    let mut route = RouteConfig::new();
    route.methods = vec!["GET".to_string()];
    route.directory = Some("static".to_string());
    let cfg = server("test", 8080, vec![("/static".to_string(), route)]);
    let router = Router::new(&cfg, "/srv".to_string());
    let request = Request::new(Method::GET, "/static/file.html".to_string(), Version::Http11);
    assert!(router.match_route(&request).is_some());
    let other = Request::new(Method::GET, "/staticfile".to_string(), Version::Http11);
    assert!(router.match_route(&other).is_none());
}

#[test]
fn router_longest_prefix_and_methods() {
    let mut root = RouteConfig::new();
    root.methods = vec!["GET".to_string()];
    let mut api = RouteConfig::new();
    api.methods = vec!["post".to_string()];
    let cfg = server("s", 1, vec![("/".to_string(), root), ("/api".to_string(), api)]);
    let router = Router::new(&cfg, "/srv".to_string());
    assert_eq!(router.route_index("/api/x"), Some(1));
    assert_eq!(router.route_index("/index.html"), Some(0));
    let get = Request::new(Method::GET, "/api/x".to_string(), Version::Http11);
    let (_, resp) = router.validate_request(&get).unwrap();
    assert_eq!(resp.unwrap().status.as_u16(), 405);
    let post = Request::new(Method::POST, "/api/x".to_string(), Version::Http11);
    let (_, resp) = router.validate_request(&post).unwrap();
    assert!(resp.is_none());
}

#[test]
fn traversal_is_refused() {
    let mut route = RouteConfig::new();
    route.methods = vec!["GET".to_string()];
    let cfg = server("s", 1, vec![("/".to_string(), route.clone())]);
    let router = Router::new(&cfg, "/srv/www".to_string());
    let req = Request::new(Method::GET, "/../../../etc/passwd".to_string(), Version::Http11);
    assert!(router.resolve_file_path(&req, &route).is_err());
    let ok = Request::new(Method::GET, "/a/./b//c.txt".to_string(), Version::Http11);
    assert_eq!(router.resolve_file_path(&ok, &route).unwrap(), "/srv/www/a/b/c.txt");
    assert_eq!(sanitize("x/../y"), None);
    assert_eq!(sanitize("./x//y/"), Some("x/y".to_string()));
    let home = Request::new(Method::GET, "/".to_string(), Version::Http11);
    assert_eq!(router.resolve_file_path(&home, &route).unwrap(), "/srv/www");
}

#[test]
fn dispatch_order() {
    let mut route = RouteConfig::new();
    assert_eq!(classify(&route, Method::GET, false, false, false), HandlerKind::Static);
    assert_eq!(classify(&route, Method::DELETE, true, false, false), HandlerKind::Delete);
    assert_eq!(classify(&route, Method::GET, true, false, false), HandlerKind::Cgi);
    assert_eq!(classify(&route, Method::GET, false, true, false), HandlerKind::Forbidden);
    route.directory_listing = true;
    assert_eq!(classify(&route, Method::GET, false, true, false), HandlerKind::DirectoryListing);
    route.default_file = Some("index.html".to_string());
    assert_eq!(classify(&route, Method::GET, false, true, true), HandlerKind::DefaultFile);
    route.upload_dir = Some("up".to_string());
    assert_eq!(classify(&route, Method::POST, false, false, false), HandlerKind::Upload);
    route.redirect = Some("/x".to_string());
    assert_eq!(classify(&route, Method::DELETE, false, false, false), HandlerKind::Redirect);
}

#[test]
fn framing_never_mixes_chunked_and_length() {
    let mut resp = Response::ok(Version::Http11);
    resp.set_body_str("Hello");
    resp.set_chunked();
    resp.headers.set("Content-Length".to_string(), "5".to_string());
    let out = text(ResponseSerializer::serialize_auto(&resp).unwrap());
    assert!(out.contains("Transfer-Encoding: chunked\r\n"));
    assert!(!out.contains("Content-Length"));
    assert!(out.ends_with("\r\n\r\n5\r\nHello\r\n0\r\n\r\n"));
    let sized = text(ResponseSerializer::serialize(&resp).unwrap());
    assert!(sized.contains("Content-Length: 5\r\n"));
    assert!(!sized.contains("Transfer-Encoding"));
}

#[test]
fn no_body_for_204_and_304() {
    for code in [204u16, 304, 101] {
        let mut resp = Response::new(Version::Http11, StatusCode::new(code).unwrap());
        resp.set_body_str("ignored");
        let out = text(ResponseSerializer::serialize_auto(&resp).unwrap());
        assert!(out.ends_with("\r\n\r\n"));
        assert!(!out.contains("ignored"));
        assert!(!out.contains("Content-Length"));
    }
}

#[test]
fn parser_needs_more_then_completes() {
    let mut parser = RequestParser::new();
    parser.add_data(b"GET /a?x=1&y=%41+b HTTP/1.1\r\nHo").unwrap();
    assert!(parser.parse().unwrap().is_none());
    parser.add_data(b"st: h\r\n\r\n").unwrap();
    let req = parser.parse().unwrap().unwrap();
    assert_eq!(req.query_params.get("y"), Some(&"A b".to_string()));
    assert_eq!(parser.state(), ParseState::Complete);
    assert!(parser.parse().unwrap().is_none());
}

#[test]
fn parser_errors() {
    let cases: [(&[u8], ParseErrorKind); 5] = [
        (b"INVALID\r\n\r\n", ParseErrorKind::MalformedLine),
        (b"BREW / HTTP/1.1\r\n\r\n", ParseErrorKind::UnknownMethod),
        (b"GET / HTTP/1.0\r\n\r\n", ParseErrorKind::UnsupportedVersion),
        (b"GET / HTTP/1.1\r\nNoColon\r\n\r\n", ParseErrorKind::BadHeader),
        (b"POST / HTTP/1.1\r\nTransfer-Encoding: chunked\r\n\r\nzz\r\n", ParseErrorKind::InvalidChunkSize),
    ];
    for (input, kind) in cases {
        let mut parser = RequestParser::new();
        parser.add_data(input).unwrap();
        assert_eq!(parser.parse().unwrap_err(), kind);
        assert!(parser.is_error());
        assert_eq!(parser.parse().unwrap_err(), kind);
    }
    let mut parser = RequestParser::new();
    parser.add_data(b"GET /\xff HTTP/1.1\r\n\r\n").unwrap();
    assert_eq!(parser.parse().unwrap_err(), ParseErrorKind::InvalidUtf8);
}

#[test]
fn parser_chunked_body() {
    let mut parser = RequestParser::new();
    parser.add_data(b"POST /c HTTP/1.1\r\nTransfer-Encoding: chunked\r\n\r\n5;ext=1\r\nHello\r\n").unwrap();
    assert!(parser.parse().unwrap().is_none());
    parser.add_data(b"6\r\n World\r\n0\r\n\r\n").unwrap();
    let req = parser.parse().unwrap().unwrap();
    assert_eq!(req.body, b"Hello World".to_vec());
}

#[test]
fn parser_body_cap() {
    let mut parser = RequestParser::with_max_body_size(10);
    parser.add_data(b"POST /c HTTP/1.1\r\nTransfer-Encoding: chunked\r\n\r\n").unwrap();
    assert!(parser.parse().unwrap().is_none());
    assert_eq!(parser.add_data(b"b\r\nHello World\r\n"), Err(ParseErrorKind::PayloadTooLarge));
    let mut big = RequestParser::with_max_body_size(10);
    let huge = vec![b'a'; 10 + 8192 + 1];
    assert_eq!(big.add_data(&huge), Err(ParseErrorKind::PayloadTooLarge));
    let mut sized = RequestParser::with_max_body_size(10);
    sized.add_data(b"POST / HTTP/1.1\r\nContent-Length: 11\r\n\r\n").unwrap();
    assert_eq!(sized.parse().unwrap_err(), ParseErrorKind::PayloadTooLarge);
}

#[test]
fn keep_alive_resets_parser() {
    let mut conn = Connection::with_port(80, 0, 1000);
    let outcome = conn.on_data(b"GET / HTTP/1.1\r\nHost: x\r\n\r\n", 1);
    assert!(matches!(outcome, ReadOutcome::Request(_)));
    assert_eq!(conn.queue_response(b"HTTP/1.1 200 OK\r\n\r\n", true), PollAction::SwitchToWrite);
    assert_eq!(conn.on_written(5), PollAction::Keep);
    assert_eq!(conn.on_written(100), PollAction::SwitchToRead);
    assert_eq!(conn.state(), ConnectionState::Reading);
    let again = conn.on_data(b"GET /b HTTP/1.1\r\n\r\n", 2);
    match again {
        ReadOutcome::Request(r) => assert_eq!(r.path(), "/b"),
        _ => panic!("second request not parsed"),
    }
    assert!(matches!(conn.on_data(b"", 3), ReadOutcome::Close));
    assert_eq!(conn.state(), ConnectionState::Closed);
    let _ = Registration::Removed;
    assert!(conn.is_timeout(40));
}

#[test]
fn config_validation() {
    let mut cfg = Config::new();
    assert!(validate_config(&cfg).is_err());
    let mut route = RouteConfig::new();
    route.methods = vec!["GET".to_string()];
    cfg.servers.push(server("a", 8080, vec![("/".to_string(), route.clone())]));
    assert!(validate_config(&cfg).is_ok());
    cfg.servers.push(server("A", 8080, vec![]));
    assert!(validate_config(&cfg).is_err());
    cfg.servers.pop();
    let mut bad = route.clone();
    bad.methods = vec!["TRACE".to_string()];
    cfg.servers[0].routes.push(("/x".to_string(), bad));
    assert!(validate_config(&cfg).is_err());
    cfg.servers[0].routes.pop();
    cfg.servers[0].ports = vec![0];
    assert!(validate_config(&cfg).is_err());
}

#[test]
fn helpers_exact_values() {
    assert_eq!(http_date(0), "Thu, 01 Jan 1970 00:00:00 GMT");
    assert_eq!(http_date(784111777), "Sun, 06 Nov 1994 08:49:37 GMT");
    assert_eq!(decimal_string(1234), "1234");
    assert_eq!(parse_hex("1aF"), Some(431));
    assert_eq!(url_decode("a%20b+c%zz"), "a b c%zz");
    assert_eq!(mime_type("x/y.HTML"), "text/html");
    assert_eq!(mime_type("dir.d/file"), "application/octet-stream");
    assert_eq!(redirect_location("next", "/a/b"), "/a/next");
    assert_eq!(redirect_location("http://x/", "/a/b"), "http://x/");
}

#[test]
fn parser_completes_across_feeds() {
    let mut parser = RequestParser::with_max_body_size(100);
    parser.add_data(b"POST /u HTTP/1.1\r\nHost: h\r\n").unwrap();
    assert!(parser.parse().unwrap().is_none());
    parser.add_data(b"Transfer-Encoding: chunked\r\n\r\n3\r\nabc\r\n").unwrap();
    assert!(parser.parse().unwrap().is_none());
    parser.add_data(b"0\r\nX-Trailer: 1\r\n\r\n").unwrap();
    let req = parser.parse().unwrap().unwrap();
    assert_eq!(req.body, b"abc".to_vec());
    parser.reset();
    parser.add_data(b"POST /u HTTP/1.1\r\nContent-Length: 101\r\n\r\n").unwrap();
    assert_eq!(parser.parse().unwrap_err(), ParseErrorKind::PayloadTooLarge);
}

#[test]
fn resolve_path_takes_relative_paths_under_root() {
    let router = Router::from_routes(vec![], "/srv".to_string());
    assert_eq!(router.resolve_path("./x"), "/srv/./x");
    assert_eq!(router.resolve_path("x"), "/srv/x");
    assert_eq!(router.resolve_path("/abs"), "/abs");
}
