use localhost::buffer::Buffer;
use localhost::cgi::{CgiExecutor, CgiHandler, CgiIo};
use localhost::cookie::SameSite;
use localhost::config::RouteConfig;
use localhost::engine::{attach_session_at, prepare, status_for_error, Prepared};
use localhost::router::Router;
use localhost::error::ServerError;
use localhost::event::{Event, EventType, Timeout};
use localhost::handlers::ErrorPageHandler;
use localhost::config::{ErrorPageConfig, ServerConfig};
use localhost::listing::{listing_html, sort_entries, DirEntry, DirectoryListingHandler};
use localhost::method::Method;
use localhost::request::Request;
use localhost::response::Response;
use localhost::session::SessionManager;
use localhost::status::StatusCode;
use localhost::upload::{basename, disposition_filename, multipart_boundary, multipart_file, unique_name, upload_mime, UploadHandler};
use localhost::version::Version;

fn entry(name: &str, is_dir: bool, size: Option<u64>) -> DirEntry {
    DirEntry { name: name.to_string(), is_dir, size }
}

#[test]
fn listing_orders_directories_first() {
    let sorted = sort_entries(vec![entry("b.txt", false, Some(3)), entry("zdir", true, None), entry("a.txt", false, Some(10)), entry("adir", true, None)]);
    let names: Vec<&str> = sorted.iter().map(|e| e.name.as_str()).collect();
    assert_eq!(names, vec!["adir", "zdir", "a.txt", "b.txt"]);
    let html = listing_html("/files", &sorted);
    assert!(html.starts_with("<!DOCTYPE html>\n<html><head><title>Index of /files</title>"));
    assert!(html.contains("<a href=\"/\">../</a>\n"));
    assert!(html.contains("<a href=\"/files/adir\">adir/</a>"));
    assert!(html.contains("<a href=\"/files/a.txt\">a.txt</a>"));
    assert!(html.contains(" 10\n"));
    let root = listing_html("/", &Vec::new());
    assert!(!root.contains("../"));
    let resp = DirectoryListingHandler::listing_response(Version::Http11, "/files/", vec![entry("x", false, None)]);
    assert_eq!(resp.status.as_u16(), 200);
    assert!(String::from_utf8(resp.body).unwrap().contains("<a href=\"/files/x\">x</a>"));
}

#[test]
fn upload_names_and_types() {
    assert_eq!(disposition_filename("form-data; name=\"file\"; filename=\"report.pdf\""), Some("report.pdf".to_string()));
    assert_eq!(disposition_filename("attachment; filename='a.txt'"), Some("a.txt".to_string()));
    assert_eq!(disposition_filename("inline"), None);
    assert_eq!(basename("../../etc/passwd"), "passwd");
    assert_eq!(basename("C:\\x\\y.png"), "y.png");
    assert_eq!(upload_mime(None, "photo.PNG"), Some("image/png".to_string()));
    assert_eq!(upload_mime(Some("text/plain; charset=utf-8"), "x.bin"), Some("text/plain".to_string()));
    assert_eq!(upload_mime(None, "archive.tar"), None);
    assert_eq!(upload_mime(Some("application/x-sh"), "run.sh"), None);
    let taken = vec!["a.txt".to_string(), "a_1.txt".to_string()];
    assert_eq!(unique_name("a.txt", &taken), Some("a_2.txt".to_string()));
    assert_eq!(unique_name("b.txt", &taken), Some("b.txt".to_string()));
    assert_eq!(unique_name(".hidden", &vec![".hidden".to_string()]), Some(".hidden_1".to_string()));
}

#[test]
fn upload_multipart_and_reply() {
    let ct = "multipart/form-data; boundary=XYZ";
    let boundary = multipart_boundary(ct).unwrap();
    assert_eq!(boundary, "XYZ");
    assert_eq!(multipart_boundary("text/plain"), None);
    let body = b"--XYZ\r\nContent-Disposition: form-data; name=\"f\"; filename=\"n.txt\"\r\nContent-Type: text/plain\r\n\r\nhi there\r\n--XYZ--\r\n".to_vec();
    let part = multipart_file(&body, &boundary).unwrap();
    assert_eq!(part.filename, "n.txt");
    assert_eq!(part.content_type, Some("text/plain".to_string()));
    assert_eq!(part.data, b"hi there".to_vec());
    let resp = UploadHandler::created_response(Version::Http11, "n.txt", "text/plain");
    assert_eq!(resp.status.as_u16(), 201);
    assert_eq!(
        String::from_utf8(resp.body).unwrap(),
        "{\"status\": \"success\", \"message\": \"File uploaded successfully\", \"filename\": \"n.txt\", \"mime_type\": \"text/plain\"}"
    );
}

#[test]
fn cgi_dispatch_and_errors() {
    let handlers = vec![(".py".to_string(), "/usr/bin/python3".to_string())];
    let cgi = CgiHandler::new(&handlers, "localhost".to_string(), 8080);
    assert_eq!(cgi.get_interpreter("/srv/cgi/test.py"), Some("/usr/bin/python3".to_string()));
    assert_eq!(cgi.get_interpreter("/srv/cgi/test.sh"), None);
    assert!(cgi.is_cgi_script(None, "/srv/cgi/test.py"));
    assert!(cgi.is_cgi_script(Some("sh"), "/srv/cgi/test.sh"));
    assert!(!cgi.is_cgi_script(None, "/srv/cgi/test.sh"));
    assert!(CgiIo::parse_cgi_output(b"Content-Type: text/plain\r\nno separator").is_err());
    assert!(CgiIo::parse_cgi_output(b"Status: 999\r\n\r\n").is_err());
    let r = CgiIo::parse_cgi_output(b"Status: 404 Not Found\r\n\r\n").unwrap();
    assert_eq!(r.status.as_u16(), 404);
    let exec = CgiExecutor::new(30);
    assert_eq!(exec.timeout_secs(), 30);
    assert!(matches!(exec.complete(false, b"", "boom"), Err(ServerError::CgiError(_))));
    let ok = CgiHandler::result_response(Version::Http11, Err(ServerError::CgiError("x".to_string()))).unwrap();
    assert_eq!(ok.status.as_u16(), 500);
    let late = CgiHandler::result_response(Version::Http11, Err(ServerError::TimeoutError("x".to_string()))).unwrap();
    assert_eq!(late.status.as_u16(), 504);
}

#[test]
fn error_pages() {
    let server = ServerConfig {
        server_address: "127.0.0.1".to_string(),
        ports: vec![80],
        server_name: "s".to_string(),
        root: "/srv".to_string(),
        admin_access: false,
        routes: vec![],
        errors: vec![("404".to_string(), ErrorPageConfig { filename: "errors/404.html".to_string() })],
        cgi_handlers: vec![],
    };
    let pages = ErrorPageHandler::new(&server, "/srv".to_string());
    assert_eq!(pages.page_path(StatusCode::NOT_FOUND()), Some("/srv/errors/404.html".to_string()));
    assert_eq!(pages.page_path(StatusCode::FORBIDDEN()), None);
    let custom = pages.generate_error_response(StatusCode::NOT_FOUND(), Version::Http11, Some(b"<p>gone</p>".to_vec()));
    assert_eq!(custom.body, b"<p>gone</p>".to_vec());
    let builtin = pages.generate_error_response(StatusCode::FORBIDDEN(), Version::Http11, None);
    let text = String::from_utf8(builtin.body).unwrap();
    assert!(text.contains("<title>403 Forbidden</title>"));
    assert!(text.contains("<h1>403</h1>"));
    assert_eq!(status_for_error(&ServerError::HttpError("x".to_string())).as_u16(), 404);
    assert_eq!(status_for_error(&ServerError::IoError("x".to_string())).as_u16(), 500);
}

#[test]
fn session_cookie_on_response() {
    let mut sessions = SessionManager::new(3600);
    let req = Request::new(Method::GET, "/".to_string(), Version::Http11);
    let mut resp = Response::ok(Version::Http11);
    let id = attach_session_at(&mut sessions, &req, &mut resp, 50);
    let sent = resp.headers.get("Set-Cookie").unwrap().clone();
    assert_eq!(sent, format!("session_id={}; Path=/; Max-Age=3600; HttpOnly", id));
    let mut again = Request::new(Method::GET, "/".to_string(), Version::Http11);
    again.headers.set("Cookie".to_string(), format!("theme=dark; session_id={}", id));
    let mut resp2 = Response::ok(Version::Http11);
    assert_eq!(attach_session_at(&mut sessions, &again, &mut resp2, 60), id);
}

#[test]
fn events_buffers_timeouts() {
    let e = Event::new(7, EventType::ReadWrite, 7);
    assert!(e.readable() && e.writable());
    assert!(!Event::new(7, EventType::Write, 7).readable());
    let t = Timeout::new_at(30, 100);
    assert!(!t.is_expired_at(129));
    assert!(t.is_expired_at(130));
    assert_eq!(t.remaining_at(110), 20);
    assert_eq!(t.remaining_at(200), 0);
    let mut b = Buffer::new();
    b.extend(b"abc\r\ndef");
    assert_eq!(b.find(b"\r\n"), Some(3));
    assert_eq!(b.drain(5), b"abc\r\n".to_vec());
    assert_eq!(b.as_slice(), b"def".to_vec());
    assert_eq!(b.drain(10), b"def".to_vec());
    assert!(b.is_empty());
    let _ = SameSite::NoRestriction;
}

#[test]
fn prepare_outcomes() {
    let mut open = RouteConfig::new();
    open.methods = vec!["GET".to_string()];
    let mut moved = RouteConfig::new();
    moved.redirect = Some("/new".to_string());
    moved.methods = vec!["GET".to_string()];
    let router = Router::from_routes(vec![("/".to_string(), open), ("/old".to_string(), moved)], "/srv".to_string());
    let get = |t: &str, m: Method| Request::new(m, t.to_string(), Version::Http11);
    assert!(matches!(prepare(&router, &get("/a.txt", Method::GET)), Prepared::Target(0, ref p) if p == "/srv/a.txt"));
    assert!(matches!(prepare(&router, &get("/old", Method::DELETE)), Prepared::Redirect(ref r) if r.status.as_u16() == 302));
    assert!(matches!(prepare(&router, &get("/a.txt", Method::POST)), Prepared::MethodNotAllowed));
    assert!(matches!(prepare(&router, &get("/../x", Method::GET)), Prepared::Climbs));
    let empty = Router::from_routes(vec![], "/srv".to_string());
    assert!(matches!(prepare(&empty, &get("/", Method::GET)), Prepared::NoRoute));
}

#[test]
fn test_build_cgi_env() {
    let mut request = Request::new(Method::GET, "/cgi/test.py?param=value".to_string(), Version::Http11);
    request.headers.add("Host".to_string(), "localhost:8080".to_string());
    let script_path = "/var/www/cgi/test.py";
    let env_vars = localhost::cgi::CgiEnvironment::build(&request, Some(script_path), "localhost", 8080);
    assert_eq!(env_vars.get("REQUEST_METHOD"), Some(&"GET".to_string()));
    assert_eq!(env_vars.get("QUERY_STRING"), Some(&"param=value".to_string()));
    assert_eq!(env_vars.get("SERVER_NAME"), Some(&"localhost".to_string()));
}

#[test]
fn unique_name_takes_first_free_number() {
    let taken = vec!["r.txt".to_string(), "r_1.txt".to_string(), "r_3.txt".to_string()];
    assert_eq!(unique_name("r.txt", &taken), Some("r_2.txt".to_string()));
    let all: Vec<String> = vec!["x".to_string(), "x_1".to_string(), "x_2".to_string()];
    assert_eq!(unique_name("x", &all), Some("x_3".to_string()));
    assert_eq!(multipart_boundary("multipart/form-data; boundary=\"ab c\"; x=1"), Some("ab c".to_string()));
    assert_eq!(multipart_boundary("multipart/form-data; charset=utf-8"), None);
}

#[test]
fn multipart_skips_parts_without_file() {
    let body = b"--B\r\nContent-Disposition: form-data; name=\"a\"\r\n\r\nplain\r\n--B\r\nContent-Disposition: form-data; name=\"f\"; filename=\"x.png\"\r\n\r\nPNG\r\n--B--".to_vec();
    let part = multipart_file(&body, "B").unwrap();
    assert_eq!(part.filename, "x.png");
    assert_eq!(part.content_type, None);
    assert_eq!(part.data, b"PNG".to_vec());
}

#[test]
fn sessions_cleanup_keeps_live_ones() {
    let mut m = SessionManager::new(10);
    let a = m.create_session_at(0);
    let b = m.create_session_at(100);
    assert_eq!(m.cleanup_expired_at(50), 1);
    assert!(m.get_session_at(&a, 50).is_none());
    assert!(m.get_session_at(&b, 50).is_some());
}

#[test]
fn upload_plan_outcomes() {
    let mut req = Request::new(Method::POST, "/up".to_string(), Version::Http11);
    req.headers.set("Content-Disposition".to_string(), "attachment; filename=\"../a.txt\"".to_string());
    req.body = b"hello".to_vec();
    let (name, mime, data) = localhost::upload::upload_plan(&req).unwrap();
    assert_eq!((name.as_str(), mime.as_str(), data), ("a.txt", "text/plain", b"hello".to_vec()));
    let get = Request::new(Method::GET, "/up".to_string(), Version::Http11);
    assert_eq!(localhost::upload::upload_plan(&get).unwrap_err().status.as_u16(), 405);
    let mut bad = Request::new(Method::POST, "/up".to_string(), Version::Http11);
    bad.headers.set("Content-Disposition".to_string(), "attachment; filename=run.sh".to_string());
    assert_eq!(localhost::upload::upload_plan(&bad).unwrap_err().status.as_u16(), 400);
}
