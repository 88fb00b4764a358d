use localhost::cookie::{parse_cookie_header, Cookie};
use localhost::headers::Headers;
use localhost::method::Method;
use localhost::parser::RequestParser;
use localhost::request::Request;
use localhost::response::Response;
use localhost::serializer::ResponseSerializer;
use localhost::status::StatusCode;
use localhost::version::Version;

#[test]
fn test_status_code_creation() {
    assert!(StatusCode::new(200).is_some());
    assert!(StatusCode::new(404).is_some());
    assert!(StatusCode::new(500).is_some());
    assert!(StatusCode::new(99).is_none());
    assert!(StatusCode::new(600).is_none());
}

#[test]
fn test_status_code_categories() {
    let ok = StatusCode::OK();
    assert!(ok.is_success());
    assert!(!ok.is_client_error());
    let not_found = StatusCode::NOT_FOUND();
    assert!(not_found.is_client_error());
    assert!(!not_found.is_success());
    let error = StatusCode::INTERNAL_SERVER_ERROR();
    assert!(error.is_server_error());
}

#[test]
fn test_status_code_display() {
    assert_eq!(StatusCode::OK().to_string(), "200");
    assert_eq!(StatusCode::NOT_FOUND().to_string(), "404");
}

#[test]
fn test_reason_phrase() {
    assert_eq!(StatusCode::OK().reason_phrase(), "OK");
    assert_eq!(StatusCode::NOT_FOUND().reason_phrase(), "Not Found");
    assert_eq!(StatusCode::INTERNAL_SERVER_ERROR().reason_phrase(), "Internal Server Error");
}

#[test]
fn test_version_parsing() {
    assert_eq!(Version::from_str("HTTP/1.1").unwrap(), Version::Http11);
    assert_eq!(Version::from_str("HTTP/1.0").unwrap(), Version::Http10);
    assert!(Version::from_str("HTTP/2.0").is_err());
}

#[test]
fn test_version_display() {
    assert_eq!(Version::Http11.to_string(), "HTTP/1.1");
    assert_eq!(Version::Http10.to_string(), "HTTP/1.0");
}

#[test]
fn test_version_properties() {
    assert!(Version::Http11.supports_keep_alive());
    assert!(Version::Http11.supports_chunked());
    assert!(Version::Http10.supports_keep_alive());
    assert!(!Version::Http10.supports_chunked());
}

#[test]
fn test_method_parsing() {
    assert_eq!(Method::from_str("GET").unwrap(), Method::GET);
    assert_eq!(Method::from_str("POST").unwrap(), Method::POST);
    assert_eq!(Method::from_str("DELETE").unwrap(), Method::DELETE);
    assert!(Method::from_str("INVALID").is_err());
}

#[test]
fn test_method_display() {
    assert_eq!(Method::GET.to_string(), "GET");
    assert_eq!(Method::POST.to_string(), "POST");
}

#[test]
fn test_method_properties() {
    assert!(Method::GET.is_safe());
    assert!(!Method::POST.is_safe());
    assert!(Method::GET.is_idempotent());
    assert!(!Method::POST.is_idempotent());
    assert!(Method::POST.allows_body());
    assert!(!Method::GET.allows_body());
}

#[test]
fn test_headers_basic() {
    let mut headers = Headers::new();
    headers.set("Content-Type".to_string(), "text/html".to_string());
    assert_eq!(headers.get("content-type"), Some(&"text/html".to_string()));
    assert_eq!(headers.get("Content-Type"), Some(&"text/html".to_string()));
}

#[test]
fn test_headers_case_insensitive() {
    let mut headers = Headers::new();
    headers.set("Content-Type".to_string(), "text/html".to_string());
    assert!(headers.contains("content-type"));
    assert!(headers.contains("CONTENT-TYPE"));
    assert!(headers.contains("Content-Type"));
}

#[test]
fn test_headers_multiple_values() {
    let mut headers = Headers::new();
    headers.add("Accept".to_string(), "text/html".to_string());
    headers.add("Accept".to_string(), "application/json".to_string());
    let values = headers.get_all("Accept").unwrap();
    assert_eq!(values.len(), 2);
}

#[test]
fn test_headers_parsing() {
    let lines = vec!["Content-Type: text/html".to_string(), "Content-Length: 123".to_string()];
    let headers = Headers::from_lines(&lines).unwrap();
    assert_eq!(headers.get("Content-Type"), Some(&"text/html".to_string()));
    assert_eq!(headers.get("Content-Length"), Some(&"123".to_string()));
}

#[test]
fn test_cookie_creation() {
    let cookie = Cookie::new("session_id".to_string(), "abc123".to_string());
    assert_eq!(cookie.name, "session_id");
    assert_eq!(cookie.value, "abc123");
    assert!(!cookie.secure);
    assert!(!cookie.http_only);
}

#[test]
fn test_cookie_builder() {
    let cookie = Cookie::new("test".to_string(), "value".to_string())
        .set_path("/".to_string())
        .set_secure(true)
        .set_http_only(true)
        .set_max_age(3600);
    assert_eq!(cookie.path, Some("/".to_string()));
    assert!(cookie.secure);
    assert!(cookie.http_only);
    assert_eq!(cookie.max_age, Some(3600));
}

#[test]
fn test_cookie_serialization() {
    let cookie = Cookie::new("session".to_string(), "abc123".to_string())
        .set_path("/".to_string())
        .set_http_only(true)
        .set_secure(true);
    let header_value = cookie.to_set_cookie_string();
    assert!(header_value.contains("session=abc123"));
    assert!(header_value.contains("Path=/"));
    assert!(header_value.contains("Secure"));
    assert!(header_value.contains("HttpOnly"));
}

#[test]
fn test_parse_cookie_header() {
    let header = "session_id=abc123; user=john; theme=dark";
    let cookies = parse_cookie_header(header);
    assert_eq!(cookies.get("session_id"), Some(&"abc123".to_string()));
    assert_eq!(cookies.get("user"), Some(&"john".to_string()));
    assert_eq!(cookies.get("theme"), Some(&"dark".to_string()));
}

#[test]
fn test_parse_cookie_header_with_spaces() {
    let header = "session_id = abc123 ; user = john";
    let cookies = parse_cookie_header(header);
    assert_eq!(cookies.get("session_id"), Some(&"abc123".to_string()));
    assert_eq!(cookies.get("user"), Some(&"john".to_string()));
}

#[test]
fn test_request_path() {
    let req = Request::new(Method::GET, "/path?key=value".to_string(), Version::Http11);
    assert_eq!(req.path(), "/path");
}

#[test]
fn test_query_string() {
    let req = Request::new(Method::GET, "/path?key=value".to_string(), Version::Http11);
    assert_eq!(req.query_string(), Some("key=value"));
}

#[test]
fn test_parse_query_params() {
    let mut req = Request::new(Method::GET, "/path?key1=value1&key2=value2".to_string(), Version::Http11);
    req.parse_query_params();
    assert_eq!(req.query_params.get("key1"), Some(&"value1".to_string()));
    assert_eq!(req.query_params.get("key2"), Some(&"value2".to_string()));
}

#[test]
fn test_keep_alive() {
    let mut req = Request::new(Method::GET, "/".to_string(), Version::Http11);
    assert!(req.should_keep_alive());
    req.headers.set("Connection".to_string(), "close".to_string());
    assert!(!req.should_keep_alive());
}

#[test]
fn test_response_creation() {
    let resp = Response::ok(Version::Http11);
    assert_eq!(resp.status, StatusCode::OK());
    assert_eq!(resp.version, Version::Http11);
}

#[test]
fn test_response_with_body() {
    let mut resp = Response::ok(Version::Http11);
    resp.set_body_str("Hello, World!");
    assert_eq!(resp.body.len(), 13);
    assert_eq!(resp.content_length(), Some(13));
}

#[test]
fn test_chunked_response() {
    let mut resp = Response::ok(Version::Http11);
    resp.set_chunked();
    assert!(resp.chunked);
    assert!(resp.headers.get("Transfer-Encoding").is_some());
    assert!(resp.headers.get("Content-Length").is_none());
}

#[test]
fn test_response_headers() {
    let mut resp = Response::ok(Version::Http11);
    resp.set_content_type("text/html");
    assert_eq!(resp.headers.get("Content-Type"), Some(&"text/html".to_string()));
}

#[test]
fn test_serialize_simple_response() {
    let mut response = Response::ok(Version::Http11);
    response.set_body_str("Hello");
    let bytes = ResponseSerializer::serialize(&response).unwrap();
    let text = String::from_utf8(bytes).unwrap();
    assert!(text.contains("200 OK"));
    assert!(text.contains("Hello"));
}

#[test]
fn test_serialize_chunked_response() {
    let mut response = Response::ok(Version::Http11);
    response.set_chunked();
    response.set_body_str("Hello");
    let bytes = ResponseSerializer::serialize_chunked(&response).unwrap();
    let text = String::from_utf8(bytes).unwrap();
    assert!(text.contains("200 OK"));
    assert!(text.contains("Transfer-Encoding: chunked"));
}

#[test]
fn test_parse_simple_request() {
    let request_str = "GET / HTTP/1.1\r\nHost: localhost\r\n\r\n";
    let mut parser = RequestParser::new();
    parser.add_data(request_str.as_bytes()).unwrap();
    let request = parser.parse().unwrap().unwrap();
    assert_eq!(request.method, Method::GET);
    assert_eq!(request.path(), "/");
}
