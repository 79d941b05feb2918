use std::io::Read;

use http_server::connection::{next_state, on_transport_failure, serve, should_close, ConnectionState};
use http_server::fields::Fields;
use http_server::handlers::{
    echo_handler, echo_response, Endpoint, file_contents_response, file_target, file_written_response,
    is_traversal, root_handler, user_agent_handler,
};
use http_server::request::{Parts, Request};
use http_server::response::{self, Response};
use http_server::route::{Handler, Router};
use http_server::status::StatusCode;
use http_server::version::Version;

fn request_with(line: &str, headers: &[(&str, &str)]) -> Request {
    let mut head = Parts::new(line.to_string());
    for (k, v) in headers {
        head.add_header_line(&format!("{}: {}\r\n", k, v));
    }
    Request::new(head, None)
}

fn params(pairs: &[(&str, &str)]) -> Fields {
    let mut f = Fields::new();
    for (k, v) in pairs {
        f.insert(k.to_string(), v.to_string());
    }
    f
}

fn header<'a>(r: &'a Response, name: &str) -> Option<&'a str> {
    r.head.headers.get(name).map(|v| v.as_str())
}

#[test]
fn status_codes_and_phrases() {
    assert_eq!(StatusCode::OK.code(), 200);
    assert_eq!(StatusCode::CREATED.code(), 201);
    assert_eq!(StatusCode::NOT_FOUND.code(), 404);
    assert_eq!(StatusCode::INTERNAL_SERVER_ERROR.code(), 500);
    assert_eq!(StatusCode::OK.as_str(), "200 OK");
    assert_eq!(StatusCode::NOT_FOUND.as_str(), "404 Not Found");
    assert_eq!(StatusCode::INTERNAL_SERVER_ERROR.reason_phrase(), "Internal Server Error");
}

#[test]
fn head_encoding_with_headers() {
    let mut head = response::Parts::new(StatusCode::OK, Version::HTTP_11);
    head.headers.insert("Content-Length".to_string(), "3".to_string());
    head.headers.insert("Content-Type".to_string(), "text/plain".to_string());
    let r = Response::new(head, Some(b"abc".to_vec()));
    assert_eq!(
        r.to_http_headers_only(),
        "HTTP/1.1 200 OK\r\nContent-Length: 3\r\nContent-Type: text/plain\r\n\r\n"
    );
}

#[test]
fn head_encoding_uses_the_response_version() {
    let r = Response::new(response::Parts::new(StatusCode::NOT_FOUND, Version::HTTP_10), None);
    assert_eq!(r.to_http_headers_only(), "HTTP/1.0 404 Not Found\r\n\r\n");
    let u = Response::new(response::Parts::new(StatusCode::CREATED, Version::UNKNOWN), None);
    assert_eq!(u.to_http_headers_only(), "HTTP/1.1 201 Created\r\n\r\n");
}

#[test]
fn encoding_twice_gives_identical_bytes() {
    let req = request_with("GET /echo/abc HTTP/1.1", &[]);
    let r = echo_handler(&req, params(&[("msg", "abc")]));
    let a = r.to_http_headers_only();
    let b = r.to_http_headers_only();
    assert_eq!(a.as_bytes(), b.as_bytes());
}

#[test]
fn root_answers_bare_ok() {
    let req = request_with("GET / HTTP/1.1", &[]);
    let r = root_handler(&req, Fields::new());
    assert_eq!(r.head.status_code, StatusCode::OK);
    assert_eq!(r.head.headers.len(), 1);
    assert_eq!(header(&r, "Content-Length"), Some("0"));
    assert!(r.body.is_none());
    assert_eq!(r.to_http_headers_only(), "HTTP/1.1 200 OK\r\nContent-Length: 0\r\n\r\n");
}

#[test]
fn echo_plain() {
    let req = request_with("GET /echo/abc HTTP/1.1", &[("Accept-Encoding", "deflate")]);
    let r = echo_handler(&req, params(&[("msg", "abc")]));
    assert_eq!(r.head.status_code, StatusCode::OK);
    assert_eq!(header(&r, "Content-Type"), Some("text/plain"));
    assert_eq!(header(&r, "Content-Length"), Some("3"));
    assert_eq!(header(&r, "Content-Encoding"), None);
    assert_eq!(r.body, Some(b"abc".to_vec()));
}

#[test]
fn echo_gzip() {
    let req = request_with("GET /echo/abc HTTP/1.1", &[("Accept-Encoding", "gzip")]);
    let r = echo_handler(&req, params(&[("msg", "abc")]));
    assert_eq!(r.head.status_code, StatusCode::OK);
    assert_eq!(header(&r, "Content-Encoding"), Some("gzip"));
    let body = r.body.clone().unwrap();
    assert_ne!(body, b"abc".to_vec());
    assert_eq!(header(&r, "Content-Length"), Some(body.len().to_string().as_str()));
    let mut out = String::new();
    flate2::read::GzDecoder::new(body.as_slice()).read_to_string(&mut out).unwrap();
    assert_eq!(out, "abc");
}

#[test]
fn echo_gzip_among_other_encodings() {
    let req = request_with("GET /echo/x HTTP/1.1", &[("Accept-Encoding", "br, gzip, deflate")]);
    let r = echo_handler(&req, params(&[("msg", "x")]));
    assert_eq!(header(&r, "Content-Encoding"), Some("gzip"));
}

#[test]
fn echo_response_with_given_compressed_body() {
    let r = echo_response(Version::HTTP_11, "abc", Some(vec![1, 2, 3, 4]));
    assert_eq!(header(&r, "Content-Length"), Some("4"));
    assert_eq!(header(&r, "Content-Encoding"), Some("gzip"));
    assert_eq!(r.body, Some(vec![1, 2, 3, 4]));
}

#[test]
fn user_agent_is_echoed() {
    let req = request_with("GET /user-agent HTTP/1.1", &[("User-Agent", "foobar/1.2.3")]);
    let r = user_agent_handler(&req, Fields::new());
    assert_eq!(r.body, Some(b"foobar/1.2.3".to_vec()));
    assert_eq!(header(&r, "Content-Length"), Some("12"));
    assert_eq!(header(&r, "Content-Type"), Some("text/plain"));
    let none = user_agent_handler(&request_with("GET /user-agent HTTP/1.1", &[]), Fields::new());
    assert_eq!(none.body, Some(Vec::new()));
    assert_eq!(header(&none, "Content-Length"), Some("0"));
}

#[test]
fn parent_segment_is_rejected() {
    assert!(is_traversal(".."));
    assert!(is_traversal("../etc/passwd"));
    assert!(is_traversal("a/../b"));
    assert!(!is_traversal("a..b"));
    assert!(!is_traversal("notes.txt"));
    assert_eq!(file_target(&params(&[("filename", "../secret")])), None);
    assert_eq!(file_target(&params(&[("filename", "ok.txt")])), Some("ok.txt".to_string()));
    assert_eq!(file_target(&Fields::new()), None);
    let r = file_contents_response(Version::HTTP_11, None);
    assert_eq!(r.head.status_code, StatusCode::NOT_FOUND);
    assert_eq!(header(&r, "Content-Length"), Some("0"));
}

#[test]
fn file_responses() {
    let r = file_contents_response(Version::HTTP_11, Some(b"hi!".to_vec()));
    assert_eq!(r.head.status_code, StatusCode::OK);
    assert_eq!(header(&r, "Content-Length"), Some("3"));
    assert_eq!(header(&r, "Content-Type"), Some("application/octet-stream"));
    let created = file_written_response(Version::HTTP_11, true);
    assert_eq!(created.head.status_code, StatusCode::CREATED);
    assert_eq!(header(&created, "Content-Length"), Some("0"));
    assert_eq!(
        file_written_response(Version::HTTP_11, false).head.status_code,
        StatusCode::INTERNAL_SERVER_ERROR
    );
}

#[derive(Clone, Copy)]
enum Reply {
    Plain,
    Closing,
}

impl Handler for Reply {
    fn handle(&self, request: &Request, params: Fields) -> Response {
        let mut r = root_handler(request, params);
        if let Reply::Closing = self {
            r.head.headers.insert("Connection".to_string(), "Close".to_string());
        }
        r
    }
}

#[test]
fn keep_alive_serves_sequential_requests() {
    let mut router = Router::new();
    router.add_route("GET", "/a", Reply::Plain);
    router.add_route("GET", "/bye", Reply::Closing);
    let (first, s1) = serve(&router, &request_with("GET /a HTTP/1.1", &[]));
    assert_eq!(first.head.status_code, StatusCode::OK);
    assert_eq!(s1, ConnectionState::AwaitRequest);
    let (second, s2) = serve(&router, &request_with("GET /a HTTP/1.1", &[]));
    assert_eq!(second.head.status_code, StatusCode::OK);
    assert_eq!(s2, ConnectionState::AwaitRequest);
    let (last, s3) = serve(&router, &request_with("GET /bye HTTP/1.1", &[]));
    assert!(should_close(&last));
    assert_eq!(s3, ConnectionState::Closed);
    assert_eq!(on_transport_failure(), ConnectionState::Closed);
}

#[test]
fn connection_header_values() {
    let mut head = response::Parts::new(StatusCode::OK, Version::HTTP_11);
    head.headers.insert("Connection".to_string(), "keep-alive".to_string());
    let r = Response::new(head, None);
    assert!(!should_close(&r));
    assert_eq!(next_state(&r), ConnectionState::AwaitRequest);
    let mut head = response::Parts::new(StatusCode::OK, Version::HTTP_11);
    head.headers.insert("Connection".to_string(), "CLOSE".to_string());
    assert_eq!(next_state(&Response::new(head, None)), ConnectionState::Closed);
}

#[test]
fn library_endpoints_answer_through_the_router() {
    let mut router = Router::new();
    router.add_route("GET", "/", Endpoint::Root);
    router.add_route("GET", "/echo/:msg", Endpoint::Echo);
    router.add_route("GET", "/user-agent", Endpoint::UserAgent);
    let (echo, state) = serve(&router, &request_with("GET /echo/abc HTTP/1.1", &[]));
    assert_eq!(state, ConnectionState::AwaitRequest);
    assert_eq!(
        echo.to_http_headers_only(),
        "HTTP/1.1 200 OK\r\nContent-Type: text/plain\r\nContent-Length: 3\r\n\r\n"
    );
    assert_eq!(echo.body, Some(b"abc".to_vec()));
    let agent = router.route(&request_with("GET /user-agent HTTP/1.1", &[("User-Agent", "ua/1")]));
    assert_eq!(agent.body, Some(b"ua/1".to_vec()));
    let root = router.route(&request_with("GET / HTTP/1.1", &[]));
    assert_eq!(header(&root, "Content-Length"), Some("0"));
    let missing = router.route(&request_with("GET /nope HTTP/1.1", &[]));
    assert_eq!(
        missing.to_http_headers_only(),
        "HTTP/1.1 404 Not Found\r\nContent-Length: 9\r\n\r\n"
    );
}
