use http_server::fields::Fields;
use http_server::handlers::{echo_handler, root_handler, user_agent_handler};
use http_server::request::{Parts, Request};
use http_server::response::Response;
use http_server::route::{Handler, Router};
use http_server::status::StatusCode;
use http_server::version::Version;

#[derive(Clone, Copy)]
enum Endpoint {
    Root,
    Echo,
    UserAgent,
    Named(u8),
}

impl Handler for Endpoint {
    fn handle(&self, request: &Request, params: Fields) -> Response {
        match self {
            Endpoint::Root => root_handler(request, params),
            Endpoint::Echo => echo_handler(request, params),
            Endpoint::UserAgent => user_agent_handler(request, params),
            Endpoint::Named(n) => {
                let head = http_server::response::Parts::new(StatusCode::OK, request.head.version);
                Response::new(head, Some(vec![*n]))
            }
        }
    }
}

fn request(line: &str) -> Request {
    Request::new(Parts::new(line.to_string()), None)
}

fn router() -> Router<Endpoint> {
    let mut r = Router::new();
    r.add_route("GET", "/", Endpoint::Root);
    r.add_route("GET", "/echo/:msg", Endpoint::Echo);
    r.add_route("GET", "/user-agent", Endpoint::UserAgent);
    r
}

#[test]
fn pattern_binds_parameter_by_position() {
    let params = Router::<Endpoint>::match_and_extract_params("/echo/hello", "/echo/:msg").unwrap();
    assert_eq!(params.len(), 1);
    assert_eq!(params.get("msg").map(|v| v.as_str()), Some("hello"));
}

#[test]
fn pattern_binds_several_parameters() {
    let params =
        Router::<Endpoint>::match_and_extract_params("/a/1/b/2/", "a/:x/b/:y").unwrap();
    assert_eq!(params.get("x").map(|v| v.as_str()), Some("1"));
    assert_eq!(params.get("y").map(|v| v.as_str()), Some("2"));
    let dup = Router::<Endpoint>::match_and_extract_params("/p/q", "/:n/:n").unwrap();
    assert_eq!(dup.len(), 1);
    assert_eq!(dup.get("n").map(|v| v.as_str()), Some("q"));
}

#[test]
fn pattern_rejects_other_shapes() {
    assert!(Router::<Endpoint>::match_and_extract_params("/echo", "/echo/:msg").is_none());
    assert!(Router::<Endpoint>::match_and_extract_params("/echo/a/b", "/echo/:msg").is_none());
    assert!(Router::<Endpoint>::match_and_extract_params("/ECHO/a", "/echo/:msg").is_none());
    let root = Router::<Endpoint>::match_and_extract_params("/", "/").unwrap();
    assert_eq!(root.len(), 0);
}

#[test]
fn route_reaches_echo_with_its_parameter() {
    let r = router().route(&request("GET /echo/hello HTTP/1.1"));
    assert_eq!(r.head.status_code, StatusCode::OK);
    assert_eq!(r.body, Some(b"hello".to_vec()));
    assert_eq!(r.head.headers.get("Content-Length").map(|v| v.as_str()), Some("5"));
}

#[test]
fn unknown_method_is_not_found() {
    let req = request("DELETE /echo/hello HTTP/1.1");
    let r = router().route(&req);
    assert_eq!(r.head.status_code, StatusCode::NOT_FOUND);
    assert_eq!(r.head.version, Version::HTTP_11);
    assert_eq!(r.body, Some(StatusCode::NOT_FOUND.reason_phrase().as_bytes().to_vec()));
    assert_eq!(r.body, Some(b"Not Found".to_vec()));
    assert_eq!(r.head.headers.len(), 1);
    assert_eq!(r.head.headers.get("Content-Length").map(|v| v.as_str()), Some("9"));
}

#[test]
fn unknown_path_and_malformed_line_are_not_found() {
    let r = router().route(&request("GET /nowhere HTTP/1.0"));
    assert_eq!(r.head.status_code, StatusCode::NOT_FOUND);
    assert_eq!(r.head.version, Version::HTTP_10);
    let bad = router().route(&request("garbage"));
    assert_eq!(bad.head.status_code, StatusCode::NOT_FOUND);
    assert_eq!(bad.head.version, Version::UNKNOWN);
}

#[test]
fn method_is_case_sensitive() {
    let r = router().route(&request("get / HTTP/1.1"));
    assert_eq!(r.head.status_code, StatusCode::NOT_FOUND);
}

#[test]
fn later_registration_replaces_handler() {
    let mut r = Router::new();
    r.add_route("GET", "/x", Endpoint::Named(1));
    r.add_route("GET", "/x", Endpoint::Named(2));
    let resp = r.route(&request("GET /x HTTP/1.1"));
    assert_eq!(resp.body, Some(vec![2]));
}

#[test]
fn first_registered_route_wins_a_collision() {
    let mut r = Router::new();
    r.add_route("GET", "/x/:p", Endpoint::Named(1));
    r.add_route("GET", "/x/y", Endpoint::Named(2));
    let resp = r.route(&request("GET /x/y HTTP/1.1"));
    assert_eq!(resp.body, Some(vec![1]));
    let (i, params) = r.find_route("GET", "/x/y").unwrap();
    assert_eq!(i, 0);
    assert_eq!(params.get("p").map(|v| v.as_str()), Some("y"));
}
