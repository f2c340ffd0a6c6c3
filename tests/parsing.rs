use http_server::number::parse_i32;
use http_server::pattern::{extract_params, matches_pattern};
use http_server::text::{split_chars, trim_chars, words_of};
use http_server::{HTTPRequest, HTTPResponse, Params, ParseError};

#[test]
fn parses_request_line_headers_and_body() {
    let req = HTTPRequest::new(
        "POST /api/users?x=1 HTTP/1.1\r\nHost:  example.com \r\nX-Key:a:b\r\nbroken\r\n\r\n{\"a\":1}",
    )
    .unwrap();
    assert_eq!(req.method, "POST");
    assert_eq!(req.route, "/api/users");
    assert_eq!(req.version, "HTTP/1.1");
    assert_eq!(req.get_header("Host"), Some("example.com".to_string()));
    assert_eq!(req.get_header("X-Key"), Some("a:b".to_string()));
    assert_eq!(req.get_header("host"), None);
    assert_eq!(req.headers.len(), 2);
    assert_eq!(req.raw_body(), "{\"a\":1}");
    assert_eq!(req.route_params.len(), 0);
}

#[test]
fn header_order_and_case_are_kept() {
    let req = HTTPRequest::new("GET / HTTP/1.1\r\nB: 2\r\nA: 1\r\nB: 3\r\n\r\n").unwrap();
    let keys: Vec<&str> = req.headers.entries.iter().map(|e| e.0.as_str()).collect();
    assert_eq!(keys, vec!["B", "A", "B"]);
    assert_eq!(req.get_header("B"), Some("3".to_string()));
}

#[test]
fn body_is_everything_after_the_first_blank_line() {
    let req = HTTPRequest::new("GET / HTTP/1.1\r\n\r\none\r\n\r\ntwo").unwrap();
    assert_eq!(req.raw_body(), "one\r\n\r\ntwo");
    let req = HTTPRequest::new("GET / HTTP/1.1").unwrap();
    assert_eq!(req.raw_body(), "");
}

#[test]
fn request_line_needs_three_tokens() {
    assert_eq!(HTTPRequest::new("GET /\r\n\r\n").unwrap_err(), ParseError::InvalidRequestLine);
    assert_eq!(
        HTTPRequest::new("GET / HTTP/1.1 extra\r\n\r\n").unwrap_err(),
        ParseError::InvalidRequestLine
    );
    assert_eq!(HTTPRequest::new("\r\n").unwrap_err(), ParseError::InvalidRequestLine);
    assert_eq!(
        HTTPRequest::new("GET ?a HTTP/1.1\r\n\r\n").unwrap_err(),
        ParseError::InvalidRequestLine
    );
    let req = HTTPRequest::new("  GET \t /  HTTP/1.1  ").unwrap();
    assert_eq!(req.method, "GET");
    assert_eq!(ParseError::EmptyRequest.message(), "Empty request");
}

#[test]
fn query_parameters_and_coercions() {
    let req =
        HTTPRequest::new("GET /s?page=2&bad&flag=true&n=-12&big=3000000000&x=&p=%20 HTTP/1.1")
            .unwrap();
    assert_eq!(req.route, "/s");
    assert_eq!(req.query("page", "1"), "2");
    assert_eq!(req.query("sort", "name"), "name");
    assert!(!req.has_query("bad"));
    assert!(req.has_query("x"));
    assert_eq!(req.query("x", "d"), "");
    assert_eq!(req.query("p", ""), "%20");
    assert_eq!(req.query_int("page", 1), 2);
    assert_eq!(req.query_int("n", 0), -12);
    assert_eq!(req.query_int("big", 7), 7);
    assert_eq!(req.query_int("flag", 7), 7);
    assert_eq!(req.query_int("missing", 9), 9);
    assert!(req.query_bool("flag", false));
    assert!(!req.query_bool("page", false));
    assert!(req.query_bool("missing", true));
}

#[test]
fn integer_edges() {
    assert_eq!(parse_i32("2147483647"), Some(2147483647));
    assert_eq!(parse_i32("-2147483648"), Some(-2147483648));
    assert_eq!(parse_i32("2147483648"), None);
    assert_eq!(parse_i32("+5"), Some(5));
    assert_eq!(parse_i32("-"), None);
    assert_eq!(parse_i32(""), None);
    assert_eq!(parse_i32("1a"), None);
}

#[test]
fn pattern_matching() {
    assert!(matches_pattern("/users/{id}", "/users/42"));
    assert!(!matches_pattern("/users/{id}", "/users/42/posts"));
    assert!(!matches_pattern("/users/{id}", "/users"));
    assert!(!matches_pattern("/users/{id}", "/users/"));
    assert!(!matches_pattern("/Users", "/users"));
    assert!(matches_pattern("/", "/"));
    assert!(matches_pattern("", ""));
}

#[test]
fn parameter_extraction() {
    let mut p = Params::new();
    extract_params("/users/{id}/posts/{post}", "/users/7/posts/x9", &mut p);
    assert_eq!(p.len(), 2);
    assert_eq!(p.get("id"), Some("7".to_string()));
    assert_eq!(p.get("post"), Some("x9".to_string()));
    assert_eq!(p.get("users"), None);
    let mut q = Params::new();
    extract_params("/a/b", "/a/b", &mut q);
    assert_eq!(q.len(), 0);
}

#[test]
fn response_wire_format() {
    let res = HTTPResponse::new(503, "down").with_header("Retry-After", "5");
    assert_eq!(
        res.to_http_string(),
        "HTTP/1.1 503 Service Unavailable\r\nRetry-After: 5\r\n\r\ndown"
    );
    let res = HTTPResponse::ok("").with_html_body("<h1>x</h1>");
    assert_eq!(
        res.to_http_string(),
        "HTTP/1.1 200 OK\r\nContent-Type: text/html\r\n\r\n<h1>x</h1>"
    );
    let res = HTTPResponse::json(201, "{}");
    assert_eq!(
        res.to_http_string(),
        "HTTP/1.1 201 Created\r\nContent-Type: application/json\r\n\r\n{}"
    );
    assert_eq!(HTTPResponse::not_found("n").to_http_string(), "HTTP/1.1 404 Not Found\r\n\r\nn");
    assert_eq!(HTTPResponse::new(299, "").to_http_string(), "HTTP/1.1 299 Unknown\r\n\r\n");
}

fn chars(s: &str) -> Vec<char> {
    s.chars().collect()
}

fn text(v: &Vec<char>) -> String {
    v.iter().collect()
}

#[test]
fn text_helpers() {
    let parts: Vec<String> = split_chars(&chars("a&&b&"), &chars("&")).iter().map(text).collect();
    assert_eq!(parts, vec!["a", "", "b", ""]);
    assert_eq!(text(&trim_chars(&chars(" \t x y \u{3000}"))), "x y");
    let w: Vec<String> = words_of(&chars("  a  bc\td ")).iter().map(text).collect();
    assert_eq!(w, vec!["a", "bc", "d"]);
}

#[test]
fn written_request_parses_back() {
    let text = "PATCH /a/b?q=1 HTTP/1.1\r\nAccept: text/plain\r\nX-Trace: a:b:c\r\nEmpty: \r\n\r\npayload";
    let req = HTTPRequest::new(text).unwrap();
    assert_eq!(req.method, "PATCH");
    assert_eq!(req.route, "/a/b");
    assert_eq!(req.version, "HTTP/1.1");
    let pairs: Vec<(String, String)> = req.headers.entries.clone();
    assert_eq!(
        pairs,
        vec![
            ("Accept".to_string(), "text/plain".to_string()),
            ("X-Trace".to_string(), "a:b:c".to_string()),
            ("Empty".to_string(), "".to_string()),
        ]
    );
    assert_eq!(req.query("q", ""), "1");
    let copy = req.duplicate();
    assert_eq!(copy.raw_body(), "payload");
    assert_eq!(copy.headers.len(), 3);
}
