use http_server::server::Step;
use http_server::{
    AdminCheck, ApiKeyCheck, HTTPRequest, HTTPResponse, HTTPServer, Handler, Middleware, Router,
};

#[derive(Clone, Copy, Debug)]
enum Check {
    Pass,
    ApiKey,
    Admin,
    Deny,
    Forbidden,
}

impl Middleware for Check {
    fn call(&self, req: HTTPRequest) -> Result<HTTPRequest, HTTPResponse> {
        match self {
            Check::Pass => Ok(req),
            Check::ApiKey => ApiKeyCheck.call(req),
            Check::Admin => AdminCheck.call(req),
            Check::Deny => Err(HTTPResponse::new(503, "Service under maintenance")),
            Check::Forbidden => panic!("this middleware must not run"),
        }
    }
}

#[derive(Clone, Copy, Debug)]
enum Page {
    Text(&'static str),
    ListUsers,
    UserId,
    Missing,
    Forbidden,
}

impl Handler for Page {
    fn handle(&self, req: HTTPRequest) -> HTTPResponse {
        match self {
            Page::Text(t) => HTTPResponse::ok(t),
            Page::ListUsers => {
                let page = req.query_int("page", 1);
                let limit = req.query_int("limit", 10);
                HTTPResponse::ok_json(&format!("{{\"page\":{},\"limit\":{}}}", page, limit))
            }
            Page::UserId => HTTPResponse::ok(&req.param("id", "0")),
            Page::Missing => HTTPResponse::not_found("user not found"),
            Page::Forbidden => panic!("this handler must not run"),
        }
    }
}

fn demo_server() -> HTTPServer<Page, Check> {
    let public = Router::new("/")
        .get("/", Page::Text("home"), vec![])
        .get("/about", Page::Text("about"), vec![]);
    let api = Router::new("/api")
        .add_middleware(Check::ApiKey)
        .get("/users", Page::ListUsers, vec![])
        .get("/users/{id}", Page::UserId, vec![])
        .delete("/users/{id}", Page::Forbidden, vec![Check::Admin, Check::Forbidden]);
    HTTPServer::new("127.0.0.1:0")
        .add_middleware(Check::Pass)
        .add_middleware(Check::Pass)
        .add_router(public)
        .add_router(api)
}

#[test]
fn list_users_with_api_key() {
    let server = demo_server();
    let res = server.process("GET /api/users?page=2&limit=5 HTTP/1.1\r\nX-API-Key: abc\r\n\r\n");
    assert_eq!(res.status, 200);
    assert_eq!(res.body, "{\"page\":2,\"limit\":5}");
    assert_eq!(res.headers.get("Content-Type"), Some("application/json".to_string()));
}

#[test]
fn list_users_without_api_key() {
    let server = demo_server();
    let res = server.process("GET /api/users?page=2&limit=5 HTTP/1.1\r\n\r\n");
    assert_eq!(res.status, 401);
    assert_eq!(res.body, "API key required");
}

#[test]
fn delete_user_with_wrong_admin_key() {
    let server = demo_server();
    let res = server.process(
        "DELETE /api/users/42 HTTP/1.1\r\nX-API-Key: abc\r\nX-Admin-Key: wrong\r\n\r\n",
    );
    assert_eq!(res.status, 403);
    assert_eq!(res.body, "Admin access required");
}

#[test]
fn garbage_gets_bad_request_and_next_request_works() {
    let server = demo_server();
    let bad = server.process("garbage\r\n\r\n");
    assert_eq!(bad.status, 400);
    assert_eq!(bad.body, "Bad Request: Invalid request line format");
    let good = server.process("GET /about HTTP/1.1\r\n\r\n");
    assert_eq!(good.status, 200);
    assert_eq!(good.body, "about");
}

#[test]
fn empty_request_is_rejected() {
    assert_eq!(HTTPRequest::new("").unwrap_err(), http_server::ParseError::EmptyRequest);
    let server = demo_server();
    let res = server.process("\r\n\r\nbody");
    assert_eq!(res.status, 400);
    assert_eq!(res.body, "Bad Request: Empty request");
}

#[test]
fn route_parameter_reaches_handler() {
    let server = demo_server();
    let res = server.process("GET /api/users/42 HTTP/1.1\r\nX-API-Key: k\r\n\r\n");
    assert_eq!(res.status, 200);
    assert_eq!(res.body, "42");
}

#[test]
fn global_middleware_short_circuits_before_routing() {
    let server = HTTPServer::new("x")
        .add_middleware(Check::Pass)
        .add_middleware(Check::Deny)
        .add_middleware(Check::Forbidden)
        .add_router(Router::new("/").get("/", Page::Forbidden, vec![]));
    let res = server.process("GET / HTTP/1.1\r\n\r\n");
    assert_eq!(res.status, 503);
    assert_eq!(res.body, "Service under maintenance");
}

#[test]
fn fan_out_passes_over_a_router_that_misses() {
    let a: Router<Page, Check> = Router::new("/").get("/other", Page::Forbidden, vec![]);
    let b = Router::new("/").get("/p", Page::Text("from b"), vec![]);
    let server = HTTPServer::new("x").add_router(a).add_router(b);
    let res = server.process("GET /p HTTP/1.1\r\n\r\n");
    assert_eq!(res.status, 200);
    assert_eq!(res.body, "from b");
}

#[test]
fn handler_404_is_taken_as_a_miss() {
    let a = Router::new("/").get("/p", Page::Missing, vec![]);
    let server: HTTPServer<Page, Check> = HTTPServer::new("x").add_router(a);
    let res = server.process("GET /p HTTP/1.1\r\n\r\n");
    assert_eq!(res.status, 404);
    assert_eq!(res.body, "No router matched this path");
}

#[test]
fn no_routers_gives_generic_404() {
    let server: HTTPServer<Page, Check> = HTTPServer::new("x");
    let res = server.process("GET / HTTP/1.1\r\n\r\n");
    assert_eq!(res.status, 404);
    assert_eq!(res.body, "No router matched this path");
}

#[test]
fn router_prefix_miss_and_route_miss() {
    let r: Router<Page, Check> = Router::new("/api").get("/users", Page::Text("u"), vec![]);
    let req = HTTPRequest::new("GET /web/users HTTP/1.1\r\n\r\n").unwrap();
    let res = r.handle_request(req);
    assert_eq!(res.status, 404);
    assert_eq!(res.body, "Route prefix not matched");
    let req = HTTPRequest::new("POST /api/users HTTP/1.1\r\n\r\n").unwrap();
    let res = r.handle_request(req);
    assert_eq!(res.status, 404);
    assert_eq!(res.body, "No matching route found");
}

#[test]
fn first_registered_route_wins() {
    let r: Router<Page, Check> = Router::new("/")
        .get("/users/{id}", Page::Text("first"), vec![])
        .get("/users/me", Page::Text("second"), vec![]);
    let req = HTTPRequest::new("GET /users/me HTTP/1.1\r\n\r\n").unwrap();
    assert_eq!(r.handle_request(req).body, "first");
}

#[test]
fn route_chain_stops_at_first_answer() {
    let route = http_server::Route::new("GET", "/", Page::Forbidden)
        .add_middleware(Check::Pass)
        .add_middleware(Check::Deny)
        .add_middleware(Check::Forbidden);
    let req = HTTPRequest::new("GET / HTTP/1.1\r\n\r\n").unwrap();
    let res = route.handle_request(req);
    assert_eq!(res.status, 503);
}

#[test]
fn api_key_check_needs_a_non_empty_key() {
    let ok = HTTPRequest::new("GET / HTTP/1.1\r\nX-API-Key: abc\r\n\r\n").unwrap();
    assert!(ApiKeyCheck.call(ok).is_ok());
    let empty = HTTPRequest::new("GET / HTTP/1.1\r\nX-API-Key:\r\n\r\n").unwrap();
    let res = ApiKeyCheck.call(empty).unwrap_err();
    assert_eq!(res.status, 401);
    assert_eq!(res.body, "API key required");
    let lower = HTTPRequest::new("GET / HTTP/1.1\r\nx-api-key: abc\r\n\r\n").unwrap();
    assert_eq!(ApiKeyCheck.call(lower).unwrap_err().status, 401);
}

#[test]
fn admin_check_needs_the_exact_key() {
    let ok = HTTPRequest::new("GET / HTTP/1.1\r\nX-Admin-Key: supersecret\r\n\r\n").unwrap();
    assert!(AdminCheck.call(ok).is_ok());
    let wrong = HTTPRequest::new("GET / HTTP/1.1\r\nX-Admin-Key: wrong\r\n\r\n").unwrap();
    let res = AdminCheck.call(wrong).unwrap_err();
    assert_eq!(res.status, 403);
    assert_eq!(res.body, "Admin access required");
    let none = HTTPRequest::new("GET / HTTP/1.1\r\n\r\n").unwrap();
    assert_eq!(AdminCheck.call(none).unwrap_err().status, 403);
}

#[test]
fn connection_answers_garbage_then_serves_next_request() {
    let server = demo_server();
    match server.on_read(11, "garbage\r\n\r\n") {
        Step::Reply(w) => assert_eq!(
            w,
            "HTTP/1.1 400 Bad Request\r\n\r\nBad Request: Invalid request line format"
        ),
        Step::Close => panic!("connection closed after a bad request"),
    }
    match server.on_read(23, "GET /about HTTP/1.1\r\n\r\n") {
        Step::Reply(w) => assert_eq!(w, "HTTP/1.1 200 OK\r\n\r\nabout"),
        Step::Close => panic!("connection closed"),
    }
    assert!(matches!(server.on_read(0, ""), Step::Close));
}
