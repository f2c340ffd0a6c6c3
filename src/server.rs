use vstd::prelude::*;
use crate::request::{HTTPRequest, ParseError, RequestView, parse_error, parse_view};
use crate::response::{HTTPResponse, ResponseView, plain_response, wire_of};
use crate::routing::{Handler, Middleware, Router, apply_chain, router_answer, run_chain};

verus! {

pub open spec fn no_router() -> ResponseView {
    plain_response(404, "No router matched this path"@)
}

/// Tries the routers from index `i` on; the first answer that is not 404 is final.
pub open spec fn fan_out<H: Handler, M: Middleware>(
    routers: Seq<Router<H, M>>,
    req: RequestView,
    i: int,
) -> ResponseView
    decreases routers.len() - i,
{
    if i < 0 || i >= routers.len() {
        no_router()
    } else if router_answer(routers[i], req).status != 404 {
        router_answer(routers[i], req)
    } else {
        fan_out(routers, req, i + 1)
    }
}

/// What the server answers to a parsed request.
pub open spec fn server_answer<H: Handler, M: Middleware>(
    server: HTTPServer<H, M>,
    req: RequestView,
) -> ResponseView {
    match run_chain(server.middleware@, req) {
        Ok(q) => fan_out(server.routers@, q, 0),
        Err(e) => e,
    }
}

/// The answer to a request that could not be parsed.
pub open spec fn bad_request(e: ParseError) -> ResponseView {
    plain_response(400, "Bad Request: "@ + e.text())
}

/// What the server answers to the raw text of a request.
pub open spec fn raw_answer<H: Handler, M: Middleware>(
    server: HTTPServer<H, M>,
    raw: Seq<char>,
) -> ResponseView {
    match parse_error(raw) {
        Some(e) => bad_request(e),
        None => server_answer(server, parse_view(raw)),
    }
}

/// What a connection does after a read.
pub enum Step {
    /// The peer closed the stream: stop.
    Close,
    /// Write these bytes, then read again.
    Reply(String),
}

pub struct HTTPServer<H, M> {
    pub addr: String,
    pub routers: Vec<Router<H, M>>,
    pub middleware: Vec<M>,
}

impl<H: Handler, M: Middleware> HTTPServer<H, M> {
    pub fn new(addr: &str) -> (r: HTTPServer<H, M>)
        ensures
            r.addr@ == addr@,
            r.routers@ == Seq::<Router<H, M>>::empty(),
            r.middleware@ == Seq::<M>::empty(),
    {
        HTTPServer { addr: addr.to_owned(), routers: Vec::new(), middleware: Vec::new() }
    }

    pub fn add_middleware(self, middleware: M) -> (r: HTTPServer<H, M>)
        ensures
            r.addr == self.addr,
            r.routers == self.routers,
            r.middleware@ == self.middleware@.push(middleware),
    {
        let mut r = self;
        r.middleware.push(middleware);
        r
    }

    pub fn add_router(self, router: Router<H, M>) -> (r: HTTPServer<H, M>)
        ensures
            r.addr == self.addr,
            r.middleware == self.middleware,
            r.routers@ == self.routers@.push(router),
    {
        let mut r = self;
        r.routers.push(router);
        r
    }

    /// Runs the connection-global middleware, then offers the request to each router in turn.
    pub fn handle_request(&self, request: HTTPRequest) -> (r: HTTPResponse)
        ensures
            r@ == server_answer(*self, request@),
    {
        let req = match apply_chain(&self.middleware, request) {
            Ok(q) => q,
            Err(res) => {
                return res;
            },
        };
        let mut i: usize = 0;
        while i < self.routers.len()
            invariant
                i <= self.routers.len(),
                run_chain(self.middleware@, request@) == Ok::<RequestView, ResponseView>(req@),
                fan_out(self.routers@, req@, i as int) == fan_out(self.routers@, req@, 0),
            decreases self.routers.len() - i,
        {
            let res = self.routers[i].handle_request(req.duplicate());
            if res.status != 404 {
                return res;
            }
            i = i + 1;
        }
        HTTPResponse::not_found("No router matched this path")
    }

    /// Parses the raw text of a request and answers it; text that does not parse gets a 400.
    pub fn process(&self, raw: &str) -> (r: HTTPResponse)
        ensures
            r@ == raw_answer(*self, raw@),
    {
        match HTTPRequest::new(raw) {
            Ok(request) => self.handle_request(request),
            Err(e) => {
                let text = "Bad Request: ".to_owned().concat(e.message().as_str());
                HTTPResponse::new(400, text.as_str())
            },
        }
    }

    /// The decision after a read of `n_bytes` bytes whose text is `text`: zero bytes
    /// closes the connection; anything else is answered, and the connection stays open.
    pub fn on_read(&self, n_bytes: usize, text: &str) -> (r: Step)
        ensures
            n_bytes == 0 ==> r is Close,
            n_bytes > 0 ==> (r matches Step::Reply(w) && w@ == wire_of(raw_answer(*self, text@))),
    {
        if n_bytes == 0 {
            Step::Close
        } else {
            Step::Reply(self.process(text).to_http_string())
        }
    }
}

/// Text that does not parse gets a 400 and the connection stays open; the next
/// request on it is answered as if it came first.
pub proof fn lemma_bad_request_keeps_connection<H: Handler, M: Middleware>(
    server: HTTPServer<H, M>,
    bad: Seq<char>,
    next: Seq<char>,
)
    requires
        parse_error(bad) is Some,
        parse_error(next) is None,
    ensures
        raw_answer(server, bad) == bad_request(parse_error(bad)->Some_0),
        raw_answer(server, bad).status == 400,
        raw_answer(server, next) == server_answer(server, parse_view(next)),
{
}

} // verus!
