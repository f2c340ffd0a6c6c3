use vstd::prelude::*;
use crate::params::Entry;
use crate::pattern::{bindings, extract_params, matches_pattern, template_matches};
use crate::request::{HTTPRequest, RequestView};
use crate::response::{HTTPResponse, ResponseView, plain_response};

verus! {

/// A step run before a handler: it passes the request on, possibly changed, or
/// answers it at once. Its answer depends on the request alone.
pub trait Middleware {
    /// What the middleware does with a request; an implementation states it.
    closed spec fn outcome(&self, req: RequestView) -> Result<RequestView, ResponseView> {
        arbitrary()
    }

    fn call(&self, req: HTTPRequest) -> (r: Result<HTTPRequest, HTTPResponse>)
        ensures
            result_view(r) == self.outcome(req@),
    ;
}

/// The final step for a request: it always answers. Its answer depends on the request alone.
pub trait Handler {
    /// What the handler answers to a request; an implementation states it.
    closed spec fn answer(&self, req: RequestView) -> ResponseView {
        arbitrary()
    }

    fn handle(&self, req: HTTPRequest) -> (r: HTTPResponse)
        ensures
            r@ == self.answer(req@),
    ;
}

pub open spec fn result_view(r: Result<HTTPRequest, HTTPResponse>) -> Result<
    RequestView,
    ResponseView,
> {
    match r {
        Ok(q) => Ok(q@),
        Err(e) => Err(e@),
    }
}

/// Folds a chain of middleware over a request; the first answer stops it.
pub open spec fn run_chain<M: Middleware>(ms: Seq<M>, req: RequestView) -> Result<
    RequestView,
    ResponseView,
>
    decreases ms.len(),
{
    if ms.len() == 0 {
        Ok(req)
    } else {
        match run_chain(ms.drop_last(), req) {
            Ok(q) => ms.last().outcome(q),
            Err(e) => Err(e),
        }
    }
}

/// Once a prefix of a chain has answered, the whole chain gives that answer.
pub proof fn lemma_chain_answer_sticks<M: Middleware>(ms: Seq<M>, req: RequestView, k: int)
    requires
        0 <= k <= ms.len(),
        run_chain(ms.subrange(0, k), req) is Err,
    ensures
        run_chain(ms, req) == run_chain(ms.subrange(0, k), req),
    decreases ms.len() - k,
{
    if k < ms.len() {
        assert(ms.subrange(0, k + 1).drop_last() =~= ms.subrange(0, k));
        lemma_chain_answer_sticks(ms, req, k + 1);
    } else {
        assert(ms.subrange(0, k) =~= ms);
    }
}

/// Runs a chain of middleware, stopping at the first that answers.
pub fn apply_chain<M: Middleware>(ms: &Vec<M>, req: HTTPRequest) -> (r: Result<
    HTTPRequest,
    HTTPResponse,
>)
    ensures
        result_view(r) == run_chain(ms@, req@),
{
    let ghost start = req@;
    let mut cur = req;
    let mut i: usize = 0;
    assert(ms@.subrange(0, 0) =~= Seq::<M>::empty());
    while i < ms.len()
        invariant
            i <= ms.len(),
            start == req@,
            run_chain(ms@.subrange(0, i as int), start) == Ok::<RequestView, ResponseView>(cur@),
        decreases ms.len() - i,
    {
        assert(ms@.subrange(0, i + 1).drop_last() =~= ms@.subrange(0, i as int));
        assert(ms@.subrange(0, i + 1).last() == ms@[i as int]);
        let ghost before = cur@;
        let step = ms[i].call(cur);
        assert(run_chain(ms@.subrange(0, i + 1), start) == ms@[i as int].outcome(before));
        match step {
            Ok(next) => {
                cur = next;
            },
            Err(res) => {
                proof {
                    lemma_chain_answer_sticks(ms@, start, i + 1);
                }
                return Err(res);
            },
        }
        i = i + 1;
    }
    assert(ms@.subrange(0, i as int) =~= ms@);
    Ok(cur)
}

pub struct Route<H, M> {
    pub method: String,
    pub path: String,
    pub handler: H,
    pub middleware: Vec<M>,
}

/// A route answers with its middleware's answer, else with its handler's.
pub open spec fn route_answer<H: Handler, M: Middleware>(
    route: Route<H, M>,
    req: RequestView,
) -> ResponseView {
    match run_chain(route.middleware@, req) {
        Ok(q) => route.handler.answer(q),
        Err(e) => e,
    }
}

impl<H: Handler, M: Middleware> Route<H, M> {
    pub fn new(method: &str, path: &str, handler: H) -> (r: Route<H, M>)
        ensures
            r.method@ == method@,
            r.path@ == path@,
            r.handler == handler,
            r.middleware@ == Seq::<M>::empty(),
    {
        Route { method: method.to_owned(), path: path.to_owned(), handler, middleware: Vec::new() }
    }

    pub fn add_middleware(self, middleware: M) -> (r: Route<H, M>)
        ensures
            r.method == self.method,
            r.path == self.path,
            r.handler == self.handler,
            r.middleware@ == self.middleware@.push(middleware),
    {
        let mut r = self;
        r.middleware.push(middleware);
        r
    }

    pub fn handle_request(&self, request: HTTPRequest) -> (r: HTTPResponse)
        ensures
            r@ == route_answer(*self, request@),
    {
        match apply_chain(&self.middleware, request) {
            Ok(req) => self.handler.handle(req),
            Err(res) => res,
        }
    }

    /// Whether this route's template matches the path.
    pub fn matches_route_pattern(&self, path: &str) -> (r: bool)
        ensures
            r == template_matches(self.path@, path@),
    {
        matches_pattern(self.path.as_str(), path)
    }
}


/// The path relative to a router's prefix; the root prefix keeps every path.
pub open spec fn relative_path(prefix: Seq<char>, path: Seq<char>) -> Option<Seq<char>> {
    if prefix == "/"@ {
        Some(path)
    } else if prefix.len() <= path.len() && path.subrange(0, prefix.len() as int) == prefix {
        Some(path.subrange(prefix.len() as int, path.len() as int))
    } else {
        None
    }
}

/// The first route from index `i` on whose method and template fit.
pub open spec fn first_route<H, M>(
    routes: Seq<Route<H, M>>,
    method: Seq<char>,
    rel: Seq<char>,
    i: int,
) -> Option<int>
    decreases routes.len() - i,
{
    if i < 0 || i >= routes.len() {
        None
    } else if routes[i].method@ == method && template_matches(routes[i].path@, rel) {
        Some(i)
    } else {
        first_route(routes, method, rel, i + 1)
    }
}

/// The request with the route parameters that a template binds added.
pub open spec fn with_bindings(req: RequestView, template: Seq<char>, rel: Seq<char>) -> RequestView {
    RequestView { route_params: req.route_params + bindings(template, rel), ..req }
}

pub open spec fn prefix_miss() -> ResponseView {
    plain_response(404, "Route prefix not matched"@)
}

pub open spec fn route_miss() -> ResponseView {
    plain_response(404, "No matching route found"@)
}

/// What a router answers to a request.
pub open spec fn router_answer<H: Handler, M: Middleware>(
    router: Router<H, M>,
    req: RequestView,
) -> ResponseView {
    match relative_path(router.prefix@, req.route) {
        None => prefix_miss(),
        Some(rel) => match first_route(router.routes@, req.method, rel, 0) {
            None => route_miss(),
            Some(i) => match run_chain(
                router.middleware@,
                with_bindings(req, router.routes@[i].path@, rel),
            ) {
                Ok(q) => route_answer(router.routes@[i], q),
                Err(e) => e,
            },
        },
    }
}

/// `new` is `old` with one more route, built from these parts.
pub open spec fn route_added<H, M>(
    old: Router<H, M>,
    new: Router<H, M>,
    method: Seq<char>,
    path: Seq<char>,
    handler: H,
    middleware: Seq<M>,
) -> bool {
    &&& new.prefix == old.prefix
    &&& new.middleware == old.middleware
    &&& new.routes@.len() == old.routes@.len() + 1
    &&& forall|j: int| 0 <= j < old.routes@.len() ==> new.routes@[j] == old.routes@[j]
    &&& new.routes@.last().method@ == method
    &&& new.routes@.last().path@ == path
    &&& new.routes@.last().handler == handler
    &&& new.routes@.last().middleware@ == middleware
}

/// The path without `prefix`, where it starts with it.
fn strip_prefix_text(path: &str, prefix: &str) -> (r: Option<String>)
    ensures
        r matches Some(s) ==> prefix@.len() <= path@.len() && path@.subrange(
            0,
            prefix@.len() as int,
        ) == prefix@ && s@ == path@.subrange(prefix@.len() as int, path@.len() as int),
        r is None ==> !(prefix@.len() <= path@.len() && path@.subrange(0, prefix@.len() as int)
            == prefix@),
{
    let p = crate::text::chars_of(path);
    let q = crate::text::chars_of(prefix);
    if q.len() > p.len() {
        return None;
    }
    let mut k: usize = 0;
    while k < q.len()
        invariant
            k <= q.len() <= p.len(),
            p@ == path@,
            q@ == prefix@,
            forall|j: int| 0 <= j < k ==> p@[j] == q@[j],
        decreases q.len() - k,
    {
        if p[k] != q[k] {
            assert(p@.subrange(0, q.len() as int)[k as int] != q@[k as int]);
            return None;
        }
        k = k + 1;
    }
    assert(p@.subrange(0, q.len() as int) =~= q@);
    Some(crate::text::string_of(&crate::text::slice_chars(&p, q.len(), p.len())))
}

pub struct Router<H, M> {
    pub prefix: String,
    pub routes: Vec<Route<H, M>>,
    pub middleware: Vec<M>,
}

impl<H: Handler, M: Middleware> Router<H, M> {
    pub fn new(prefix: &str) -> (r: Router<H, M>)
        ensures
            r.prefix@ == prefix@,
            r.routes@ == Seq::<Route<H, M>>::empty(),
            r.middleware@ == Seq::<M>::empty(),
    {
        Router { prefix: prefix.to_owned(), routes: Vec::new(), middleware: Vec::new() }
    }

    pub fn add_middleware(self, middleware: M) -> (r: Router<H, M>)
        ensures
            r.prefix == self.prefix,
            r.routes == self.routes,
            r.middleware@ == self.middleware@.push(middleware),
    {
        let mut r = self;
        r.middleware.push(middleware);
        r
    }

    fn add_route(self, method: &str, path: &str, handler: H, middleware: Vec<M>) -> (r: Router<
        H,
        M,
    >)
        ensures
            route_added(self, r, method@, path@, handler, middleware@),
    {
        let mut route = Route::new(method, path, handler);
        route.middleware = middleware;
        let mut r = self;
        r.routes.push(route);
        r
    }

    pub fn get(self, path: &str, handler: H, middleware: Vec<M>) -> (r: Router<H, M>)
        ensures
            route_added(self, r, "GET"@, path@, handler, middleware@),
    {
        self.add_route("GET", path, handler, middleware)
    }

    pub fn post(self, path: &str, handler: H, middleware: Vec<M>) -> (r: Router<H, M>)
        ensures
            route_added(self, r, "POST"@, path@, handler, middleware@),
    {
        self.add_route("POST", path, handler, middleware)
    }

    pub fn put(self, path: &str, handler: H, middleware: Vec<M>) -> (r: Router<H, M>)
        ensures
            route_added(self, r, "PUT"@, path@, handler, middleware@),
    {
        self.add_route("PUT", path, handler, middleware)
    }

    pub fn patch(self, path: &str, handler: H, middleware: Vec<M>) -> (r: Router<H, M>)
        ensures
            route_added(self, r, "PATCH"@, path@, handler, middleware@),
    {
        self.add_route("PATCH", path, handler, middleware)
    }

    pub fn delete(self, path: &str, handler: H, middleware: Vec<M>) -> (r: Router<H, M>)
        ensures
            route_added(self, r, "DELETE"@, path@, handler, middleware@),
    {
        self.add_route("DELETE", path, handler, middleware)
    }

    /// Binds the route parameters of `pattern` against `actual_path` into the request.
    fn inject_route_params_from_path(
        &self,
        request: &mut HTTPRequest,
        pattern: &str,
        actual_path: &str,
    )
        ensures
            final(request)@ == with_bindings(old(request)@, pattern@, actual_path@),
    {
        extract_params(pattern, actual_path, &mut request.route_params);
        assert(request@ =~= with_bindings(old(request)@, pattern@, actual_path@));
    }

    pub fn handle_request(&self, request: HTTPRequest) -> (r: HTTPResponse)
        ensures
            r@ == router_answer(*self, request@),
    {
        let root = "/".to_owned();
        let rel = if self.prefix == root {
            request.route.clone()
        } else {
            match strip_prefix_text(request.route.as_str(), self.prefix.as_str()) {
                Some(p) => p,
                None => {
                    return HTTPResponse::not_found("Route prefix not matched");
                },
            }
        };
        let ghost rel_v = rel@;
        assert(relative_path(self.prefix@, request@.route) == Some(rel_v));
        let mut i: usize = 0;
        while i < self.routes.len()
            invariant
                i <= self.routes.len(),
                rel@ == rel_v,
                relative_path(self.prefix@, request@.route) == Some(rel_v),
                first_route(self.routes@, request@.method, rel_v, i as int) == first_route(
                    self.routes@,
                    request@.method,
                    rel_v,
                    0,
                ),
            decreases self.routes.len() - i,
        {
            let route = &self.routes[i];
            if request.method == route.method && route.matches_route_pattern(rel.as_str()) {
                let mut request = request;
                self.inject_route_params_from_path(&mut request, route.path.as_str(), rel.as_str());
                return match apply_chain(&self.middleware, request) {
                    Ok(q) => route.handle_request(q),
                    Err(res) => res,
                };
            }
            i = i + 1;
        }
        HTTPResponse::not_found("No matching route found")
    }
}

} // verus!
