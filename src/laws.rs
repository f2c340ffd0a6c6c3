use vstd::prelude::*;
use crate::checks::{ApiKeyCheck, admin_outcome};
use crate::params::{Entry, lookup};
use crate::response::plain_response;
use crate::routing::{first_route, relative_path, with_bindings};
use crate::pattern::{
    bindings, bindings_upto, is_placeholder, placeholder_name, slash, template_matches,
};
use crate::request::RequestView;
use crate::response::ResponseView;
use crate::routing::{
    Handler, Middleware, Route, Router, lemma_chain_answer_sticks, route_answer, router_answer,
    run_chain,
};
use crate::server::fan_out;
use crate::text::split;

verus! {

/// A template never matches a path with another number of segments.
pub proof fn lemma_segment_count_decides(template: Seq<char>, path: Seq<char>)
    requires
        split(template, slash()).len() != split(path, slash()).len(),
    ensures
        !template_matches(template, path),
{
}

/// Entry `e` is the binding that template segment `i` makes.
pub open spec fn binding_of(t: Seq<Seq<char>>, a: Seq<Seq<char>>, i: int, e: Entry) -> bool {
    0 <= i < t.len() && is_placeholder(t[i]) && e == (placeholder_name(t[i]), a[i])
}

proof fn lemma_bindings_upto_exact(t: Seq<Seq<char>>, a: Seq<Seq<char>>, n: int) -> (pos: Seq<
    int,
>)
    requires
        0 <= n <= t.len(),
        n <= a.len(),
    ensures
        forall|i: int|
            0 <= i < n && is_placeholder(t[i]) ==> exists|j: int|
                0 <= j < bindings_upto(t, a, n).len() && #[trigger] binding_of(
                    t,
                    a,
                    i,
                    bindings_upto(t, a, n)[j],
                ),
        pos.len() == bindings_upto(t, a, n).len(),
        forall|j: int|
            0 <= j < pos.len() ==> 0 <= #[trigger] pos[j] < n && binding_of(
                t,
                a,
                pos[j],
                bindings_upto(t, a, n)[j],
            ),
    decreases n,
{
    if n > 0 {
        let prev_pos = lemma_bindings_upto_exact(t, a, n - 1);
        let prev = bindings_upto(t, a, n - 1);
        let cur = bindings_upto(t, a, n);
        assert(cur.subrange(0, prev.len() as int) =~= prev);
        assert forall|i: int| 0 <= i < n && is_placeholder(t[i]) implies exists|j: int|
            0 <= j < cur.len() && #[trigger] binding_of(t, a, i, cur[j]) by {
            if i < n - 1 {
                let j = choose|j: int| 0 <= j < prev.len() && #[trigger] binding_of(t, a, i, prev[j]);
                assert(cur[j] == prev[j]);
                assert(binding_of(t, a, i, cur[j]));
            } else {
                assert(binding_of(t, a, i, cur[prev.len() as int]));
            }
        }
        let pos = if is_placeholder(t[n - 1]) {
            prev_pos.push(n - 1)
        } else {
            prev_pos
        };
        assert forall|j: int| 0 <= j < pos.len() implies 0 <= #[trigger] pos[j] < n && binding_of(
            t,
            a,
            pos[j],
            cur[j],
        ) by {
            if j < prev.len() {
                assert(cur[j] == prev[j]);
                assert(pos[j] == prev_pos[j]);
            }
        }
        pos
    } else {
        Seq::empty()
    }
}

/// Where a template matches a path, the bindings hold the name of every `{name}`
/// segment with the path segment at its place, and nothing else: `pos` gives, for
/// each binding, the template segment that made it.
pub proof fn lemma_bindings_exact(template: Seq<char>, path: Seq<char>) -> (pos: Seq<int>)
    requires
        template_matches(template, path),
    ensures
        ({
            let t = split(template, slash());
            let a = split(path, slash());
            let b = bindings(template, path);
            &&& forall|i: int|
                0 <= i < t.len() && is_placeholder(t[i]) ==> exists|j: int|
                    0 <= j < b.len() && #[trigger] binding_of(t, a, i, b[j])
            &&& pos.len() == b.len()
            &&& forall|j: int|
                0 <= j < b.len() ==> 0 <= #[trigger] pos[j] < t.len() && binding_of(
                    t,
                    a,
                    pos[j],
                    b[j],
                )
        }),
{
    let t = split(template, slash());
    let a = split(path, slash());
    assert(bindings(template, path) == bindings_upto(t, a, t.len() as int));
    lemma_bindings_upto_exact(t, a, t.len() as int)
}

/// When middleware `k` of a chain answers, that answer is the chain's, whatever
/// middleware follow it; a route with that chain answers with it, not with its handler.
pub proof fn lemma_short_circuit<H: Handler, M: Middleware>(
    route: Route<H, M>,
    req: RequestView,
    k: int,
    answer: ResponseView,
)
    requires
        0 <= k < route.middleware@.len(),
        run_chain(route.middleware@.take(k), req) is Ok,
        route.middleware@[k].outcome(run_chain(route.middleware@.take(k), req)->Ok_0) == Err::<
            RequestView,
            ResponseView,
        >(answer),
    ensures
        run_chain(route.middleware@, req) == Err::<RequestView, ResponseView>(answer),
        forall|rest: Seq<M>|
            #[trigger] run_chain(route.middleware@.take(k + 1) + rest, req) == Err::<
                RequestView,
                ResponseView,
            >(answer),
        route_answer(route, req) == answer,
{
    let ms = route.middleware@;
    assert(ms.take(k + 1).drop_last() =~= ms.take(k));
    assert(ms.subrange(0, k + 1) =~= ms.take(k + 1));
    lemma_chain_answer_sticks(ms, req, k + 1);
    assert forall|rest: Seq<M>|
        #[trigger] run_chain(ms.take(k + 1) + rest, req) == Err::<RequestView, ResponseView>(answer) by {
        let whole = ms.take(k + 1) + rest;
        assert(whole.subrange(0, k + 1) =~= ms.take(k + 1));
        lemma_chain_answer_sticks(whole, req, k + 1);
    }
}

/// Routers that answer 404 are passed over: the first router that answers
/// otherwise gives the final answer.
pub proof fn lemma_fan_out_passes_misses<H: Handler, M: Middleware>(
    routers: Seq<Router<H, M>>,
    req: RequestView,
    i: int,
)
    requires
        0 <= i < routers.len(),
        forall|j: int| 0 <= j < i ==> router_answer(routers[j], req).status == 404,
        router_answer(routers[i], req).status != 404,
    ensures
        fan_out(routers, req, 0) == router_answer(routers[i], req),
{
    lemma_fan_out_from(routers, req, 0, i);
}

proof fn lemma_fan_out_from<H: Handler, M: Middleware>(
    routers: Seq<Router<H, M>>,
    req: RequestView,
    s: int,
    i: int,
)
    requires
        0 <= s <= i < routers.len(),
        forall|j: int| 0 <= j < i ==> router_answer(routers[j], req).status == 404,
        router_answer(routers[i], req).status != 404,
    ensures
        fan_out(routers, req, s) == router_answer(routers[i], req),
    decreases i - s,
{
    if s < i {
        lemma_fan_out_from(routers, req, s + 1, i);
    }
}

/// A router guarded by the API-key check answers 401 to a request without that
/// header, whatever route it selects: no handler runs.
pub proof fn lemma_missing_api_key<H: Handler>(router: Router<H, ApiKeyCheck>, req: RequestView)
    requires
        router.middleware@ == seq![ApiKeyCheck],
        relative_path(router.prefix@, req.route) is Some,
        first_route(router.routes@, req.method, relative_path(router.prefix@, req.route)->Some_0, 0) is Some,
        lookup(req.headers, "X-API-Key"@) is None,
    ensures
        router_answer(router, req) == plain_response(401, "API key required"@),
{
    let rel = relative_path(router.prefix@, req.route)->Some_0;
    let i = first_route(router.routes@, req.method, rel, 0)->Some_0;
    let q = with_bindings(req, router.routes@[i].path@, rel);
    let ms = router.middleware@;
    assert(ms.drop_last() =~= Seq::<ApiKeyCheck>::empty());
    assert(run_chain(ms.drop_last(), q) == Ok::<RequestView, ResponseView>(q));
    assert(q.headers == req.headers);
    assert(run_chain(ms, q) == ms.last().outcome(q));
}

/// A route whose first middleware is the admin check answers 403 to a request
/// without the right admin key, whatever middleware follow and whatever its handler.
pub proof fn lemma_wrong_admin_key<H: Handler, M: Middleware>(route: Route<H, M>, req: RequestView)
    requires
        route.middleware@.len() >= 1,
        route.middleware@[0].outcome(req) == admin_outcome(req),
        lookup(req.headers, "X-Admin-Key"@) != Some("supersecret"@),
    ensures
        route_answer(route, req) == plain_response(403, "Admin access required"@),
{
    let ms = route.middleware@;
    assert(ms.take(0) =~= Seq::<M>::empty());
    lemma_short_circuit(route, req, 0, plain_response(403, "Admin access required"@));
}

} // verus!
