//! The route table: registration of the diagnostic route, the handler
//! that serves it, and dispatch of a request to the matching handler.

use crate::body::{build_test_body, lemma_body_equal_iff_timestamp_equal, test_body};
use crate::clock::now_rfc3339;
use crate::response::{
    is_test_success, method_not_allowed, method_not_allowed_view, not_found, not_found_view,
    Response, ResponseView,
};
use crate::rfc3339::is_rfc3339;
use vstd::prelude::*;

verus! {

/// An HTTP request method.
#[derive(PartialEq, Eq, Structural, Clone, Copy, Debug)]
pub enum Method {
    Get,
    Post,
    Put,
    Delete,
    Head,
    Options,
    Patch,
}

/// The handlers this library offers; the route table maps routes to them.
#[derive(PartialEq, Eq, Structural, Clone, Copy, Debug)]
pub enum Handler {
    TestEndpoint,
}

/// A route: a method and a path, mapped to a handler.
pub struct Route {
    pub method: Method,
    pub path: String,
    pub handler: Handler,
}

/// The mathematical value of a `Route`.
#[verifier::ext_equal]
pub ghost struct RouteView {
    pub method: Method,
    pub path: Seq<char>,
    pub handler: Handler,
}

impl View for Route {
    type V = RouteView;

    open spec fn view(&self) -> RouteView {
        RouteView { method: self.method, path: self.path@, handler: self.handler }
    }
}

/// The route table: routes in the order of their registration.
pub struct RouteTable {
    pub routes: Vec<Route>,
}

impl View for RouteTable {
    type V = Seq<RouteView>;

    open spec fn view(&self) -> Seq<RouteView> {
        self.routes@.map_values(|r: Route| r@)
    }
}

/// What dispatch finds for a method and a path: a handler, a route whose
/// path matches but whose method does not, or nothing.
pub ghost enum Lookup {
    Found(Handler),
    WrongMethod,
    NotFound,
}

/// Walks the routes in order.  A route matching method and path yields
/// its handler; failing that, a route matching the path alone makes the
/// method the fault; failing that, the path is unknown.
pub open spec fn lookup(routes: Seq<RouteView>, m: Method, p: Seq<char>) -> Lookup
    decreases routes.len(),
{
    if routes.len() == 0 {
        Lookup::NotFound
    } else {
        let r0 = routes[0];
        let rest = lookup(routes.drop_first(), m, p);
        if r0.path == p && r0.method == m {
            Lookup::Found(r0.handler)
        } else if r0.path == p {
            match rest {
                Lookup::Found(h) => Lookup::Found(h),
                _ => Lookup::WrongMethod,
            }
        } else {
            rest
        }
    }
}

/// The one route this library registers: `GET /test`, served by the
/// diagnostic handler.
pub open spec fn test_route_view() -> RouteView {
    RouteView { method: Method::Get, path: "/test"@, handler: Handler::TestEndpoint }
}

impl RouteTable {
    /// An empty route table.
    pub fn new() -> (t: RouteTable)
        ensures
            t@ == Seq::<RouteView>::empty(),
    {
        let t = RouteTable { routes: Vec::new() };
        proof {
            assert(t@ =~= Seq::<RouteView>::empty());
        }
        t
    }
}

/// Registers the diagnostic route, `GET /test`, behind any routes the
/// table already holds.
pub fn configure_test_routes(cfg: &mut RouteTable)
    ensures
        final(cfg)@ == old(cfg)@.push(test_route_view()),
{
    let route = Route {
        method: Method::Get,
        path: String::from_str("/test"),
        handler: Handler::TestEndpoint,
    };
    cfg.routes.push(route);
    proof {
        assert(cfg@ =~= old(cfg)@.push(test_route_view()));
    }
}

/// Serves the diagnostic route for a request handled at `timestamp`:
/// status 200, JSON content type, and the fixed body around that
/// timestamp.
pub fn handle_test(timestamp: String) -> (r: Response)
    requires
        is_rfc3339(timestamp@),
    ensures
        r@.status == 200,
        r@.content_type == "application/json"@,
        r@.body == test_body(timestamp@),
        is_test_success(r@),
{
    let body = build_test_body(timestamp.as_str());
    Response { status: 200, content_type: String::from_str("application/json"), body }
}

/// Serves the diagnostic route: reads the clock once and answers with
/// status 200, JSON content type, and the fixed body around the current
/// RFC 3339 timestamp.
pub fn test_endpoint() -> (r: Response)
    ensures
        is_test_success(r@),
{
    let timestamp = now_rfc3339();
    handle_test(timestamp)
}

/// A full match at `i`, with none before it, makes lookup find that
/// route's handler.
proof fn lemma_lookup_found(v: Seq<RouteView>, m: Method, p: Seq<char>, i: int)
    requires
        0 <= i < v.len(),
        v[i].path == p,
        v[i].method == m,
        forall|k: int| 0 <= k < i ==> !((#[trigger] v[k]).path == p && v[k].method == m),
    ensures
        lookup(v, m, p) == Lookup::Found(v[i].handler),
    decreases i,
{
    if i > 0 {
        let rest = v.drop_first();
        assert forall|k: int| 0 <= k < i - 1 implies !((#[trigger] rest[k]).path == p
            && rest[k].method == m) by {
            assert(rest[k] == v[k + 1]);
        }
        assert(rest[i - 1] == v[i]);
        lemma_lookup_found(rest, m, p, i - 1);
    }
}

/// Without a full match anywhere, lookup never finds a handler.
proof fn lemma_lookup_no_full(v: Seq<RouteView>, m: Method, p: Seq<char>)
    requires
        forall|k: int| 0 <= k < v.len() ==> !((#[trigger] v[k]).path == p && v[k].method == m),
    ensures
        !(lookup(v, m, p) is Found),
    decreases v.len(),
{
    if v.len() > 0 {
        let rest = v.drop_first();
        assert forall|k: int| 0 <= k < rest.len() implies !((#[trigger] rest[k]).path == p
            && rest[k].method == m) by {
            assert(rest[k] == v[k + 1]);
        }
        lemma_lookup_no_full(rest, m, p);
    }
}

/// A path match without any full match makes the method the fault.
proof fn lemma_lookup_wrong_method(v: Seq<RouteView>, m: Method, p: Seq<char>)
    requires
        forall|k: int| 0 <= k < v.len() ==> !((#[trigger] v[k]).path == p && v[k].method == m),
        exists|k: int| 0 <= k < v.len() && (#[trigger] v[k]).path == p,
    ensures
        lookup(v, m, p) == Lookup::WrongMethod,
    decreases v.len(),
{
    let rest = v.drop_first();
    assert forall|k: int| 0 <= k < rest.len() implies !((#[trigger] rest[k]).path == p
        && rest[k].method == m) by {
        assert(rest[k] == v[k + 1]);
    }
    if v[0].path == p {
        lemma_lookup_no_full(rest, m, p);
    } else {
        let k = choose|k: int| 0 <= k < v.len() && (#[trigger] v[k]).path == p;
        assert(rest[k - 1] == v[k]);
        lemma_lookup_wrong_method(rest, m, p);
    }
}

/// Without even a path match, the path is unknown.
proof fn lemma_lookup_not_found(v: Seq<RouteView>, m: Method, p: Seq<char>)
    requires
        forall|k: int| 0 <= k < v.len() ==> (#[trigger] v[k]).path != p,
    ensures
        lookup(v, m, p) == Lookup::NotFound,
    decreases v.len(),
{
    if v.len() > 0 {
        let rest = v.drop_first();
        assert forall|k: int| 0 <= k < rest.len() implies (#[trigger] rest[k]).path != p by {
            assert(rest[k] == v[k + 1]);
        }
        lemma_lookup_not_found(rest, m, p);
    }
}

impl RouteTable {
    /// Dispatches a request to the route table: a full match runs its
    /// handler; a path whose routes all ask another method gets the
    /// default method-not-allowed response; an unknown path gets the
    /// default not-found response.
    pub fn dispatch(&self, method: Method, path: &str) -> (r: Response)
        ensures
            match lookup(self@, method, path@) {
                Lookup::Found(h) => h == Handler::TestEndpoint && is_test_success(r@),
                Lookup::WrongMethod => r@ == method_not_allowed_view(),
                Lookup::NotFound => r@ == not_found_view(),
            },
    {
        let p = String::from_str(path);
        let n = self.routes.len();
        let mut i: usize = 0;
        let mut saw_path: bool = false;
        while i < n
            invariant
                0 <= i <= n,
                n == self.routes.len(),
                p@ == path@,
                forall|k: int|
                    0 <= k < i ==> !((#[trigger] self@[k]).path == path@ && self@[k].method
                        == method),
                saw_path == exists|k: int| 0 <= k < i && (#[trigger] self@[k]).path == path@,
            decreases n - i,
        {
            let route = &self.routes[i];
            if route.path.eq(&p) {
                if route.method == method {
                    match route.handler {
                        Handler::TestEndpoint => {
                            proof {
                                lemma_lookup_found(self@, method, path@, i as int);
                            }
                            return test_endpoint();
                        },
                    }
                }
                saw_path = true;
            }
            i += 1;
        }
        if saw_path {
            proof {
                lemma_lookup_wrong_method(self@, method, path@);
            }
            method_not_allowed()
        } else {
            proof {
                lemma_lookup_not_found(self@, method, path@);
            }
            not_found()
        }
    }
}

/// Method restriction: in a table holding exactly the diagnostic route,
/// any method but GET on `/test` is a method fault, never a handler.
pub proof fn lemma_method_restriction(routes: Seq<RouteView>, m: Method)
    requires
        routes == Seq::<RouteView>::empty().push(test_route_view()),
        m != Method::Get,
    ensures
        lookup(routes, m, "/test"@) == Lookup::WrongMethod,
{
    assert(routes.drop_first() =~= Seq::<RouteView>::empty());
    assert(lookup(Seq::<RouteView>::empty(), m, "/test"@) == Lookup::NotFound);
}

/// In a table holding exactly the diagnostic route, GET on `/test`
/// finds the diagnostic handler.
pub proof fn lemma_test_route_found(routes: Seq<RouteView>)
    requires
        routes == Seq::<RouteView>::empty().push(test_route_view()),
    ensures
        lookup(routes, Method::Get, "/test"@) == Lookup::Found(Handler::TestEndpoint),
{
}

/// In a table holding exactly the diagnostic route, any path but
/// `/test` is unknown, whatever the method.
pub proof fn lemma_unknown_path(routes: Seq<RouteView>, m: Method, p: Seq<char>)
    requires
        routes == Seq::<RouteView>::empty().push(test_route_view()),
        p != "/test"@,
    ensures
        lookup(routes, m, p) == Lookup::NotFound,
{
    assert(routes.drop_first() =~= Seq::<RouteView>::empty());
    assert(lookup(Seq::<RouteView>::empty(), m, p) == Lookup::NotFound);
}

/// Idempotence up to the timestamp: two successful diagnostic responses
/// agree on status and content type, and their bodies agree exactly
/// where their timestamps do.
pub proof fn lemma_idempotent_up_to_timestamp(
    r1: ResponseView,
    r2: ResponseView,
    ts1: Seq<char>,
    ts2: Seq<char>,
)
    requires
        r1.status == 200,
        r1.content_type == "application/json"@,
        r1.body == test_body(ts1),
        r2.status == 200,
        r2.content_type == "application/json"@,
        r2.body == test_body(ts2),
    ensures
        r1.status == r2.status,
        r1.content_type == r2.content_type,
        r1.body == r2.body <==> ts1 == ts2,
{
    lemma_body_equal_iff_timestamp_equal(ts1, ts2);
}

} // verus!
