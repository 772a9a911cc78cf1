use vstd::prelude::*;
use crate::handler::{respond_spec, Handler, HandlerModel};
use crate::method::Method;
use crate::path::{path_segments, split_path, strings_view};
use crate::pattern::{captures, pattern_of, segments_match, Params, Pattern, SegmentModel};

verus! {

/// A route, as the logic sees it.
pub struct RouteModel {
    pub method: Method,
    pub pattern: Seq<SegmentModel>,
    pub handler: HandlerModel,
}

/// A method and a path pattern bound to a handler.
#[derive(Debug)]
pub struct Route {
    method: Method,
    pattern: Pattern,
    handler: Handler,
}

impl View for Route {
    type V = RouteModel;

    closed spec fn view(&self) -> RouteModel {
        RouteModel { method: self.method, pattern: self.pattern@, handler: self.handler@ }
    }
}

impl Route {
    pub fn method(&self) -> (r: Method)
        ensures
            r == self@.method,
    {
        self.method
    }

    pub fn pattern(&self) -> (r: &Pattern)
        ensures
            r@ == self@.pattern,
    {
        &self.pattern
    }

    pub fn handler(&self) -> (r: &Handler)
        ensures
            r@ == self@.handler,
    {
        &self.handler
    }
}

/// A mistake in the route table, found while it is built.
#[derive(Clone, Copy, Debug, PartialEq, Eq, Structural)]
pub enum ConfigError {
    /// A route with the same method and pattern is already registered.
    DuplicateRoute,
}

/// Whether `rs` holds a route for `method` with the pattern `pat`.
pub open spec fn has_route(rs: Seq<RouteModel>, method: Method, pat: Seq<SegmentModel>) -> bool {
    exists|i: int| 0 <= i < rs.len() && #[trigger] rs[i].method == method && rs[i].pattern == pat
}

/// No two routes share a method and a pattern.
pub open spec fn no_duplicates(rs: Seq<RouteModel>) -> bool {
    forall|i: int, j: int|
        0 <= i < j < rs.len() ==> !(#[trigger] rs[i].method == #[trigger] rs[j].method
            && rs[i].pattern == rs[j].pattern)
}

/// The routes of a service, in the order in which they were registered.
pub struct Registry {
    routes: Vec<Route>,
}

impl View for Registry {
    type V = Seq<RouteModel>;

    closed spec fn view(&self) -> Seq<RouteModel> {
        self.routes@.map_values(|r: Route| r@)
    }
}

impl Registry {
    pub open spec fn wf(&self) -> bool {
        no_duplicates(self@)
    }

    pub fn new() -> (r: Registry)
        ensures
            r@ == Seq::<RouteModel>::empty(),
            r.wf(),
    {
        let r = Registry { routes: Vec::new() };
        assert(r@ =~= Seq::<RouteModel>::empty());
        r
    }

    /// Adds a route for `method` and the pattern text `pattern`, unless one
    /// with the same method and pattern is there already.
    pub fn register(&mut self, method: Method, pattern: &str, handler: Handler) -> (r: Result<
        (),
        ConfigError,
    >)
        requires
            old(self).wf(),
        ensures
            final(self).wf(),
            has_route(old(self)@, method, pattern_of(pattern@)) ==> r == Err::<(), ConfigError>(
                ConfigError::DuplicateRoute,
            ) && final(self)@ == old(self)@,
            !has_route(old(self)@, method, pattern_of(pattern@)) ==> r is Ok && final(self)@
                == old(self)@.push(
                (RouteModel { method, pattern: pattern_of(pattern@), handler: handler@ }),
            ),
    {
        let pat = Pattern::parse(pattern);
        let mut i: usize = 0;
        while i < self.routes.len()
            invariant
                i <= self@.len(),
                self.routes@.len() == self@.len(),
                pat@ == pattern_of(pattern@),
                self.wf(),
                self@ == old(self)@,
                forall|j: int|
                    0 <= j < i ==> !(#[trigger] self@[j].method == method && self@[j].pattern
                        == pat@),
            decreases self@.len() - i,
        {
            assert(self@[i as int] == self.routes@[i as int]@);
            if self.routes[i].method == method && self.routes[i].pattern.same_as(&pat) {
                assert(self@[i as int].method == method && self@[i as int].pattern == pat@);
                return Err(ConfigError::DuplicateRoute);
            }
            i = i + 1;
        }
        let ghost before = self@;
        let route = Route { method, pattern: pat, handler };
        self.routes.push(route);
        assert(self@ =~= before.push(route@));
        assert(!has_route(before, method, pat@));
        assert(no_duplicates(self@)) by {
            assert forall|a: int, b: int| 0 <= a < b < self@.len() implies !(#[trigger] self@[a].method
                == #[trigger] self@[b].method && self@[a].pattern == self@[b].pattern) by {
                if b == before.len() {
                    assert(self@[a] == before[a]);
                }
            }
        }
        Ok(())
    }

    /// The registered routes, in the order of registration.
    pub fn all(&self) -> (r: &Vec<Route>)
        ensures
            r@.map_values(|x: Route| x@) == self@,
    {
        &self.routes
    }
}

/// Route `r` answers requests with `method` whose path has the segments `segs`.
pub open spec fn route_matches(r: RouteModel, method: Method, segs: Seq<Seq<char>>) -> bool {
    r.method == method && segments_match(r.pattern, segs)
}

/// The index of the first route from `i` on that answers the request.
pub open spec fn first_match_from(
    rs: Seq<RouteModel>,
    method: Method,
    segs: Seq<Seq<char>>,
    i: int,
) -> Option<int>
    decreases rs.len() - i,
{
    if i < 0 || i >= rs.len() {
        None
    } else if route_matches(rs[i], method, segs) {
        Some(i)
    } else {
        first_match_from(rs, method, segs, i + 1)
    }
}

/// The index of the first route, in registration order, that answers the request.
pub open spec fn first_match(rs: Seq<RouteModel>, method: Method, segs: Seq<Seq<char>>) -> Option<
    int,
> {
    first_match_from(rs, method, segs, 0)
}

/// A response, as the logic sees it.
pub struct ResponseModel {
    pub status: u16,
    pub body: Seq<char>,
}

/// The status and text body of a response.
#[derive(Debug, PartialEq, Eq)]
pub struct Response {
    pub status: u16,
    pub body: String,
}

impl View for Response {
    type V = ResponseModel;

    open spec fn view(&self) -> ResponseModel {
        ResponseModel { status: self.status, body: self.body@ }
    }
}

pub const STATUS_OK: u16 = 200;

pub const STATUS_NOT_FOUND: u16 = 404;

/// The response to a request with `method` and `path`: the first matching
/// route's handler answers with status 200; with no match the status is 404
/// and the body is empty.
pub open spec fn dispatch_spec(rs: Seq<RouteModel>, method: Method, path: Seq<char>) -> ResponseModel {
    let segs = path_segments(path);
    match first_match(rs, method, segs) {
        Some(i) => ResponseModel {
            status: STATUS_OK,
            body: respond_spec(rs[i].handler, captures(rs[i].pattern, segs)),
        },
        None => ResponseModel { status: STATUS_NOT_FOUND, body: Seq::empty() },
    }
}

/// A successful match: which route, and what its placeholders captured.
pub struct RouteMatch {
    pub index: usize,
    pub params: Params,
}

/// Resolves requests against a fixed table of routes.
pub struct Router {
    routes: Vec<Route>,
}

impl View for Router {
    type V = Seq<RouteModel>;

    closed spec fn view(&self) -> Seq<RouteModel> {
        self.routes@.map_values(|r: Route| r@)
    }
}

impl Router {
    /// A router over the routes of `registry`, which no longer change.
    pub fn new(registry: Registry) -> (r: Router)
        ensures
            r@ == registry@,
    {
        Router { routes: registry.routes }
    }

    /// The first route, in registration order, that answers `method` and
    /// `path`, with the parameters it captures.
    pub fn match_route(&self, method: Method, path: &str) -> (r: Option<RouteMatch>)
        ensures
            r matches Some(m) ==> first_match(self@, method, path_segments(path@)) == Some(
                m.index as int,
            ),
            r matches Some(m) ==> m.index < self@.len(),
            r matches Some(m) ==> m.params@ == captures(
                self@[m.index as int].pattern,
                path_segments(path@),
            ),
            r is None ==> first_match(self@, method, path_segments(path@)) is None,
    {
        let segs = split_path(path);
        let ghost sv = path_segments(path@);
        let mut i: usize = 0;
        while i < self.routes.len()
            invariant
                i <= self@.len(),
                self.routes@.len() == self@.len(),
                strings_view(segs@) == sv,
                sv == path_segments(path@),
                first_match(self@, method, sv) == first_match_from(self@, method, sv, i as int),
            decreases self@.len() - i,
        {
            assert(self@[i as int] == self.routes@[i as int]@);
            if self.routes[i].method == method {
                match self.routes[i].pattern.capture(&segs) {
                    Some(params) => {
                        assert(self@[i as int].pattern == self.routes@[i as int].pattern@);
                        return Some(RouteMatch { index: i, params });
                    },
                    None => {},
                }
            }
            i = i + 1;
        }
        None
    }

    /// Answers a request: status 200 with the matched handler's body, or
    /// status 404 with an empty body when no route matches.
    pub fn dispatch(&self, method: Method, path: &str) -> (r: Response)
        ensures
            r@ == dispatch_spec(self@, method, path@),
    {
        match self.match_route(method, path) {
            Some(m) => {
                assert(self.routes@.len() == self@.len());
                assert(self@[m.index as int] == self.routes@[m.index as int]@);
                let body = self.routes[m.index].handler.respond(&m.params);
                Response { status: STATUS_OK, body }
            },
            None => Response { status: STATUS_NOT_FOUND, body: String::new() },
        }
    }
}

/// Once a route is registered, registering the same method and pattern again
/// is refused: the table then holds a route with that method and pattern.
pub proof fn lemma_duplicate_refused(
    rs: Seq<RouteModel>,
    method: Method,
    pattern: Seq<char>,
    first: HandlerModel,
)
    ensures
        has_route(
            rs.push(RouteModel { method, pattern: pattern_of(pattern), handler: first }),
            method,
            pattern_of(pattern),
        ),
{
    let after = rs.push(RouteModel { method, pattern: pattern_of(pattern), handler: first });
    assert(after[rs.len() as int].method == method);
}

/// Requests carry no state between them: the same request to the same routes
/// gets the same response every time.
pub proof fn lemma_dispatch_repeatable(
    rs: Seq<RouteModel>,
    method: Method,
    path: Seq<char>,
    again: Seq<char>,
)
    requires
        again == path,
    ensures
        dispatch_spec(rs, method, path) == dispatch_spec(rs, method, again),
{
}

} // verus!
