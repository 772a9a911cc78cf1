use vstd::prelude::*;
use crate::handler::{Handler, HandlerModel};
use crate::method::Method;
use crate::path::{lemma_split_concat, lemma_split_no_slash, path_segments};
use crate::pattern::{captures, lookup, pattern_of, segments_match, SegmentModel};
use crate::router::{
    dispatch_spec, first_match, first_match_from, has_route, route_matches, Registry,
    ResponseModel, RouteModel, Router, STATUS_NOT_FOUND, STATUS_OK,
};

verus! {

/// The greeting service's routes: `GET /hello/:name` answers `hello: {name}`,
/// then `GET /hello` answers `hello`.
pub open spec fn hello_routes() -> Seq<RouteModel> {
    seq![
        RouteModel {
            method: Method::Get,
            pattern: pattern_of("/hello/:name"@),
            handler: HandlerModel::Greeting { prefix: "hello: "@, param: "name"@ },
        },
        RouteModel {
            method: Method::Get,
            pattern: pattern_of("/hello"@),
            handler: HandlerModel::Fixed("hello"@),
        },
    ]
}

/// The segments of the two patterns of the service.
pub proof fn lemma_hello_patterns()
    ensures
        pattern_of("/hello/:name"@) == seq![
            SegmentModel::Literal("hello"@),
            SegmentModel::Param("name"@),
        ],
        pattern_of("/hello"@) == seq![SegmentModel::Literal("hello"@)],
{
    reveal_strlit("/hello/:name");
    reveal_strlit("/hello");
    reveal_strlit("hello");
    reveal_strlit("name");
    let h = "hello"@;
    let n = seq![':', 'n', 'a', 'm', 'e'];
    assert("/hello/:name"@.drop_first() =~= h + seq!['/'] + n);
    lemma_split_concat(h, n);
    lemma_split_no_slash(h);
    lemma_split_no_slash(n);
    assert(n.drop_first() =~= "name"@);
    assert(pattern_of("/hello/:name"@) =~= seq![
        SegmentModel::Literal("hello"@),
        SegmentModel::Param("name"@),
    ]);
    assert("/hello"@.drop_first() =~= h);
    assert(pattern_of("/hello"@) =~= seq![SegmentModel::Literal("hello"@)]);
}

/// Builds the router of the greeting service.
pub fn hello_router() -> (r: Router)
    ensures
        r@ == hello_routes(),
{
    let mut registry = Registry::new();
    let first = registry.register(Method::Get, "/hello/:name", Handler::greeting("hello: ", "name"));
    proof {
        lemma_hello_patterns();
        assert(first is Ok);
        assert(registry@.len() == 1);
        assert(registry@[0].pattern.len() == 2);
        assert(!has_route(registry@, Method::Get, pattern_of("/hello"@)));
    }
    let second = registry.register(Method::Get, "/hello", Handler::fixed("hello"));
    proof {
        assert(second is Ok);
        assert(registry@ =~= hello_routes());
    }
    Router::new(registry)
}

/// What the greeting service answers, by the segments of the path: a
/// greeting for `GET` on two segments starting with `hello`, the plain
/// `hello` for `GET` on the single segment `hello`, and 404 otherwise.
pub proof fn lemma_hello_dispatch(method: Method, path: Seq<char>)
    ensures
        ({
            let segs = path_segments(path);
            dispatch_spec(hello_routes(), method, path) == if method == Method::Get && segs.len()
                == 2 && segs[0] == "hello"@ {
                ResponseModel { status: STATUS_OK, body: "hello: "@ + segs[1] }
            } else if method == Method::Get && segs == seq!["hello"@] {
                ResponseModel { status: STATUS_OK, body: "hello"@ }
            } else {
                ResponseModel { status: STATUS_NOT_FOUND, body: Seq::empty() }
            }
        }),
{
    lemma_hello_patterns();
    reveal_strlit("name");
    let rs = hello_routes();
    let segs = path_segments(path);
    let p0 = rs[0].pattern;
    let p1 = rs[1].pattern;
    assert(p0[0] == SegmentModel::Literal("hello"@));
    assert(p0[1] == SegmentModel::Param("name"@));
    assert(p1[0] == SegmentModel::Literal("hello"@));
    let m0 = segs.len() == 2 && segs[0] == "hello"@;
    let m1 = segs == seq!["hello"@];
    if m0 {
        assert(segments_match(p0, segs));
        let q = p0.take(1);
        assert(q.take(0) =~= Seq::<SegmentModel>::empty());
        assert(q[0] == p0[0]);
        assert(captures(q.take(0), segs) == Seq::<(Seq<char>, Seq<char>)>::empty());
        assert(captures(q, segs) == Seq::<(Seq<char>, Seq<char>)>::empty());
        assert(captures(p0, segs) == captures(q, segs).push(("name"@, segs[1])));
        assert(captures(p0, segs) =~= seq![("name"@, segs[1])]);
        assert(lookup(captures(p0, segs), "name"@) == Some(segs[1]));
    } else {
        assert(!segments_match(p0, segs));
    }
    if m1 {
        assert(segments_match(p1, segs));
    } else {
        if segments_match(p1, segs) {
            assert(segs =~= seq!["hello"@]);
        }
    }
    assert(first_match_from(rs, method, segs, 2) is None);
    if method == Method::Get && m0 {
        assert(first_match(rs, method, segs) == Some(0int));
    } else if method == Method::Get && m1 {
        assert(!route_matches(rs[0], method, segs));
        assert(first_match_from(rs, method, segs, 1) == Some(1int));
        assert(first_match(rs, method, segs) == Some(1int));
    } else {
        assert(!route_matches(rs[0], method, segs));
        assert(!route_matches(rs[1], method, segs));
        assert(first_match_from(rs, method, segs, 1) is None);
        assert(first_match(rs, method, segs) is None);
    }
}

/// For every name without `'/'`, `GET /hello/{name}` answers 200 with the
/// body `hello: {name}`.
pub proof fn lemma_greets_any_name(name: Seq<char>)
    requires
        forall|i: int| 0 <= i < name.len() ==> name[i] != '/',
    ensures
        dispatch_spec(hello_routes(), Method::Get, "/hello/"@ + name) == (ResponseModel {
            status: STATUS_OK,
            body: "hello: "@ + name,
        }),
{
    reveal_strlit("/hello/");
    reveal_strlit("hello");
    let h = "hello"@;
    let p = "/hello/"@ + name;
    assert(p.drop_first() =~= h + seq!['/'] + name);
    lemma_split_concat(h, name);
    lemma_split_no_slash(h);
    lemma_split_no_slash(name);
    assert(path_segments(p) =~= seq![h, name]);
    lemma_hello_dispatch(Method::Get, p);
}

/// `GET /hello` answers 200 with the body `hello`.
pub proof fn lemma_plain_hello()
    ensures
        dispatch_spec(hello_routes(), Method::Get, "/hello"@) == (ResponseModel {
            status: STATUS_OK,
            body: "hello"@,
        }),
{
    reveal_strlit("/hello");
    reveal_strlit("hello");
    let h = "hello"@;
    assert("/hello"@.drop_first() =~= h);
    lemma_split_no_slash(h);
    assert(path_segments("/hello"@) =~= seq![h]);
    lemma_hello_dispatch(Method::Get, "/hello"@);
}

/// A path that fits neither `/hello/:name` nor `/hello` is answered with 404,
/// whatever the method.
pub proof fn lemma_unmatched_path_not_found(method: Method, path: Seq<char>)
    requires
        !(path_segments(path).len() == 2 && path_segments(path)[0] == "hello"@),
        path_segments(path) != seq!["hello"@],
    ensures
        dispatch_spec(hello_routes(), method, path).status == STATUS_NOT_FOUND,
{
    lemma_hello_dispatch(method, path);
}

/// Every method but `GET` is answered with 404, whatever the path.
pub proof fn lemma_other_method_not_found(method: Method, path: Seq<char>)
    requires
        method != Method::Get,
    ensures
        dispatch_spec(hello_routes(), method, path).status == STATUS_NOT_FOUND,
{
    lemma_hello_dispatch(method, path);
}

} // verus!
