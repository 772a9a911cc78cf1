use hello_api::handler::Handler;
use hello_api::method::Method;
use hello_api::path::split_path;
use hello_api::pattern::{Pattern, Segment};
use hello_api::router::{ConfigError, Registry, Response, Router};
use hello_api::service::hello_router;

fn ok(body: &str) -> Response {
    Response { status: 200, body: body.to_string() }
}

#[test]
fn get_hello_world() {
    let r = hello_router();
    assert_eq!(r.dispatch(Method::Get, "/hello/world"), ok("hello: world"));
}

#[test]
fn get_hello_plain() {
    let r = hello_router();
    assert_eq!(r.dispatch(Method::Get, "/hello"), ok("hello"));
}

#[test]
fn get_hello_trailing_slash_captures_empty_name() {
    let r = hello_router();
    assert_eq!(r.dispatch(Method::Get, "/hello/"), ok("hello: "));
}

#[test]
fn get_unknown_is_not_found() {
    let r = hello_router();
    let resp = r.dispatch(Method::Get, "/unknown");
    assert_eq!(resp.status, 404);
    assert_eq!(resp.body, "");
}

#[test]
fn get_goodbye_is_not_found() {
    let r = hello_router();
    assert_eq!(r.dispatch(Method::Get, "/goodbye").status, 404);
}

#[test]
fn too_many_segments_is_not_found() {
    let r = hello_router();
    assert_eq!(r.dispatch(Method::Get, "/hello/a/b").status, 404);
}

#[test]
fn root_is_not_found() {
    let r = hello_router();
    assert_eq!(r.dispatch(Method::Get, "/").status, 404);
    assert_eq!(r.dispatch(Method::Get, "").status, 404);
}

#[test]
fn post_is_not_found() {
    let r = hello_router();
    assert_eq!(r.dispatch(Method::Post, "/hello/x").status, 404);
    assert_eq!(r.dispatch(Method::Post, "/hello").status, 404);
    assert_eq!(r.dispatch(Method::Delete, "/hello/x").status, 404);
}

#[test]
fn greeting_keeps_any_name_without_slash() {
    let r = hello_router();
    for name in ["a", "world", "a b", "héllo", ":name", "x.y-z"] {
        let path = format!("/hello/{}", name);
        assert_eq!(r.dispatch(Method::Get, &path), ok(&format!("hello: {}", name)));
    }
}

#[test]
fn repeated_requests_get_identical_responses() {
    let r = hello_router();
    let first = r.dispatch(Method::Get, "/hello/world");
    let second = r.dispatch(Method::Get, "/hello/world");
    assert_eq!(first, second);
    assert_eq!(first, ok("hello: world"));
}

#[test]
fn duplicate_registration_is_refused() {
    let mut reg = Registry::new();
    assert_eq!(reg.register(Method::Get, "/hello", Handler::fixed("hello")), Ok(()));
    assert_eq!(
        reg.register(Method::Get, "/hello", Handler::fixed("other")),
        Err(ConfigError::DuplicateRoute)
    );
    assert_eq!(reg.all().len(), 1);
}

#[test]
fn same_pattern_other_method_is_accepted() {
    let mut reg = Registry::new();
    assert_eq!(reg.register(Method::Get, "/hello", Handler::fixed("a")), Ok(()));
    assert_eq!(reg.register(Method::Post, "/hello", Handler::fixed("b")), Ok(()));
    assert_eq!(reg.register(Method::Get, "/hello/:name", Handler::fixed("c")), Ok(()));
    assert_eq!(reg.all().len(), 3);
    assert_eq!(reg.all()[1].method(), Method::Post);
    let router = Router::new(reg);
    assert_eq!(router.dispatch(Method::Post, "/hello"), ok("b"));
}

#[test]
fn first_registered_route_wins() {
    let mut reg = Registry::new();
    assert_eq!(reg.register(Method::Get, "/items/new", Handler::fixed("form")), Ok(()));
    assert_eq!(reg.register(Method::Get, "/items/:id", Handler::greeting("item ", "id")), Ok(()));
    let router = Router::new(reg);
    assert_eq!(router.dispatch(Method::Get, "/items/new"), ok("form"));
    assert_eq!(router.dispatch(Method::Get, "/items/7"), ok("item 7"));
    let m = router.match_route(Method::Get, "/items/7").unwrap();
    assert_eq!(m.index, 1);
    assert_eq!(m.params.get("id"), Some("7".to_string()));
    assert_eq!(m.params.len(), 1);
    assert!(router.match_route(Method::Get, "/items").is_none());
}

#[test]
fn greeting_without_its_parameter_answers_prefix() {
    let mut reg = Registry::new();
    assert_eq!(reg.register(Method::Get, "/greet", Handler::greeting("hi ", "who")), Ok(()));
    let router = Router::new(reg);
    assert_eq!(router.dispatch(Method::Get, "/greet"), ok("hi "));
}

#[test]
fn two_placeholders_are_both_captured() {
    let mut reg = Registry::new();
    assert_eq!(reg.register(Method::Get, "/:a/:b", Handler::greeting("b=", "b")), Ok(()));
    let router = Router::new(reg);
    let m = router.match_route(Method::Get, "/x/y").unwrap();
    assert_eq!(m.params.get("a"), Some("x".to_string()));
    assert_eq!(m.params.get("b"), Some("y".to_string()));
    assert_eq!(m.params.get("c"), None);
    assert_eq!(router.dispatch(Method::Get, "/x/y"), ok("b=y"));
}

#[test]
fn split_path_segments() {
    assert_eq!(split_path("/hello/world"), vec!["hello".to_string(), "world".to_string()]);
    assert_eq!(split_path("/hello/"), vec!["hello".to_string(), String::new()]);
    assert_eq!(split_path("/"), vec![String::new()]);
    assert_eq!(split_path(""), vec![String::new()]);
    assert_eq!(split_path("a//b"), vec!["a".to_string(), String::new(), "b".to_string()]);
}

#[test]
fn parse_pattern_segments() {
    let p = Pattern::parse("/hello/:name");
    assert_eq!(p.len(), 2);
    assert_eq!(
        p.segments(),
        &vec![Segment::Literal("hello".to_string()), Segment::Param("name".to_string())]
    );
    assert!(p.same_as(&Pattern::parse("/hello/:name")));
    assert!(!p.same_as(&Pattern::parse("/hello/:who")));
    assert!(!p.same_as(&Pattern::parse("/hello")));
}

#[test]
fn handlers_respond() {
    let mut reg = Registry::new();
    assert_eq!(reg.register(Method::Get, "/e/:v", Handler::fixed("fixed")), Ok(()));
    let router = Router::new(reg);
    let m = router.match_route(Method::Get, "/e/q").unwrap();
    assert_eq!(Handler::fixed("fixed").respond(&m.params), "fixed");
    assert_eq!(Handler::greeting("v: ", "v").respond(&m.params), "v: q");
}
