use hyper_router::BuildError;
use hyper_router::CompiledPattern;
use hyper_router::Method;
use hyper_router::RegexRoutesBuilder;
use hyper_router::RouteBuilder;
use hyper_router::StatusCode;
use hyper_router::get_owned_captures;

#[test]
fn scenario_root_items_and_head_fallback() {
    let router = RouteBuilder::new()
        .get("/", 1)
        .post("/", 2)
        .get("/items/([^/]+)", 3)
        .finish()
        .unwrap();

    let (h, caps) = router.find_handler("/", &Method::Get).unwrap();
    assert_eq!(*h, 1);
    assert!(caps.is_empty());

    assert_eq!(
        router.find_handler("/", &Method::Delete).unwrap_err(),
        StatusCode::MethodNotAllowed
    );

    let (h, caps) = router.find_handler("/items/9", &Method::Get).unwrap();
    assert_eq!(*h, 3);
    assert_eq!(caps, vec!["9".to_string()]);

    assert_eq!(
        router.find_handler("/missing", &Method::Get).unwrap_err(),
        StatusCode::NotFound
    );

    let (h, caps) = router.find_handler("/", &Method::Head).unwrap();
    assert_eq!(*h, 1);
    assert!(caps.is_empty());
}

#[test]
fn unmatched_path_is_not_found() {
    let router = RouteBuilder::new()
        .get("/a", 1)
        .post("/b", 2)
        .finish()
        .unwrap();
    for method in [Method::Get, Method::Post, Method::Head, Method::Put] {
        assert_eq!(
            router.find_handler("/c", &method).unwrap_err(),
            StatusCode::NotFound
        );
    }
}

#[test]
fn wrong_method_is_method_not_allowed() {
    let router = RouteBuilder::new().post("/x", 1).finish().unwrap();
    assert_eq!(
        router.find_handler("/x", &Method::Get).unwrap_err(),
        StatusCode::MethodNotAllowed
    );
    // HEAD falls back only to GET; a POST-only route still yields 405
    assert_eq!(
        router.find_handler("/x", &Method::Head).unwrap_err(),
        StatusCode::MethodNotAllowed
    );
}

#[test]
fn head_falls_back_to_get_with_captures() {
    let router = RouteBuilder::new()
        .post("/i/([^/]+)", 1)
        .get("/i/([^/]+)", 2)
        .finish()
        .unwrap();
    let (h, caps) = router.find_handler("/i/5", &Method::Head).unwrap();
    assert_eq!(*h, 2);
    assert_eq!(caps, vec!["5".to_string()]);
}

#[test]
fn earliest_registered_route_wins() {
    let router = RouteBuilder::new()
        .get("/a/([^/]+)", 1)
        .get("/a/b", 2)
        .finish()
        .unwrap();
    let (h, caps) = router.find_handler("/a/b", &Method::Get).unwrap();
    assert_eq!(*h, 1);
    assert_eq!(caps, vec!["b".to_string()]);
}

#[test]
fn trailing_slash_is_tolerated() {
    let router = RouteBuilder::new().get("/path/to", 1).finish().unwrap();
    let (h, _) = router.find_handler("/path/to", &Method::Get).unwrap();
    assert_eq!(*h, 1);
    let (h, _) = router.find_handler("/path/to/", &Method::Get).unwrap();
    assert_eq!(*h, 1);
    assert_eq!(
        router.find_handler("/path/to//", &Method::Get).unwrap_err(),
        StatusCode::NotFound
    );
}

#[test]
fn build_fails_on_unrooted_pattern() {
    let r = RouteBuilder::new().get("/ok", 1).get("a/b", 2).finish();
    assert_eq!(r.err().unwrap(), BuildError::InvalidPattern);
}

#[test]
fn build_fails_on_bad_regex() {
    let r = RouteBuilder::new().get("/ok", 1).get("/([", 2).finish();
    assert_eq!(r.err().unwrap(), BuildError::PatternCompile);
}

#[test]
fn build_reports_first_offending_pattern() {
    // the unrooted pattern comes before the uncompilable one
    let r = RouteBuilder::new().get("a/b", 1).get("/([", 2).finish();
    assert_eq!(r.err().unwrap(), BuildError::InvalidPattern);
    let r = RouteBuilder::new().get("/([", 1).get("a/b", 2).finish();
    assert_eq!(r.err().unwrap(), BuildError::PatternCompile);
}

#[test]
fn empty_router_finds_nothing() {
    let router = RouteBuilder::<i32>::default().finish().unwrap();
    assert_eq!(router.len(), 0);
    assert_eq!(
        router.find_handler("/", &Method::Get).unwrap_err(),
        StatusCode::NotFound
    );
}

#[test]
fn named_captures_keep_order_and_names() {
    let recognizer = RegexRoutesBuilder::new()
        .get("/users/([^/]+)/posts/(?P<post_id>[^/]+)", 1)
        .finish()
        .unwrap();
    let (h, caps) = recognizer
        .recognize(&Method::Get, "/users/42/posts/7")
        .unwrap();
    assert_eq!(*h, 1);
    assert_eq!(
        caps,
        vec![
            (None, "42".to_string()),
            (Some("post_id".to_string()), "7".to_string()),
        ]
    );
}

#[test]
fn recognizer_reports_not_found_for_other_methods() {
    let recognizer = RegexRoutesBuilder::new().get("/", 1).finish().unwrap();
    assert_eq!(
        recognizer.recognize(&Method::Post, "/").unwrap_err(),
        StatusCode::NotFound
    );
    assert_eq!(
        recognizer.recognize(&Method::Get, "/nope").unwrap_err(),
        StatusCode::NotFound
    );
}

#[test]
fn recognizer_earliest_route_wins_and_sugar_registers_methods() {
    let recognizer = RegexRoutesBuilder::new()
        .put("/r/([^/]+)", 1)
        .delete("/r/([^/]+)", 2)
        .head("/r/([^/]+)", 3)
        .options("/r/([^/]+)", 4)
        .post("/r/([^/]+)", 5)
        .put("/r/x", 6)
        .finish()
        .unwrap();
    assert_eq!(recognizer.len(), 6);
    let (h, caps) = recognizer.recognize(&Method::Put, "/r/x").unwrap();
    assert_eq!(*h, 1);
    assert_eq!(caps, vec![(None, "x".to_string())]);
    let (h, _) = recognizer.recognize(&Method::Options, "/r/x").unwrap();
    assert_eq!(*h, 4);
}

#[test]
fn compiled_pattern_extracts_captures() {
    let cp = CompiledPattern::compile("^/x/([^/]+)$").unwrap();
    assert_eq!(cp.as_str(), "^/x/([^/]+)$");
    let caps = get_owned_captures(&cp, "/x/y").unwrap();
    assert_eq!(caps, vec![(None, "y".to_string())]);
    assert!(get_owned_captures(&cp, "/z").is_none());
}

#[test]
fn compiled_pattern_rejects_bad_regex() {
    assert!(CompiledPattern::compile("(((").is_err());
}

#[test]
fn group_outside_the_match_captures_empty() {
    let cp = CompiledPattern::compile("^/x(?:(a)|(b))$").unwrap();
    let caps = get_owned_captures(&cp, "/xb").unwrap();
    assert_eq!(
        caps,
        vec![(None, String::new()), (None, "b".to_string())]
    );
}

#[test]
fn status_codes_carry_their_numbers() {
    assert_eq!(StatusCode::NotFound.code(), 404);
    assert_eq!(StatusCode::MethodNotAllowed.code(), 405);
}

#[test]
fn head_route_beats_get_fallback() {
    let router = RouteBuilder::new()
        .get("/h", 1)
        .route(Method::Head, "/h", 2)
        .finish()
        .unwrap();
    let (h, _) = router.find_handler("/h", &Method::Head).unwrap();
    assert_eq!(*h, 2);
}

#[test]
fn head_fallback_takes_earliest_get() {
    let router = RouteBuilder::new()
        .get("/g/([^/]+)", 1)
        .get("/g/x", 2)
        .finish()
        .unwrap();
    let (h, caps) = router.find_handler("/g/x", &Method::Head).unwrap();
    assert_eq!(*h, 1);
    assert_eq!(caps, vec!["x".to_string()]);
}

#[test]
fn extension_methods_route_like_any_other() {
    let router = RouteBuilder::new()
        .route(Method::Extension("PROPFIND".to_string()), "/dav", 1)
        .get("/dav", 2)
        .finish()
        .unwrap();
    let (h, _) = router
        .find_handler("/dav", &Method::Extension("PROPFIND".to_string()))
        .unwrap();
    assert_eq!(*h, 1);
    // a different token is a different method; the path still matched, so 405
    assert_eq!(
        router
            .find_handler("/dav", &Method::Extension("MKCOL".to_string()))
            .unwrap_err(),
        StatusCode::MethodNotAllowed
    );
    // and where nothing matches the path at all, 404
    assert_eq!(
        router
            .find_handler("/other", &Method::Extension("MKCOL".to_string()))
            .unwrap_err(),
        StatusCode::NotFound
    );
}

#[test]
fn recognizer_accepts_extension_methods() {
    let recognizer = RegexRoutesBuilder::new()
        .route(Method::Extension("PROPFIND".to_string()), "/dav/([^/]+)", 1)
        .finish()
        .unwrap();
    let (h, caps) = recognizer
        .recognize(&Method::Extension("PROPFIND".to_string()), "/dav/box")
        .unwrap();
    assert_eq!(*h, 1);
    assert_eq!(caps, vec![(None, "box".to_string())]);
    assert_eq!(
        recognizer
            .recognize(&Method::Extension("MKCOL".to_string()), "/dav/box")
            .unwrap_err(),
        StatusCode::NotFound
    );
}
