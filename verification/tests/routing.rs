use trellis::app::App;
use trellis::empty_resolution::EmptyResolution;
use trellis::endpoint::EndPoint;
use trellis::errors::RoutingErrorType;
use trellis::method::Method;
use trellis::route_tree::RouteTree;
use trellis::segments::split_segments;

type TestEndPoint = EndPoint<EmptyResolution, String>;

fn ep(status: i32) -> TestEndPoint {
    EndPoint::new(EmptyResolution::new(status), None)
}

#[test]
fn basic_routing() {
    let mut router: RouteTree<TestEndPoint> = RouteTree::new(None);

    let bad_route = router.add_route(b"", Some((Method::GET, ep(200))));
    let good_route = router.add_route(b"/test", Some((Method::GET, ep(200))));
    let good_var_route = router.add_route(b"/test/{user_id}/{name}", Some((Method::GET, ep(200))));

    assert!(bad_route.is_err(), "(Invalid) Empty route was added.");
    assert!(good_route.is_ok(), "(Valid) Valid route was not added.");
    assert!(
        good_var_route.is_ok(),
        "(Valid) Valid var route was not added."
    );

    let found_route = router.get_route(b"/test");

    let left_id = 1;
    let right_id = 2;
    let found_var_route = router.get_route(format!("/test/{left_id}/{right_id}").as_bytes());

    assert!(
        found_route.is_some(),
        "/test (a valid route) was missing from the router."
    );
    assert!(
        found_var_route.is_some(),
        "/test/{left_id}/{right_id} (a valid route) was missing from the router."
    );
}

#[test]
fn wild_card_routing() {
    let mut router: RouteTree<TestEndPoint> = RouteTree::new(None);

    let wild_card = router.add_route(b"/wild/{*}", Some((Method::GET, ep(200))));
    let _ = router.add_route(b"/wild/asd", Some((Method::POST, ep(200))));

    assert!(wild_card.is_ok(), "Wild card was invalid route.");

    let test_routes: Vec<&[u8]> = vec![
        b"/wild/test/test/test/test",
        b"/wild/test/test/test/test/wild/test/test/test/test/wild/test/test/test/test/wild/test/test/test/test",
        b"/wild/test",
    ];

    for test in test_routes {
        let route = router.get_route(test);
        assert!(route.is_some());

        let node = &router.nodes[route.unwrap()];
        let resolve = node.brw_resolution(&Method::GET);
        assert!(
            resolve.is_some(),
            "Resolve was missing for: {:?}",
            String::from_utf8_lossy(&node.id)
        );
    }

    let route = router.get_route(b"/wild/asd");
    assert!(route.is_some());

    let node = &router.nodes[route.unwrap()];
    let route_post = node.brw_resolution(&Method::POST);
    assert!(route_post.is_some());
}

#[test]
fn test_route_macro() {
    let mut app: App<EmptyResolution, String> = App::new();

    app.add_or_panic(b"/test/this", Method::GET, None, EmptyResolution::new(200));
    app.add_or_panic(b"/public/{*}", Method::GET, None, EmptyResolution::new(200));
    app.add_or_panic(b"/test/this", Method::PATCH, None, EmptyResolution::new(200));
    app.add_or_panic(b"/error_test", Method::GET, None, EmptyResolution::new(200));
    app.add_or_panic(b"/test/wild/{*}", Method::GET, None, EmptyResolution::new(200));

    let m_ware = String::from("Middleware 1");
    let m_ware_other = String::from("Middleware 2");
    let m_collect = Some(vec![m_ware, m_ware_other]);

    app.add_or_panic(
        b"/test/this/middleware",
        Method::GET,
        m_collect,
        EmptyResolution::new(200),
    );

    let r = app.get_router().get_route(b"/test/this");
    assert!(r.is_some());

    let node = &app.get_router().nodes[r.unwrap()];
    assert!(
        node.brw_resolution(&Method::GET).is_some(),
        "Missing GET method"
    );
    assert!(
        node.brw_resolution(&Method::PATCH).is_some(),
        "Missing PATCH method"
    );
}

#[test]
fn added_route_is_found_with_its_endpoint() {
    // A successful add makes the path's lookup return a node that holds the
    // endpoint under the method it was added with.
    let mut router: RouteTree<TestEndPoint> = RouteTree::new(None);
    assert!(router
        .add_route(b"/a/b/c", Some((Method::PUT, ep(200))))
        .is_ok());
    let t = router.get_route(b"/a/b/c").expect("route must exist");
    let e = router.nodes[t].get_resolution(&Method::PUT).unwrap();
    assert_eq!(e.resolution.status_code, 200);
    assert!(router.nodes[t].get_resolution(&Method::GET).is_none());
}

#[test]
fn literal_beats_parametric() {
    let mut router: RouteTree<TestEndPoint> = RouteTree::new(None);
    assert!(router.add_route(b"/a/{x}", Some((Method::GET, ep(201)))).is_ok());
    assert!(router.add_route(b"/a/b", Some((Method::GET, ep(202)))).is_ok());

    let literal = router.get_route(b"/a/b").expect("literal must match");
    let e = router.nodes[literal].get_resolution(&Method::GET).unwrap();
    assert_eq!(e.resolution.status_code, 202);

    let var = router.get_route(b"/a/c").expect("variable must match");
    let e = router.nodes[var].get_resolution(&Method::GET).unwrap();
    assert_eq!(e.resolution.status_code, 201);

    // The variable binds the segment it consumed.
    let segs = split_segments(b"/a/c");
    let vars = router.bind_variables(var, &segs);
    assert_eq!(vars, vec![(b"x".to_vec(), b"c".to_vec())]);
}

#[test]
fn wildcard_absorbs() {
    let mut router: RouteTree<TestEndPoint> = RouteTree::new(None);
    assert!(router.add_route(b"/wild/{*}", Some((Method::GET, ep(200)))).is_ok());

    for (path, expected) in [
        (&b"/wild/a"[..], &b"a"[..]),
        (&b"/wild/a/b/c"[..], &b"a/b/c"[..]),
    ] {
        let t = router.get_route(path).expect("wildcard must match");
        assert!(router.nodes[t].get_resolution(&Method::GET).is_some());
        let segs = split_segments(path);
        let vars = router.bind_variables(t, &segs);
        assert_eq!(vars, vec![(b"*".to_vec(), expected.to_vec())]);
    }

    // A request for the prefix alone still matches a node: the literal
    // parent, which carries no endpoint of its own.
    let t = router.get_route(b"/wild/").expect("prefix still matches a node");
    assert!(router.nodes[t].get_resolution(&Method::GET).is_none());
}

#[test]
fn slash_equivalence() {
    let mut router: RouteTree<TestEndPoint> = RouteTree::new(None);
    assert!(router.add_route(b"/a/b", Some((Method::GET, ep(200)))).is_ok());
    let plain = router.get_route(b"/a/b");
    let trailing = router.get_route(b"/a/b/");
    let doubled = router.get_route(b"//a//b");
    assert!(plain.is_some());
    assert_eq!(plain, trailing);
    assert_eq!(plain, doubled);
}

#[test]
fn method_conflict() {
    let mut app: App<i32, String> = App::new();

    let first = app.add_route(b"/x", Method::GET, None, 1);
    assert!(first.is_ok());

    let second = app.add_route(b"/x", Method::GET, None, 2);
    match second {
        Err(e) => assert!(matches!(e.error_type, RoutingErrorType::Exist)),
        Ok(()) => panic!("re-adding the same (path, method) must fail"),
    }

    // The strict failure left the first endpoint in place.
    let t = app.get_router().get_route(b"/x").unwrap();
    assert_eq!(
        app.get_router().nodes[t]
            .get_resolution(&Method::GET)
            .unwrap()
            .resolution,
        1
    );

    // The overwriting surface replaces it.
    assert!(app.add_or_change_route(b"/x", Method::GET, None, 2).is_ok());
    let t = app.get_router().get_route(b"/x").unwrap();
    assert_eq!(
        app.get_router().nodes[t]
            .get_resolution(&Method::GET)
            .unwrap()
            .resolution,
        2
    );
}

#[test]
fn root_and_invalid_routes() {
    let mut router: RouteTree<TestEndPoint> = RouteTree::new(None);

    // The root path needs an endpoint.
    let missing = router.add_route(b"/", None);
    match missing {
        Err(e) => assert!(matches!(e.error_type, RoutingErrorType::MethodMissing)),
        Ok(()) => panic!("adding / without an endpoint must fail"),
    }
    assert!(router.add_route(b"/", Some((Method::GET, ep(200)))).is_ok());
    let t = router.get_route(b"/").unwrap();
    assert_eq!(t, 0);
    assert!(router.nodes[0].get_resolution(&Method::GET).is_some());

    // A wildcard may only come last.
    let mid_wild = router.add_route(b"/a/{*}/b", Some((Method::GET, ep(200))));
    match mid_wild {
        Err(e) => assert!(matches!(e.error_type, RoutingErrorType::InvalidRoute(_))),
        Ok(()) => panic!("a mid-path wildcard must be rejected"),
    }
}

#[test]
fn missing_route_fallback() {
    let mut router: RouteTree<TestEndPoint> = RouteTree::new(None);
    assert!(router.add_route(b"/known", Some((Method::GET, ep(200)))).is_ok());

    // No match and no fallback: nothing is served, the connection closes.
    assert!(router.choose_endpoint(b"/unknown", &Method::GET).is_none());

    // A registered missing-route fallback answers under GET.
    router.add_missing_route(ep(404));
    let e = router
        .choose_endpoint(b"/unknown", &Method::GET)
        .expect("fallback must serve");
    assert_eq!(e.resolution.status_code, 404);

    // A matched route whose method is absent is not sent to the fallback.
    assert!(router.choose_endpoint(b"/known", &Method::POST).is_none());
    // The fallback is always queried under GET, whatever the request sent.
    let e = router
        .choose_endpoint(b"/unknown", &Method::POST)
        .expect("fallback must serve any unmatched method");
    assert_eq!(e.resolution.status_code, 404);
}

#[test]
fn echo_path_variable() {
    let mut router: RouteTree<TestEndPoint> = RouteTree::new(None);
    assert!(router.add_route(b"/hello/{name}", Some((Method::GET, ep(200)))).is_ok());

    let req = trellis::request::Request::parse_request(b"GET /hello/world HTTP/1.1\r\n\r\n")
        .expect("request must parse");
    assert_eq!(req.route.cleaned_route, b"/hello/world".to_vec());

    let t = router
        .get_route(&req.route.cleaned_route)
        .expect("route must match");
    let segs = split_segments(&req.route.cleaned_route);
    let vars = router.bind_variables(t, &segs);
    assert_eq!(vars, vec![(b"name".to_vec(), b"world".to_vec())]);

    let name = String::from_utf8(vars[0].1.clone()).unwrap();
    assert_eq!(format!("hi {name}"), "hi world");
}

#[test]
fn wildcard_capture() {
    let mut router: RouteTree<TestEndPoint> = RouteTree::new(None);
    assert!(router.add_route(b"/files/{*}", Some((Method::GET, ep(200)))).is_ok());

    let req = trellis::request::Request::parse_request(b"GET /files/a/b/c.txt HTTP/1.1\r\n\r\n")
        .expect("request must parse");
    let t = router
        .get_route(&req.route.cleaned_route)
        .expect("route must match");
    let segs = split_segments(&req.route.cleaned_route);
    let vars = router.bind_variables(t, &segs);
    assert_eq!(vars, vec![(b"*".to_vec(), b"a/b/c.txt".to_vec())]);
}

#[test]
fn literal_precedence_end_to_end() {
    let mut router: RouteTree<TestEndPoint> = RouteTree::new(None);
    assert!(router.add_route(b"/wild/{*}", Some((Method::GET, ep(201)))).is_ok());
    assert!(router.add_route(b"/wild/asd", Some((Method::POST, ep(202)))).is_ok());

    let e = router
        .choose_endpoint(b"/wild/asd", &Method::POST)
        .expect("the literal endpoint must answer");
    assert_eq!(e.resolution.status_code, 202);

    let e = router
        .choose_endpoint(b"/wild/deep/er", &Method::GET)
        .expect("the wildcard endpoint must answer");
    assert_eq!(e.resolution.status_code, 201);

    // Once a literal child consumed its segment, the walk stays below it:
    // a longer path under the literal has no fallback to the wildcard.
    assert!(router.choose_endpoint(b"/wild/asd/deep", &Method::GET).is_none());
}
