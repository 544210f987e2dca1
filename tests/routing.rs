use smithy_server::method::Method;
use smithy_server::outcome::{RouteOutcome, RouterError};
use smithy_server::request::Request;
use smithy_server::request_spec::{Match, PathSegment, QuerySegment, RequestSpec};
use smithy_server::response::{METHOD_NOT_ALLOWED, NOT_FOUND};
use smithy_server::routing::{Protocol, Router};

fn lit(s: &str) -> PathSegment {
    PathSegment::Literal(String::from(s))
}

fn method_of(name: &str) -> Method {
    match name {
        "GET" => Method::Get,
        "POST" => Method::Post,
        "DELETE" => Method::Delete,
        "PATCH" => Method::Patch,
        _ => Method::Other(String::from(name)),
    }
}

/// The name of the handler a request goes to, or the status it is refused with.
fn call(router: &Router<&'static str>, req: &Request) -> Result<&'static str, u16> {
    match router.dispatch(req) {
        Ok(h) => Ok(*h),
        Err(resp) => {
            assert!(resp.body.is_empty());
            Err(resp.status)
        }
    }
}

fn simple_specs() -> Vec<(&'static str, RequestSpec)> {
    vec![
        (
            "A",
            RequestSpec::from_parts(
                Method::Get,
                vec![lit("a"), PathSegment::Label, PathSegment::Label],
                Vec::new(),
            ),
        ),
        (
            "MiddleGreedy",
            RequestSpec::from_parts(
                Method::Get,
                vec![lit("mg"), PathSegment::Greedy, lit("z")],
                Vec::new(),
            ),
        ),
        (
            "Delete",
            RequestSpec::from_parts(
                Method::Delete,
                Vec::new(),
                vec![
                    QuerySegment::KeyValue(String::from("foo"), String::from("bar")),
                    QuerySegment::Key(String::from("baz")),
                ],
            ),
        ),
        (
            "QueryKeyOnly",
            RequestSpec::from_parts(
                Method::Post,
                vec![lit("query_key_only")],
                vec![QuerySegment::Key(String::from("foo"))],
            ),
        ),
    ]
}

#[test]
fn mod_simple_routing() {
    let router_json = Router::new_rest_json_router(simple_specs()).unwrap();
    let router_xml = Router::new_rest_xml_router(simple_specs()).unwrap();
    assert_eq!(router_json.protocol(), Protocol::RestJson1);
    assert_eq!(router_xml.protocol(), Protocol::RestXml);

    for router in [router_json, router_xml] {
        let hits = vec![
            ("A", "GET", "/a/b/c"),
            ("MiddleGreedy", "GET", "/mg/a/z"),
            ("MiddleGreedy", "GET", "/mg/a/b/c/d/z?abc=def"),
            ("Delete", "DELETE", "/?foo=bar&baz=quux"),
            ("Delete", "DELETE", "/?foo=bar&baz"),
            ("Delete", "DELETE", "/?foo=bar&baz=&"),
            ("Delete", "DELETE", "/?foo=bar&baz=quux&baz=grault"),
            ("QueryKeyOnly", "POST", "/query_key_only?foo=bar"),
            ("QueryKeyOnly", "POST", "/query_key_only?foo"),
            ("QueryKeyOnly", "POST", "/query_key_only?foo="),
            ("QueryKeyOnly", "POST", "/query_key_only?foo=&"),
        ];
        for (svc_name, method, uri) in &hits {
            let req = Request::new(method_of(method), uri);
            assert_eq!(Ok(*svc_name), call(&router, &req), "{} {}", method, uri);
        }

        for (_, _, uri) in &hits {
            let req = Request::new(Method::Patch, uri);
            assert_eq!(Err(METHOD_NOT_ALLOWED), call(&router, &req), "PATCH {}", uri);
        }

        let misses = vec![
            ("GET", "/a"),
            ("GET", "/a/b"),
            ("GET", "/mg"),
            ("GET", "/mg/q"),
            ("GET", "/mg/z"),
            ("GET", "/mg/a/b/z/c"),
            ("DELETE", "/?foo=bar"),
            ("DELETE", "/?foo=bar"),
            ("DELETE", "/?baz=quux"),
            ("POST", "/query_key_only?baz=quux"),
            ("GET", "/"),
            ("POST", "/"),
        ];
        for (method, miss) in misses {
            let req = Request::new(method_of(method), miss);
            assert_eq!(Err(NOT_FOUND), call(&router, &req), "{} {}", method, miss);
        }
    }
}

#[test]
fn basic_pattern_conflict_avoidance() {
    let specs = vec![
        (
            "A1",
            RequestSpec::from_parts(Method::Get, vec![lit("a"), PathSegment::Label], Vec::new()),
        ),
        (
            "A2",
            RequestSpec::from_parts(
                Method::Get,
                vec![lit("a"), PathSegment::Label, lit("a")],
                Vec::new(),
            ),
        ),
        (
            "B1",
            RequestSpec::from_parts(Method::Get, vec![lit("b"), PathSegment::Greedy], Vec::new()),
        ),
        (
            "B2",
            RequestSpec::from_parts(
                Method::Get,
                vec![lit("b"), PathSegment::Greedy],
                vec![QuerySegment::Key(String::from("q"))],
            ),
        ),
    ];
    let router = Router::new_rest_json_router(specs).unwrap();
    let hits = vec![
        ("A1", "/a/foo"),
        ("A2", "/a/foo/a"),
        ("B1", "/b/foo/bar/baz"),
        ("B2", "/b/foo?q=baz"),
    ];
    for (svc_name, uri) in &hits {
        let req = Request::new(Method::Get, uri);
        assert_eq!(Ok(*svc_name), call(&router, &req), "GET {}", uri);
    }
}

#[test]
fn awsjson_simple_routing() {
    let routes = vec![("A", String::from("Service.Operation"))];
    let router_json10 = Router::new_aws_json_10_router(routes.clone()).unwrap();
    let router_json11 = Router::new_aws_json_11_router(routes).unwrap();
    assert_eq!(router_json10.protocol(), Protocol::AwsJson1_0);
    assert_eq!(router_json11.protocol(), Protocol::AwsJson1_1);

    for router in [router_json10, router_json11] {
        // Valid request, goes to the operation.
        let req = Request::new(Method::Post, "/").with_target("Service.Operation");
        assert_eq!(Ok("A"), call(&router, &req));

        // No header: not found.
        let req = Request::new(Method::Post, "/");
        assert_eq!(Err(NOT_FOUND), call(&router, &req));

        // Wrong method: method not allowed.
        let req = Request::new(Method::Get, "/").with_target("Service.Operation");
        assert_eq!(Err(METHOD_NOT_ALLOWED), call(&router, &req));

        // Wrong URI: not found.
        let req = Request::new(Method::Post, "/something").with_target("Service.Operation");
        assert_eq!(Err(NOT_FOUND), call(&router, &req));
    }
}

#[test]
fn awsjson_mismatched_target_is_not_found() {
    let router = Router::new_aws_json_10_router(vec![("A", String::from("Service.Operation"))]).unwrap();
    let req = Request::new(Method::Post, "/").with_target("Service.Other");
    assert_eq!(Err(NOT_FOUND), call(&router, &req));
    let req = Request::new(Method::Post, "/").with_target("Service.Operatio");
    assert_eq!(Err(NOT_FOUND), call(&router, &req));
}

#[test]
fn awsjson_header_that_is_not_text_is_not_found() {
    let router = Router::new_aws_json_11_router(vec![("A", String::from("Service.Op"))]).unwrap();
    let mut req = Request::new(Method::Post, "/");
    req.target_header = Some(vec![b'S', 0x01]);
    assert_eq!(Err(NOT_FOUND), call(&router, &req));
    // A tab is text for a header value.
    let router = Router::new_aws_json_11_router(vec![("T", String::from("a\tb"))]).unwrap();
    let req = Request::new(Method::Post, "/").with_target("a\tb");
    assert_eq!(Ok("T"), call(&router, &req));
}

#[test]
fn awsjson_query_on_root_is_not_found() {
    let router = Router::new_aws_json_10_router(vec![("A", String::from("S.O"))]).unwrap();
    let req = Request::new(Method::Post, "/?x=1").with_target("S.O");
    assert_eq!(Err(NOT_FOUND), call(&router, &req));
}

#[test]
fn awsjson_duplicate_targets_are_refused() {
    let routes = vec![
        ("A", String::from("S.One")),
        ("B", String::from("S.Two")),
        ("C", String::from("S.One")),
    ];
    let err = Router::new_aws_json_10_router(routes).err().unwrap();
    assert_eq!(err, RouterError::DuplicateTarget { first: 0, second: 2 });
}

#[test]
fn equal_routes_are_refused() {
    let specs = vec![
        ("X", RequestSpec::from_parts(Method::Get, vec![lit("x"), PathSegment::Label], Vec::new())),
        ("Y", RequestSpec::from_parts(Method::Get, vec![lit("x"), PathSegment::Label], Vec::new())),
    ];
    let err = Router::new_rest_json_router(specs).err().unwrap();
    assert_eq!(err, RouterError::AmbiguousRoutes { first: 0, second: 1 });
}

#[test]
fn routes_of_equal_rank_with_different_query_keys_are_refused() {
    let specs = vec![
        (
            "X",
            RequestSpec::from_parts(
                Method::Get,
                vec![lit("x"), PathSegment::Greedy],
                vec![QuerySegment::Key(String::from("a"))],
            ),
        ),
        (
            "Y",
            RequestSpec::from_parts(
                Method::Get,
                vec![lit("x"), PathSegment::Greedy],
                vec![QuerySegment::Key(String::from("b"))],
            ),
        ),
    ];
    let err = Router::new_rest_xml_router(specs).err().unwrap();
    assert_eq!(err, RouterError::AmbiguousRoutes { first: 0, second: 1 });
}

#[test]
fn equal_patterns_with_different_methods_are_accepted() {
    let specs = vec![
        ("G", RequestSpec::from_parts(Method::Get, vec![lit("x"), PathSegment::Label], Vec::new())),
        ("P", RequestSpec::from_parts(Method::Put, vec![lit("x"), PathSegment::Label], Vec::new())),
    ];
    let router = Router::new_rest_json_router(specs).unwrap();
    assert_eq!(Ok("G"), call(&router, &Request::new(Method::Get, "/x/1")));
    assert_eq!(Ok("P"), call(&router, &Request::new(Method::Put, "/x/1")));
    assert_eq!(Err(METHOD_NOT_ALLOWED), call(&router, &Request::new(Method::Post, "/x/1")));
}

#[test]
fn two_greedy_segments_are_refused() {
    let specs = vec![
        ("ok", RequestSpec::from_parts(Method::Get, vec![lit("ok")], Vec::new())),
        (
            "bad",
            RequestSpec::from_parts(
                Method::Get,
                vec![PathSegment::Greedy, lit("m"), PathSegment::Greedy],
                Vec::new(),
            ),
        ),
    ];
    let err = Router::new_rest_json_router(specs).err().unwrap();
    assert_eq!(err, RouterError::InvalidPattern { index: 1 });
}

#[test]
fn literal_position_outranks_label() {
    let specs = vec![
        ("LabelFirst", RequestSpec::from_parts(Method::Get, vec![PathSegment::Label, lit("a")], Vec::new())),
        ("LiteralFirst", RequestSpec::from_parts(Method::Get, vec![lit("a"), PathSegment::Label], Vec::new())),
    ];
    let router = Router::new_rest_json_router(specs).unwrap();
    assert_eq!(Ok("LiteralFirst"), call(&router, &Request::new(Method::Get, "/a/a")));
    assert_eq!(Ok("LabelFirst"), call(&router, &Request::new(Method::Get, "/b/a")));
    assert_eq!(Ok("LiteralFirst"), call(&router, &Request::new(Method::Get, "/a/b")));
}

#[test]
fn more_literals_outrank_fewer() {
    let specs = vec![
        ("Greedy", RequestSpec::from_parts(Method::Get, vec![lit("g"), PathSegment::Greedy], Vec::new())),
        ("Exact", RequestSpec::from_parts(Method::Get, vec![lit("g"), lit("h"), lit("i")], Vec::new())),
    ];
    let router = Router::new_rest_json_router(specs).unwrap();
    assert_eq!(Ok("Exact"), call(&router, &Request::new(Method::Get, "/g/h/i")));
    assert_eq!(Ok("Greedy"), call(&router, &Request::new(Method::Get, "/g/h/j")));
    assert_eq!(Ok("Greedy"), call(&router, &Request::new(Method::Get, "/g/h")));
}

#[test]
fn specificity_between_label_and_label_then_literal() {
    let specs = vec![
        ("A1", RequestSpec::from_parts(Method::Get, vec![lit("a"), PathSegment::Label], Vec::new())),
        ("A2", RequestSpec::from_parts(Method::Get, vec![lit("a"), PathSegment::Label, lit("a")], Vec::new())),
    ];
    let router = Router::new_rest_json_router(specs).unwrap();
    let a1 = router.route(&Request::new(Method::Get, "/a/foo"));
    let a2 = router.route(&Request::new(Method::Get, "/a/foo/a"));
    assert_eq!(a1, RouteOutcome::Matched(0));
    assert_eq!(a2, RouteOutcome::Matched(1));
}

#[test]
fn query_key_selects_the_route_that_requires_it() {
    let without = RequestSpec::from_parts(Method::Get, vec![lit("b"), PathSegment::Greedy], Vec::new());
    let with = RequestSpec::from_parts(
        Method::Get,
        vec![lit("b"), PathSegment::Greedy],
        vec![QuerySegment::Key(String::from("q"))],
    );
    assert!(with.is_more_specific_than(&without));
    assert!(!without.is_more_specific_than(&with));
    let router = Router::new_rest_json_router(vec![("B1", without), ("B2", with)]).unwrap();
    assert_eq!(Ok("B2"), call(&router, &Request::new(Method::Get, "/b/x/y?q")));
    assert_eq!(Ok("B2"), call(&router, &Request::new(Method::Get, "/b/x?z=1&q=2")));
    assert_eq!(Ok("B1"), call(&router, &Request::new(Method::Get, "/b/x?z=1")));
}

#[test]
fn greedy_segment_cases() {
    let spec = RequestSpec::from_parts(Method::Get, vec![lit("mg"), PathSegment::Greedy, lit("z")], Vec::new());
    assert_eq!(spec.matches(&Request::new(Method::Get, "/mg/a/z")), Match::Yes);
    assert_eq!(spec.matches(&Request::new(Method::Get, "/mg/a/b/c/d/z?abc=def")), Match::Yes);
    assert_eq!(spec.matches(&Request::new(Method::Get, "/mg/z/z")), Match::Yes);
    assert_eq!(spec.matches(&Request::new(Method::Get, "/mg/z")), Match::No);
    assert_eq!(spec.matches(&Request::new(Method::Get, "/mg/a/b/z/c")), Match::No);
    assert_eq!(spec.matches(&Request::new(Method::Get, "/mg//z")), Match::Yes);
    assert_eq!(spec.matches(&Request::new(Method::Put, "/mg/a/z")), Match::MethodNotAllowed);
}

#[test]
fn query_constraint_cases() {
    let spec = RequestSpec::from_parts(
        Method::Delete,
        Vec::new(),
        vec![
            QuerySegment::KeyValue(String::from("foo"), String::from("bar")),
            QuerySegment::Key(String::from("baz")),
        ],
    );
    assert_eq!(spec.matches(&Request::new(Method::Delete, "/?foo=bar&baz=quux")), Match::Yes);
    assert_eq!(spec.matches(&Request::new(Method::Delete, "/?foo=bar&baz")), Match::Yes);
    assert_eq!(spec.matches(&Request::new(Method::Delete, "/?foo=bar&baz=&")), Match::Yes);
    assert_eq!(spec.matches(&Request::new(Method::Delete, "/?foo=other&foo=bar&baz")), Match::Yes);
    assert_eq!(spec.matches(&Request::new(Method::Delete, "/?foo=bar")), Match::No);
    assert_eq!(spec.matches(&Request::new(Method::Delete, "/?baz=quux")), Match::No);
    assert_eq!(spec.matches(&Request::new(Method::Delete, "/?foo=baz&baz")), Match::No);
    assert_eq!(spec.matches(&Request::new(Method::Delete, "/")), Match::No);
}

#[test]
fn path_and_query_are_percent_decoded() {
    let spec = RequestSpec::from_parts(
        Method::Get,
        vec![lit("a b"), lit("c/d")],
        vec![QuerySegment::KeyValue(String::from("k y"), String::from("v&w"))],
    );
    assert_eq!(spec.matches(&Request::new(Method::Get, "/a%20b/c%2Fd?k+y=v%26w")), Match::Yes);
    assert_eq!(spec.matches(&Request::new(Method::Get, "/a%20b/c%2fd?k%20y=v%26w")), Match::Yes);
    assert_eq!(spec.matches(&Request::new(Method::Get, "/a+b/c%2Fd?k+y=v%26w")), Match::No);
    let percent = RequestSpec::from_parts(Method::Get, vec![lit("%zz")], Vec::new());
    assert_eq!(percent.matches(&Request::new(Method::Get, "/%zz")), Match::Yes);
}

#[test]
fn undecodable_path_is_not_found() {
    let spec = RequestSpec::from_parts(Method::Get, vec![PathSegment::Label], Vec::new());
    assert_eq!(spec.matches(&Request::new(Method::Get, "/ok")), Match::Yes);
    assert_eq!(spec.matches(&Request::new(Method::Get, "/%ff")), Match::No);
    assert_eq!(spec.matches(&Request::new(Method::Get, "/%C3%A9")), Match::Yes);
    let router = Router::new_rest_json_router(vec![("L", spec)]).unwrap();
    assert_eq!(Err(NOT_FOUND), call(&router, &Request::new(Method::Get, "/%ff")));
}

#[test]
fn non_ascii_literal_matches_its_encoding() {
    let spec = RequestSpec::from_parts(Method::Get, vec![lit("café")], Vec::new());
    assert_eq!(spec.matches(&Request::new(Method::Get, "/caf%C3%A9")), Match::Yes);
    assert_eq!(spec.matches(&Request::new(Method::Get, "/café")), Match::Yes);
    assert_eq!(spec.matches(&Request::new(Method::Get, "/cafe")), Match::No);
}

#[test]
fn empty_router_finds_nothing() {
    let router: Router<&'static str> = Router::new_rest_json_router(Vec::new()).unwrap();
    assert_eq!(router.len(), 0);
    assert_eq!(Err(NOT_FOUND), call(&router, &Request::new(Method::Get, "/")));
    let router: Router<&'static str> = Router::new_aws_json_10_router(Vec::new()).unwrap();
    let req = Request::new(Method::Post, "/").with_target("S.O");
    assert_eq!(Err(NOT_FOUND), call(&router, &req));
}

#[test]
fn other_method_names_compare_by_name() {
    let spec = RequestSpec::from_parts(Method::Other(String::from("PURGE")), vec![lit("c")], Vec::new());
    assert_eq!(spec.matches(&Request::new(Method::Other(String::from("PURGE")), "/c")), Match::Yes);
    assert_eq!(
        spec.matches(&Request::new(Method::Other(String::from("LINK")), "/c")),
        Match::MethodNotAllowed
    );
    assert!(Method::Other(String::from("X")).is_same(&Method::Other(String::from("X"))));
    assert!(!Method::Get.is_same(&Method::Other(String::from("GET"))));
}

#[test]
fn layer_keeps_routes_and_transforms_handlers() {
    let router = Router::new_rest_json_router(simple_specs()).unwrap();
    let layered = router.clone().layer(|name: &'static str| format!("logged({})", name));
    assert_eq!(layered.len(), router.len());
    for (method, uri) in [("GET", "/a/b/c"), ("GET", "/mg/a/z"), ("PATCH", "/a/b/c"), ("GET", "/nope")] {
        let req = Request::new(method_of(method), uri);
        let before = router.route(&req);
        let after = layered.route(&req);
        assert_eq!(before, after);
        if let RouteOutcome::Matched(i) = after {
            assert_eq!(layered.handler(i), &format!("logged({})", router.handler(i)));
        }
    }
}

#[test]
fn failure_responses_are_empty() {
    let r = RouteOutcome::NotFound.failure_response().unwrap();
    assert_eq!((r.status, r.body.len()), (404, 0));
    let r = RouteOutcome::MethodNotAllowed.failure_response().unwrap();
    assert_eq!((r.status, r.body.len()), (405, 0));
    assert!(RouteOutcome::Matched(3).failure_response().is_none());
}

#[test]
fn into_make_service_keeps_the_router() {
    let router = Router::new_rest_xml_router(simple_specs()).unwrap();
    let make = router.into_make_service();
    let req = Request::new(Method::Get, "/a/b/c");
    assert_eq!(make.get_ref().route(&req), RouteOutcome::Matched(0));
    assert_eq!(make.into_inner().protocol(), Protocol::RestXml);
}

#[test]
fn request_uri_is_split_at_the_first_question_mark() {
    let req = Request::new(Method::Get, "/p/q?a=1?b");
    assert_eq!(req.path, b"/p/q".to_vec());
    assert_eq!(req.query, Some(b"a=1?b".to_vec()));
    let req = Request::new(Method::Get, "/p");
    assert_eq!(req.query, None);
    let req = Request::new(Method::Get, "/p?");
    assert_eq!(req.query, Some(Vec::new()));
}

#[test]
fn clone_routes_like_the_router() {
    let router = Router::new_rest_json_router(simple_specs()).unwrap();
    let copy = router.clone();
    assert_eq!(copy.protocol(), router.protocol());
    assert_eq!(copy.len(), router.len());
    for (method, uri) in [("GET", "/a/b/c"), ("GET", "/mg/a/b/z"), ("PATCH", "/a/b/c"), ("GET", "/x")] {
        let req = Request::new(method_of(method), uri);
        assert_eq!(call(&copy, &req), call(&router, &req));
    }
    let rpc = Router::new_aws_json_11_router(vec![("A", String::from("S.O"))]).unwrap();
    let copy = rpc.clone();
    let req = Request::new(Method::Post, "/").with_target("S.O");
    assert_eq!(call(&copy, &req), Ok("A"));
    assert_eq!(copy.protocol(), Protocol::AwsJson1_1);
}

#[test]
fn label_takes_an_empty_segment() {
    let spec = RequestSpec::from_parts(Method::Get, vec![lit("a"), PathSegment::Label], Vec::new());
    assert_eq!(spec.matches(&Request::new(Method::Get, "/a/")), Match::Yes);
    assert_eq!(spec.matches(&Request::new(Method::Get, "/a")), Match::No);
}
