use mock_server::patterns::is_valid_glob;
use mock_server::config::{
    BodyMatcher, HeaderMatcher, PathMatcher, QueryMatcher, RequestMatcher, ResponseDefinition,
    StubDefinition,
};
use mock_server::matcher::Matcher;
use mock_server::path_template::PathTemplate;
use mock_server::query::{parse_query_string, urlencoding_decode};

fn make_stub(id: &str, path: PathMatcher) -> StubDefinition {
    StubDefinition {
        id: id.to_string(),
        name: None,
        request: RequestMatcher {
            method: vec![],
            path: Some(path),
            query: Vec::new(),
            headers: Vec::new(),
            body: None,
        },
        response: ResponseDefinition {
            status: 200,
            headers: Vec::new(),
            body: None,
            template: false,
        },
        priority: 0,
        enabled: true,
        max_matches: 0,
        delay: None,
        fault: None,
    }
}

fn no_headers() -> Vec<(String, String)> {
    Vec::new()
}

#[test]
fn test_exact_path_matching() {
    let stubs = vec![make_stub(
        "exact",
        PathMatcher::Exact {
            value: "/api/users".to_string(),
        },
    )];
    let matcher = Matcher::new(&stubs);

    let result = matcher.find_match(&stubs, "GET", "/api/users", None, &no_headers(), None);
    assert!(result.is_some());

    let result = matcher.find_match(&stubs, "GET", "/api/posts", None, &no_headers(), None);
    assert!(result.is_none());
}

#[test]
fn test_prefix_path_matching() {
    let stubs = vec![make_stub(
        "prefix",
        PathMatcher::Prefix {
            value: "/api/".to_string(),
        },
    )];
    let matcher = Matcher::new(&stubs);

    let result = matcher.find_match(&stubs, "GET", "/api/users", None, &no_headers(), None);
    assert!(result.is_some());

    let result = matcher.find_match(&stubs, "GET", "/api/posts/123", None, &no_headers(), None);
    assert!(result.is_some());

    let result = matcher.find_match(&stubs, "GET", "/other", None, &no_headers(), None);
    assert!(result.is_none());
}

#[test]
fn test_template_path_matching() {
    let stubs = vec![make_stub(
        "template",
        PathMatcher::Template {
            template: "/users/{id}".to_string(),
        },
    )];
    let matcher = Matcher::new(&stubs);

    let result = matcher.find_match(&stubs, "GET", "/users/123", None, &no_headers(), None);
    assert!(result.is_some());
    let ctx = result.unwrap().context;
    assert_eq!(ctx.path_params.get("id"), Some(&"123".to_string()));

    let result = matcher.find_match(&stubs, "GET", "/users/", None, &no_headers(), None);
    assert!(result.is_none());
}

#[test]
fn test_method_matching() {
    let mut stub = make_stub(
        "method",
        PathMatcher::Exact {
            value: "/api/users".to_string(),
        },
    );
    stub.request.method = vec!["GET".to_string(), "POST".to_string()];

    let stubs = vec![stub];
    let matcher = Matcher::new(&stubs);

    let result = matcher.find_match(&stubs, "GET", "/api/users", None, &no_headers(), None);
    assert!(result.is_some());

    let result = matcher.find_match(&stubs, "DELETE", "/api/users", None, &no_headers(), None);
    assert!(result.is_none());
}

#[test]
fn test_query_matching() {
    let mut stub = make_stub(
        "query",
        PathMatcher::Exact {
            value: "/api/users".to_string(),
        },
    );
    stub.request.query.push((
        "page".to_string(),
        QueryMatcher::Exact {
            value: "1".to_string(),
        },
    ));

    let stubs = vec![stub];
    let matcher = Matcher::new(&stubs);

    let result = matcher.find_match(&stubs, "GET", "/api/users", Some("page=1"), &no_headers(), None);
    assert!(result.is_some());

    let result = matcher.find_match(&stubs, "GET", "/api/users", Some("page=2"), &no_headers(), None);
    assert!(result.is_none());
}

#[test]
fn test_header_matching() {
    let mut stub = make_stub(
        "header",
        PathMatcher::Exact {
            value: "/api/users".to_string(),
        },
    );
    stub.request.headers.push(("authorization".to_string(), HeaderMatcher::Present));

    let stubs = vec![stub];
    let matcher = Matcher::new(&stubs);

    let headers = vec![("Authorization".to_string(), "Bearer token".to_string())];

    let result = matcher.find_match(&stubs, "GET", "/api/users", None, &headers, None);
    assert!(result.is_some());

    let result = matcher.find_match(&stubs, "GET", "/api/users", None, &no_headers(), None);
    assert!(result.is_none());
}

#[test]
fn test_priority_matching() {
    let mut stub1 = make_stub(
        "low-priority",
        PathMatcher::Prefix {
            value: "/api/".to_string(),
        },
    );
    stub1.priority = 0;

    let mut stub2 = make_stub(
        "high-priority",
        PathMatcher::Exact {
            value: "/api/users".to_string(),
        },
    );
    stub2.priority = 10;

    let stubs = vec![stub1, stub2];
    let matcher = Matcher::new(&stubs);

    let result = matcher.find_match(&stubs, "GET", "/api/users", None, &no_headers(), None);
    assert!(result.is_some());
    assert_eq!(stubs[result.unwrap().stub_index].id, "high-priority");
}

#[test]
fn test_body_json_matching() {
    let mut stub = make_stub(
        "json-body",
        PathMatcher::Exact {
            value: "/api/users".to_string(),
        },
    );
    stub.request.body = Some(BodyMatcher::Json);

    let stubs = vec![stub];
    let matcher = Matcher::new(&stubs);

    let body = br#"{"name": "John"}"#;
    let result = matcher.find_match(&stubs, "POST", "/api/users", None, &no_headers(), Some(body));
    assert!(result.is_some());

    let body = b"not json";
    let result = matcher.find_match(&stubs, "POST", "/api/users", None, &no_headers(), Some(body));
    assert!(result.is_none());
}

#[test]
fn test_parse_query_string() {
    let params = parse_query_string("foo=bar&baz=qux").unwrap();
    assert_eq!(params.get("foo"), Some(&"bar".to_string()));
    assert_eq!(params.get("baz"), Some(&"qux".to_string()));

    let params = parse_query_string("name=John%20Doe").unwrap();
    assert_eq!(params.get("name"), Some(&"John Doe".to_string()));
}

#[test]
fn query_keys_without_value_and_empty_segments() {
    let params = parse_query_string("a&&b=1&a=2+3").unwrap();
    assert_eq!(params.get("a"), Some(&"2 3".to_string()));
    assert_eq!(params.get("b"), Some(&"1".to_string()));
    assert_eq!(params.len(), 3);
    let params = parse_query_string("flag").unwrap();
    assert_eq!(params.get("flag"), Some(&String::new()));
    assert_eq!(parse_query_string("").unwrap().len(), 0);
    assert!(parse_query_string("ok=1&bad=%FF").is_none());
}

#[test]
fn percent_decoding_edge_cases() {
    assert_eq!(urlencoding_decode("a%2Fb"), Some("a/b".to_string()));
    assert_eq!(urlencoding_decode("100%"), Some("100%".to_string()));
    assert_eq!(urlencoding_decode("%zz+x"), Some("%zz x".to_string()));
    assert_eq!(urlencoding_decode("%4"), Some("%4".to_string()));
    assert_eq!(urlencoding_decode("%C3%A9t%c3%a9"), Some("\u{e9}t\u{e9}".to_string()));
    assert_eq!(urlencoding_decode("caf\u{e9}+%E2%82%AC"), Some("caf\u{e9} \u{20ac}".to_string()));
    assert_eq!(urlencoding_decode("%e9"), None);
    assert_eq!(urlencoding_decode("%C3"), None);
}

#[test]
fn template_parse_and_strictly_next_literal() {
    let t = PathTemplate::parse("/a/{p}/b/{q}/c");
    let m = t.matches("/a/x/b/y/c").unwrap();
    assert_eq!(m.get("p"), Some(&"x".to_string()));
    assert_eq!(m.get("q"), Some(&"y".to_string()));
    assert!(t.matches("/a//b/y/c").is_none());
    assert!(t.matches("/a/x/b/y/c/d").is_none());

    let t = PathTemplate::parse("/users/{id}/posts");
    let m = t.matches("/users/7/posts").unwrap();
    assert_eq!(m.get("id"), Some(&"7".to_string()));

    let t = PathTemplate::parse("/files/{name}");
    assert!(t.matches("/files/a/b").is_none());
}

#[test]
fn regex_path_records_numbered_and_named_captures() {
    let stubs = vec![make_stub(
        "re",
        PathMatcher::Regex {
            pattern: r"^/orders/(?P<order>\d+)/items/(\d+)$".to_string(),
        },
    )];
    let matcher = Matcher::new(&stubs);
    let m = matcher
        .find_match(&stubs, "GET", "/orders/42/items/7", None, &no_headers(), None)
        .unwrap();
    assert_eq!(m.context.captures.get("1"), Some(&"42".to_string()));
    assert_eq!(m.context.captures.get("2"), Some(&"7".to_string()));
    assert_eq!(m.context.captures.get("order"), Some(&"42".to_string()));
    assert!(matcher
        .find_match(&stubs, "GET", "/orders/x/items/7", None, &no_headers(), None)
        .is_none());
}

#[test]
fn glob_path_matching() {
    let stubs = vec![make_stub(
        "glob",
        PathMatcher::Glob {
            pattern: "/static/*.css".to_string(),
        },
    )];
    let matcher = Matcher::new(&stubs);
    assert!(matcher.find_match(&stubs, "GET", "/static/site.css", None, &no_headers(), None).is_some());
    assert!(matcher.find_match(&stubs, "GET", "/static/site.js", None, &no_headers(), None).is_none());
}

#[test]
fn disabled_stub_is_skipped_and_ties_keep_catalog_order() {
    let mut first = make_stub("first", PathMatcher::Prefix { value: "/".to_string() });
    let second = make_stub("second", PathMatcher::Prefix { value: "/".to_string() });
    let third = make_stub("third", PathMatcher::Prefix { value: "/".to_string() });
    let stubs = vec![first.clone(), second, third];
    let matcher = Matcher::new(&stubs);
    let m = matcher.find_match(&stubs, "GET", "/x", None, &no_headers(), None).unwrap();
    assert_eq!(m.stub_index, 0);

    first.enabled = false;
    let stubs = vec![first, make_stub("second", PathMatcher::Prefix { value: "/".to_string() })];
    let matcher = Matcher::new(&stubs);
    let m = matcher.find_match(&stubs, "GET", "/x", None, &no_headers(), None).unwrap();
    assert_eq!(stubs[m.stub_index].id, "second");
}

#[test]
fn header_and_query_clause_variants() {
    let mut stub = make_stub("h", PathMatcher::Exact { value: "/h".to_string() });
    stub.request.headers.push((
        "X-Token".to_string(),
        HeaderMatcher::Regex { pattern: "^ab+c$".to_string() },
    ));
    stub.request.headers.push((
        "user-agent".to_string(),
        HeaderMatcher::Contains { value: "curl".to_string() },
    ));
    stub.request.headers.push(("x-debug".to_string(), HeaderMatcher::Absent));
    stub.request.query.push(("q".to_string(), QueryMatcher::Regex { pattern: "^[0-9]+$".to_string() }));
    stub.request.query.push(("skip".to_string(), QueryMatcher::Absent));
    let stubs = vec![stub];
    let matcher = Matcher::new(&stubs);
    let headers = vec![
        ("x-token".to_string(), "abbbc".to_string()),
        ("User-Agent".to_string(), "curl/8.0".to_string()),
    ];
    assert!(matcher.find_match(&stubs, "GET", "/h", Some("q=12"), &headers, None).is_some());
    assert!(matcher.find_match(&stubs, "GET", "/h", Some("q=12&skip"), &headers, None).is_none());
    assert!(matcher.find_match(&stubs, "GET", "/h", Some("q=x"), &headers, None).is_none());
    let mut with_debug = headers.clone();
    with_debug.push(("X-Debug".to_string(), "1".to_string()));
    assert!(matcher.find_match(&stubs, "GET", "/h", Some("q=1"), &with_debug, None).is_none());
}

#[test]
fn invalid_request_time_regex_matches_nothing() {
    let mut stub = make_stub("bad", PathMatcher::Exact { value: "/b".to_string() });
    stub.request.query.push(("q".to_string(), QueryMatcher::Regex { pattern: "(".to_string() }));
    let stubs = vec![stub];
    let matcher = Matcher::new(&stubs);
    assert!(matcher.find_match(&stubs, "GET", "/b", Some("q=("), &no_headers(), None).is_none());
}

#[test]
fn body_clause_variants() {
    let mut exact = make_stub("e", PathMatcher::Exact { value: "/e".to_string() });
    exact.request.body = Some(BodyMatcher::Exact { value: "ping".to_string() });
    let mut empty = make_stub("m", PathMatcher::Exact { value: "/m".to_string() });
    empty.request.body = Some(BodyMatcher::Empty);
    let mut jp = make_stub("j", PathMatcher::Exact { value: "/j".to_string() });
    jp.request.body = Some(BodyMatcher::JsonPath {
        expressions: vec![
            ("$.user.name".to_string(), "[\"ann\"]".to_string()),
            ("$.user.id".to_string(), "null".to_string()),
        ],
    });
    let stubs = vec![exact, empty, jp];
    let matcher = Matcher::new(&stubs);
    let h = no_headers();
    assert!(matcher.find_match(&stubs, "POST", "/e", None, &h, Some(b"ping")).is_some());
    assert!(matcher.find_match(&stubs, "POST", "/e", None, &h, Some(b"pong")).is_none());
    assert!(matcher.find_match(&stubs, "POST", "/e", None, &h, Some(&[0xff, 0xfe])).is_none());
    assert!(matcher.find_match(&stubs, "POST", "/m", None, &h, None).is_some());
    assert!(matcher.find_match(&stubs, "POST", "/m", None, &h, Some(b"")).is_some());
    assert!(matcher.find_match(&stubs, "POST", "/m", None, &h, Some(b"x")).is_none());
    let doc = br#"{"user":{"name":"ann","id":5}}"#;
    assert!(matcher.find_match(&stubs, "POST", "/j", None, &h, Some(doc)).is_some());
    let other = br#"{"user":{"name":"bob","id":5}}"#;
    assert!(matcher.find_match(&stubs, "POST", "/j", None, &h, Some(other)).is_none());
    let no_id = br#"{"user":{"name":"ann"}}"#;
    assert!(matcher.find_match(&stubs, "POST", "/j", None, &h, Some(no_id)).is_none());
}

#[test]
fn json_path_union_with_negative_index_matches_nothing() {
    let mut stub = make_stub("u", PathMatcher::Exact { value: "/u".to_string() });
    stub.request.body = Some(BodyMatcher::JsonPath {
        expressions: vec![("$[-1,0]".to_string(), "null".to_string())],
    });
    let stubs = vec![stub];
    let matcher = Matcher::new(&stubs);
    assert!(matcher.find_match(&stubs, "POST", "/u", None, &no_headers(), Some(b"[1,2]")).is_none());
}

#[test]
fn huge_literal_glob_is_invalid_not_fatal() {
    assert!(is_valid_glob("/static/**/*.css"));
    assert!(!is_valid_glob("a["));
}

#[test]
fn malformed_query_fails_query_clauses_only() {
    let mut with_clause = make_stub("q", PathMatcher::Exact { value: "/q".to_string() });
    with_clause.request.query.push(("x".to_string(), QueryMatcher::Absent));
    with_clause.priority = 1;
    let without = make_stub("plain", PathMatcher::Exact { value: "/q".to_string() });
    let stubs = vec![with_clause, without];
    let matcher = Matcher::new(&stubs);
    let m = matcher.find_match(&stubs, "GET", "/q", Some("y=%C3%A9"), &no_headers(), None).unwrap();
    assert_eq!(m.stub_index, 0);
    assert_eq!(m.context.query_params.get("y"), Some(&"\u{e9}".to_string()));
    let m = matcher.find_match(&stubs, "GET", "/q", Some("y=%FF"), &no_headers(), None).unwrap();
    assert_eq!(m.stub_index, 1);
    assert_eq!(m.context.query_params.len(), 0);
}
