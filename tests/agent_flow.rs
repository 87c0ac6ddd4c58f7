use mock_server::agent::{EventType, HttpRequest, MockServerAgent, RequestOutcome};
use mock_server::config::{
    DelayConfig, FaultConfig, GlobalSettings, MockServerConfig, PathMatcher, RequestMatcher,
    ResponseBody, ResponseDefinition, StubDefinition,
};
use mock_server::response::Plan;

fn stub(id: &str, method: &[&str], path: PathMatcher, response: ResponseDefinition) -> StubDefinition {
    StubDefinition {
        id: id.to_string(),
        name: None,
        request: RequestMatcher {
            method: method.iter().map(|m| m.to_string()).collect(),
            path: Some(path),
            query: Vec::new(),
            headers: Vec::new(),
            body: None,
        },
        response,
        priority: 0,
        enabled: true,
        max_matches: 0,
        delay: None,
        fault: None,
    }
}

fn response(body: Option<ResponseBody>, template: bool) -> ResponseDefinition {
    ResponseDefinition { status: 200, headers: Vec::new(), body, template }
}

fn text(s: &str) -> Option<ResponseBody> {
    Some(ResponseBody::Text { content: s.to_string() })
}

fn test_config() -> MockServerConfig {
    let hello = stub(
        "hello",
        &["GET"],
        PathMatcher::Exact { value: "/hello".to_string() },
        response(text("Hello, World!"), false),
    );
    let user = stub(
        "user-by-id",
        &["GET"],
        PathMatcher::Template { template: "/users/{id}".to_string() },
        response(
            Some(ResponseBody::Json {
                content: r#"{"id":"{{path.id}}","name":"User {{path.id}}"}"#.to_string(),
            }),
            true,
        ),
    );
    let mut error = stub(
        "error-endpoint",
        &[],
        PathMatcher::Exact { value: "/error".to_string() },
        response(None, false),
    );
    error.fault = Some(FaultConfig::Error {
        status: 500,
        message: Some("Internal Server Error".to_string()),
    });
    let mut delayed = stub(
        "delayed-endpoint",
        &[],
        PathMatcher::Exact { value: "/slow".to_string() },
        response(text("Delayed response"), false),
    );
    delayed.delay = Some(DelayConfig { fixed_ms: 100, min_ms: 0, max_ms: 0 });
    let mut settings = GlobalSettings::default();
    settings.passthrough_unmatched = false;
    MockServerConfig { stubs: vec![hello, user, error, delayed], settings, default_response: None }
}

fn get(path: &str) -> HttpRequest {
    HttpRequest {
        method: "GET".to_string(),
        path: path.to_string(),
        query_string: None,
        headers: Vec::new(),
        body: None,
    }
}

fn header<'a>(headers: &'a [(String, String)], name: &str) -> Option<&'a str> {
    headers.iter().find(|(k, _)| k == name).map(|(_, v)| v.as_str())
}

#[test]
fn test_agent_creation() {
    let config = test_config();
    let agent = MockServerAgent::new(config);
    assert_eq!(agent.config().stubs.len(), 4);
}

#[test]
fn test_simple_match() {
    let mut agent = MockServerAgent::new(test_config());
    match agent.on_request(&get("/hello")) {
        RequestOutcome::Stub(m) => assert_eq!(agent.stub(m.stub_index).id, "hello"),
        _ => panic!("expected a stub"),
    }
}

#[test]
fn test_template_match() {
    let mut agent = MockServerAgent::new(test_config());
    match agent.on_request(&get("/users/123")) {
        RequestOutcome::Stub(m) => {
            assert_eq!(agent.stub(m.stub_index).id, "user-by-id");
            assert_eq!(m.context.path_params.get("id"), Some(&"123".to_string()));
        }
        _ => panic!("expected a stub"),
    }
}

#[test]
fn test_no_match() {
    let mut agent = MockServerAgent::new(test_config());
    assert!(matches!(agent.on_request(&get("/nonexistent")), RequestOutcome::Default));
}

#[test]
fn test_max_matches() {
    let mut config = test_config();
    config.stubs[0].max_matches = 2;
    let mut agent = MockServerAgent::new(config);
    for _ in 0..2 {
        assert!(matches!(agent.on_request(&get("/hello")), RequestOutcome::Stub(_)));
    }
    assert!(agent.is_stub_exhausted(0));
    assert!(matches!(agent.on_request(&get("/hello")), RequestOutcome::Default));
    assert_eq!(agent.match_count(0), 2);
    assert_eq!(agent.total_matched(), 2);
    assert_eq!(agent.total_unmatched(), 1);
}

#[test]
fn test_v2_capabilities() {
    let agent = MockServerAgent::new(test_config());
    let caps = agent.capabilities();
    assert_eq!(caps.agent_id, "mock-server");
    assert_eq!(caps.name, "Mock Server Agent");
    assert!(caps.features.config_push);
    assert!(caps.features.health_reporting);
    assert!(caps.features.metrics_export);
    assert_eq!(caps.features.concurrent_requests, 100);
    assert!(caps.features.cancellation);
    assert_eq!(caps.features.max_processing_time_ms, 5000);
    assert_eq!(caps.events, vec![EventType::RequestHeaders]);
    assert_eq!(agent.name(), "mock-server");
}

#[test]
fn test_v2_health_status() {
    let agent = MockServerAgent::new(test_config());
    let health = agent.health_status();
    assert!(health.is_healthy());
    assert_eq!(health.agent_id, "mock-server");
}

#[test]
fn test_v2_health_status_draining() {
    let mut agent = MockServerAgent::new(test_config());
    agent.on_drain(5000);
    let health = agent.health_status();
    assert!(!health.is_healthy());
    assert_eq!(health.degraded, vec!["stubbing".to_string()]);
}

#[test]
fn test_v2_metrics_report() {
    let agent = MockServerAgent::new(test_config());
    let report = agent.metrics_report();
    assert!(report.is_some());
    let report = report.unwrap();
    assert_eq!(report.agent_id, "mock-server");
    assert!(!report.counters.is_empty());
    assert!(!report.gauges.is_empty());
}

#[test]
fn metrics_values() {
    let mut config = test_config();
    config.stubs[3].enabled = false;
    let mut agent = MockServerAgent::new(config);
    agent.on_request(&get("/hello"));
    agent.on_request(&get("/nowhere"));
    let report = agent.metrics_report().unwrap();
    assert_eq!(report.interval_ms, 10_000);
    assert_eq!(
        report.counters,
        vec![
            ("mock_server_requests_total".to_string(), 2),
            ("mock_server_requests_matched_total".to_string(), 1),
            ("mock_server_requests_unmatched_total".to_string(), 1),
        ]
    );
    assert_eq!(
        report.gauges,
        vec![
            ("mock_server_stubs_configured".to_string(), 4),
            ("mock_server_stubs_enabled".to_string(), 3),
            ("mock_server_agent_draining".to_string(), 0),
        ]
    );
}

#[test]
fn test_draining_flag() {
    let mut agent = MockServerAgent::new(test_config());
    assert!(!agent.is_draining());
    agent.on_shutdown(30000);
    assert!(agent.is_draining());
}

#[test]
fn test_request_counters() {
    let mut agent = MockServerAgent::new(test_config());
    assert_eq!(agent.total_requests(), 0);
    assert_eq!(agent.total_matched(), 0);
    assert_eq!(agent.total_unmatched(), 0);
    agent.on_request(&get("/hello"));
    assert_eq!(agent.total_requests(), 1);
    assert_eq!(agent.total_matched(), 1);
}

#[test]
fn hello_scenario() {
    let mut agent = MockServerAgent::new(test_config());
    let m = match agent.on_request(&get("/hello")) {
        RequestOutcome::Stub(m) => m,
        _ => panic!("expected a stub"),
    };
    match agent.plan(m.stub_index, None) {
        Plan::Normal { sleep_ms, render } => {
            assert_eq!(sleep_ms, 0);
            assert!(!render);
        }
        Plan::Fixed { .. } => panic!("expected the stub's own reply"),
    }
    let reply = agent.finish_reply(m.stub_index, None, None);
    assert_eq!(reply.status, 200);
    assert_eq!(reply.body, Some(b"Hello, World!".to_vec()));
    assert_eq!(header(&reply.headers, "Content-Type"), Some("text/plain"));
    assert_eq!(reply.tags, vec!["mocked".to_string()]);
    assert_eq!(reply.metadata, vec![("stub_id".to_string(), "hello".to_string())]);
}

#[test]
fn user_template_scenario() {
    let mut agent = MockServerAgent::new(test_config());
    let m = match agent.on_request(&get("/users/123")) {
        RequestOutcome::Stub(m) => m,
        _ => panic!("expected a stub"),
    };
    assert!(matches!(agent.plan(m.stub_index, None), Plan::Normal { sleep_ms: 0, render: true }));
    let rendered = br#"{"id":"123","name":"User 123"}"#.to_vec();
    let reply = agent.finish_reply(m.stub_index, Some(rendered.clone()), None);
    assert_eq!(reply.status, 200);
    assert_eq!(reply.body, Some(rendered));
    assert_eq!(header(&reply.headers, "Content-Type"), Some("application/json"));
    let fallback = agent.finish_reply(m.stub_index, None, None);
    assert_eq!(fallback.body, Some(br#"{"id":"{{path.id}}","name":"User {{path.id}}"}"#.to_vec()));
}

#[test]
fn error_fault_scenario() {
    let mut agent = MockServerAgent::new(test_config());
    let m = match agent.on_request(&get("/error")) {
        RequestOutcome::Stub(m) => m,
        _ => panic!("expected a stub"),
    };
    match agent.plan(m.stub_index, None) {
        Plan::Fixed { sleep_ms, reply } => {
            assert_eq!(sleep_ms, 0);
            assert_eq!(reply.status, 500);
            assert_eq!(reply.body, Some(b"Internal Server Error".to_vec()));
            assert_eq!(reply.tags, vec!["mocked".to_string(), "fault_injected".to_string()]);
            assert_eq!(
                reply.metadata,
                vec![
                    ("stub_id".to_string(), "error-endpoint".to_string()),
                    ("fault_type".to_string(), "error".to_string()),
                ]
            );
            assert_eq!(header(&reply.headers, "Content-Type"), Some("text/plain"));
        }
        Plan::Normal { .. } => panic!("expected a fault reply"),
    }
}

#[test]
fn slow_scenario() {
    let mut agent = MockServerAgent::new(test_config());
    let m = match agent.on_request(&get("/slow")) {
        RequestOutcome::Stub(m) => m,
        _ => panic!("expected a stub"),
    };
    assert!(matches!(agent.plan(m.stub_index, None), Plan::Normal { sleep_ms: 100, render: false }));
    let reply = agent.finish_reply(m.stub_index, None, None);
    assert_eq!(reply.status, 200);
    assert_eq!(reply.body, Some(b"Delayed response".to_vec()));
}

#[test]
fn not_found_scenario() {
    let mut agent = MockServerAgent::new(test_config());
    assert!(matches!(agent.on_request(&get("/nowhere")), RequestOutcome::Default));
    let reply = agent.default_reply(None);
    assert_eq!(reply.status, 404);
    assert_eq!(
        reply.body,
        Some(br#"{"error":"not_found","message":"No matching stub found"}"#.to_vec())
    );
    assert_eq!(reply.tags, vec!["mocked".to_string(), "not_found".to_string()]);
    assert_eq!(header(&reply.headers, "Content-Type"), Some("application/json"));
}

#[test]
fn drained_agent_passes_everything_through() {
    let mut agent = MockServerAgent::new(test_config());
    agent.on_drain(1000);
    assert!(matches!(agent.on_request(&get("/hello")), RequestOutcome::Allow));
    assert!(matches!(agent.on_request(&get("/nowhere")), RequestOutcome::Allow));
    assert_eq!(agent.total_requests(), 2);
    assert_eq!(agent.total_matched(), 0);
    assert_eq!(agent.total_unmatched(), 0);
    assert_eq!(agent.match_count(0), 0);
}

#[test]
fn passthrough_and_default_response() {
    let mut config = test_config();
    config.settings.passthrough_unmatched = true;
    let mut agent = MockServerAgent::new(config);
    assert!(matches!(agent.on_request(&get("/nowhere")), RequestOutcome::Allow));
    assert_eq!(agent.total_unmatched(), 1);

    let mut config = test_config();
    config.default_response = Some(ResponseDefinition {
        status: 418,
        headers: vec![
            ("content-TYPE".to_string(), "text/x-teapot".to_string()),
            ("X-Extra".to_string(), "1".to_string()),
        ],
        body: text("short and stout"),
        template: false,
    });
    let mut agent = MockServerAgent::new(config);
    assert!(matches!(agent.on_request(&get("/nowhere")), RequestOutcome::Default));
    let reply = agent.default_reply(None);
    assert_eq!(reply.status, 418);
    assert_eq!(
        reply.headers,
        vec![
            ("Content-Type".to_string(), "text/x-teapot".to_string()),
            ("X-Extra".to_string(), "1".to_string()),
        ]
    );
    assert_eq!(reply.body, Some(b"short and stout".to_vec()));
    assert_eq!(reply.tags, vec!["mocked".to_string(), "default_response".to_string()]);
}

#[test]
fn every_request_counts_exactly_once() {
    let mut config = test_config();
    config.stubs[0].max_matches = 1;
    let mut agent = MockServerAgent::new(config);
    let paths = ["/hello", "/hello", "/users/9", "/nowhere", "/error"];
    for (n, p) in paths.iter().enumerate() {
        let before = (agent.total_matched(), agent.total_unmatched());
        agent.on_request(&get(p));
        let after = (agent.total_matched(), agent.total_unmatched());
        assert_eq!(agent.total_requests(), n as u64 + 1);
        assert_eq!(after.0 + after.1, before.0 + before.1 + 1);
    }
    assert_eq!(agent.total_matched(), 3);
    assert_eq!(agent.total_unmatched(), 2);
    assert_eq!(agent.match_count(0), 1);
}

#[test]
fn higher_priority_stub_wins_even_when_exhausted_is_reported() {
    let mut config = test_config();
    let mut catch_all = stub(
        "catch-all",
        &[],
        PathMatcher::Prefix { value: "/".to_string() },
        response(text("any"), false),
    );
    catch_all.priority = 5;
    catch_all.max_matches = 1;
    config.stubs.push(catch_all);
    let mut agent = MockServerAgent::new(config);
    match agent.on_request(&get("/hello")) {
        RequestOutcome::Stub(m) => assert_eq!(agent.stub(m.stub_index).id, "catch-all"),
        _ => panic!("expected the catch-all"),
    }
    // The cap does not let a lower-priority stub answer instead.
    assert!(matches!(agent.on_request(&get("/hello")), RequestOutcome::Default));
}

#[test]
fn from_config_validates() {
    assert!(MockServerAgent::from_config(test_config()).is_ok());
    let mut config = test_config();
    config.stubs[1].id = "hello".to_string();
    let err = MockServerAgent::from_config(config).err().unwrap();
    assert_eq!(err.stub, 1);
}

#[test]
fn json_template_without_placeholders_is_sent_statically() {
    let mut config = test_config();
    config.stubs[1].response.body = Some(ResponseBody::Json { content: r#"{"id":"fixed"}"#.to_string() });
    let mut agent = MockServerAgent::new(config);
    let m = match agent.on_request(&get("/users/5")) {
        RequestOutcome::Stub(m) => m,
        _ => panic!("expected a stub"),
    };
    assert!(matches!(agent.plan(m.stub_index, None), Plan::Normal { sleep_ms: 0, render: false }));
    let reply = agent.finish_reply(m.stub_index, Some(b"ignored".to_vec()), None);
    assert_eq!(reply.body, Some(br#"{"id":"fixed"}"#.to_vec()));
}

#[test]
fn response_phase_and_configuration_push() {
    let agent = MockServerAgent::new(test_config());
    assert!(matches!(agent.on_response(), RequestOutcome::Allow));
    assert_eq!(agent.on_configure("{\"stubs\":[]}"), Ok(()));
    assert_eq!(agent.config().stubs.len(), 4);
}
