use mock_server::response::{corrupts, plan_drawn};
use mock_server::json::is_safe_json_path;
use mock_server::config::{
    default_content_type, default_status, default_true, BodyError, ConfigError, DelayConfig,
    FaultConfig, GlobalSettings, MockServerConfig, PathMatcher, RequestMatcher, ResponseBody,
    ResponseDefinition, StubDefinition, ValidationError,
};
use mock_server::response::{slow_response_delay, Plan};
use mock_server::response::plan_stub;

fn stub(id: &str, path: Option<PathMatcher>, status: u16) -> StubDefinition {
    StubDefinition {
        id: id.to_string(),
        name: None,
        request: RequestMatcher {
            method: Vec::new(),
            path,
            query: Vec::new(),
            headers: Vec::new(),
            body: None,
        },
        response: ResponseDefinition { status, headers: Vec::new(), body: None, template: false },
        priority: 0,
        enabled: true,
        max_matches: 0,
        delay: None,
        fault: None,
    }
}

fn config(stubs: Vec<StubDefinition>) -> MockServerConfig {
    MockServerConfig { stubs, settings: GlobalSettings::default(), default_response: None }
}

#[test]
fn test_delay_calculation() {
    let fixed = DelayConfig { fixed_ms: 100, min_ms: 0, max_ms: 0 };
    assert_eq!(fixed.calculate(), 100);

    let range = DelayConfig { fixed_ms: 0, min_ms: 50, max_ms: 150 };
    let delay = range.calculate();
    assert!((50..=150).contains(&delay));
}

#[test]
fn delay_with_empty_range_is_min() {
    let d = DelayConfig { fixed_ms: 0, min_ms: 70, max_ms: 20 };
    assert_eq!(d.calculate(), 70);
}

#[test]
fn test_response_body_to_bytes() {
    let text = ResponseBody::Text { content: "hello".to_string() };
    assert_eq!(text.to_bytes().unwrap(), b"hello");

    let json = ResponseBody::Json { content: r#"{"key":"value"}"#.to_string() };
    let bytes = json.to_bytes().unwrap();
    assert!(String::from_utf8(bytes).unwrap().contains("key"));
}

#[test]
fn static_json_body_reparses_to_the_same_value() {
    let mut object = serde_json::Map::new();
    object.insert("key".to_string(), serde_json::Value::String("value".to_string()));
    object.insert("n".to_string(), serde_json::Value::from(3));
    let original = serde_json::Value::Object(object);
    let body = ResponseBody::Json { content: serde_json::to_string(&original).unwrap() };
    let bytes = body.to_bytes().unwrap();
    let reparsed: serde_json::Value = serde_json::from_slice(&bytes).unwrap();
    assert_eq!(reparsed, original);
}

#[test]
fn base64_and_file_bodies() {
    let b = ResponseBody::Base64 { content: "aGk=".to_string() };
    assert_eq!(b.to_bytes().unwrap(), b"hi".to_vec());
    let bad = ResponseBody::Base64 { content: "***".to_string() };
    assert_eq!(bad.to_bytes(), Err(BodyError::InvalidBase64));
    let f = ResponseBody::File { path: "/tmp/x".to_string() };
    assert_eq!(f.to_bytes(), Err(BodyError::FileBody));
}

#[test]
fn body_content_types() {
    assert_eq!(ResponseBody::Text { content: String::new() }.content_type(), "text/plain");
    assert_eq!(ResponseBody::Json { content: String::new() }.content_type(), "application/json");
    assert_eq!(ResponseBody::Base64 { content: String::new() }.content_type(), "application/octet-stream");
    assert_eq!(ResponseBody::File { path: String::new() }.content_type(), "application/octet-stream");
}

#[test]
fn defaults() {
    assert!(default_true());
    assert_eq!(default_status(), 200);
    assert_eq!(default_content_type(), "application/json");
    let s = GlobalSettings::default();
    assert!(s.log_matches && s.log_unmatched && s.case_insensitive_headers);
    assert!(!s.passthrough_unmatched);
    assert_eq!(s.default_content_type, "application/json");
    let empty = MockServerConfig::empty();
    assert!(empty.stubs.is_empty() && empty.default_response.is_none());
}

#[test]
fn validation_accepts_a_good_catalog() {
    let c = config(vec![
        stub("a", Some(PathMatcher::Regex { pattern: "^/a/\\d+$".to_string() }), 200),
        stub("b", Some(PathMatcher::Glob { pattern: "/b/**".to_string() }), 599),
        stub("c", None, 100),
    ]);
    assert_eq!(c.validate(), Ok(()));
}

#[test]
fn validation_errors() {
    let c = config(vec![stub("ok", None, 200), stub("", None, 200)]);
    assert_eq!(c.validate(), Err(ConfigError { stub: 1, error: ValidationError::EmptyId }));

    let c = config(vec![stub("a", None, 200), stub("a", None, 200)]);
    assert_eq!(c.validate(), Err(ConfigError { stub: 1, error: ValidationError::DuplicateId }));

    let c = config(vec![stub("r", Some(PathMatcher::Regex { pattern: "(".to_string() }), 200)]);
    assert_eq!(c.validate(), Err(ConfigError { stub: 0, error: ValidationError::InvalidRegex }));

    let c = config(vec![stub("g", Some(PathMatcher::Glob { pattern: "a[".to_string() }), 200)]);
    assert_eq!(c.validate(), Err(ConfigError { stub: 0, error: ValidationError::InvalidGlob }));

    let c = config(vec![stub("s", None, 600)]);
    assert_eq!(c.validate(), Err(ConfigError { stub: 0, error: ValidationError::InvalidStatus { status: 600 } }));
    let c = config(vec![stub("s", None, 99)]);
    assert_eq!(c.validate(), Err(ConfigError { stub: 0, error: ValidationError::InvalidStatus { status: 99 } }));
}

#[test]
fn slow_response_pacing() {
    assert_eq!(slow_response_delay(100, 1000), 100);
    assert_eq!(slow_response_delay(1, 3), 334);
    assert_eq!(slow_response_delay(5, 0), 5000);
    assert_eq!(slow_response_delay(u64::MAX, 1), u64::MAX);

    let mut s = stub("slow", None, 200);
    s.response.body = Some(ResponseBody::Text { content: "abcd".to_string() });
    s.fault = Some(FaultConfig::SlowResponse { bytes_per_second: 8 });
    assert!(matches!(plan_stub(&s, None), Plan::Normal { sleep_ms: 500, render: false }));
    s.response.body = None;
    assert!(matches!(plan_stub(&s, None), Plan::Normal { sleep_ms: 12500, render: false }));
}

#[test]
fn timeout_empty_and_corrupt_faults() {
    let mut s = stub("f", None, 200);
    s.fault = Some(FaultConfig::Timeout { duration_ms: 250 });
    match plan_stub(&s, None) {
        Plan::Fixed { sleep_ms, reply } => {
            assert_eq!(sleep_ms, 250);
            assert_eq!(reply.status, 504);
            assert_eq!(reply.body, Some(b"Gateway Timeout (simulated)".to_vec()));
        }
        Plan::Normal { .. } => panic!("expected a timeout reply"),
    }
    s.fault = Some(FaultConfig::Empty);
    match plan_stub(&s, None) {
        Plan::Fixed { reply, .. } => {
            assert_eq!(reply.status, 200);
            assert_eq!(reply.body, Some(Vec::new()));
            assert_eq!(reply.metadata[1], ("fault_type".to_string(), "empty".to_string()));
        }
        Plan::Normal { .. } => panic!("expected an empty reply"),
    }
    s.fault = Some(FaultConfig::Corrupt { probability_ppm: 1_000_000 });
    match plan_stub(&s, None) {
        Plan::Fixed { reply, .. } => {
            let body = reply.body.unwrap();
            assert!(body.len() >= 50 && body.len() <= 199);
            assert!(body.iter().all(|b| (0x20..=0x7e).contains(b)));
        }
        Plan::Normal { .. } => panic!("expected a corrupt reply"),
    }
    s.fault = Some(FaultConfig::Corrupt { probability_ppm: 0 });
    assert!(matches!(plan_stub(&s, None), Plan::Normal { sleep_ms: 0, render: false }));
}

#[test]
fn draws_decide_delay_and_corruption() {
    let d = DelayConfig { fixed_ms: 0, min_ms: 10, max_ms: 20 };
    assert_eq!(d.delay_for(17), 17);
    assert_eq!(DelayConfig { fixed_ms: 5, min_ms: 10, max_ms: 20 }.delay_for(17), 5);
    assert_eq!(DelayConfig { fixed_ms: 0, min_ms: 30, max_ms: 20 }.delay_for(17), 30);
    assert!(corrupts(499_999, 500_000));
    assert!(!corrupts(500_000, 500_000));

    let mut s = stub("c", None, 200);
    s.fault = Some(FaultConfig::Corrupt { probability_ppm: 500_000 });
    match plan_drawn(&s, None, 0, 10, b"garbage!".to_vec()) {
        Plan::Fixed { reply, .. } => assert_eq!(reply.body, Some(b"garbage!".to_vec())),
        Plan::Normal { .. } => panic!("expected corruption"),
    }
    assert!(matches!(plan_drawn(&s, None, 0, 600_000, Vec::new()), Plan::Normal { sleep_ms: 0, render: false }));
    s.fault = None;
    s.delay = Some(d);
    assert!(matches!(plan_drawn(&s, None, 13, 0, Vec::new()), Plan::Normal { sleep_ms: 13, render: false }));
}

#[test]
fn unsafe_json_paths_are_not_evaluated() {
    assert!(is_safe_json_path("$.user.name"));
    assert!(is_safe_json_path("$.items[0].id"));
    assert!(!is_safe_json_path("$[-1,0]"));
    assert!(!is_safe_json_path("$[0:2:0]"));
    assert!(!is_safe_json_path("$[99999999999999999999]"));
    assert!(is_safe_json_path("$[999999999999999999]"));
    assert!(is_safe_json_path("$['a','b']"));
    assert!(is_safe_json_path("$[?(@.name == 'x:0,-1.5')]"));
    assert!(is_safe_json_path("$[?(@.tag in ['a','b'])]"));
    assert!(is_safe_json_path("$[1,2]"));
    assert!(!is_safe_json_path("$[1.5,2]"));
    assert!(!is_safe_json_path("$[1e3,2]"));
    assert!(!is_safe_json_path("$[0: 0]"));
}
