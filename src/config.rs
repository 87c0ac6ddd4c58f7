//! The stub catalog and global settings, with their validation.
use vstd::prelude::*;
use base64::Engine;
use rand::Rng;
use crate::patterns::{regex_valid, glob_valid, is_valid_regex, is_valid_glob};
use crate::text::{str_eq, utf8_bytes};

verus! {

/// The whole configuration: stubs in catalog order, settings, and the reply
/// used when nothing matches.
#[derive(Clone, Debug)]
pub struct MockServerConfig {
    pub stubs: Vec<StubDefinition>,
    pub settings: GlobalSettings,
    pub default_response: Option<ResponseDefinition>,
}

/// One stub: a request pattern and the reply it produces.
#[derive(Clone, Debug)]
pub struct StubDefinition {
    pub id: String,
    pub name: Option<String>,
    pub request: RequestMatcher,
    pub response: ResponseDefinition,
    /// Higher is tried first.
    pub priority: i32,
    pub enabled: bool,
    /// How many times the stub may be used; 0 means no cap.
    pub max_matches: u32,
    pub delay: Option<DelayConfig>,
    pub fault: Option<FaultConfig>,
}

/// The clauses a request must all satisfy; an absent clause is satisfied.
#[derive(Clone, Debug)]
pub struct RequestMatcher {
    /// Accepted methods, compared up to ASCII case; empty accepts any.
    pub method: Vec<String>,
    pub path: Option<PathMatcher>,
    /// Query parameter name and its clause.
    pub query: Vec<(String, QueryMatcher)>,
    /// Header name (compared up to ASCII case) and its clause.
    pub headers: Vec<(String, HeaderMatcher)>,
    pub body: Option<BodyMatcher>,
}

#[derive(Clone, Debug)]
pub enum PathMatcher {
    Exact { value: String },
    Prefix { value: String },
    Regex { pattern: String },
    Glob { pattern: String },
    Template { template: String },
}

#[derive(Clone, Debug)]
pub enum QueryMatcher {
    Exact { value: String },
    Regex { pattern: String },
    Present,
    Absent,
}

#[derive(Clone, Debug)]
pub enum HeaderMatcher {
    Exact { value: String },
    Regex { pattern: String },
    Present,
    Absent,
    Contains { value: String },
}

#[derive(Clone, Debug)]
pub enum BodyMatcher {
    Exact { value: String },
    Regex { pattern: String },
    /// JSONPath expression and the expected value as compact JSON text; an
    /// expected `null` asks only that the expression finds something.
    JsonPath { expressions: Vec<(String, String)> },
    Contains { value: String },
    Json,
    Empty,
}

#[derive(Clone, Debug)]
pub struct ResponseDefinition {
    pub status: u16,
    pub headers: Vec<(String, String)>,
    pub body: Option<ResponseBody>,
    /// Whether text and JSON bodies are rendered as templates.
    pub template: bool,
}

#[derive(Clone, Debug)]
pub enum ResponseBody {
    Text { content: String },
    /// A JSON document as compact JSON text.
    Json { content: String },
    /// Bytes in standard Base64.
    Base64 { content: String },
    /// A file read when the reply is built.
    File { path: String },
}

#[derive(Clone, Debug)]
pub struct DelayConfig {
    pub fixed_ms: u64,
    pub min_ms: u64,
    pub max_ms: u64,
}

#[derive(Clone, Debug)]
pub enum FaultConfig {
    Error { status: u16, message: Option<String> },
    Timeout { duration_ms: u64 },
    Empty,
    /// Probability of corruption in millionths (1_000_000 is certain).
    Corrupt { probability_ppm: u32 },
    SlowResponse { bytes_per_second: u64 },
}

#[derive(Clone, Debug)]
pub struct GlobalSettings {
    /// Log each matched request.
    pub log_matches: bool,
    /// Log each unmatched request.
    pub log_unmatched: bool,
    /// Let unmatched requests through instead of the default reply.
    pub passthrough_unmatched: bool,
    /// The content type of a reply that declares none and has no body.
    pub default_content_type: String,
    /// Header names are always compared up to ASCII case; this setting is
    /// accepted and has no effect.
    pub case_insensitive_headers: bool,
}

/// What makes a stub unusable.
#[derive(PartialEq, Eq, Structural, Clone, Copy, Debug)]
pub enum ValidationError {
    EmptyId,
    DuplicateId,
    InvalidRegex,
    InvalidGlob,
    InvalidStatus { status: u16 },
}

/// A validation failure of the stub at index `stub`.
#[derive(PartialEq, Eq, Structural, Clone, Copy, Debug)]
pub struct ConfigError {
    pub stub: usize,
    pub error: ValidationError,
}

pub fn default_true() -> (r: bool)
    ensures
        r,
{
    true
}

pub fn default_status() -> (r: u16)
    ensures
        r == 200,
{
    200
}

pub fn default_content_type() -> (r: String)
    ensures
        r@ == "application/json"@,
{
    String::from_str("application/json")
}

impl GlobalSettings {
    pub open spec fn is_default(&self) -> bool {
        &&& self.log_matches
        &&& self.log_unmatched
        &&& !self.passthrough_unmatched
        &&& self.default_content_type@ == "application/json"@
        &&& self.case_insensitive_headers
    }
}

impl Default for GlobalSettings {
    fn default() -> (r: GlobalSettings)
        ensures
            r.is_default(),
    {
        GlobalSettings {
            log_matches: default_true(),
            log_unmatched: default_true(),
            passthrough_unmatched: false,
            default_content_type: default_content_type(),
            case_insensitive_headers: default_true(),
        }
    }
}

impl MockServerConfig {
    /// A configuration with no stubs, default settings and no default reply.
    pub fn empty() -> (r: MockServerConfig)
        ensures
            r.stubs@.len() == 0,
            r.settings.is_default(),
            r.default_response is None,
    {
        MockServerConfig { stubs: Vec::new(), settings: GlobalSettings::default(), default_response: None }
    }
}

pub open spec fn path_error(p: PathMatcher) -> Option<ValidationError> {
    match p {
        PathMatcher::Regex { pattern } => if regex_valid(pattern@) {
            None
        } else {
            Some(ValidationError::InvalidRegex)
        },
        PathMatcher::Glob { pattern } => if glob_valid(pattern@) {
            None
        } else {
            Some(ValidationError::InvalidGlob)
        },
        _ => None,
    }
}

pub open spec fn request_error(m: RequestMatcher) -> Option<ValidationError> {
    match m.path {
        Some(p) => path_error(p),
        None => None,
    }
}

pub open spec fn status_valid(status: u16) -> bool {
    100 <= status <= 599
}

pub open spec fn response_error(r: ResponseDefinition) -> Option<ValidationError> {
    if status_valid(r.status) {
        None
    } else {
        Some(ValidationError::InvalidStatus { status: r.status })
    }
}

/// The first problem of a stub on its own: its id, then its path pattern,
/// then its status.
pub open spec fn stub_error(s: StubDefinition) -> Option<ValidationError> {
    if s.id@.len() == 0 {
        Some(ValidationError::EmptyId)
    } else if request_error(s.request) is Some {
        request_error(s.request)
    } else {
        response_error(s.response)
    }
}

/// The problem of the stub at index `i`: its own, or an id used before it.
pub open spec fn stub_issue(stubs: Seq<StubDefinition>, i: int) -> Option<ValidationError> {
    if stub_error(stubs[i]) is Some {
        stub_error(stubs[i])
    } else if exists|j: int| 0 <= j < i && stubs[j].id@ == stubs[i].id@ {
        Some(ValidationError::DuplicateId)
    } else {
        None
    }
}

/// A catalog fit for service: every stub valid and every id unique.
pub open spec fn catalog_valid(stubs: Seq<StubDefinition>) -> bool {
    forall|i: int| 0 <= i < stubs.len() ==> stub_issue(stubs, i) is None
}

impl PathMatcher {
    pub fn validate(&self) -> (r: Result<(), ValidationError>)
        ensures
            r matches Err(e) ==> path_error(*self) == Some(e),
            r is Ok ==> path_error(*self) is None,
    {
        match self {
            PathMatcher::Regex { pattern } => {
                if is_valid_regex(pattern.as_str()) {
                    Ok(())
                } else {
                    Err(ValidationError::InvalidRegex)
                }
            },
            PathMatcher::Glob { pattern } => {
                if is_valid_glob(pattern.as_str()) {
                    Ok(())
                } else {
                    Err(ValidationError::InvalidGlob)
                }
            },
            _ => Ok(()),
        }
    }
}

impl RequestMatcher {
    pub fn validate(&self) -> (r: Result<(), ValidationError>)
        ensures
            r matches Err(e) ==> request_error(*self) == Some(e),
            r is Ok ==> request_error(*self) is None,
    {
        match &self.path {
            Some(p) => p.validate(),
            None => Ok(()),
        }
    }
}

impl ResponseDefinition {
    pub fn validate(&self) -> (r: Result<(), ValidationError>)
        ensures
            r matches Err(e) ==> response_error(*self) == Some(e),
            r is Ok ==> response_error(*self) is None,
    {
        if self.status < 100 || self.status > 599 {
            Err(ValidationError::InvalidStatus { status: self.status })
        } else {
            Ok(())
        }
    }
}

impl StubDefinition {
    pub fn validate(&self) -> (r: Result<(), ValidationError>)
        ensures
            r matches Err(e) ==> stub_error(*self) == Some(e),
            r is Ok ==> stub_error(*self) is None,
    {
        if self.id.as_str().is_empty() {
            return Err(ValidationError::EmptyId);
        }
        self.request.validate()?;
        self.response.validate()
    }
}

impl MockServerConfig {
    /// Checks every stub in order and reports the first problem.
    pub fn validate(&self) -> (r: Result<(), ConfigError>)
        ensures
            r is Ok <==> catalog_valid(self.stubs@),
            r matches Err(e) ==> e.stub < self.stubs@.len() && stub_issue(self.stubs@, e.stub as int)
                == Some(e.error) && forall|i: int| 0 <= i < e.stub ==> stub_issue(self.stubs@, i) is None,
    {
        let mut i: usize = 0;
        while i < self.stubs.len()
            invariant
                i <= self.stubs@.len(),
                forall|k: int| 0 <= k < i ==> stub_issue(self.stubs@, k) is None,
            decreases self.stubs@.len() - i,
        {
            let stub = &self.stubs[i];
            match stub.validate() {
                Err(e) => {
                    return Err(ConfigError { stub: i, error: e });
                },
                Ok(()) => {},
            }
            let mut j: usize = 0;
            while j < i
                invariant
                    i < self.stubs@.len(),
                    j <= i,
                    *stub == self.stubs@[i as int],
                    forall|k: int| 0 <= k < i ==> stub_issue(self.stubs@, k) is None,
                    stub_error(self.stubs@[i as int]) is None,
                    forall|k: int| 0 <= k < j ==> self.stubs@[k].id@ != self.stubs@[i as int].id@,
                decreases i - j,
            {
                if str_eq(self.stubs[j].id.as_str(), stub.id.as_str()) {
                    assert(0 <= j < i && self.stubs@[j as int].id@ == self.stubs@[i as int].id@);
                    assert(stub_issue(self.stubs@, i as int) == Some(ValidationError::DuplicateId));
                    return Err(ConfigError { stub: i, error: ValidationError::DuplicateId });
                }
                j = j + 1;
            }
            i = i + 1;
        }
        Ok(())
    }
}

/// The bytes a standard Base64 text stands for, or `None` when it is not
/// valid standard Base64.
pub uninterp spec fn base64_decoded(text: Seq<char>) -> Option<Seq<u8>>;

/// Relies on `base64::engine::general_purpose::STANDARD.decode`: the decoded
/// bytes, or an error for text that is not valid standard Base64.
#[verifier::external_body]
fn decode_base64(text: &str) -> (r: Option<Vec<u8>>)
    ensures
        r matches Some(b) ==> base64_decoded(text@) == Some(b@),
        r is None ==> base64_decoded(text@) is None,
{
    base64::engine::general_purpose::STANDARD.decode(text).ok()
}

/// Why a body has no bytes of its own.
#[derive(PartialEq, Eq, Structural, Clone, Copy, Debug)]
pub enum BodyError {
    InvalidBase64,
    /// The body is a file, which the caller reads.
    FileBody,
}

/// The bytes of a body: text and JSON encoded as UTF-8, Base64 decoded.
pub open spec fn body_bytes(b: ResponseBody) -> Result<Seq<u8>, BodyError> {
    match b {
        ResponseBody::Text { content } => Ok(vstd::utf8::encode_utf8(content@)),
        ResponseBody::Json { content } => Ok(vstd::utf8::encode_utf8(content@)),
        ResponseBody::Base64 { content } => match base64_decoded(content@) {
            Some(bytes) => Ok(bytes),
            None => Err(BodyError::InvalidBase64),
        },
        ResponseBody::File { .. } => Err(BodyError::FileBody),
    }
}

pub open spec fn body_content_type(b: ResponseBody) -> Seq<char> {
    match b {
        ResponseBody::Text { .. } => "text/plain"@,
        ResponseBody::Json { .. } => "application/json"@,
        ResponseBody::Base64 { .. } => "application/octet-stream"@,
        ResponseBody::File { .. } => "application/octet-stream"@,
    }
}

impl ResponseBody {
    /// The body's bytes; a file body is left to the caller to read.
    pub fn to_bytes(&self) -> (r: Result<Vec<u8>, BodyError>)
        ensures
            r matches Ok(b) ==> body_bytes(*self) == Ok::<Seq<u8>, BodyError>(b@),
            r matches Err(e) ==> body_bytes(*self) == Err::<Seq<u8>, BodyError>(e),
    {
        match self {
            ResponseBody::Text { content } => Ok(utf8_bytes(content.as_str())),
            ResponseBody::Json { content } => Ok(utf8_bytes(content.as_str())),
            ResponseBody::Base64 { content } => match decode_base64(content.as_str()) {
                Some(b) => Ok(b),
                None => Err(BodyError::InvalidBase64),
            },
            ResponseBody::File { .. } => Err(BodyError::FileBody),
        }
    }

    /// The content type the body implies.
    pub fn content_type(&self) -> (r: &'static str)
        ensures
            r@ == body_content_type(*self),
    {
        match self {
            ResponseBody::Text { .. } => "text/plain",
            ResponseBody::Json { .. } => "application/json",
            ResponseBody::Base64 { .. } => "application/octet-stream",
            ResponseBody::File { .. } => "application/octet-stream",
        }
    }
}

/// Relies on `rand::Rng::gen_range` over an inclusive range (which panics only
/// on an empty range): a value within the bounds.
#[verifier::external_body]
pub(crate) fn random_between(lo: u64, hi: u64) -> (r: u64)
    requires
        lo <= hi,
    ensures
        lo <= r <= hi,
{
    rand::thread_rng().gen_range(lo..=hi)
}

/// The delay of `d` given a uniform draw from `[min_ms, max_ms]`: the fixed
/// delay if set, else the draw if that range is proper, else `min_ms`.
pub open spec fn delay_of(d: DelayConfig, draw: u64) -> u64 {
    if d.fixed_ms > 0 {
        d.fixed_ms
    } else if d.max_ms > d.min_ms {
        draw
    } else {
        d.min_ms
    }
}

impl DelayConfig {
    /// Whether the delay is drawn at random.
    pub open spec fn is_random(&self) -> bool {
        self.fixed_ms == 0 && self.max_ms > self.min_ms
    }

    /// The delay given a draw from `[min_ms, max_ms]`.
    pub fn delay_for(&self, draw: u64) -> (r: u64)
        ensures
            r == delay_of(*self, draw),
    {
        if self.fixed_ms > 0 {
            self.fixed_ms
        } else if self.max_ms > self.min_ms {
            draw
        } else {
            self.min_ms
        }
    }

    /// A uniform draw from `[min_ms, max_ms]` when the delay is random, else 0.
    pub fn draw(&self) -> (r: u64)
        ensures
            self.is_random() ==> self.min_ms <= r <= self.max_ms,
    {
        if self.fixed_ms == 0 && self.max_ms > self.min_ms {
            random_between(self.min_ms, self.max_ms)
        } else {
            0
        }
    }

    /// The delay to apply: the fixed one if set, else a uniformly drawn value
    /// of `[min_ms, max_ms]` if that range is proper, else `min_ms`.
    pub fn calculate(&self) -> (r: u64)
        ensures
            self.fixed_ms > 0 ==> r == self.fixed_ms,
            self.fixed_ms == 0 && self.max_ms > self.min_ms ==> self.min_ms <= r <= self.max_ms,
            self.fixed_ms == 0 && self.max_ms <= self.min_ms ==> r == self.min_ms,
    {
        self.delay_for(self.draw())
    }
}

} // verus!
