//! The agent: the catalog, its compiled matchers, per-stub match counts,
//! request counters and the drain flag, with the decision for each request.
//!
//! Sleeping, template rendering and file reading are left to the caller: the
//! agent says what to do (`RequestOutcome`, `Plan`) and builds the reply from
//! what the caller hands back.
use vstd::prelude::*;
use crate::config::{MockServerConfig, StubDefinition, catalog_valid, stub_issue, request_error};
use crate::matcher::{MatchResult, Matcher, context_ok, eligible, patterns_valid, query_view,
    body_view, selected};
use crate::response::{Plan, Reply, build_default_response, bytes_view, chosen_body, materialize,
    materialized, plan_stub, plan_ok, default_reply_ok, reply_is, select_body, stub_reply, content_type_of, other_headers};

verus! {

/// A request as the host delivers it; each header with its first value.
pub struct HttpRequest {
    pub method: String,
    pub path: String,
    pub query_string: Option<String>,
    pub headers: Vec<(String, String)>,
    pub body: Option<Vec<u8>>,
}

pub open spec fn opt_str_view(o: Option<String>) -> Seq<char> {
    match o {
        Some(s) => s@,
        None => Seq::empty(),
    }
}

pub open spec fn opt_bytes_view(o: Option<Vec<u8>>) -> Option<Seq<u8>> {
    match o {
        Some(b) => Some(b@),
        None => None,
    }
}

/// The stub at index `i` may answer `req`.
pub open spec fn eligible_for(stubs: Seq<StubDefinition>, i: int, req: HttpRequest) -> bool {
    eligible(stubs, i, req.method@, req.path@, opt_str_view(req.query_string), req.headers@, opt_bytes_view(req.body))
}

/// The stub at index `i` is the one selected for `req`.
pub open spec fn selected_for(stubs: Seq<StubDefinition>, i: int, req: HttpRequest) -> bool {
    selected(stubs, i, req.method@, req.path@, opt_str_view(req.query_string), req.headers@, opt_bytes_view(req.body))
}

/// What to do with a request.
pub enum RequestOutcome {
    /// Let the request through to its upstream.
    Allow,
    /// Answer with the default reply (see `build_default_response`).
    Default,
    /// Answer with the selected stub's reply (see `plan` and `finish_reply`).
    Stub(MatchResult),
}

/// Health as reported to the host: healthy when no subsystem is degraded.
pub struct HealthStatus {
    pub agent_id: String,
    pub degraded: Vec<String>,
}

impl HealthStatus {
    pub fn is_healthy(&self) -> (r: bool)
        ensures
            r == (self.degraded@.len() == 0),
    {
        self.degraded.len() == 0
    }
}

/// Named counter and gauge values, reported every `interval_ms`.
pub struct MetricsReport {
    pub agent_id: String,
    pub interval_ms: u64,
    pub counters: Vec<(String, u64)>,
    pub gauges: Vec<(String, u64)>,
}

/// The events an agent subscribes to.
#[derive(PartialEq, Eq, Structural, Clone, Copy, Debug)]
pub enum EventType {
    RequestHeaders,
}

/// What the agent supports.
#[derive(PartialEq, Eq, Structural, Clone, Copy, Debug)]
pub struct AgentFeatures {
    pub config_push: bool,
    pub health_reporting: bool,
    pub metrics_export: bool,
    pub concurrent_requests: u32,
    pub cancellation: bool,
    pub max_processing_time_ms: u64,
}

/// The agent's advertisement to the host.
pub struct AgentCapabilities {
    pub agent_id: String,
    pub name: String,
    pub events: Vec<EventType>,
    pub features: AgentFeatures,
}

pub const MAX_CONCURRENT_REQUESTS: u32 = 100;

pub const MAX_PROCESSING_TIME_MS: u64 = 5000;

pub const METRICS_INTERVAL_MS: u64 = 10000;

pub open spec fn named_values(v: Seq<(String, u64)>) -> Seq<(Seq<char>, u64)> {
    v.map_values(|p: (String, u64)| (p.0@, p.1))
}

/// Number of enabled stubs among the first `n`.
pub open spec fn enabled_count(stubs: Seq<StubDefinition>, n: int) -> nat
    decreases n,
{
    if n <= 0 || n > stubs.len() {
        0
    } else {
        enabled_count(stubs, n - 1) + if stubs[n - 1].enabled { 1nat } else { 0nat }
    }
}

/// A stub has used up its cap.
pub open spec fn exhausted(max_matches: u32, count: u32) -> bool {
    max_matches > 0 && count >= max_matches
}

pub struct MockServerAgent {
    config: MockServerConfig,
    matcher: Matcher,
    match_counts: Vec<u32>,
    requests_total: u64,
    requests_matched: u64,
    requests_unmatched: u64,
    draining: bool,
}

impl MockServerAgent {
    pub open spec fn stubs(&self) -> Seq<StubDefinition> {
        self.spec_config().stubs@
    }

    pub open spec fn passthrough(&self) -> bool {
        self.spec_config().settings.passthrough_unmatched
    }

    pub open spec fn default_ct(&self) -> Seq<char> {
        self.spec_config().settings.default_content_type@
    }

    pub closed spec fn spec_config(&self) -> MockServerConfig {
        self.config
    }

    /// Matches so far of each stub, by catalog index.
    pub closed spec fn counts(&self) -> Seq<u32> {
        self.match_counts@
    }

    pub closed spec fn total(&self) -> u64 {
        self.requests_total
    }

    pub closed spec fn matched(&self) -> u64 {
        self.requests_matched
    }

    pub closed spec fn unmatched(&self) -> u64 {
        self.requests_unmatched
    }

    pub closed spec fn spec_draining(&self) -> bool {
        self.draining
    }

    /// Internal consistency: matchers compiled from this catalog, one count
    /// per stub, no cap exceeded, and matched plus unmatched within the total.
    pub closed spec fn wf(&self) -> bool {
        &&& self.matcher.compiled_for(self.config.stubs@)
        &&& self.match_counts@.len() == self.config.stubs@.len()
        &&& forall|i: int|
            0 <= i < self.match_counts@.len() && #[trigger] self.config.stubs@[i].max_matches > 0
                ==> self.match_counts@[i] <= self.config.stubs@[i].max_matches
        &&& self.requests_matched + self.requests_unmatched <= self.requests_total
    }

    pub proof fn lemma_wf_facts(&self)
        requires
            self.wf(),
        ensures
            self.counts().len() == self.stubs().len(),
            forall|i: int|
                0 <= i < self.counts().len() && #[trigger] self.stubs()[i].max_matches > 0 ==> self.counts()[i]
                    <= self.stubs()[i].max_matches,
            self.matched() + self.unmatched() <= self.total(),
    {
    }

    /// An agent serving `config`, with all counts at zero and not draining.
    /// Matches are counted per catalog entry; `from_config` first checks that
    /// ids are unique, so this is also a count per id.
    pub fn new(config: MockServerConfig) -> (r: MockServerAgent)
        requires
            patterns_valid(config.stubs@),
        ensures
            r.wf(),
            r.spec_config() == config,
            r.stubs() == config.stubs@,
            r.passthrough() == config.settings.passthrough_unmatched,
            r.default_ct() == config.settings.default_content_type@,
            r.counts() == Seq::new(config.stubs@.len(), |i: int| 0u32),
            r.total() == 0 && r.matched() == 0 && r.unmatched() == 0,
            !r.spec_draining(),
    {
        let matcher = Matcher::new(&config.stubs);
        let mut match_counts: Vec<u32> = Vec::new();
        let mut i: usize = 0;
        while i < config.stubs.len()
            invariant
                i <= config.stubs.len(),
                match_counts@ == Seq::new(i as nat, |k: int| 0u32),
            decreases config.stubs.len() - i,
        {
            match_counts.push(0);
            i = i + 1;
            assert(match_counts@ =~= Seq::new(i as nat, |k: int| 0u32));
        }
        MockServerAgent {
            config,
            matcher,
            match_counts,
            requests_total: 0,
            requests_matched: 0,
            requests_unmatched: 0,
            draining: false,
        }
    }

    /// A validated configuration: every stub valid and ids unique.
    pub proof fn lemma_valid_catalog_compiles(stubs: Seq<StubDefinition>)
        requires
            catalog_valid(stubs),
        ensures
            patterns_valid(stubs),
    {
        assert forall|i: int| 0 <= i < stubs.len() implies request_error(#[trigger] stubs[i].request) is None by {
            assert(stub_issue(stubs, i) is None);
        }
    }

    /// Validates `config` and, when it is fit for service, serves it.
    pub fn from_config(config: MockServerConfig) -> (r: Result<MockServerAgent, crate::config::ConfigError>)
        ensures
            r is Ok <==> catalog_valid(config.stubs@),
            r matches Ok(a) ==> a.wf() && a.spec_config() == config && a.total() == 0 && a.matched() == 0
                && a.unmatched() == 0 && !a.spec_draining() && a.counts() == Seq::new(
                config.stubs@.len(),
                |i: int| 0u32,
            ),
            r matches Err(e) ==> e.stub < config.stubs@.len() && stub_issue(config.stubs@, e.stub as int)
                == Some(e.error),
    {
        match config.validate() {
            Ok(()) => {
                proof {
                    Self::lemma_valid_catalog_compiles(config.stubs@);
                }
                Ok(MockServerAgent::new(config))
            },
            Err(e) => Err(e),
        }
    }

    pub fn config(&self) -> (r: &MockServerConfig)
        ensures
            *r == self.spec_config(),
    {
        &self.config
    }

    pub fn is_draining(&self) -> (r: bool)
        ensures
            r == self.spec_draining(),
    {
        self.draining
    }

    pub fn total_requests(&self) -> (r: u64)
        ensures
            r == self.total(),
    {
        self.requests_total
    }

    pub fn total_matched(&self) -> (r: u64)
        ensures
            r == self.matched(),
    {
        self.requests_matched
    }

    pub fn total_unmatched(&self) -> (r: u64)
        ensures
            r == self.unmatched(),
    {
        self.requests_unmatched
    }

    /// Matches so far of the stub at `index`.
    pub fn match_count(&self, index: usize) -> (r: u32)
        requires
            self.wf(),
            index < self.stubs().len(),
        ensures
            r == self.counts()[index as int],
    {
        self.match_counts[index]
    }

    /// Whether the stub at `index` has used up its cap.
    pub fn is_stub_exhausted(&self, index: usize) -> (r: bool)
        requires
            self.wf(),
            index < self.stubs().len(),
        ensures
            r == exhausted(self.stubs()[index as int].max_matches, self.counts()[index as int]),
    {
        let max = self.config.stubs[index].max_matches;
        max > 0 && self.match_counts[index] >= max
    }

    /// Counts one more match of the stub at `index`, which must not be exhausted.
    pub fn increment_match_count(&mut self, index: usize)
        requires
            old(self).wf(),
            index < old(self).stubs().len(),
            !exhausted(old(self).stubs()[index as int].max_matches, old(self).counts()[index as int]),
        ensures
            final(self).wf(),
            final(self).counts() == old(self).counts().update(
                index as int,
                if old(self).counts()[index as int] < u32::MAX {
                    (old(self).counts()[index as int] + 1) as u32
                } else {
                    u32::MAX
                },
            ),
            final(self).spec_config() == old(self).spec_config(),
            final(self).total() == old(self).total(),
            final(self).matched() == old(self).matched(),
            final(self).unmatched() == old(self).unmatched(),
            final(self).spec_draining() == old(self).spec_draining(),
    {
        let c = self.match_counts[index];
        if c < u32::MAX {
            self.match_counts.set(index, c + 1);
        }
        proof {
            assert(self.match_counts@ =~= old(self).counts().update(
                index as int,
                if c < u32::MAX { (c + 1) as u32 } else { u32::MAX },
            ));
            assert forall|i: int|
                0 <= i < self.match_counts@.len() && #[trigger] self.config.stubs@[i].max_matches > 0 implies self.match_counts@[i]
                    <= self.config.stubs@[i].max_matches by {
                if i != index {
                    assert(old(self).config.stubs@[i].max_matches > 0);
                }
            }
        }
    }

    /// Decides what to do with a request and counts it. While draining the
    /// request passes through and only the total moves. Otherwise the selected
    /// stub answers if it is not exhausted (counted as matched); else, or when
    /// nothing is selected, the request is unmatched and passes through or
    /// gets the default reply, as the settings say.
    pub fn on_request(&mut self, req: &HttpRequest) -> (r: RequestOutcome)
        requires
            old(self).wf(),
            old(self).total() < u64::MAX,
        ensures
            final(self).wf(),
            final(self).spec_config() == old(self).spec_config(),
            final(self).spec_draining() == old(self).spec_draining(),
            final(self).total() == old(self).total() + 1,
            !old(self).spec_draining() && old(self).total() == old(self).matched() + old(self).unmatched()
                ==> final(self).total() == final(self).matched() + final(self).unmatched(),
            !old(self).spec_draining() ==> ((final(self).matched() == old(self).matched() + 1
                && final(self).unmatched() == old(self).unmatched()) || (final(self).matched()
                == old(self).matched() && final(self).unmatched() == old(self).unmatched() + 1)),
            old(self).spec_draining() ==> {
                &&& r is Allow
                &&& final(self).matched() == old(self).matched()
                &&& final(self).unmatched() == old(self).unmatched()
                &&& final(self).counts() == old(self).counts()
            },
            !old(self).spec_draining() ==> match r {
                RequestOutcome::Stub(m) => {
                    &&& selected_for(old(self).stubs(), m.stub_index as int, *req)
                    &&& !exhausted(
                        old(self).stubs()[m.stub_index as int].max_matches,
                        old(self).counts()[m.stub_index as int],
                    )
                    &&& context_ok(
                        m.context,
                        old(self).stubs()[m.stub_index as int].request,
                        req.path@,
                        opt_str_view(req.query_string),
                    )
                    &&& final(self).matched() == old(self).matched() + 1
                    &&& final(self).unmatched() == old(self).unmatched()
                    &&& final(self).counts() == old(self).counts().update(
                        m.stub_index as int,
                        if old(self).counts()[m.stub_index as int] < u32::MAX {
                            (old(self).counts()[m.stub_index as int] + 1) as u32
                        } else {
                            u32::MAX
                        },
                    )
                },
                _ => {
                    &&& (r is Allow <==> old(self).passthrough())
                    &&& ((forall|i: int| !eligible_for(old(self).stubs(), i, *req)) || exists|i: int|
                        selected_for(old(self).stubs(), i, *req) && exhausted(
                            old(self).stubs()[i].max_matches,
                            old(self).counts()[i],
                        ))
                    &&& final(self).matched() == old(self).matched()
                    &&& final(self).unmatched() == old(self).unmatched() + 1
                    &&& final(self).counts() == old(self).counts()
                },
            },
    {
        self.requests_total = self.requests_total + 1;
        if self.draining {
            return RequestOutcome::Allow;
        }
        let query: Option<&str> = match &req.query_string {
            Some(q) => Some(q.as_str()),
            None => None,
        };
        let body: Option<&[u8]> = match &req.body {
            Some(b) => Some(b.as_slice()),
            None => None,
        };
        assert(query_view(query) == opt_str_view(req.query_string));
        assert(body_view(body) == opt_bytes_view(req.body));
        let found = self.matcher.find_match(
            &self.config.stubs,
            req.method.as_str(),
            req.path.as_str(),
            query,
            &req.headers,
            body,
        );
        match found {
            Some(m) => {
                if self.is_stub_exhausted(m.stub_index) {
                    assert(selected_for(old(self).stubs(), m.stub_index as int, *req) && exhausted(
                        old(self).stubs()[m.stub_index as int].max_matches,
                        old(self).counts()[m.stub_index as int],
                    ));
                    self.requests_unmatched = self.requests_unmatched + 1;
                    if self.config.settings.passthrough_unmatched {
                        RequestOutcome::Allow
                    } else {
                        RequestOutcome::Default
                    }
                } else {
                    self.requests_matched = self.requests_matched + 1;
                    self.increment_match_count(m.stub_index);
                    RequestOutcome::Stub(m)
                }
            },
            None => {
                assert(forall|i: int| !eligible_for(old(self).stubs(), i, *req));
                self.requests_unmatched = self.requests_unmatched + 1;
                if self.config.settings.passthrough_unmatched {
                    RequestOutcome::Allow
                } else {
                    RequestOutcome::Default
                }
            },
        }
    }

    /// The stub at `index`.
    pub fn stub(&self, index: usize) -> (r: &StubDefinition)
        requires
            index < self.stubs().len(),
        ensures
            *r == self.stubs()[index as int],
    {
        &self.config.stubs[index]
    }

    /// What the stub at `index` does (see `plan_stub`); `file` holds the
    /// contents of a file body.
    pub fn plan(&self, index: usize, file: Option<Vec<u8>>) -> (p: Plan)
        requires
            index < self.stubs().len(),
        ensures
            plan_ok(self.stubs()[index as int], bytes_view(file), p),
    {
        plan_stub(&self.config.stubs[index], file)
    }

    /// The reply of the stub at `index`, with the rendered body (if its response
    /// renders and rendering succeeded) or else its static body.
    pub fn finish_reply(&self, index: usize, rendered: Option<Vec<u8>>, file: Option<Vec<u8>>) -> (rep: Reply)
        requires
            index < self.stubs().len(),
        ensures
            reply_is(
                rep,
                self.stubs()[index as int].response.status,
                Some(content_type_of(self.stubs()[index as int].response, self.default_ct())),
                other_headers(self.stubs()[index as int].response.headers@),
                chosen_body(self.stubs()[index as int].response, bytes_view(rendered), bytes_view(file)),
                seq!["mocked"@],
                seq![("stub_id"@, self.stubs()[index as int].id@)],
            ),
    {
        let stub = &self.config.stubs[index];
        let body = select_body(&stub.response, rendered, file);
        stub_reply(stub, body, self.config.settings.default_content_type.as_str())
    }

    /// The reply for an unmatched request: the configured default reply (its
    /// body from `file` when it is a file), or a 404 JSON error.
    pub fn default_reply(&self, file: Option<Vec<u8>>) -> (rep: Reply)
        ensures
            default_reply_ok(
                self.spec_config().default_response,
                match self.spec_config().default_response {
                    Some(d) => match d.body {
                        Some(b) => materialized(b, bytes_view(file)),
                        None => None,
                    },
                    None => None,
                },
                self.default_ct(),
                rep,
            ),
    {
        match &self.config.default_response {
            Some(d) => {
                let body = match &d.body {
                    Some(b) => materialize(b, file),
                    None => None,
                };
                build_default_response(Some(d), body, self.config.settings.default_content_type.as_str())
            },
            None => build_default_response(None, None, self.config.settings.default_content_type.as_str()),
        }
    }

    /// The response phase needs nothing from a mock: the response passes.
    pub fn on_response(&self) -> (r: RequestOutcome)
        ensures
            r is Allow,
    {
        RequestOutcome::Allow
    }

    /// A configuration pushed by the host is acknowledged and not applied.
    pub fn on_configure(&self, config_json: &str) -> (r: Result<(), String>)
        ensures
            r is Ok,
    {
        Ok(())
    }

    /// Stops stubbing: every later request passes through.
    pub fn on_drain(&mut self, duration_ms: u64)
        requires
            old(self).wf(),
        ensures
            final(self).wf(),
            final(self).spec_draining(),
            final(self).spec_config() == old(self).spec_config(),
            final(self).counts() == old(self).counts(),
            final(self).total() == old(self).total(),
            final(self).matched() == old(self).matched(),
            final(self).unmatched() == old(self).unmatched(),
    {
        self.draining = true;
    }

    /// Stops stubbing, as a drain does.
    pub fn on_shutdown(&mut self, grace_period_ms: u64)
        requires
            old(self).wf(),
        ensures
            final(self).wf(),
            final(self).spec_draining(),
            final(self).spec_config() == old(self).spec_config(),
            final(self).counts() == old(self).counts(),
            final(self).total() == old(self).total(),
            final(self).matched() == old(self).matched(),
            final(self).unmatched() == old(self).unmatched(),
    {
        self.draining = true;
    }

    /// The agent's name.
    pub fn name(&self) -> (r: &'static str)
        ensures
            r@ == "mock-server"@,
    {
        "mock-server"
    }

    /// Subscribes to request headers; supports config push (acknowledged
    /// only), health, metrics and cancellation, with at most 100 requests in
    /// flight and 5000 ms for each.
    pub fn capabilities(&self) -> (r: AgentCapabilities)
        ensures
            r.agent_id@ == "mock-server"@,
            r.name@ == "Mock Server Agent"@,
            r.events@ == seq![EventType::RequestHeaders],
            r.features == (AgentFeatures {
                config_push: true,
                health_reporting: true,
                metrics_export: true,
                concurrent_requests: MAX_CONCURRENT_REQUESTS,
                cancellation: true,
                max_processing_time_ms: MAX_PROCESSING_TIME_MS,
            }),
    {
        let r = AgentCapabilities {
            agent_id: String::from_str("mock-server"),
            name: String::from_str("Mock Server Agent"),
            events: vec![EventType::RequestHeaders],
            features: AgentFeatures {
                config_push: true,
                health_reporting: true,
                metrics_export: true,
                concurrent_requests: MAX_CONCURRENT_REQUESTS,
                cancellation: true,
                max_processing_time_ms: MAX_PROCESSING_TIME_MS,
            },
        };
        assert(r.events@ =~= seq![EventType::RequestHeaders]);
        r
    }

    /// Healthy unless draining, when the stubbing subsystem is degraded.
    pub fn health_status(&self) -> (r: HealthStatus)
        ensures
            r.agent_id@ == "mock-server"@,
            !self.spec_draining() ==> r.degraded@.len() == 0,
            self.spec_draining() ==> r.degraded@.len() == 1 && r.degraded@[0]@ == "stubbing"@,
    {
        let degraded = if self.draining {
            vec![String::from_str("stubbing")]
        } else {
            Vec::new()
        };
        HealthStatus { agent_id: String::from_str("mock-server"), degraded }
    }

    fn count_enabled(&self) -> (r: u64)
        ensures
            r == enabled_count(self.stubs(), self.stubs().len() as int),
    {
        let mut n: u64 = 0;
        let mut i: usize = 0;
        while i < self.config.stubs.len()
            invariant
                i <= self.config.stubs@.len(),
                n == enabled_count(self.config.stubs@, i as int),
                n <= i,
            decreases self.config.stubs@.len() - i,
        {
            if self.config.stubs[i].enabled {
                n = n + 1;
            }
            i = i + 1;
        }
        n
    }

    /// The counters (total, matched, unmatched requests) and gauges (stubs
    /// configured and enabled, draining as 0 or 1).
    pub fn metrics_report(&self) -> (r: Option<MetricsReport>)
        ensures
            r is Some,
            r->Some_0.agent_id@ == "mock-server"@,
            r->Some_0.interval_ms == METRICS_INTERVAL_MS,
            named_values(r->Some_0.counters@) == seq![
                ("mock_server_requests_total"@, self.total()),
                ("mock_server_requests_matched_total"@, self.matched()),
                ("mock_server_requests_unmatched_total"@, self.unmatched()),
            ],
            named_values(r->Some_0.gauges@) == seq![
                ("mock_server_stubs_configured"@, self.stubs().len() as u64),
                ("mock_server_stubs_enabled"@, enabled_count(self.stubs(), self.stubs().len() as int) as u64),
                ("mock_server_agent_draining"@, if self.spec_draining() { 1u64 } else { 0u64 }),
            ],
    {
        let counters = vec![
            (String::from_str("mock_server_requests_total"), self.requests_total),
            (String::from_str("mock_server_requests_matched_total"), self.requests_matched),
            (String::from_str("mock_server_requests_unmatched_total"), self.requests_unmatched),
        ];
        let gauges = vec![
            (String::from_str("mock_server_stubs_configured"), self.config.stubs.len() as u64),
            (String::from_str("mock_server_stubs_enabled"), self.count_enabled()),
            (String::from_str("mock_server_agent_draining"), if self.draining { 1 } else { 0 }),
        ];
        let r = MetricsReport {
            agent_id: String::from_str("mock-server"),
            interval_ms: METRICS_INTERVAL_MS,
            counters,
            gauges,
        };
        assert(named_values(r.counters@) =~= seq![
            ("mock_server_requests_total"@, self.total()),
            ("mock_server_requests_matched_total"@, self.matched()),
            ("mock_server_requests_unmatched_total"@, self.unmatched()),
        ]);
        assert(named_values(r.gauges@) =~= seq![
            ("mock_server_stubs_configured"@, self.stubs().len() as u64),
            ("mock_server_stubs_enabled"@, enabled_count(self.stubs(), self.stubs().len() as int) as u64),
            ("mock_server_agent_draining"@, if self.spec_draining() { 1u64 } else { 0u64 }),
        ]);
        Some(r)
    }
}

} // verus!
