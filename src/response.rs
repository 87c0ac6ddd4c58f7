//! Replies: the stub's own reply with its content type and decoration, fault
//! replies, and the reply for requests that no stub answers.
use vstd::prelude::*;
use crate::config::{BodyError, FaultConfig, ResponseBody, ResponseDefinition, StubDefinition,
    body_bytes, body_content_type, delay_of, random_between};
use crate::matcher::header_lookup;
use crate::text::{ascii_lower, contains, eq_ignore_ascii_case, str_contains, utf8_bytes};

verus! {

/// A reply that blocks the request upstream and answers it directly.
pub struct Reply {
    pub status: u16,
    pub headers: Vec<(String, String)>,
    pub body: Option<Vec<u8>>,
    pub tags: Vec<String>,
    pub metadata: Vec<(String, String)>,
}

pub open spec fn strs(v: Seq<String>) -> Seq<Seq<char>> {
    v.map_values(|s: String| s@)
}

pub open spec fn bytes_view(b: Option<Vec<u8>>) -> Option<Seq<u8>> {
    match b {
        Some(v) => Some(v@),
        None => None,
    }
}

impl Reply {
    pub open spec fn header_pairs(&self) -> Seq<(Seq<char>, Seq<char>)> {
        crate::strmap::pairs_of(self.headers@)
    }

    pub open spec fn metadata_pairs(&self) -> Seq<(Seq<char>, Seq<char>)> {
        crate::strmap::pairs_of(self.metadata@)
    }

    pub open spec fn tag_strs(&self) -> Seq<Seq<char>> {
        strs(self.tags@)
    }
}

/// The headers of `hs` other than `Content-Type` (in any case), in order.
pub open spec fn other_headers(hs: Seq<(String, String)>) -> Seq<(Seq<char>, Seq<char>)>
    decreases hs.len(),
{
    if hs.len() == 0 {
        Seq::empty()
    } else if ascii_lower(hs.last().0@) == "content-type"@ {
        other_headers(hs.drop_last())
    } else {
        other_headers(hs.drop_last()).push((hs.last().0@, hs.last().1@))
    }
}

/// The `Content-Type` a response declares (first such header, any case).
pub open spec fn declared_content_type(r: ResponseDefinition) -> Option<Seq<char>> {
    header_lookup(r.headers@, "content-type"@, 0)
}

/// The content type of a stub's reply: the declared one, else the body's,
/// else the configured default.
pub open spec fn content_type_of(r: ResponseDefinition, default_ct: Seq<char>) -> Seq<char> {
    match declared_content_type(r) {
        Some(ct) => ct,
        None => match r.body {
            Some(b) => body_content_type(b),
            None => default_ct,
        },
    }
}

/// The body bytes of a response body; a file body has the given file contents.
pub open spec fn materialized(b: ResponseBody, file: Option<Seq<u8>>) -> Option<Seq<u8>> {
    match body_bytes(b) {
        Ok(bytes) => Some(bytes),
        Err(BodyError::FileBody) => file,
        Err(BodyError::InvalidBase64) => None,
    }
}

/// Whether a response's body is rendered as a template: a text body always,
/// a JSON body when its text holds `{{` (else rendering leaves it as it is).
pub open spec fn renders(r: ResponseDefinition) -> bool {
    r.template && match r.body {
        Some(ResponseBody::Text { .. }) => true,
        Some(ResponseBody::Json { content }) => contains(content@, "{{"@),
        _ => false,
    }
}

/// Whether a response's body is rendered as a template.
pub fn renders_body(r: &ResponseDefinition) -> (b: bool)
    ensures
        b == renders(*r),
{
    if !r.template {
        return false;
    }
    match &r.body {
        Some(ResponseBody::Text { .. }) => true,
        Some(ResponseBody::Json { content }) => str_contains(content.as_str(), "{{"),
        _ => false,
    }
}

/// The body of a stub's reply: the rendered one when the response renders and
/// rendering succeeded, else the static body.
pub open spec fn chosen_body(r: ResponseDefinition, rendered: Option<Seq<u8>>, file: Option<Seq<u8>>) -> Option<
    Seq<u8>,
> {
    match r.body {
        None => None,
        Some(b) => if renders(r) && rendered is Some {
            rendered
        } else {
            materialized(b, file)
        },
    }
}

/// A reply carries this status, `Content-Type` first then `others`, this body,
/// tags and metadata.
pub open spec fn reply_is(
    rep: Reply,
    status: u16,
    ct: Option<Seq<char>>,
    others: Seq<(Seq<char>, Seq<char>)>,
    body: Option<Seq<u8>>,
    tags: Seq<Seq<char>>,
    metadata: Seq<(Seq<char>, Seq<char>)>,
) -> bool {
    &&& rep.status == status
    &&& rep.header_pairs() == match ct {
        Some(c) => seq![("Content-Type"@, c)] + others,
        None => others,
    }
    &&& bytes_view(rep.body) == body
    &&& rep.tag_strs() == tags
    &&& rep.metadata_pairs() == metadata
}

fn s(t: &str) -> (r: String)
    ensures
        r@ == t@,
{
    String::from_str(t)
}

fn other_headers_exec(hs: &Vec<(String, String)>) -> (r: Vec<(String, String)>)
    ensures
        crate::strmap::pairs_of(r@) == other_headers(hs@),
{
    let ct = "content-type";
    proof {
        reveal_strlit("content-type");
        assert(ascii_lower(ct@) =~= "content-type"@);
    }
    let mut out: Vec<(String, String)> = Vec::new();
    let mut i: usize = 0;
    while i < hs.len()
        invariant
            i <= hs.len(),
            ascii_lower(ct@) == "content-type"@,
            crate::strmap::pairs_of(out@) == other_headers(hs@.subrange(0, i as int)),
        decreases hs.len() - i,
    {
        assert(hs@.subrange(0, i + 1).drop_last() =~= hs@.subrange(0, i as int));
        if !eq_ignore_ascii_case(hs[i].0.as_str(), ct) {
            let ghost prev = out@;
            out.push((hs[i].0.clone(), hs[i].1.clone()));
            assert(crate::strmap::pairs_of(out@) =~= crate::strmap::pairs_of(prev).push(
                (hs@[i as int].0@, hs@[i as int].1@),
            ));
        }
        i = i + 1;
    }
    assert(hs@.subrange(0, i as int) =~= hs@);
    out
}

fn declared_content_type_exec(r: &ResponseDefinition) -> (c: Option<String>)
    ensures
        c matches Some(v) ==> declared_content_type(*r) == Some(v@),
        c is None ==> declared_content_type(*r) is None,
{
    let ct = "content-type";
    proof {
        reveal_strlit("content-type");
    }
    let mut i: usize = 0;
    while i < r.headers.len()
        invariant
            i <= r.headers.len(),
            ct@ == "content-type"@,
            header_lookup(r.headers@, ct@, 0) == header_lookup(r.headers@, ct@, i as int),
        decreases r.headers.len() - i,
    {
        if eq_ignore_ascii_case(r.headers[i].0.as_str(), ct) {
            return Some(r.headers[i].1.clone());
        }
        i = i + 1;
    }
    None
}

/// The content type of a stub's reply.
pub fn resolve_content_type(r: &ResponseDefinition, default_ct: &str) -> (c: String)
    ensures
        c@ == content_type_of(*r, default_ct@),
{
    match declared_content_type_exec(r) {
        Some(v) => v,
        None => match &r.body {
            Some(b) => s(b.content_type()),
            None => s(default_ct),
        },
    }
}

/// The bytes of a body; `file` holds the contents of a file body.
pub fn materialize(b: &ResponseBody, file: Option<Vec<u8>>) -> (r: Option<Vec<u8>>)
    ensures
        bytes_view(r) == materialized(*b, bytes_view(file)),
{
    match b.to_bytes() {
        Ok(bytes) => Some(bytes),
        Err(BodyError::FileBody) => file,
        Err(BodyError::InvalidBase64) => None,
    }
}

/// The body of a stub's reply, from the rendered body (if the response renders)
/// or the static one.
pub fn select_body(r: &ResponseDefinition, rendered: Option<Vec<u8>>, file: Option<Vec<u8>>) -> (b: Option<
    Vec<u8>,
>)
    ensures
        bytes_view(b) == chosen_body(*r, bytes_view(rendered), bytes_view(file)),
{
    match &r.body {
        None => None,
        Some(body) => {
            if renders_body(r) && rendered.is_some() {
                rendered
            } else {
                materialize(body, file)
            }
        },
    }
}

/// The reply of a stub that answers normally: its status, its content type,
/// its other headers, the given body, tag `mocked` and the stub's id.
pub fn stub_reply(stub: &StubDefinition, body: Option<Vec<u8>>, default_ct: &str) -> (rep: Reply)
    ensures
        reply_is(
            rep,
            stub.response.status,
            Some(content_type_of(stub.response, default_ct@)),
            other_headers(stub.response.headers@),
            bytes_view(body),
            seq!["mocked"@],
            seq![("stub_id"@, stub.id@)],
        ),
{
    let ct = resolve_content_type(&stub.response, default_ct);
    let mut headers: Vec<(String, String)> = Vec::new();
    headers.push((s("Content-Type"), ct));
    let mut others = other_headers_exec(&stub.response.headers);
    headers.append(&mut others);
    let rep = Reply {
        status: stub.response.status,
        headers,
        body,
        tags: vec![s("mocked")],
        metadata: vec![(s("stub_id"), stub.id.clone())],
    };
    assert(rep.header_pairs() =~= seq![("Content-Type"@, content_type_of(stub.response, default_ct@))]
        + other_headers(stub.response.headers@));
    assert(rep.tag_strs() =~= seq!["mocked"@]);
    assert(rep.metadata_pairs() =~= seq![("stub_id"@, stub.id@)]);
    rep
}

/// The JSON body of the reply when no stub matches and no default reply is set.
pub open spec fn not_found_body() -> Seq<char> {
    "{\"error\":\"not_found\",\"message\":\"No matching stub found\"}"@
}

/// The reply for an unmatched request.
pub open spec fn default_reply_ok(
    default: Option<ResponseDefinition>,
    body: Option<Seq<u8>>,
    default_ct: Seq<char>,
    rep: Reply,
) -> bool {
    match default {
        Some(d) => reply_is(
            rep,
            d.status,
            Some(
                match declared_content_type(d) {
                    Some(c) => c,
                    None => default_ct,
                },
            ),
            other_headers(d.headers@),
            body,
            seq!["mocked"@, "default_response"@],
            Seq::empty(),
        ),
        None => reply_is(
            rep,
            404,
            Some("application/json"@),
            Seq::empty(),
            Some(vstd::utf8::encode_utf8(not_found_body())),
            seq!["mocked"@, "not_found"@],
            Seq::empty(),
        ),
    }
}

/// The reply for a request no stub answers: the configured default reply
/// (its `Content-Type` or else `default_ct`), or a 404 JSON error.
pub fn build_default_response(
    default: Option<&ResponseDefinition>,
    body: Option<Vec<u8>>,
    default_ct: &str,
) -> (rep: Reply)
    ensures
        default_reply_ok(
            match default {
                Some(d) => Some(*d),
                None => None,
            },
            bytes_view(body),
            default_ct@,
            rep,
        ),
{
    match default {
        Some(d) => {
            let ct = match declared_content_type_exec(d) {
                Some(v) => v,
                None => s(default_ct),
            };
            let mut headers: Vec<(String, String)> = Vec::new();
            headers.push((s("Content-Type"), ct));
            let mut others = other_headers_exec(&d.headers);
            headers.append(&mut others);
            let rep = Reply {
                status: d.status,
                headers,
                body,
                tags: vec![s("mocked"), s("default_response")],
                metadata: Vec::new(),
            };
            assert(rep.header_pairs() =~= seq![("Content-Type"@, ct@)] + other_headers(d.headers@));
            assert(rep.tag_strs() =~= seq!["mocked"@, "default_response"@]);
            assert(rep.metadata_pairs() =~= Seq::empty());
            rep
        },
        None => {
            let text = "{\"error\":\"not_found\",\"message\":\"No matching stub found\"}";
            let rep = Reply {
                status: 404,
                headers: vec![(s("Content-Type"), s("application/json"))],
                body: Some(utf8_bytes(text)),
                tags: vec![s("mocked"), s("not_found")],
                metadata: Vec::new(),
            };
            assert(rep.header_pairs() =~= seq![("Content-Type"@, "application/json"@)] + Seq::empty());
            assert(rep.tag_strs() =~= seq!["mocked"@, "not_found"@]);
            assert(rep.metadata_pairs() =~= Seq::empty());
            rep
        },
    }
}

/// What to do for a stub that matched: sleep, then either send a reply that
/// is already built, or build the stub's reply (rendering its body when
/// `render` is set).
pub enum Plan {
    Fixed { sleep_ms: u64, reply: Reply },
    Normal { sleep_ms: u64, render: bool },
}

/// Printable ASCII garbage of 50 to 199 bytes.
pub fn generate_garbage() -> (r: Vec<u8>)
    ensures
        50 <= r@.len() <= 199,
        forall|i: int| 0 <= i < r@.len() ==> 0x20 <= #[trigger] r@[i] <= 0x7e,
{
    let len = random_between(50, 199);
    let mut out: Vec<u8> = Vec::new();
    let mut i: u64 = 0;
    while i < len
        invariant
            i <= len <= 199,
            out@.len() == i,
            forall|k: int| 0 <= k < out@.len() ==> 0x20 <= #[trigger] out@[k] <= 0x7e,
        decreases len - i,
    {
        out.push(random_between(0x20, 0x7d) as u8);
        i = i + 1;
    }
    out
}

/// A fault reply: the status, an optional content type, the body, tags
/// `mocked` and `fault_injected`, the stub's id and the fault's kind.
pub open spec fn fault_reply_is(
    rep: Reply,
    stub: StubDefinition,
    status: u16,
    ct: Option<Seq<char>>,
    body: Seq<u8>,
    kind: Seq<char>,
) -> bool {
    reply_is(
        rep,
        status,
        ct,
        Seq::empty(),
        Some(body),
        seq!["mocked"@, "fault_injected"@],
        seq![("stub_id"@, stub.id@), ("fault_type"@, kind)],
    )
}

fn fault_reply(stub: &StubDefinition, status: u16, ct: Option<&str>, body: Vec<u8>, kind: &str) -> (rep: Reply)
    ensures
        fault_reply_is(
            rep,
            *stub,
            status,
            match ct {
                Some(c) => Some(c@),
                None => None,
            },
            body@,
            kind@,
        ),
{
    let headers = match ct {
        Some(c) => vec![(s("Content-Type"), s(c))],
        None => Vec::new(),
    };
    let rep = Reply {
        status,
        headers,
        body: Some(body),
        tags: vec![s("mocked"), s("fault_injected")],
        metadata: vec![(s("stub_id"), stub.id.clone()), (s("fault_type"), s(kind))],
    };
    assert(rep.header_pairs() =~= match ct {
        Some(c) => seq![("Content-Type"@, c@)] + Seq::<(Seq<char>, Seq<char>)>::empty(),
        None => Seq::<(Seq<char>, Seq<char>)>::empty(),
    });
    assert(rep.tag_strs() =~= seq!["mocked"@, "fault_injected"@]);
    assert(rep.metadata_pairs() =~= seq![("stub_id"@, stub.id@), ("fault_type"@, kind@)]);
    rep
}

/// The delay of a slow response: `ceil(size * 1000 / max(bps, 1))`
/// milliseconds, saturating at `u64::MAX`.
pub open spec fn slow_delay(size: nat, bps: u64) -> nat {
    let rate: int = if bps == 0 { 1 } else { bps as int };
    let ms: int = (size as int * 1000 + rate - 1) / rate;
    if ms > u64::MAX as int { u64::MAX as nat } else { ms as nat }
}

pub fn slow_response_delay(size: u64, bps: u64) -> (r: u64)
    ensures
        r == slow_delay(size as nat, bps),
{
    let rate: u64 = if bps == 0 { 1 } else { bps };
    let q = size / rate;
    let rem = size % rate;
    let ghost (gs, gr, gq, gm) = (size as int, rate as int, q as int, rem as int);
    assert(gs == gq * gr + gm && 0 <= gm < gr) by {
        assert(gs == gq * gr + gm) by (nonlinear_arith)
            requires
                gr > 0,
                gq == gs / gr,
                gm == gs % gr,
        ;
    };
    // size * 1000 / rate, rounded up, is q * 1000 plus ceil(rem * 1000 / rate).
    let part: u64 = ((rem as u128 * 1000 + rate as u128 - 1) / rate as u128) as u64;
    let ghost gp: int = (gm * 1000 + gr - 1) / gr;
    assert(0 <= gp <= 1000) by (nonlinear_arith)
        requires
            gr > 0,
            0 <= gm < gr,
            gp == (gm * 1000 + gr - 1) / gr,
    ;
    assert(part as int == gp);
    assert((gs * 1000 + gr - 1) / gr == gq * 1000 + gp) by (nonlinear_arith)
        requires
            gr > 0,
            gs == gq * gr + gm,
            0 <= gm < gr,
            gp == (gm * 1000 + gr - 1) / gr,
    ;
    if q > (u64::MAX - part) / 1000 {
        assert(gq * 1000 + gp > u64::MAX as int) by (nonlinear_arith)
            requires
                gq > (u64::MAX as int - gp) / 1000,
                0 <= gp <= 1000,
        ;
        u64::MAX
    } else {
        assert(gq * 1000 + gp <= u64::MAX as int) by (nonlinear_arith)
            requires
                gq <= (u64::MAX as int - gp) / 1000,
                0 <= gp <= 1000,
        ;
        q * 1000 + part
    }
}

/// The size a slow response is paced by: its static body's, or 100 bytes.
pub open spec fn paced_size(r: ResponseDefinition, file: Option<Seq<u8>>) -> nat {
    match r.body {
        Some(b) => match materialized(b, file) {
            Some(bytes) => bytes.len(),
            None => 100,
        },
        None => 100,
    }
}

/// What a matched stub does: its fault's reply or its own reply after its
/// delay; `file` holds the contents of a file body.
pub open spec fn plan_ok(stub: StubDefinition, file: Option<Seq<u8>>, p: Plan) -> bool {
    match stub.fault {
        Some(FaultConfig::Error { status, message }) => p matches Plan::Fixed { sleep_ms, reply } && sleep_ms
            == 0 && fault_reply_is(
            reply,
            stub,
            status,
            Some("text/plain"@),
            vstd::utf8::encode_utf8(
                match message {
                    Some(m) => m@,
                    None => "Error"@,
                },
            ),
            "error"@,
        ),
        Some(FaultConfig::Timeout { duration_ms }) => p matches Plan::Fixed { sleep_ms, reply } && sleep_ms
            == duration_ms && fault_reply_is(
            reply,
            stub,
            504,
            Some("text/plain"@),
            vstd::utf8::encode_utf8("Gateway Timeout (simulated)"@),
            "timeout"@,
        ),
        Some(FaultConfig::Empty) => p matches Plan::Fixed { sleep_ms, reply } && sleep_ms == 0
            && fault_reply_is(reply, stub, 200, None, Seq::empty(), "empty"@),
        Some(FaultConfig::Corrupt { probability_ppm }) => {
            ||| p matches Plan::Fixed { sleep_ms, reply } && sleep_ms == 0 && probability_ppm > 0 && {
                let b = bytes_view(reply.body).unwrap();
                &&& reply.body is Some
                &&& 50 <= b.len() <= 199
                &&& forall|i: int| 0 <= i < b.len() ==> 0x20 <= #[trigger] b[i] <= 0x7e
                &&& fault_reply_is(reply, stub, 200, Some("application/octet-stream"@), b, "corrupt"@)
            }
            ||| p == (Plan::Normal { sleep_ms: 0, render: false }) && probability_ppm < 1_000_000
        },
        Some(FaultConfig::SlowResponse { bytes_per_second }) => p == (Plan::Normal {
            sleep_ms: slow_delay(paced_size(stub.response, file), bytes_per_second) as u64,
            render: false,
        }),
        None => p matches Plan::Normal { sleep_ms, render } && render == renders(stub.response) && match stub.delay {
            None => sleep_ms == 0,
            Some(d) => {
                &&& d.fixed_ms > 0 ==> sleep_ms == d.fixed_ms
                &&& d.fixed_ms == 0 && d.max_ms > d.min_ms ==> d.min_ms <= sleep_ms <= d.max_ms
                &&& d.fixed_ms == 0 && d.max_ms <= d.min_ms ==> sleep_ms == d.min_ms
            },
        },
    }
}

/// The corruption draw `draw`, uniform in `[0, 1_000_000)`, corrupts the
/// reply when it falls below the probability in millionths.
pub fn corrupts(draw: u64, probability_ppm: u32) -> (r: bool)
    ensures
        r == (draw < probability_ppm as u64),
{
    draw < probability_ppm as u64
}

/// What a matched stub does, given the random draws: the delay draw, the
/// corruption draw and the garbage a corrupted reply carries.
pub open spec fn plan_exact(
    stub: StubDefinition,
    file: Option<Seq<u8>>,
    delay_draw: u64,
    corrupt_draw: u64,
    garbage: Seq<u8>,
    p: Plan,
) -> bool {
    match stub.fault {
        Some(FaultConfig::Corrupt { probability_ppm }) => if corrupt_draw < probability_ppm as u64 {
            p matches Plan::Fixed { sleep_ms, reply } && sleep_ms == 0 && fault_reply_is(
                reply,
                stub,
                200,
                Some("application/octet-stream"@),
                garbage,
                "corrupt"@,
            )
        } else {
            p == (Plan::Normal { sleep_ms: 0, render: false })
        },
        None => p == (Plan::Normal {
            sleep_ms: match stub.delay {
                None => 0,
                Some(d) => delay_of(d, delay_draw),
            },
            render: renders(stub.response),
        }),
        _ => plan_ok(stub, file, p),
    }
}

/// What a matched stub does, given the random draws (see `plan_exact`).
pub fn plan_drawn(
    stub: &StubDefinition,
    file: Option<Vec<u8>>,
    delay_draw: u64,
    corrupt_draw: u64,
    garbage: Vec<u8>,
) -> (p: Plan)
    ensures
        plan_exact(*stub, bytes_view(file), delay_draw, corrupt_draw, garbage@, p),
{
    match &stub.fault {
        Some(FaultConfig::Corrupt { probability_ppm }) => {
            if corrupts(corrupt_draw, *probability_ppm) {
                Plan::Fixed {
                    sleep_ms: 0,
                    reply: fault_reply(stub, 200, Some("application/octet-stream"), garbage, "corrupt"),
                }
            } else {
                Plan::Normal { sleep_ms: 0, render: false }
            }
        },
        None => {
            let sleep_ms = match &stub.delay {
                Some(d) => d.delay_for(delay_draw),
                None => 0,
            };
            Plan::Normal { sleep_ms, render: renders_body(&stub.response) }
        },
        _ => plan_stub_fixed(stub, file),
    }
}

/// What a matched stub does, by its fault (if any) and else its delay. The
/// delay and the corruption draw are random; every outcome is described.
pub fn plan_stub(stub: &StubDefinition, file: Option<Vec<u8>>) -> (p: Plan)
    ensures
        plan_ok(*stub, bytes_view(file), p),
{
    let delay_draw = match &stub.delay {
        Some(d) => d.draw(),
        None => 0,
    };
    let corrupt_draw = random_between(0, 999_999);
    let garbage = match &stub.fault {
        Some(FaultConfig::Corrupt { .. }) => generate_garbage(),
        _ => Vec::new(),
    };
    let p = plan_drawn(stub, file, delay_draw, corrupt_draw, garbage);
    p
}

/// What a stub with an error, timeout, empty or slow-response fault does.
fn plan_stub_fixed(stub: &StubDefinition, file: Option<Vec<u8>>) -> (p: Plan)
    requires
        stub.fault matches Some(f) && !(f is Corrupt),
    ensures
        plan_ok(*stub, bytes_view(file), p),
{
    match &stub.fault {
        Some(FaultConfig::Error { status, message }) => {
            let text = match message {
                Some(m) => m.clone(),
                None => s("Error"),
            };
            let body = utf8_bytes(text.as_str());
            Plan::Fixed { sleep_ms: 0, reply: fault_reply(stub, *status, Some("text/plain"), body, "error") }
        },
        Some(FaultConfig::Timeout { duration_ms }) => {
            let body = utf8_bytes("Gateway Timeout (simulated)");
            Plan::Fixed {
                sleep_ms: *duration_ms,
                reply: fault_reply(stub, 504, Some("text/plain"), body, "timeout"),
            }
        },
        Some(FaultConfig::Empty) => {
            let rep = fault_reply(stub, 200, None, Vec::new(), "empty");
            assert(bytes_view(rep.body) == Some(Seq::<u8>::empty()));
            Plan::Fixed { sleep_ms: 0, reply: rep }
        },
        Some(FaultConfig::SlowResponse { bytes_per_second }) => {
            let size: u64 = match &stub.response.body {
                Some(b) => match materialize(b, file) {
                    Some(bytes) => bytes.len() as u64,
                    None => 100,
                },
                None => 100,
            };
            Plan::Normal { sleep_ms: slow_response_delay(size, *bytes_per_second), render: false }
        },
        _ => Plan::Normal { sleep_ms: 0, render: false },
    }
}

} // verus!
