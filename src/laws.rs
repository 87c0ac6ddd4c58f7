//! Properties that relate several functions of the library, proved over the
//! spec functions their contracts use.
use vstd::prelude::*;
use crate::agent::{MockServerAgent, eligible_for, exhausted, selected_for, HttpRequest};
use crate::config::{ResponseBody, ResponseDefinition, StubDefinition};
use crate::helpers::{ParamValue, default_of};
use crate::matcher::precedes;
use crate::response::chosen_body;
use crate::text::{ascii_lower, ascii_upper, contains, lower_char, upper_char};

verus! {

/// At most one stub is selected for a request.
pub proof fn lemma_selection_unique(stubs: Seq<StubDefinition>, i: int, j: int, req: HttpRequest)
    requires
        selected_for(stubs, i, req),
        selected_for(stubs, j, req),
    ensures
        i == j,
{
    if i != j {
        assert(eligible_for(stubs, j, req));
        assert(eligible_for(stubs, i, req));
        assert(precedes(stubs, i, j));
        assert(precedes(stubs, j, i));
    }
}

/// When two stubs both satisfy a request and `a` has the higher priority, or
/// the same priority and an earlier place in the catalog, `b` is not chosen.
pub proof fn lemma_priority_dominance(stubs: Seq<StubDefinition>, a: int, b: int, req: HttpRequest)
    requires
        eligible_for(stubs, a, req),
        eligible_for(stubs, b, req),
        stubs[a].priority > stubs[b].priority || (stubs[a].priority == stubs[b].priority && a < b),
    ensures
        !selected_for(stubs, b, req),
{
    if selected_for(stubs, b, req) {
        assert(eligible_for(stubs, a, req));
        assert(precedes(stubs, b, a));
    }
}

/// A disabled stub is never selected.
pub proof fn lemma_disabled_never_selected(stubs: Seq<StubDefinition>, i: int, req: HttpRequest)
    requires
        0 <= i < stubs.len(),
        !stubs[i].enabled,
    ensures
        !selected_for(stubs, i, req),
{
}

/// No stub's match count exceeds a nonzero cap, in any reachable state.
pub proof fn lemma_match_counts_within_caps(agent: MockServerAgent)
    requires
        agent.wf(),
    ensures
        agent.counts().len() == agent.stubs().len(),
        forall|i: int|
            0 <= i < agent.counts().len() && #[trigger] agent.stubs()[i].max_matches > 0 ==> agent.counts()[i]
                <= agent.stubs()[i].max_matches,
{
    agent.lemma_wf_facts();
}

/// A cap of 0 is never reached.
pub proof fn lemma_no_cap_never_exhausted(count: u32)
    ensures
        !exhausted(0, count),
{
}

/// A static text body is sent as the UTF-8 bytes of its text.
pub proof fn lemma_static_text_round_trip(
    r: ResponseDefinition,
    rendered: Option<Seq<u8>>,
    file: Option<Seq<u8>>,
)
    requires
        r.body matches Some(ResponseBody::Text { .. }),
        !r.template,
    ensures
        chosen_body(r, rendered, file) == Some(
            vstd::utf8::encode_utf8(
                match r.body {
                    Some(ResponseBody::Text { content }) => content@,
                    _ => Seq::empty(),
                },
            ),
        ),
{
}

/// A JSON body without templating is sent as the UTF-8 bytes of its JSON text.
pub proof fn lemma_static_json_round_trip(
    r: ResponseDefinition,
    rendered: Option<Seq<u8>>,
    file: Option<Seq<u8>>,
)
    requires
        r.body matches Some(ResponseBody::Json { .. }),
        !r.template,
    ensures
        chosen_body(r, rendered, file) == Some(
            vstd::utf8::encode_utf8(
                match r.body {
                    Some(ResponseBody::Json { content }) => content@,
                    _ => Seq::empty(),
                },
            ),
        ),
{
}

/// Under templating, a JSON body whose text holds no `{{` is sent exactly as
/// its static rendering.
pub proof fn lemma_json_without_templates_is_static(
    r: ResponseDefinition,
    rendered: Option<Seq<u8>>,
    file: Option<Seq<u8>>,
)
    requires
        r.body matches Some(ResponseBody::Json { content }) && !contains(content@, "{{"@),
    ensures
        chosen_body(r, rendered, file) == chosen_body(
            ResponseDefinition { template: false, ..r },
            rendered,
            file,
        ),
{
}

/// Upper-casing twice is upper-casing once.
pub proof fn lemma_upper_idempotent(s: Seq<char>)
    ensures
        ascii_upper(ascii_upper(s)) == ascii_upper(s),
{
    assert forall|i: int| 0 <= i < s.len() implies upper_char(upper_char(s[i])) == upper_char(s[i]) by {
        let c = s[i];
        if 'a' <= c && c <= 'z' {
            assert(!('a' <= upper_char(c) && upper_char(c) <= 'z'));
        }
    }
    assert(ascii_upper(ascii_upper(s)) =~= ascii_upper(s));
}

/// Lower-casing twice is lower-casing once.
pub proof fn lemma_lower_idempotent(s: Seq<char>)
    ensures
        ascii_lower(ascii_lower(s)) == ascii_lower(s),
{
    assert forall|i: int| 0 <= i < s.len() implies lower_char(lower_char(s[i])) == lower_char(s[i]) by {
        let c = s[i];
        if 'A' <= c && c <= 'Z' {
            assert(!('A' <= lower_char(c) && lower_char(c) <= 'Z'));
        }
    }
    assert(ascii_lower(ascii_lower(s)) =~= ascii_lower(s));
}

/// `default` of a missing value is the fallback, and of a non-empty string is
/// that string.
pub proof fn lemma_default_helper(present: String, fallback: Seq<char>)
    requires
        present@.len() > 0,
    ensures
        default_of(ParamValue::Missing, fallback) == fallback,
        default_of(ParamValue::Null, fallback) == fallback,
        default_of(ParamValue::Str(present), fallback) == present@,
{
}

} // verus!
