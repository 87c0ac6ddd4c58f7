//! Path templates such as `/users/{id}/posts`: literal text and named
//! parameters, matched against a request path from the left.
//!
//! A parameter consumes the path up to the first occurrence of the next
//! literal segment of the template; where no literal follows it, it consumes
//! up to the next `/`. A parameter that would capture nothing fails the match,
//! and the whole path must be consumed.
use vstd::prelude::*;
use crate::strmap::StrMap;
use crate::text::{chars_of, string_of, find_first, occurs_at, occurs_at_exec, slice_chars,
    starts_with, first_occurrence, lemma_first_occurrence};

verus! {

pub enum TemplateSegment {
    Literal(String),
    Param(String),
}

/// A segment as a flag (`true` for a parameter) and its text.
pub open spec fn seg_view(s: TemplateSegment) -> (bool, Seq<char>) {
    match s {
        TemplateSegment::Literal(t) => (false, t@),
        TemplateSegment::Param(n) => (true, n@),
    }
}

/// Parser state after a prefix of the template: segments so far, pending
/// literal text, whether a `{` is open, pending parameter name.
pub open spec fn parse_step(
    st: (Seq<(bool, Seq<char>)>, Seq<char>, bool, Seq<char>),
    c: char,
) -> (Seq<(bool, Seq<char>)>, Seq<char>, bool, Seq<char>) {
    let (segs, cur, in_param, name) = st;
    if c == '{' && !in_param {
        let segs2 = if cur.len() > 0 { segs.push((false, cur)) } else { segs };
        (segs2, Seq::empty(), true, Seq::empty())
    } else if c == '}' && in_param {
        (segs.push((true, name)), cur, false, Seq::empty())
    } else if in_param {
        (segs, cur, in_param, name.push(c))
    } else {
        (segs, cur.push(c), in_param, name)
    }
}

pub open spec fn parse_prefix(s: Seq<char>) -> (Seq<(bool, Seq<char>)>, Seq<char>, bool, Seq<char>)
    decreases s.len(),
{
    if s.len() == 0 {
        (Seq::empty(), Seq::empty(), false, Seq::empty())
    } else {
        parse_step(parse_prefix(s.drop_last()), s.last())
    }
}

/// Segments of a template: `{name}` opens and closes a parameter, all else is
/// literal text; a `{` that is never closed drops the name after it.
pub open spec fn parse_template(s: Seq<char>) -> Seq<(bool, Seq<char>)> {
    let st = parse_prefix(s);
    if st.1.len() > 0 {
        st.0.push((false, st.1))
    } else {
        st.0
    }
}

/// The first literal segment after index `k`.
pub open spec fn next_literal(segs: Seq<(bool, Seq<char>)>, k: int) -> Option<Seq<char>>
    decreases segs.len() - k,
{
    if k + 1 >= segs.len() || k + 1 < 0 {
        None
    } else if !segs[k + 1].0 {
        Some(segs[k + 1].1)
    } else {
        next_literal(segs, k + 1)
    }
}

/// Where a parameter at index `k` stops in `rest`.
pub open spec fn param_end(segs: Seq<(bool, Seq<char>)>, k: int, rest: Seq<char>) -> int {
    let stop = match next_literal(segs, k) {
        Some(lit) => lit,
        None => seq!['/'],
    };
    match first_occurrence(rest, stop) {
        Some(p) => p,
        None => rest.len() as int,
    }
}

/// Matching of segments `k..` against `rest`, with the parameters captured so far.
pub open spec fn match_from(
    segs: Seq<(bool, Seq<char>)>,
    k: int,
    rest: Seq<char>,
    params: Seq<(Seq<char>, Seq<char>)>,
) -> Option<Seq<(Seq<char>, Seq<char>)>>
    decreases segs.len() - k,
{
    if k < 0 || k >= segs.len() {
        if rest.len() == 0 {
            Some(params)
        } else {
            None
        }
    } else if !segs[k].0 {
        let lit = segs[k].1;
        if starts_with(rest, lit) {
            match_from(segs, k + 1, rest.subrange(lit.len() as int, rest.len() as int), params)
        } else {
            None
        }
    } else {
        let end = param_end(segs, k, rest);
        if end == 0 {
            None
        } else {
            match_from(
                segs,
                k + 1,
                rest.subrange(end, rest.len() as int),
                params.push((segs[k].1, rest.subrange(0, end))),
            )
        }
    }
}

/// The parameters captured when `segs` matches `path`, in template order.
pub open spec fn template_match(segs: Seq<(bool, Seq<char>)>, path: Seq<char>) -> Option<
    Seq<(Seq<char>, Seq<char>)>,
> {
    match_from(segs, 0, path, Seq::empty())
}


/// The template text a segment stands for: a literal as it is, a parameter
/// as `{name}`.
pub open spec fn seg_text(seg: (bool, Seq<char>)) -> Seq<char> {
    if seg.0 {
        seq!['{'] + seg.1 + seq!['}']
    } else {
        seg.1
    }
}

/// The template text of a segment list.
pub open spec fn template_text(segs: Seq<(bool, Seq<char>)>) -> Seq<char>
    decreases segs.len(),
{
    if segs.len() == 0 {
        Seq::empty()
    } else {
        template_text(segs.drop_last()) + seg_text(segs.last())
    }
}

/// Literal segments are non-empty and no two literals are adjacent.
pub open spec fn segments_well_formed(segs: Seq<(bool, Seq<char>)>) -> bool {
    &&& forall|i: int| 0 <= i < segs.len() && !(#[trigger] segs[i]).0 ==> segs[i].1.len() > 0
    &&& forall|i: int| 0 <= i < segs.len() - 1 && !(#[trigger] segs[i]).0 ==> segs[i + 1].0
}

proof fn lemma_parse_prefix(s: Seq<char>)
    ensures
        ({
            let (segs, cur, in_param, name) = parse_prefix(s);
            &&& s == template_text(segs) + cur + if in_param { seq!['{'] + name } else { Seq::empty() }
            &&& in_param ==> cur.len() == 0
            &&& segments_well_formed(segs)
            &&& segs.len() > 0 && !segs.last().0 ==> in_param
        }),
    decreases s.len(),
{
    if s.len() > 0 {
        let p = s.drop_last();
        let c = s.last();
        lemma_parse_prefix(p);
        let (segs, cur, in_param, name) = parse_prefix(p);
        assert(s =~= p.push(c));
        if c == '{' && !in_param {
            if cur.len() > 0 {
                let segs2 = segs.push((false, cur));
                assert(segs2.drop_last() =~= segs);
                assert(template_text(segs2) == template_text(segs) + cur);
            }
        } else if c == '}' && in_param {
            let segs2 = segs.push((true, name));
            assert(segs2.drop_last() =~= segs);
            assert(template_text(segs2) =~= template_text(segs) + seq!['{'] + name + seq!['}']);
        }
        let (segs2, cur2, in2, name2) = parse_prefix(s);
        assert(s =~= template_text(segs2) + cur2 + if in2 { seq!['{'] + name2 } else { Seq::empty() });
    }
}

/// Parsing keeps every character of a template whose braces are closed:
/// writing the segments back out gives the template. Literals are never
/// empty and never adjacent.
pub proof fn lemma_parse_template_round_trip(s: Seq<char>)
    requires
        !parse_prefix(s).2,
    ensures
        template_text(parse_template(s)) == s,
        segments_well_formed(parse_template(s)),
{
    lemma_parse_prefix(s);
    let (segs, cur, in_param, name) = parse_prefix(s);
    if cur.len() > 0 {
        let segs2 = segs.push((false, cur));
        assert(segs2.drop_last() =~= segs);
        assert(template_text(segs2) == template_text(segs) + cur);
    } else {
        assert(s =~= template_text(segs));
    }
}

/// Segments of a template are well formed even when a brace is left open.
pub proof fn lemma_parse_template_well_formed(s: Seq<char>)
    ensures
        segments_well_formed(parse_template(s)),
{
    lemma_parse_prefix(s);
    let (segs, cur, in_param, name) = parse_prefix(s);
    if cur.len() > 0 {
        let segs2 = segs.push((false, cur));
        assert(segs2.drop_last() =~= segs);
    }
}

/// The text segments `k..` stand for with the captured values of `vals`, in
/// order, in place of the parameters.
pub open spec fn substitute(segs: Seq<(bool, Seq<char>)>, k: int, vals: Seq<(Seq<char>, Seq<char>)>) -> Seq<
    char,
>
    decreases segs.len() - k,
{
    if k < 0 || k >= segs.len() {
        Seq::empty()
    } else if !segs[k].0 {
        segs[k].1 + substitute(segs, k + 1, vals)
    } else {
        vals[0].1 + substitute(segs, k + 1, vals.subrange(1, vals.len() as int))
    }
}

/// Number of parameters among segments `k..`.
pub open spec fn params_from(segs: Seq<(bool, Seq<char>)>, k: int) -> nat
    decreases segs.len() - k,
{
    if k < 0 || k >= segs.len() {
        0
    } else {
        params_from(segs, k + 1) + if segs[k].0 { 1nat } else { 0nat }
    }
}

proof fn lemma_param_end_bounds(segs: Seq<(bool, Seq<char>)>, k: int, rest: Seq<char>)
    ensures
        0 <= param_end(segs, k, rest) <= rest.len(),
{
    let stop = match next_literal(segs, k) {
        Some(lit) => lit,
        None => seq!['/'],
    };
    if first_occurrence(rest, stop) is Some {
        let w = choose|i: int| occurs_at(rest, stop, i);
        lemma_first_occurrence(rest, stop, w);
    }
}

#[verifier::rlimit(60)]
proof fn lemma_match_from(
    segs: Seq<(bool, Seq<char>)>,
    k: int,
    rest: Seq<char>,
    params: Seq<(Seq<char>, Seq<char>)>,
)
    requires
        0 <= k <= segs.len(),
        match_from(segs, k, rest, params) is Some,
    ensures
        ({
            let out = match_from(segs, k, rest, params).unwrap();
            let new = out.subrange(params.len() as int, out.len() as int);
            &&& params.len() <= out.len()
            &&& out.subrange(0, params.len() as int) == params
            &&& new.len() == params_from(segs, k)
            &&& forall|i: int| 0 <= i < new.len() ==> (#[trigger] new[i]).1.len() > 0
            &&& substitute(segs, k, new) == rest
        }),
    decreases segs.len() - k,
{
    let out = match_from(segs, k, rest, params).unwrap();
    if k >= segs.len() {
        assert(out == params);
        assert(rest =~= Seq::<char>::empty());
        assert(out.subrange(0, params.len() as int) =~= params);
        assert(out.subrange(params.len() as int, out.len() as int) =~= Seq::<(Seq<char>, Seq<char>)>::empty());
    } else if !segs[k].0 {
        let lit = segs[k].1;
        let rest2 = rest.subrange(lit.len() as int, rest.len() as int);
        assert(match_from(segs, k, rest, params) == match_from(segs, k + 1, rest2, params));
        lemma_match_from(segs, k + 1, rest2, params);
        let new = out.subrange(params.len() as int, out.len() as int);
        assert(rest =~= lit + rest2);
        assert(params_from(segs, k) == params_from(segs, k + 1));
        assert(substitute(segs, k, new) == lit + substitute(segs, k + 1, new));
        assert(forall|i: int| 0 <= i < new.len() ==> (#[trigger] new[i]).1.len() > 0);
    } else {
        let end = param_end(segs, k, rest);
        let rest2 = rest.subrange(end, rest.len() as int);
        let params2 = params.push((segs[k].1, rest.subrange(0, end)));
        lemma_param_end_bounds(segs, k, rest);
        assert(end > 0);
        assert(match_from(segs, k, rest, params) == match_from(segs, k + 1, rest2, params2));
        lemma_match_from(segs, k + 1, rest2, params2);
        let new = out.subrange(params.len() as int, out.len() as int);
        let new2 = out.subrange(params2.len() as int, out.len() as int);
        assert(out.subrange(0, params.len() as int) =~= params2.subrange(0, params.len() as int));
        assert(params2.subrange(0, params.len() as int) =~= params);
        assert(out.subrange(0, params2.len() as int)[params.len() as int] == params2[params.len() as int]);
        assert(new[0] == (segs[k].1, rest.subrange(0, end)));
        assert(new.subrange(1, new.len() as int) =~= new2);
        assert(rest =~= rest.subrange(0, end) + rest2);
        assert(params_from(segs, k) == params_from(segs, k + 1) + 1);
        assert(new.len() == new2.len() + 1);
        assert(substitute(segs, k, new) == new[0].1 + substitute(segs, k + 1, new.subrange(1, new.len() as int)));
        assert forall|i: int| 0 <= i < new.len() implies (#[trigger] new[i]).1.len() > 0 by {
            if i > 0 {
                assert(new[i] == new2[i - 1]);
            }
        };
        assert(out.subrange(0, params.len() as int) == params);
    }
}

/// A successful match captures one non-empty value per parameter, and
/// putting the values in place of the parameters gives the path back.
pub proof fn lemma_template_match_sound(segs: Seq<(bool, Seq<char>)>, path: Seq<char>)
    requires
        template_match(segs, path) is Some,
    ensures
        template_match(segs, path).unwrap().len() == params_from(segs, 0),
        forall|i: int|
            0 <= i < template_match(segs, path).unwrap().len() ==> (#[trigger] template_match(
                segs,
                path,
            ).unwrap()[i]).1.len() > 0,
        substitute(segs, 0, template_match(segs, path).unwrap()) == path,
{
    lemma_match_from(segs, 0, path, Seq::empty());
    let out = template_match(segs, path).unwrap();
    assert(out.subrange(0, out.len() as int) =~= out);
}

pub struct PathTemplate {
    pub segments: Vec<TemplateSegment>,
}

impl PathTemplate {
    pub open spec fn view_segs(&self) -> Seq<(bool, Seq<char>)> {
        self.segments@.map_values(|s: TemplateSegment| seg_view(s))
    }

    /// Parses a template such as `/users/{id}`.
    pub fn parse(template: &str) -> (r: PathTemplate)
        ensures
            r.view_segs() == parse_template(template@),
    {
        let cs = chars_of(template);
        let mut segments: Vec<TemplateSegment> = Vec::new();
        let mut current: Vec<char> = Vec::new();
        let mut in_param = false;
        let mut param_name: Vec<char> = Vec::new();
        let mut i: usize = 0;
        while i < cs.len()
            invariant
                cs@ == template@,
                i <= cs.len(),
                parse_prefix(cs@.subrange(0, i as int)) == (
                    segments@.map_values(|s: TemplateSegment| seg_view(s)),
                    current@,
                    in_param,
                    param_name@,
                ),
            decreases cs.len() - i,
        {
            let ch = cs[i];
            let ghost segs0 = segments@;
            assert(cs@.subrange(0, i + 1).drop_last() =~= cs@.subrange(0, i as int));
            if ch == '{' && !in_param {
                if current.len() > 0 {
                    segments.push(TemplateSegment::Literal(string_of(current.as_slice())));
                    assert(segments@.map_values(|s: TemplateSegment| seg_view(s)) =~= segs0.map_values(
                        |s: TemplateSegment| seg_view(s),
                    ).push((false, current@)));
                }
                current = Vec::new();
                in_param = true;
                param_name = Vec::new();
            } else if ch == '}' && in_param {
                segments.push(TemplateSegment::Param(string_of(param_name.as_slice())));
                assert(segments@.map_values(|s: TemplateSegment| seg_view(s)) =~= segs0.map_values(
                    |s: TemplateSegment| seg_view(s),
                ).push((true, param_name@)));
                in_param = false;
                param_name = Vec::new();
            } else if in_param {
                param_name.push(ch);
            } else {
                current.push(ch);
            }
            i = i + 1;
        }
        assert(cs@.subrange(0, i as int) =~= cs@);
        if current.len() > 0 {
            let ghost segs0 = segments@;
            segments.push(TemplateSegment::Literal(string_of(current.as_slice())));
            assert(segments@.map_values(|s: TemplateSegment| seg_view(s)) =~= segs0.map_values(
                |s: TemplateSegment| seg_view(s),
            ).push((false, current@)));
        }
        PathTemplate { segments }
    }

    /// The first literal segment after index `k`.
    fn next_literal_exec(&self, k: usize) -> (r: Option<Vec<char>>)
        requires
            k < self.segments.len(),
        ensures
            r matches Some(l) ==> next_literal(self.view_segs(), k as int) == Some(l@),
            r is None ==> next_literal(self.view_segs(), k as int) is None,
    {
        let mut j: usize = k + 1;
        while j < self.segments.len()
            invariant
                k < j <= self.segments.len(),
                next_literal(self.view_segs(), k as int) == next_literal(self.view_segs(), j - 1),
            decreases self.segments.len() - j,
        {
            match &self.segments[j] {
                TemplateSegment::Literal(lit) => {
                    return Some(chars_of(lit.as_str()));
                },
                TemplateSegment::Param(_) => {},
            }
            j = j + 1;
        }
        None
    }

    /// Matches `path`, returning the captured parameters.
    #[verifier::rlimit(40)]
    pub fn matches(&self, path: &str) -> (r: Option<StrMap>)
        ensures
            r matches Some(m) ==> template_match(self.view_segs(), path@) == Some(m.pairs()),
            r is None ==> template_match(self.view_segs(), path@) is None,
    {
        let mut params = StrMap::new();
        let mut rest = chars_of(path);
        let mut k: usize = 0;
        while k < self.segments.len()
            invariant
                k <= self.segments.len(),
                self.view_segs().len() == self.segments.len(),
                template_match(self.view_segs(), path@) == match_from(
                    self.view_segs(),
                    k as int,
                    rest@,
                    params.pairs(),
                ),
            decreases self.segments.len() - k,
        {
            let ghost segs = self.view_segs();
            let ghost rest0 = rest@;
            let ghost params0 = params.pairs();
            match &self.segments[k] {
                TemplateSegment::Literal(lit) => {
                    let lc = chars_of(lit.as_str());
                    assert(segs[k as int] == (false, lit@));
                    if occurs_at_exec(&rest, &lc, 0) {
                        assert(starts_with(rest0, lc@));
                        rest = slice_chars(&rest, lc.len(), rest.len());
                        assert(match_from(segs, k as int, rest0, params0) == match_from(
                            segs,
                            k + 1,
                            rest@,
                            params0,
                        ));
                    } else {
                        assert(!starts_with(rest0, lc@));
                        return None;
                    }
                },
                TemplateSegment::Param(name) => {
                    assert(segs[k as int] == (true, name@));
                    let stop = match self.next_literal_exec(k) {
                        Some(l) => l,
                        None => vec!['/'],
                    };
                    assert(stop@ == match next_literal(segs, k as int) {
                        Some(lit) => lit,
                        None => seq!['/'],
                    });
                    let end = match find_first(&rest, &stop) {
                        Some(p) => p,
                        None => rest.len(),
                    };
                    assert(end == param_end(segs, k as int, rest0));
                    if end == 0 {
                        return None;
                    }
                    let value = slice_chars(&rest, 0, end);
                    params.insert(name.clone(), string_of(value.as_slice()));
                    rest = slice_chars(&rest, end, rest.len());
                    assert(match_from(segs, k as int, rest0, params0) == match_from(
                        segs,
                        k + 1,
                        rest@,
                        params.pairs(),
                    ));
                },
            }
            k = k + 1;
        }
        if rest.len() == 0 {
            Some(params)
        } else {
            None
        }
    }
}

} // verus!
