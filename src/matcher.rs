//! Selection of the stub that answers a request, and the context (path
//! parameters, query parameters, regex captures) the match produces.
use vstd::prelude::*;
use crate::config::{BodyMatcher, HeaderMatcher, PathMatcher, QueryMatcher, RequestMatcher,
    StubDefinition, request_error};
use crate::json::{is_json, is_safe_json_path, json_parses, json_path_find, json_path_result,
    json_path_safe};
use crate::path_template::{PathTemplate, parse_template, template_match};
use crate::patterns::{CompiledGlob, CompiledRegex, compile_glob, compile_regex, glob_is_match,
    glob_match, opts_view, regex_captures, regex_capture_names, regex_group_names, regex_groups,
    regex_match, regex_test, regex_valid};
use crate::query::{parse_query, parse_query_string};
use crate::strmap::{StrMap, lookup_last};
use crate::text::{ascii_lower, contains, decode_utf8_bytes, eq_ignore_ascii_case,
    starts_with, str_contains, str_eq, str_starts_with, string_of};

verus! {

/// What a match captured, for the template engine.
pub struct MatchContext {
    pub path_params: StrMap,
    pub query_params: StrMap,
    pub captures: StrMap,
}

impl MatchContext {
    pub fn new() -> (r: MatchContext)
        ensures
            r.path_params.pairs().len() == 0,
            r.query_params.pairs().len() == 0,
            r.captures.pairs().len() == 0,
    {
        MatchContext { path_params: StrMap::new(), query_params: StrMap::new(), captures: StrMap::new() }
    }
}

impl Default for MatchContext {
    fn default() -> (r: MatchContext)
        ensures
            r.path_params.pairs().len() == 0,
            r.query_params.pairs().len() == 0,
            r.captures.pairs().len() == 0,
    {
        MatchContext::new()
    }
}

/// The selected stub, by its index in the catalog, and what the match captured.
pub struct MatchResult {
    pub stub_index: usize,
    pub context: MatchContext,
}

pub open spec fn digit_char(d: int) -> char {
    ((d + 48) as u8) as char
}

/// Decimal digits of `n`.
pub open spec fn decimal(n: nat) -> Seq<char>
    decreases n,
{
    if n < 10 {
        seq![digit_char(n as int)]
    } else {
        decimal(n / 10).push(digit_char((n % 10) as int))
    }
}

fn decimal_chars(n: usize) -> (r: Vec<char>)
    ensures
        r@ == decimal(n as nat),
    decreases n,
{
    if n < 10 {
        vec![((n as u8) + 48) as char]
    } else {
        let mut v = decimal_chars(n / 10);
        v.push((((n % 10) as u8) + 48) as char);
        v
    }
}

/// Captures of numbered groups `1..n` that took part in the match, keyed by
/// their decimal index.
pub open spec fn numbered_captures(groups: Seq<Option<Seq<char>>>, n: int) -> Seq<(Seq<char>, Seq<char>)>
    decreases n,
{
    if n <= 1 || n > groups.len() {
        Seq::empty()
    } else {
        let r = numbered_captures(groups, n - 1);
        match groups[n - 1] {
            Some(g) => r.push((decimal((n - 1) as nat), g)),
            None => r,
        }
    }
}

/// Captures of named groups among the first `n`, keyed by their name.
pub open spec fn named_captures(
    groups: Seq<Option<Seq<char>>>,
    names: Seq<Option<Seq<char>>>,
    n: int,
) -> Seq<(Seq<char>, Seq<char>)>
    decreases n,
{
    if n <= 0 || n > names.len() {
        Seq::empty()
    } else {
        let r = named_captures(groups, names, n - 1);
        if n - 1 < groups.len() && names[n - 1] is Some && groups[n - 1] is Some {
            r.push((names[n - 1].unwrap(), groups[n - 1].unwrap()))
        } else {
            r
        }
    }
}

pub open spec fn captures_of(groups: Seq<Option<Seq<char>>>, names: Seq<Option<Seq<char>>>) -> Seq<
    (Seq<char>, Seq<char>),
> {
    numbered_captures(groups, groups.len() as int) + named_captures(groups, names, names.len() as int)
}

pub open spec fn method_ok(methods: Seq<String>, m: Seq<char>) -> bool {
    methods.len() == 0 || exists|k: int| 0 <= k < methods.len() && ascii_lower(methods[k]@) == ascii_lower(m)
}

pub open spec fn path_ok(p: Option<PathMatcher>, path: Seq<char>) -> bool {
    match p {
        None => true,
        Some(PathMatcher::Exact { value }) => path == value@,
        Some(PathMatcher::Prefix { value }) => starts_with(path, value@),
        Some(PathMatcher::Regex { pattern }) => regex_match(pattern@, path),
        Some(PathMatcher::Glob { pattern }) => glob_match(pattern@, path),
        Some(PathMatcher::Template { template }) => template_match(parse_template(template@), path) is Some,
    }
}

pub open spec fn query_clause_ok(params: Seq<(Seq<char>, Seq<char>)>, name: Seq<char>, qm: QueryMatcher) -> bool {
    let v = lookup_last(params, name);
    match qm {
        QueryMatcher::Exact { value } => v == Some(value@),
        QueryMatcher::Regex { pattern } => v is Some && regex_valid(pattern@) && regex_match(pattern@, v.unwrap()),
        QueryMatcher::Present => v is Some,
        QueryMatcher::Absent => v is None,
    }
}

pub open spec fn query_ok(clauses: Seq<(String, QueryMatcher)>, params: Seq<(Seq<char>, Seq<char>)>) -> bool {
    forall|k: int| 0 <= k < clauses.len() ==> query_clause_ok(params, clauses[k].0@, clauses[k].1)
}

/// The query clauses hold: there are none, or the query string is well
/// formed and each clause holds of its parameters.
pub open spec fn query_clauses_ok(clauses: Seq<(String, QueryMatcher)>, q: Seq<char>) -> bool {
    clauses.len() == 0 || (parse_query(q) is Some && query_ok(clauses, parse_query(q).unwrap()))
}

/// The parameters of a query string; none when it is malformed.
pub open spec fn query_pairs(q: Seq<char>) -> Seq<(Seq<char>, Seq<char>)> {
    match parse_query(q) {
        Some(p) => p,
        None => Seq::empty(),
    }
}

/// Value of the first header at or after `i` whose name equals `name` up to ASCII case.
pub open spec fn header_lookup(hs: Seq<(String, String)>, name: Seq<char>, i: int) -> Option<Seq<char>>
    decreases hs.len() - i,
{
    if i < 0 || i >= hs.len() {
        None
    } else if ascii_lower(hs[i].0@) == ascii_lower(name) {
        Some(hs[i].1@)
    } else {
        header_lookup(hs, name, i + 1)
    }
}

pub open spec fn header_clause_ok(hs: Seq<(String, String)>, name: Seq<char>, hm: HeaderMatcher) -> bool {
    let v = header_lookup(hs, name, 0);
    match hm {
        HeaderMatcher::Exact { value } => v == Some(value@),
        HeaderMatcher::Regex { pattern } => v is Some && regex_valid(pattern@) && regex_match(pattern@, v.unwrap()),
        HeaderMatcher::Present => v is Some,
        HeaderMatcher::Absent => v is None,
        HeaderMatcher::Contains { value } => v is Some && contains(v.unwrap(), value@),
    }
}

pub open spec fn headers_ok(clauses: Seq<(String, HeaderMatcher)>, hs: Seq<(String, String)>) -> bool {
    forall|k: int| 0 <= k < clauses.len() ==> header_clause_ok(hs, clauses[k].0@, clauses[k].1)
}

/// The body as text, when there is one and it is UTF-8.
pub open spec fn body_text(b: Option<Seq<u8>>) -> Option<Seq<char>> {
    match b {
        Some(bytes) => if vstd::utf8::valid_utf8(bytes) {
            Some(vstd::utf8::decode_utf8(bytes))
        } else {
            None
        },
        None => None,
    }
}

pub open spec fn json_expr_ok(doc: Seq<char>, expr: Seq<char>, expected: Seq<char>) -> bool {
    json_path_safe(expr) && match json_path_result(doc, expr) {
        None => false,
        Some(found) => if expected == "null"@ {
            found != "null"@
        } else {
            found == expected
        },
    }
}

pub open spec fn body_ok(bm: Option<BodyMatcher>, b: Option<Seq<u8>>) -> bool {
    let text = body_text(b);
    match bm {
        None => true,
        Some(BodyMatcher::Exact { value }) => text == Some(value@),
        Some(BodyMatcher::Regex { pattern }) => text is Some && regex_valid(pattern@) && regex_match(
            pattern@,
            text.unwrap(),
        ),
        Some(BodyMatcher::JsonPath { expressions }) => text is Some && json_parses(text.unwrap()) && forall|
            k: int,
        |
            0 <= k < expressions@.len() ==> json_expr_ok(text.unwrap(), expressions@[k].0@, expressions@[k].1@),
        Some(BodyMatcher::Contains { value }) => text is Some && contains(text.unwrap(), value@),
        Some(BodyMatcher::Json) => text is Some && json_parses(text.unwrap()),
        Some(BodyMatcher::Empty) => b is None || b.unwrap().len() == 0,
    }
}

pub open spec fn query_view(q: Option<&str>) -> Seq<char> {
    match q {
        Some(s) => s@,
        None => Seq::empty(),
    }
}

pub open spec fn body_view(b: Option<&[u8]>) -> Option<Seq<u8>> {
    match b {
        Some(s) => Some(s@),
        None => None,
    }
}

/// A request satisfies every clause of a matcher.
pub open spec fn request_ok(
    rm: RequestMatcher,
    m: Seq<char>,
    p: Seq<char>,
    q: Seq<char>,
    h: Seq<(String, String)>,
    b: Option<Seq<u8>>,
) -> bool {
    &&& method_ok(rm.method@, m)
    &&& path_ok(rm.path, p)
    &&& query_clauses_ok(rm.query@, q)
    &&& headers_ok(rm.headers@, h)
    &&& body_ok(rm.body, b)
}

/// The stub at index `i` may answer the request.
pub open spec fn eligible(
    stubs: Seq<StubDefinition>,
    i: int,
    m: Seq<char>,
    p: Seq<char>,
    q: Seq<char>,
    h: Seq<(String, String)>,
    b: Option<Seq<u8>>,
) -> bool {
    0 <= i < stubs.len() && stubs[i].enabled && request_ok(stubs[i].request, m, p, q, h, b)
}

/// Stub `i` is tried before stub `j`: higher priority first, then catalog order.
pub open spec fn precedes(stubs: Seq<StubDefinition>, i: int, j: int) -> bool {
    stubs[i].priority > stubs[j].priority || (stubs[i].priority == stubs[j].priority && i < j)
}

/// Stub `i` is the one selected: eligible, and tried before every other eligible stub.
pub open spec fn selected(
    stubs: Seq<StubDefinition>,
    i: int,
    m: Seq<char>,
    p: Seq<char>,
    q: Seq<char>,
    h: Seq<(String, String)>,
    b: Option<Seq<u8>>,
) -> bool {
    &&& eligible(stubs, i, m, p, q, h, b)
    &&& forall|j: int| #[trigger] eligible(stubs, j, m, p, q, h, b) && j != i ==> precedes(stubs, i, j)
}

pub open spec fn path_params_of(pm: Option<PathMatcher>, path: Seq<char>) -> Seq<(Seq<char>, Seq<char>)> {
    match pm {
        Some(PathMatcher::Template { template }) => template_match(parse_template(template@), path).unwrap(),
        _ => Seq::empty(),
    }
}

pub open spec fn path_captures_of(pm: Option<PathMatcher>, path: Seq<char>) -> Seq<(Seq<char>, Seq<char>)> {
    match pm {
        Some(PathMatcher::Regex { pattern }) => captures_of(
            regex_groups(pattern@, path).unwrap(),
            regex_group_names(pattern@),
        ),
        _ => Seq::empty(),
    }
}

/// The context a match of `rm` on a request produces.
pub open spec fn context_ok(ctx: MatchContext, rm: RequestMatcher, p: Seq<char>, q: Seq<char>) -> bool {
    &&& ctx.path_params.pairs() == path_params_of(rm.path, p)
    &&& ctx.query_params.pairs() == query_pairs(q)
    &&& ctx.captures.pairs() == path_captures_of(rm.path, p)
}

/// A path matcher compiled at construction.
pub enum CompiledPathMatcher {
    Exact(String),
    Prefix(String),
    Regex(CompiledRegex),
    Glob(CompiledGlob),
    Template(PathTemplate),
}

pub open spec fn compiled_agrees(c: CompiledPathMatcher, p: PathMatcher) -> bool {
    match (c, p) {
        (CompiledPathMatcher::Exact(a), PathMatcher::Exact { value }) => a@ == value@,
        (CompiledPathMatcher::Prefix(a), PathMatcher::Prefix { value }) => a@ == value@,
        (CompiledPathMatcher::Regex(r), PathMatcher::Regex { pattern }) => r.pattern() == pattern@,
        (CompiledPathMatcher::Glob(g), PathMatcher::Glob { pattern }) => g.pattern() == pattern@,
        (CompiledPathMatcher::Template(t), PathMatcher::Template { template }) => t.view_segs()
            == parse_template(template@),
        _ => false,
    }
}

pub open spec fn slot_agrees(c: Option<CompiledPathMatcher>, p: Option<PathMatcher>) -> bool {
    match (c, p) {
        (None, None) => true,
        (Some(c), Some(p)) => compiled_agrees(c, p),
        _ => false,
    }
}

/// The compiled path matchers of a catalog, one slot per stub.
pub struct Matcher {
    pub path_matchers: Vec<Option<CompiledPathMatcher>>,
}

/// Every stub's path pattern compiles.
pub open spec fn patterns_valid(stubs: Seq<StubDefinition>) -> bool {
    forall|i: int| 0 <= i < stubs.len() ==> request_error(#[trigger] stubs[i].request) is None
}

fn compile_path(p: &PathMatcher) -> (r: CompiledPathMatcher)
    requires
        match *p {
            PathMatcher::Regex { pattern } => regex_valid(pattern@),
            PathMatcher::Glob { pattern } => crate::patterns::glob_valid(pattern@),
            _ => true,
        },
    ensures
        compiled_agrees(r, *p),
{
    match p {
        PathMatcher::Exact { value } => CompiledPathMatcher::Exact(value.clone()),
        PathMatcher::Prefix { value } => CompiledPathMatcher::Prefix(value.clone()),
        PathMatcher::Regex { pattern } => CompiledPathMatcher::Regex(compile_regex(pattern.as_str()).unwrap()),
        PathMatcher::Glob { pattern } => CompiledPathMatcher::Glob(compile_glob(pattern.as_str()).unwrap()),
        PathMatcher::Template { template } => CompiledPathMatcher::Template(PathTemplate::parse(template.as_str())),
    }
}

fn method_matches(methods: &Vec<String>, m: &str) -> (r: bool)
    ensures
        r == method_ok(methods@, m@),
{
    if methods.len() == 0 {
        return true;
    }
    let mut k: usize = 0;
    while k < methods.len()
        invariant
            k <= methods.len(),
            forall|j: int| 0 <= j < k ==> ascii_lower(methods@[j]@) != ascii_lower(m@),
        decreases methods.len() - k,
    {
        if eq_ignore_ascii_case(methods[k].as_str(), m) {
            return true;
        }
        k = k + 1;
    }
    false
}

fn header_value<'a>(hs: &'a Vec<(String, String)>, name: &str) -> (r: Option<&'a String>)
    ensures
        r matches Some(v) ==> header_lookup(hs@, name@, 0) == Some(v@),
        r is None ==> header_lookup(hs@, name@, 0) is None,
{
    let mut i: usize = 0;
    while i < hs.len()
        invariant
            i <= hs.len(),
            header_lookup(hs@, name@, 0) == header_lookup(hs@, name@, i as int),
        decreases hs.len() - i,
    {
        if eq_ignore_ascii_case(hs[i].0.as_str(), name) {
            return Some(&hs[i].1);
        }
        i = i + 1;
    }
    None
}

fn query_clause_matches(params: &StrMap, name: &str, qm: &QueryMatcher) -> (r: bool)
    ensures
        r == query_clause_ok(params.pairs(), name@, *qm),
{
    match qm {
        QueryMatcher::Exact { value } => match params.get(name) {
            Some(v) => str_eq(v.as_str(), value.as_str()),
            None => false,
        },
        QueryMatcher::Regex { pattern } => match params.get(name) {
            Some(v) => regex_test(pattern.as_str(), v.as_str()),
            None => false,
        },
        QueryMatcher::Present => params.contains_key(name),
        QueryMatcher::Absent => !params.contains_key(name),
    }
}

fn header_clause_matches(hs: &Vec<(String, String)>, name: &str, hm: &HeaderMatcher) -> (r: bool)
    ensures
        r == header_clause_ok(hs@, name@, *hm),
{
    let v = header_value(hs, name);
    match hm {
        HeaderMatcher::Exact { value } => match v {
            Some(v) => str_eq(v.as_str(), value.as_str()),
            None => false,
        },
        HeaderMatcher::Regex { pattern } => match v {
            Some(v) => regex_test(pattern.as_str(), v.as_str()),
            None => false,
        },
        HeaderMatcher::Present => v.is_some(),
        HeaderMatcher::Absent => v.is_none(),
        HeaderMatcher::Contains { value } => match v {
            Some(v) => str_contains(v.as_str(), value.as_str()),
            None => false,
        },
    }
}

fn json_paths_match(doc: &str, expressions: &Vec<(String, String)>) -> (r: bool)
    ensures
        r == forall|k: int|
            0 <= k < expressions@.len() ==> json_expr_ok(doc@, expressions@[k].0@, expressions@[k].1@),
{
    let null = "null";
    proof {
        reveal_strlit("null");
    }
    let mut k: usize = 0;
    while k < expressions.len()
        invariant
            k <= expressions.len(),
            null@ == "null"@,
            forall|j: int| 0 <= j < k ==> json_expr_ok(doc@, expressions@[j].0@, expressions@[j].1@),
        decreases expressions.len() - k,
    {
        let (expr, expected) = (&expressions[k].0, &expressions[k].1);
        let ok = is_safe_json_path(expr.as_str()) && match json_path_find(doc, expr.as_str()) {
            None => false,
            Some(found) => if str_eq(expected.as_str(), null) {
                !str_eq(found.as_str(), null)
            } else {
                str_eq(found.as_str(), expected.as_str())
            },
        };
        if !ok {
            return false;
        }
        k = k + 1;
    }
    true
}

fn body_matches(body: Option<&[u8]>, bm: &BodyMatcher) -> (r: bool)
    ensures
        r == body_ok(Some(*bm), body_view(body)),
{
    let text: Option<String> = match body {
        Some(b) => decode_utf8_bytes(b),
        None => None,
    };
    assert(match text {
        Some(t) => body_text(body_view(body)) == Some(t@),
        None => body_text(body_view(body)) is None,
    });
    match bm {
        BodyMatcher::Exact { value } => match &text {
            Some(t) => str_eq(t.as_str(), value.as_str()),
            None => false,
        },
        BodyMatcher::Regex { pattern } => match &text {
            Some(t) => regex_test(pattern.as_str(), t.as_str()),
            None => false,
        },
        BodyMatcher::JsonPath { expressions } => match &text {
            Some(t) => is_json(t.as_str()) && json_paths_match(t.as_str(), expressions),
            None => false,
        },
        BodyMatcher::Contains { value } => match &text {
            Some(t) => str_contains(t.as_str(), value.as_str()),
            None => false,
        },
        BodyMatcher::Json => match &text {
            Some(t) => is_json(t.as_str()),
            None => false,
        },
        BodyMatcher::Empty => match body {
            Some(b) => b.len() == 0,
            None => true,
        },
    }
}

fn push_regex_captures(
    groups: &Vec<Option<String>>,
    names: &Vec<Option<String>>,
    out: &mut StrMap,
)
    ensures
        final(out).pairs() == old(out).pairs() + captures_of(opts_view(groups@), opts_view(names@)),
{
    let ghost g = opts_view(groups@);
    let ghost nm = opts_view(names@);
    let ghost start = out.pairs();
    let mut i: usize = 1;
    while i < groups.len()
        invariant
            1 <= i,
            i <= groups.len() || groups.len() == 0,
            g == opts_view(groups@),
            out.pairs() == start + numbered_captures(g, i as int),
        decreases groups.len() - i,
    {
        match &groups[i] {
            Some(m) => {
                let key = decimal_chars(i);
                out.insert(string_of(key.as_slice()), m.clone());
                assert(out.pairs() =~= start + numbered_captures(g, i + 1));
            },
            None => {},
        }
        i = i + 1;
    }
    assert(numbered_captures(g, i as int) == numbered_captures(g, g.len() as int));
    let ghost mid = out.pairs();
    let mut j: usize = 0;
    while j < names.len()
        invariant
            j <= names.len(),
            g == opts_view(groups@),
            nm == opts_view(names@),
            out.pairs() == mid + named_captures(g, nm, j as int),
        decreases names.len() - j,
    {
        if j < groups.len() {
            match (&names[j], &groups[j]) {
                (Some(n), Some(m)) => {
                    out.insert(n.clone(), m.clone());
                },
                _ => {},
            }
        }
        j = j + 1;
        assert(out.pairs() =~= mid + named_captures(g, nm, j as int));
    }
    assert(out.pairs() =~= start + captures_of(g, nm));
}

impl Matcher {
    /// The matchers agree slot by slot with the stubs' path patterns.
    pub open spec fn compiled_for(&self, stubs: Seq<StubDefinition>) -> bool {
        &&& self.path_matchers@.len() == stubs.len()
        &&& forall|i: int|
            0 <= i < stubs.len() ==> slot_agrees(#[trigger] self.path_matchers@[i], stubs[i].request.path)
    }

    /// Compiles the path matcher of every stub.
    pub fn new(stubs: &Vec<StubDefinition>) -> (r: Matcher)
        requires
            patterns_valid(stubs@),
        ensures
            r.compiled_for(stubs@),
    {
        let mut path_matchers: Vec<Option<CompiledPathMatcher>> = Vec::new();
        let mut i: usize = 0;
        while i < stubs.len()
            invariant
                i <= stubs.len(),
                patterns_valid(stubs@),
                path_matchers@.len() == i,
                forall|j: int| 0 <= j < i ==> slot_agrees(#[trigger] path_matchers@[j], stubs@[j].request.path),
            decreases stubs.len() - i,
        {
            let ghost req = stubs@[i as int].request;
            assert(request_error(req) is None);
            let slot = match &stubs[i].request.path {
                Some(p) => Some(compile_path(p)),
                None => None,
            };
            path_matchers.push(slot);
            i = i + 1;
        }
        Matcher { path_matchers }
    }

    /// Tests the path clause; on success records template parameters and
    /// regex captures in `ctx`.
    fn matches_path(c: &CompiledPathMatcher, path: &str, ctx: &mut MatchContext) -> (r: bool)
        ensures
            forall|p: PathMatcher|
                compiled_agrees(*c, p) ==> {
                    &&& r == path_ok(Some(p), path@)
                    &&& r ==> final(ctx).path_params.pairs() == old(ctx).path_params.pairs() + path_params_of(
                        Some(p),
                        path@,
                    )
                    &&& r ==> final(ctx).captures.pairs() == old(ctx).captures.pairs() + path_captures_of(
                        Some(p),
                        path@,
                    )
                },
            final(ctx).query_params == old(ctx).query_params,
    {
        match c {
            CompiledPathMatcher::Exact(v) => {
                let r = str_eq(path, v.as_str());
                assert(ctx.path_params.pairs() + Seq::empty() =~= ctx.path_params.pairs());
                assert(ctx.captures.pairs() + Seq::empty() =~= ctx.captures.pairs());
                r
            },
            CompiledPathMatcher::Prefix(v) => {
                let r = str_starts_with(path, v.as_str());
                assert(ctx.path_params.pairs() + Seq::empty() =~= ctx.path_params.pairs());
                assert(ctx.captures.pairs() + Seq::empty() =~= ctx.captures.pairs());
                r
            },
            CompiledPathMatcher::Regex(re) => {
                assert(ctx.path_params.pairs() + Seq::empty() =~= ctx.path_params.pairs());
                match regex_captures(re, path) {
                    Some(groups) => {
                        let names = regex_capture_names(re);
                        push_regex_captures(&groups, &names, &mut ctx.captures);
                        true
                    },
                    None => false,
                }
            },
            CompiledPathMatcher::Glob(g) => {
                let r = glob_is_match(g, path);
                assert(ctx.path_params.pairs() + Seq::empty() =~= ctx.path_params.pairs());
                assert(ctx.captures.pairs() + Seq::empty() =~= ctx.captures.pairs());
                r
            },
            CompiledPathMatcher::Template(t) => {
                assert(ctx.captures.pairs() + Seq::empty() =~= ctx.captures.pairs());
                match t.matches(path) {
                    Some(params) => {
                        let mut k: usize = 0;
                        let ghost start = ctx.path_params.pairs();
                        while k < params.entries.len()
                            invariant
                                k <= params.entries.len(),
                                ctx.path_params.pairs() == start + params.pairs().subrange(0, k as int),
                                ctx.captures == old(ctx).captures,
                                ctx.query_params == old(ctx).query_params,
                            decreases params.entries.len() - k,
                        {
                            ctx.path_params.insert(params.entries[k].0.clone(), params.entries[k].1.clone());
                            k = k + 1;
                            assert(ctx.path_params.pairs() =~= start + params.pairs().subrange(0, k as int));
                        }
                        assert(params.pairs().subrange(0, k as int) =~= params.pairs());
                        true
                    },
                    None => false,
                }
            },
        }
    }

    /// Tests every clause of a stub's matcher; the context on success.
    fn matches_request(
        &self,
        stub_idx: usize,
        matcher: &RequestMatcher,
        method: &str,
        path: &str,
        query_string: Option<&str>,
        headers: &Vec<(String, String)>,
        body: Option<&[u8]>,
    ) -> (r: Option<MatchContext>)
        requires
            stub_idx < self.path_matchers@.len(),
            slot_agrees(self.path_matchers@[stub_idx as int], matcher.path),
        ensures
            r is Some == request_ok(*matcher, method@, path@, query_view(query_string), headers@, body_view(body)),
            r matches Some(ctx) ==> context_ok(ctx, *matcher, path@, query_view(query_string)),
    {
        let mut context = MatchContext::new();
        if !method_matches(&matcher.method, method) {
            return None;
        }
        match &self.path_matchers[stub_idx] {
            Some(c) => {
                let ghost p = matcher.path.unwrap();
                if !Self::matches_path(c, path, &mut context) {
                    return None;
                }
                assert(context.path_params.pairs() =~= path_params_of(matcher.path, path@));
                assert(context.captures.pairs() =~= path_captures_of(matcher.path, path@));
            },
            None => {
                assert(context.path_params.pairs() =~= path_params_of(matcher.path, path@));
                assert(context.captures.pairs() =~= path_captures_of(matcher.path, path@));
            },
        }
        let qs: &str = match query_string {
            Some(q) => q,
            None => "",
        };
        proof {
            reveal_strlit("");
        }
        assert(qs@ == query_view(query_string));
        let query_params = match parse_query_string(qs) {
            Some(m) => m,
            None => {
                if matcher.query.len() > 0 {
                    return None;
                }
                let m = StrMap::new();
                assert(m.pairs() =~= query_pairs(qs@));
                m
            },
        };
        let mut k: usize = 0;
        while k < matcher.query.len()
            invariant
                k <= matcher.query.len(),
                qs@ == query_view(query_string),
                query_params.pairs() == query_pairs(qs@),
                matcher.query.len() > 0 ==> parse_query(qs@) is Some,
                forall|j: int|
                    0 <= j < k ==> query_clause_ok(query_params.pairs(), matcher.query@[j].0@, matcher.query@[j].1),
            decreases matcher.query.len() - k,
        {
            if !query_clause_matches(&query_params, matcher.query[k].0.as_str(), &matcher.query[k].1) {
                assert(!query_clause_ok(query_pairs(qs@), matcher.query@[k as int].0@, matcher.query@[k as int].1));
                assert(!query_clauses_ok(matcher.query@, qs@));
                return None;
            }
            k = k + 1;
        }
        let mut k: usize = 0;
        while k < matcher.headers.len()
            invariant
                k <= matcher.headers.len(),
                qs@ == query_view(query_string),
                query_params.pairs() == query_pairs(qs@),
                query_clauses_ok(matcher.query@, qs@),
                forall|j: int|
                    0 <= j < k ==> header_clause_ok(headers@, matcher.headers@[j].0@, matcher.headers@[j].1),
            decreases matcher.headers.len() - k,
        {
            if !header_clause_matches(headers, matcher.headers[k].0.as_str(), &matcher.headers[k].1) {
                assert(!header_clause_ok(headers@, matcher.headers@[k as int].0@, matcher.headers@[k as int].1));
                return None;
            }
            k = k + 1;
        }
        match &matcher.body {
            Some(bm) => {
                if !body_matches(body, bm) {
                    return None;
                }
            },
            None => {},
        }
        context.query_params = query_params;
        Some(context)
    }

    /// The enabled stub that answers the request: the first, by priority
    /// (highest first) then catalog order, whose clauses all hold.
    pub fn find_match(
        &self,
        stubs: &Vec<StubDefinition>,
        method: &str,
        path: &str,
        query_string: Option<&str>,
        headers: &Vec<(String, String)>,
        body: Option<&[u8]>,
    ) -> (r: Option<MatchResult>)
        requires
            self.compiled_for(stubs@),
        ensures
            r is None <==> forall|i: int|
                !eligible(stubs@, i, method@, path@, query_view(query_string), headers@, body_view(body)),
            r matches Some(m) ==> {
                &&& selected(
                    stubs@,
                    m.stub_index as int,
                    method@,
                    path@,
                    query_view(query_string),
                    headers@,
                    body_view(body),
                )
                &&& context_ok(m.context, stubs@[m.stub_index as int].request, path@, query_view(query_string))
            },
    {
        let ghost q = query_view(query_string);
        let ghost b = body_view(body);
        let mut best: Option<MatchResult> = None;
        let mut i: usize = 0;
        while i < stubs.len()
            invariant
                i <= stubs.len(),
                self.compiled_for(stubs@),
                q == query_view(query_string),
                b == body_view(body),
                best is None ==> forall|j: int| 0 <= j < i ==> !eligible(stubs@, j, method@, path@, q, headers@, b),
                best matches Some(m) ==> {
                    &&& m.stub_index < i
                    &&& eligible(stubs@, m.stub_index as int, method@, path@, q, headers@, b)
                    &&& forall|j: int|
                        0 <= j < i && j != m.stub_index && #[trigger] eligible(stubs@, j, method@, path@, q, headers@, b)
                            ==> precedes(stubs@, m.stub_index as int, j)
                    &&& context_ok(m.context, stubs@[m.stub_index as int].request, path@, q)
                },
            decreases stubs.len() - i,
        {
            let stub = &stubs[i];
            let better = match &best {
                None => true,
                Some(m) => stub.priority > stubs[m.stub_index].priority,
            };
            if stub.enabled && better {
                assert(slot_agrees(self.path_matchers@[i as int], stubs@[i as int].request.path));
                match self.matches_request(i, &stub.request, method, path, query_string, headers, body) {
                    Some(context) => {
                        assert(request_ok(stubs@[i as int].request, method@, path@, q, headers@, b));
                        assert(eligible(stubs@, i as int, method@, path@, q, headers@, b));
                        best = Some(MatchResult { stub_index: i, context });
                    },
                    None => {
                        assert(!eligible(stubs@, i as int, method@, path@, q, headers@, b));
                    },
                }
            } else if stub.enabled {
                proof {
                    let m = best.unwrap();
                    assert(precedes(stubs@, m.stub_index as int, i as int));
                }
            } else {
                assert(!eligible(stubs@, i as int, method@, path@, q, headers@, b));
            }
            i = i + 1;
        }
        best
    }
}

} // verus!
