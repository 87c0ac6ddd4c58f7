//! JSON documents as text: whether a body parses (`serde_json`) and what a
//! JSONPath expression finds in it (`jsonpath_rust`).
use vstd::prelude::*;

verus! {

/// Whether `serde_json` parses the text as a JSON value.
pub uninterp spec fn json_parses(text: Seq<char>) -> bool;

/// What `jsonpath_rust` finds for `expr` in the document `doc`, as compact JSON
/// text: an array of the matches, or `null` when nothing matched; `None` when
/// the document or the expression does not parse.
pub uninterp spec fn json_path_result(doc: Seq<char>, expr: Seq<char>) -> Option<Seq<char>>;

/// The pretty-printed form of a JSON text, or `None` when it is not JSON.
pub uninterp spec fn json_pretty_of(text: Seq<char>) -> Option<Seq<char>>;

/// Relies on `serde_json::from_str::<serde_json::Value>` and
/// `serde_json::to_string_pretty`: the text parsed and printed with indentation.
#[verifier::external_body]
pub(crate) fn pretty_json(text: &str) -> (r: Option<String>)
    ensures
        r matches Some(t) ==> json_pretty_of(text@) == Some(t@),
        r is None ==> json_pretty_of(text@) is None,
{
    serde_json::from_str::<serde_json::Value>(text).ok().and_then(|v| serde_json::to_string_pretty(&v).ok())
}

/// Relies on `serde_json::from_str::<serde_json::Value>`: whether the text is JSON.
#[verifier::external_body]
pub(crate) fn is_json(text: &str) -> (r: bool)
    ensures
        r == json_parses(text@),
{
    serde_json::from_str::<serde_json::Value>(text).is_ok()
}

pub open spec fn is_digit(c: char) -> bool {
    '0' <= c && c <= '9'
}

/// 19 digits in a row start at `i`: a number that may not fit in `i64`.
pub open spec fn long_number_at(s: Seq<char>, i: int) -> bool {
    &&& 0 <= i
    &&& i + 19 <= s.len()
    &&& forall|k: int| i <= k < i + 19 ==> is_digit(#[trigger] s[k])
}

/// Quoting state after a prefix: 0 outside a string, 1 inside `'...'`, 2
/// inside `"..."`, and whether the last character was an escaping `\`.
pub open spec fn quote_step(st: (u8, bool), c: char) -> (u8, bool) {
    if st.0 == 0 {
        if c == '\'' {
            (1, false)
        } else if c == '"' {
            (2, false)
        } else {
            (0, false)
        }
    } else if st.1 {
        (st.0, false)
    } else if c == '\\' {
        (st.0, true)
    } else if (st.0 == 1 && c == '\'') || (st.0 == 2 && c == '"') {
        (0, false)
    } else {
        (st.0, false)
    }
}

pub open spec fn quote_state(s: Seq<char>) -> (u8, bool)
    decreases s.len(),
{
    if s.len() == 0 {
        (0, false)
    } else {
        quote_step(quote_state(s.drop_last()), s.last())
    }
}

/// The character at `i` is outside every quoted string.
pub open spec fn outside_at(s: Seq<char>, i: int) -> bool {
    quote_state(s.subrange(0, i)).0 == 0
}

pub open spec fn is_space(c: char) -> bool {
    c == ' ' || c == '\t' || c == '\r' || c == '\n'
}

/// After position `i`, only spaces come before a `0`.
pub open spec fn zero_after(s: Seq<char>, i: int) -> bool {
    exists|j: int| i < j < s.len() && s[j] == '0' && forall|m: int| i < m < j ==> is_space(#[trigger] s[m])
}

/// A construct at `i` that may reach a panic in `jsonpath_rust`: a negative,
/// fractional or exponent number (an index union unwraps its members as
/// unsigned), a slice bound or step of `0` (a step of 0 cannot be taken), or
/// an index too long for `i64`.
pub open spec fn risky_at(s: Seq<char>, i: int) -> bool {
    ||| s[i] == '-' && i + 1 < s.len() && is_digit(s[i + 1])
    ||| s[i] == '.' && 0 < i && i + 1 < s.len() && is_digit(s[i - 1]) && is_digit(s[i + 1])
    ||| (s[i] == 'e' || s[i] == 'E') && 0 < i && i + 1 < s.len() && is_digit(s[i - 1]) && (is_digit(
        s[i + 1],
    ) || s[i + 1] == '+' || s[i + 1] == '-')
    ||| s[i] == ':' && zero_after(s, i)
    ||| long_number_at(s, i)
}

/// An expression that `jsonpath_rust` evaluates without panicking: nothing
/// risky outside quoted strings. Other expressions are not evaluated and
/// match nothing.
pub open spec fn json_path_safe(expr: Seq<char>) -> bool {
    forall|i: int| 0 <= i < expr.len() && outside_at(expr, i) ==> !risky_at(expr, i)
}

fn is_digit_exec(c: char) -> (r: bool)
    ensures
        r == is_digit(c),
{
    '0' <= c && c <= '9'
}

fn zero_after_exec(cs: &Vec<char>, i: usize) -> (r: bool)
    requires
        i < cs.len(),
    ensures
        r == zero_after(cs@, i as int),
{
    let mut j: usize = i + 1;
    while j < cs.len() && (cs[j] == ' ' || cs[j] == '\t' || cs[j] == '\r' || cs[j] == '\n')
        invariant
            i < j <= cs.len(),
            forall|m: int| i < m < j ==> is_space(#[trigger] cs@[m]),
        decreases cs.len() - j,
    {
        j = j + 1;
    }
    if j < cs.len() && cs[j] == '0' {
        return true;
    }
    assert forall|k: int| i < k < cs@.len() && cs@[k] == '0' implies !(forall|m: int|
        i < m < k ==> is_space(#[trigger] cs@[m])) by {
        if k == j {
        } else if k < j {
            assert(is_space(cs@[k]));
        } else {
            assert(!is_space(cs@[j as int]));
        }
    };
    false
}

fn long_number_exec(cs: &Vec<char>, i: usize) -> (r: bool)
    requires
        i < cs.len(),
    ensures
        r == long_number_at(cs@, i as int),
{
    if cs.len() - i < 19 {
        return false;
    }
    let mut k: usize = 0;
    while k < 19
        invariant
            i + 19 <= cs.len(),
            k <= 19,
            forall|m: int| i <= m < i + k ==> is_digit(#[trigger] cs@[m]),
        decreases 19 - k,
    {
        if !is_digit_exec(cs[i + k]) {
            return false;
        }
        k = k + 1;
    }
    true
}

fn risky_exec(cs: &Vec<char>, i: usize) -> (r: bool)
    requires
        i < cs.len(),
    ensures
        r == risky_at(cs@, i as int),
{
    let n = cs.len();
    let c = cs[i];
    let next_digit = i + 1 < n && is_digit_exec(cs[i + 1]);
    let prev_digit = i > 0 && is_digit_exec(cs[i - 1]);
    let minus = c == '-' && next_digit;
    let fraction = c == '.' && prev_digit && next_digit;
    let exponent = (c == 'e' || c == 'E') && prev_digit && i + 1 < n && (next_digit || cs[i + 1] == '+'
        || cs[i + 1] == '-');
    let zero = c == ':' && zero_after_exec(cs, i);
    minus || fraction || exponent || zero || long_number_exec(cs, i)
}

/// Whether `expr` may be handed to `jsonpath_rust`.
pub fn is_safe_json_path(expr: &str) -> (r: bool)
    ensures
        r == json_path_safe(expr@),
{
    let cs = crate::text::chars_of(expr);
    let n = cs.len();
    let mut mode: u8 = 0;
    let mut escaped = false;
    let mut i: usize = 0;
    while i < n
        invariant
            n == cs@.len(),
            cs@ == expr@,
            i <= n,
            quote_state(cs@.subrange(0, i as int)) == (mode, escaped),
            forall|j: int| 0 <= j < i && outside_at(cs@, j) ==> !risky_at(cs@, j),
        decreases n - i,
    {
        if mode == 0 && risky_exec(&cs, i) {
            assert(outside_at(cs@, i as int));
            return false;
        }
        let c = cs[i];
        assert(cs@.subrange(0, i + 1).drop_last() =~= cs@.subrange(0, i as int));
        if mode == 0 {
            if c == '\'' {
                mode = 1;
            } else if c == '"' {
                mode = 2;
            }
            escaped = false;
        } else if escaped {
            escaped = false;
        } else if c == '\\' {
            escaped = true;
        } else if (mode == 1 && c == '\'') || (mode == 2 && c == '"') {
            mode = 0;
        }
        i = i + 1;
    }
    true
}

/// Relies on `jsonpath_rust::JsonPathFinder::from_str` and its `find`, whose
/// value is rendered as compact JSON text. `find` panics on an index union
/// with a member that is not a non-negative `i64`, on a slice step of 0, and
/// on a single index beyond `i64`; `requires` leaves these expressions out
/// (numbers only occur outside quoted strings).
#[verifier::external_body]
pub(crate) fn json_path_find(doc: &str, expr: &str) -> (r: Option<String>)
    requires
        json_path_safe(expr@),
    ensures
        r matches Some(t) ==> json_path_result(doc@, expr@) == Some(t@),
        r is None ==> json_path_result(doc@, expr@) is None,
{
    jsonpath_rust::JsonPathFinder::from_str(doc, expr).ok().map(|f| f.find().to_string())
}

} // verus!
