//! The values of the template helpers that are computed from their
//! arguments: `upper`, `lower`, `default`, `random` and `uuid`.
use vstd::prelude::*;
use crate::config::random_between;
use crate::json::{json_pretty_of, pretty_json};
use crate::text::{string_of, to_ascii_lower, to_ascii_upper, ascii_lower, ascii_upper};

verus! {

/// A helper argument as the template engine resolved it.
pub enum ParamValue {
    /// The expression named nothing.
    Missing,
    Null,
    Str(String),
    /// A number, boolean, array or object, as JSON text.
    Other(String),
}

/// `{{json x}}`: the argument pretty-printed when it is JSON, else as it is.
pub fn json_value_text(s: &str) -> (r: String)
    ensures
        r@ == match json_pretty_of(s@) {
            Some(t) => t,
            None => s@,
        },
{
    match pretty_json(s) {
        Some(t) => t,
        None => String::from_str(s),
    }
}

/// `{{upper x}}`: ASCII upper case.
pub fn upper_value(s: &str) -> (r: String)
    ensures
        r@ == ascii_upper(s@),
{
    to_ascii_upper(s)
}

/// `{{lower x}}`: ASCII lower case.
pub fn lower_value(s: &str) -> (r: String)
    ensures
        r@ == ascii_lower(s@),
{
    to_ascii_lower(s)
}

/// What `{{default value fallback}}` writes.
pub open spec fn default_of(v: ParamValue, fallback: Seq<char>) -> Seq<char> {
    match v {
        ParamValue::Str(s) => if s@.len() > 0 { s@ } else { fallback },
        ParamValue::Other(t) => t@,
        _ => fallback,
    }
}

/// `{{default value fallback}}`: the value unless it is missing, null or an
/// empty string; then the fallback.
pub fn default_value(v: &ParamValue, fallback: &str) -> (r: String)
    ensures
        r@ == default_of(*v, fallback@),
{
    match v {
        ParamValue::Str(s) => if s.as_str().is_empty() {
            String::from_str(fallback)
        } else {
            s.clone()
        },
        ParamValue::Other(t) => t.clone(),
        _ => String::from_str(fallback),
    }
}

/// `{{random min max}}`: a uniformly drawn integer of `[min, max]`, the bounds
/// defaulting to 0 and 100; `None` when the range is empty.
pub fn random_value(min: Option<i64>, max: Option<i64>) -> (r: Option<i64>)
    ensures
        ({
            let lo = match min {
                Some(m) => m,
                None => 0,
            };
            let hi = match max {
                Some(m) => m,
                None => 100,
            };
            &&& r is None <==> lo > hi
            &&& r matches Some(v) ==> lo <= v <= hi
        }),
{
    let lo: i64 = match min {
        Some(m) => m,
        None => 0,
    };
    let hi: i64 = match max {
        Some(m) => m,
        None => 100,
    };
    if lo > hi {
        return None;
    }
    let span: u64 = (hi as i128 - lo as i128) as u64;
    let off = random_between(0, span);
    Some(value_at_offset(lo, hi, off))
}

/// The value `offset` steps above `lo`: with `offset` uniform in
/// `[0, hi - lo]`, a uniform value of `[lo, hi]`.
pub fn value_at_offset(lo: i64, hi: i64, offset: u64) -> (r: i64)
    requires
        lo <= hi,
        offset <= hi - lo,
    ensures
        r == lo + offset,
{
    (lo as i128 + offset as i128) as i64
}

pub open spec fn hex_char(d: int) -> char {
    if d < 10 {
        ((d + 48) as u8) as char
    } else {
        ((d + 87) as u8) as char
    }
}

/// The last `width` lower-case hex digits of `n`.
pub open spec fn hex_digits(n: nat, width: nat) -> Seq<char>
    decreases width,
{
    if width == 0 {
        Seq::empty()
    } else {
        hex_digits(n / 16, (width - 1) as nat).push(hex_char((n % 16) as int))
    }
}

pub open spec fn is_lower_hex(c: char) -> bool {
    ('0' <= c && c <= '9') || ('a' <= c && c <= 'f')
}

/// The shape of a version-4 UUID: groups of 8, 4, 4, 4 and 12 lower-case hex
/// digits joined by `-`, the version digit `4` and a variant digit of `8`..`b`.
pub open spec fn uuid_v4_shaped(s: Seq<char>) -> bool {
    &&& s.len() == 36
    &&& forall|i: int|
        0 <= i < 36 ==> if i == 8 || i == 13 || i == 18 || i == 23 {
            s[i] == '-'
        } else {
            is_lower_hex(#[trigger] s[i])
        }
    &&& s[14] == '4'
    &&& (s[19] == '8' || s[19] == '9' || s[19] == 'a' || s[19] == 'b')
}

proof fn lemma_hex_digits(n: nat, width: nat)
    ensures
        hex_digits(n, width).len() == width,
        forall|i: int| 0 <= i < width ==> is_lower_hex(#[trigger] hex_digits(n, width)[i]),
    decreases width,
{
    if width > 0 {
        lemma_hex_digits(n / 16, (width - 1) as nat);
        let d = (n % 16) as int;
        assert(is_lower_hex(hex_char(d)));
    }
}

fn hex_fixed(n: u64, width: usize) -> (r: Vec<char>)
    ensures
        r@ == hex_digits(n as nat, width as nat),
    decreases width,
{
    if width == 0 {
        Vec::new()
    } else {
        let mut v = hex_fixed(n / 16, width - 1);
        let d = (n % 16) as u8;
        let c = if d < 10 { (d + 48) as char } else { (d + 87) as char };
        v.push(c);
        v
    }
}

fn push_all(out: &mut Vec<char>, s: &Vec<char>)
    ensures
        final(out)@ == old(out)@ + s@,
{
    let mut i: usize = 0;
    let ghost start = out@;
    while i < s.len()
        invariant
            i <= s.len(),
            out@ == start + s@.subrange(0, i as int),
        decreases s.len() - i,
    {
        out.push(s[i]);
        i = i + 1;
        assert(out@ =~= start + s@.subrange(0, i as int));
    }
    assert(s@.subrange(0, i as int) =~= s@);
}

/// The text of the UUID made of these five numbers: `a` in 8 hex digits,
/// `b` in 4, the version digit `4` and the low 12 bits of `c`, the variant
/// bits over the low 14 bits of `d`, and the low 48 bits of `e`.
pub open spec fn uuid_text(a: u32, b: u16, c: u16, d: u16, e: u64) -> Seq<char> {
    hex_digits(a as nat, 8) + seq!['-'] + hex_digits(b as nat, 4) + seq!['-', '4'] + hex_digits(
        (c & 0x0fff) as nat,
        3,
    ) + seq!['-'] + hex_digits(((d & 0x3fff) | 0x8000) as nat, 4) + seq!['-'] + hex_digits(
        (e & 0xffff_ffff_ffff) as nat,
        12,
    )
}

/// Formats five numbers as a version-4 UUID: the version digit replaces the
/// top of the third group and the variant bits the top of the fourth.
pub fn format_uuid(a: u32, b: u16, c: u16, d: u16, e: u64) -> (r: String)
    ensures
        r@ == uuid_text(a, b, c, d, e),
        uuid_v4_shaped(r@),
{
    let c12: u64 = (c & 0x0fff) as u64;
    let d16: u64 = ((d & 0x3fff) | 0x8000) as u64;
    let e48: u64 = e & 0xffff_ffff_ffff;
    assert(0x8000 <= ((d & 0x3fff) | 0x8000) <= 0xbfff) by (bit_vector);
    let g1 = hex_fixed(a as u64, 8);
    let g2 = hex_fixed(b as u64, 4);
    let g3 = hex_fixed(c12, 3);
    let g4 = hex_fixed(d16, 4);
    let g5 = hex_fixed(e48, 12);
    let mut out: Vec<char> = Vec::new();
    push_all(&mut out, &g1);
    out.push('-');
    push_all(&mut out, &g2);
    out.push('-');
    out.push('4');
    push_all(&mut out, &g3);
    out.push('-');
    push_all(&mut out, &g4);
    out.push('-');
    push_all(&mut out, &g5);
    proof {
        lemma_hex_digits(a as nat, 8);
        lemma_hex_digits(b as nat, 4);
        lemma_hex_digits(c12 as nat, 3);
        lemma_hex_digits(d16 as nat, 4);
        lemma_hex_digits(e48 as nat, 12);
        let s = out@;
        assert(s =~= g1@ + seq!['-'] + g2@ + seq!['-', '4'] + g3@ + seq!['-'] + g4@ + seq!['-'] + g5@);
        // The variant digit is the top digit of the fourth group.
        let n = d16 as nat;
        assert(32768 <= n <= 49151);
        lemma_hex_digits(n / 16, 3);
        lemma_hex_digits(n / 16 / 16, 2);
        lemma_hex_digits(n / 16 / 16 / 16, 1);
        assert(hex_digits(n, 4)[0] == hex_digits(n / 16, 3)[0]);
        assert(hex_digits(n / 16, 3)[0] == hex_digits(n / 16 / 16, 2)[0]);
        assert(hex_digits(n / 16 / 16, 2)[0] == hex_digits(n / 16 / 16 / 16, 1)[0]);
        let m = n / 16 / 16 / 16;
        assert(m == n / 4096);
        assert(8 <= m <= 11);
        assert(hex_digits(m, 1)[0] == hex_char((m % 16) as int));
        assert(m % 16 == m);
        assert(s[19] == g4@[0]);
        assert(s[19] == hex_char(m as int));
        assert(hex_char(8) == '8' && hex_char(9) == '9' && hex_char(10) == 'a' && hex_char(11) == 'b');
        assert(s[14] == '4');
        assert forall|i: int|
            0 <= i < 36 implies if i == 8 || i == 13 || i == 18 || i == 23 {
            s[i] == '-'
        } else {
            is_lower_hex(#[trigger] s[i])
        } by {
            if i < 8 {
                assert(s[i] == g1@[i]);
            } else if 9 <= i < 13 {
                assert(s[i] == g2@[i - 9]);
            } else if 15 <= i < 18 {
                assert(s[i] == g3@[i - 15]);
            } else if 19 <= i < 23 {
                assert(s[i] == g4@[i - 19]);
            } else if 24 <= i {
                assert(s[i] == g5@[i - 24]);
            }
        }
    }
    string_of(out.as_slice())
}

/// `{{uuid}}`: a fresh random version-4 UUID.
pub fn uuid_value() -> (r: String)
    ensures
        uuid_v4_shaped(r@),
{
    let a = random_between(0, 0xffff_ffff) as u32;
    let b = random_between(0, 0xffff) as u16;
    let c = random_between(0, 0xffff) as u16;
    let d = random_between(0, 0xffff) as u16;
    let e = random_between(0, u64::MAX);
    format_uuid(a, b, c, d, e)
}

} // verus!
