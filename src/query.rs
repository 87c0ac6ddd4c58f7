//! Query strings: `&`-separated `key=value` pairs, percent-decoded as UTF-8,
//! with `+` read as a space.
use vstd::prelude::*;
use crate::strmap::StrMap;
use crate::text::{chars_of, decode_utf8_bytes, string_of, find_first, slice_chars, first_occurrence,
    utf8_bytes};

verus! {

pub open spec fn hex_val(c: char) -> Option<u8> {
    if '0' <= c && c <= '9' {
        Some(((c as u32) - ('0' as u32)) as u8)
    } else if 'a' <= c && c <= 'f' {
        Some(((c as u32) - ('a' as u32) + 10) as u8)
    } else if 'A' <= c && c <= 'F' {
        Some(((c as u32) - ('A' as u32) + 10) as u8)
    } else {
        None
    }
}

/// The bytes a query component stands for: `%` and two hex digits give the
/// byte with that value, `+` gives a space, and any other character
/// (including a `%` without two hex digits after it) gives its UTF-8 bytes.
pub open spec fn url_bytes(s: Seq<char>) -> Seq<u8>
    decreases s.len(),
{
    if s.len() == 0 {
        Seq::empty()
    } else if s[0] == '%' && s.len() >= 3 && hex_val(s[1]).is_some() && hex_val(s[2]).is_some() {
        seq![(hex_val(s[1]).unwrap() * 16 + hex_val(s[2]).unwrap()) as u8] + url_bytes(
            s.subrange(3, s.len() as int),
        )
    } else if s[0] == '+' {
        seq![0x20u8] + url_bytes(s.subrange(1, s.len() as int))
    } else {
        vstd::utf8::encode_utf8(seq![s[0]]) + url_bytes(s.subrange(1, s.len() as int))
    }
}

/// Percent-decoding: the bytes of `url_bytes` read as UTF-8, or `None` when
/// they are not valid UTF-8 (a malformed component).
pub open spec fn url_decode(s: Seq<char>) -> Option<Seq<char>> {
    if vstd::utf8::valid_utf8(url_bytes(s)) {
        Some(vstd::utf8::decode_utf8(url_bytes(s)))
    } else {
        None
    }
}

/// Segments of `s` split at `&`, as the finished ones and the open one.
pub open spec fn split_state(s: Seq<char>) -> (Seq<Seq<char>>, Seq<char>)
    decreases s.len(),
{
    if s.len() == 0 {
        (Seq::empty(), Seq::empty())
    } else {
        let (done, cur) = split_state(s.drop_last());
        if s.last() == '&' {
            (done.push(cur), Seq::empty())
        } else {
            (done, cur.push(s.last()))
        }
    }
}

/// `s` split at every `&`.
pub open spec fn split_amp(s: Seq<char>) -> Seq<Seq<char>> {
    split_state(s).0.push(split_state(s).1)
}

/// One `key=value` segment, split at its first `=`; a segment without `=` is a
/// key with an empty value. `None` when the key or the value is malformed.
pub open spec fn query_entry(p: Seq<char>) -> Option<(Seq<char>, Seq<char>)> {
    let (k, v) = match first_occurrence(p, seq!['=']) {
        Some(i) => (url_decode(p.subrange(0, i)), url_decode(p.subrange(i + 1, p.len() as int))),
        None => (url_decode(p), Some(Seq::empty())),
    };
    match (k, v) {
        (Some(k), Some(v)) => Some((k, v)),
        _ => None,
    }
}

/// The entries of the non-empty segments, in order; `None` when one of them
/// is malformed.
pub open spec fn query_entries(segs: Seq<Seq<char>>) -> Option<Seq<(Seq<char>, Seq<char>)>>
    decreases segs.len(),
{
    if segs.len() == 0 {
        Some(Seq::empty())
    } else if segs.last().len() == 0 {
        query_entries(segs.drop_last())
    } else {
        match (query_entries(segs.drop_last()), query_entry(segs.last())) {
            (Some(r), Some(e)) => Some(r.push(e)),
            _ => None,
        }
    }
}

/// The parameters of a query string, in order of appearance; `None` when the
/// query string is malformed.
pub open spec fn parse_query(s: Seq<char>) -> Option<Seq<(Seq<char>, Seq<char>)>> {
    query_entries(split_amp(s))
}

fn hex_digit(c: char) -> (r: Option<u8>)
    ensures
        r == hex_val(c),
{
    if '0' <= c && c <= '9' {
        Some(((c as u32) - ('0' as u32)) as u8)
    } else if 'a' <= c && c <= 'f' {
        Some(((c as u32) - ('a' as u32) + 10) as u8)
    } else if 'A' <= c && c <= 'F' {
        Some(((c as u32) - ('A' as u32) + 10) as u8)
    } else {
        None
    }
}

fn decode_bytes(cs: &Vec<char>) -> (r: Vec<u8>)
    ensures
        r@ == url_bytes(cs@),
{
    let mut out: Vec<u8> = Vec::new();
    let mut i: usize = 0;
    let n = cs.len();
    assert(cs@.subrange(0, n as int) =~= cs@);
    assert(out@ + url_bytes(cs@) =~= url_bytes(cs@));
    while i < n
        invariant
            n == cs.len(),
            i <= n,
            url_bytes(cs@) == out@ + url_bytes(cs@.subrange(i as int, n as int)),
        decreases n - i,
    {
        let ghost rest = cs@.subrange(i as int, n as int);
        let ghost out0 = out@;
        let ch = cs[i];
        assert(rest[0] == ch);
        let h1 = if ch == '%' && n - i >= 3 { hex_digit(cs[i + 1]) } else { None };
        let h2 = if ch == '%' && n - i >= 3 { hex_digit(cs[i + 2]) } else { None };
        if ch == '%' && n - i >= 3 && h1.is_some() && h2.is_some() {
            assert(rest[1] == cs@[i + 1] && rest[2] == cs@[i + 2]);
            let v: u8 = h1.unwrap() * 16 + h2.unwrap();
            out.push(v);
            assert(rest.subrange(3, rest.len() as int) =~= cs@.subrange(i + 3, n as int));
            i = i + 3;
        } else {
            assert(!(rest[0] == '%' && rest.len() >= 3 && hex_val(rest[1]).is_some() && hex_val(
                rest[2],
            ).is_some())) by {
                if rest.len() >= 3 {
                    assert(rest[1] == cs@[i + 1] && rest[2] == cs@[i + 2]);
                }
            };
            if ch == '+' {
                out.push(0x20);
            } else {
                let one = vec![ch];
                assert(one@ =~= seq![ch]);
                let text = string_of(one.as_slice());
                let mut bytes = utf8_bytes(text.as_str());
                out.append(&mut bytes);
            }
            assert(rest.subrange(1, rest.len() as int) =~= cs@.subrange(i + 1, n as int));
            i = i + 1;
        }
        assert(url_bytes(cs@) == out@ + url_bytes(cs@.subrange(i as int, n as int))) by {
            assert(out@ + url_bytes(cs@.subrange(i as int, n as int)) =~= out0 + url_bytes(rest));
        };
    }
    assert(out@ + url_bytes(cs@.subrange(n as int, n as int)) =~= out@);
    out
}

fn decode_chars(cs: &Vec<char>) -> (r: Option<String>)
    ensures
        r matches Some(t) ==> url_decode(cs@) == Some(t@),
        r is None ==> url_decode(cs@) is None,
{
    let bytes = decode_bytes(cs);
    decode_utf8_bytes(bytes.as_slice())
}

/// Percent-decodes a query-string component; `None` when the decoded bytes
/// are not UTF-8.
pub fn urlencoding_decode(s: &str) -> (r: Option<String>)
    ensures
        r matches Some(t) ==> url_decode(s@) == Some(t@),
        r is None ==> url_decode(s@) is None,
{
    let cs = chars_of(s);
    decode_chars(&cs)
}

#[verifier::rlimit(30)]
fn query_entry_exec(p: &Vec<char>) -> (r: Option<(String, String)>)
    ensures
        r matches Some(e) ==> query_entry(p@) == Some((e.0@, e.1@)),
        r is None ==> query_entry(p@) is None,
{
    let eq = vec!['='];
    assert(eq@ =~= seq!['=']);
    match find_first(p, &eq) {
        Some(k) => {
            assert(k + 1 <= p.len());
            let key = decode_chars(&slice_chars(p, 0, k));
            let value = decode_chars(&slice_chars(p, k + 1, p.len()));
            match (key, value) {
                (Some(k), Some(v)) => Some((k, v)),
                _ => None,
            }
        },
        None => {
            match decode_chars(p) {
                Some(k) => {
                    let r = (k, String::new());
                    assert(r.1@ =~= Seq::<char>::empty());
                    Some(r)
                },
                None => None,
            }
        },
    }
}

/// Parses a query string into its parameters; a later occurrence of a key
/// shadows an earlier one. `None` when a key or value is malformed.
pub fn parse_query_string(query: &str) -> (r: Option<StrMap>)
    ensures
        r matches Some(m) ==> parse_query(query@) == Some(m.pairs()),
        r is None ==> parse_query(query@) is None,
{
    let cs = chars_of(query);
    let mut params = StrMap::new();
    let mut bad = false;
    let mut cur: Vec<char> = Vec::new();
    let ghost mut done: Seq<Seq<char>> = Seq::empty();
    let mut i: usize = 0;
    while i < cs.len()
        invariant
            cs@ == query@,
            i <= cs.len(),
            split_state(cs@.subrange(0, i as int)) == (done, cur@),
            !bad ==> query_entries(done) == Some(params.pairs()),
            bad ==> query_entries(done) is None,
        decreases cs.len() - i,
    {
        assert(cs@.subrange(0, i + 1).drop_last() =~= cs@.subrange(0, i as int));
        if cs[i] == '&' {
            if cur.len() > 0 && !bad {
                match query_entry_exec(&cur) {
                    Some((k, v)) => params.insert(k, v),
                    None => bad = true,
                }
            }
            proof {
                assert(done.push(cur@).drop_last() =~= done);
                done = done.push(cur@);
            }
            cur = Vec::new();
        } else {
            cur.push(cs[i]);
        }
        i = i + 1;
    }
    assert(cs@.subrange(0, i as int) =~= cs@);
    if cur.len() > 0 && !bad {
        match query_entry_exec(&cur) {
            Some((k, v)) => params.insert(k, v),
            None => bad = true,
        }
    }
    assert(done.push(cur@).drop_last() =~= done);
    if bad {
        None
    } else {
        Some(params)
    }
}

} // verus!
