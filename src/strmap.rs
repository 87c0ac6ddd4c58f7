//! A small string-to-string map that keeps its insertions in order; a later
//! insertion of a key shadows an earlier one.
use vstd::prelude::*;
use crate::text::str_eq;

verus! {

/// The pairs as character sequences.
pub open spec fn pairs_of(s: Seq<(String, String)>) -> Seq<(Seq<char>, Seq<char>)> {
    s.map_values(|p: (String, String)| (p.0@, p.1@))
}

/// Value of the last pair whose key is `k`.
pub open spec fn lookup_last(s: Seq<(Seq<char>, Seq<char>)>, k: Seq<char>) -> Option<Seq<char>>
    decreases s.len(),
{
    if s.len() == 0 {
        None
    } else if s.last().0 == k {
        Some(s.last().1)
    } else {
        lookup_last(s.drop_last(), k)
    }
}

pub struct StrMap {
    pub entries: Vec<(String, String)>,
}

impl StrMap {
    pub open spec fn pairs(&self) -> Seq<(Seq<char>, Seq<char>)> {
        pairs_of(self.entries@)
    }

    pub open spec fn lookup(&self, k: Seq<char>) -> Option<Seq<char>> {
        lookup_last(self.pairs(), k)
    }

    pub fn new() -> (r: StrMap)
        ensures
            r.pairs() == Seq::<(Seq<char>, Seq<char>)>::empty(),
    {
        let r = StrMap { entries: Vec::new() };
        assert(r.pairs() =~= Seq::<(Seq<char>, Seq<char>)>::empty());
        r
    }

    /// Sets `k` to `v`, shadowing any earlier value of `k`.
    pub fn insert(&mut self, k: String, v: String)
        ensures
            final(self).pairs() == old(self).pairs().push((k@, v@)),
    {
        self.entries.push((k, v));
        assert(self.pairs() =~= old(self).pairs().push((k@, v@)));
    }

    /// The value of `k`, if it was ever set.
    pub fn get(&self, k: &str) -> (r: Option<&String>)
        ensures
            r matches Some(v) ==> self.lookup(k@) == Some(v@),
            r is None ==> self.lookup(k@) is None,
    {
        let mut i: usize = self.entries.len();
        assert(self.pairs().subrange(0, i as int) =~= self.pairs());
        while i > 0
            invariant
                i <= self.entries.len(),
                lookup_last(self.pairs(), k@) == lookup_last(self.pairs().subrange(0, i as int), k@),
            decreases i,
        {
            let ghost pre = self.pairs().subrange(0, i as int);
            assert(pre.drop_last() =~= self.pairs().subrange(0, i - 1));
            if str_eq(self.entries[i - 1].0.as_str(), k) {
                return Some(&self.entries[i - 1].1);
            }
            i = i - 1;
        }
        None
    }

    /// Whether `k` was ever set.
    pub fn contains_key(&self, k: &str) -> (r: bool)
        ensures
            r == self.lookup(k@).is_some(),
    {
        self.get(k).is_some()
    }

    pub fn len(&self) -> (r: usize)
        ensures
            r == self.pairs().len(),
    {
        self.entries.len()
    }
}

impl Clone for StrMap {
    fn clone(&self) -> (r: StrMap)
        ensures
            r.pairs() == self.pairs(),
    {
        let mut out: Vec<(String, String)> = Vec::new();
        let mut i: usize = 0;
        while i < self.entries.len()
            invariant
                i <= self.entries.len(),
                pairs_of(out@) == self.pairs().subrange(0, i as int),
            decreases self.entries.len() - i,
        {
            let k = self.entries[i].0.clone();
            let v = self.entries[i].1.clone();
            let ghost prev = out@;
            out.push((k, v));
            assert(pairs_of(out@) =~= pairs_of(prev).push((self.entries@[i as int].0@, self.entries@[i as int].1@)));
            i = i + 1;
            assert(pairs_of(out@) =~= self.pairs().subrange(0, i as int));
        }
        assert(self.pairs().subrange(0, i as int) =~= self.pairs());
        StrMap { entries: out }
    }
}

} // verus!
