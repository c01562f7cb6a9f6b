//! Small association maps with mathematical `Map` views.
//!
//! Entries are kept in insertion order; a later entry for the same key
//! shadows an earlier one, which matches the view built by folding
//! `Map::insert` over the entries.

use vstd::prelude::*;

verus! {

/// The map denoted by a sequence of string pairs, later pairs winning.
pub open spec fn str_entries_map(s: Seq<(Seq<char>, Seq<char>)>) -> Map<Seq<char>, Seq<char>>
    decreases s.len(),
{
    if s.len() == 0 {
        Map::<Seq<char>, Seq<char>>::empty()
    } else {
        str_entries_map(s.drop_last()).insert(s.last().0, s.last().1)
    }
}

pub proof fn lemma_str_entries_map_prefix(s: Seq<(Seq<char>, Seq<char>)>, i: int, k: Seq<char>)
    requires
        0 < i <= s.len(),
        s[i - 1].0 != k,
    ensures
        str_entries_map(s.subrange(0, i)).contains_key(k) == str_entries_map(
            s.subrange(0, i - 1),
        ).contains_key(k),
        str_entries_map(s.subrange(0, i)).contains_key(k) ==> str_entries_map(s.subrange(0, i))[k]
            == str_entries_map(s.subrange(0, i - 1))[k],
{
    let a = s.subrange(0, i);
    assert(a.drop_last() =~= s.subrange(0, i - 1));
}

/// A string-keyed map of strings: the breakpoint table of a theme, and
/// the class-name map produced by scoped CSS compilation.
pub struct StrMap {
    entries: Vec<(String, String)>,
}

impl StrMap {
    pub closed spec fn view(&self) -> Map<Seq<char>, Seq<char>> {
        str_entries_map(self.entries@.map_values(|e: (String, String)| (e.0@, e.1@)))
    }

    /// The entries as pairs of character sequences, in insertion order.
    pub closed spec fn entries_v(&self) -> Seq<(Seq<char>, Seq<char>)> {
        self.entries@.map_values(|e: (String, String)| (e.0@, e.1@))
    }

    pub fn new() -> (r: StrMap)
        ensures
            r@ == Map::<Seq<char>, Seq<char>>::empty(),
            r.entries_v() == Seq::<(Seq<char>, Seq<char>)>::empty(),
    {
        let r = StrMap { entries: Vec::new() };
        proof {
            assert(r.entries_v() =~= Seq::<(Seq<char>, Seq<char>)>::empty());
        }
        r
    }

    pub fn insert(&mut self, k: String, v: String)
        ensures
            final(self)@ == old(self)@.insert(k@, v@),
            final(self).entries_v() == old(self).entries_v().push((k@, v@)),
    {
        let ghost kv = (k@, v@);
        self.entries.push((k, v));
        proof {
            let m = self.entries@.map_values(|e: (String, String)| (e.0@, e.1@));
            assert(m =~= old(self).entries_v().push(kv));
            assert(m.drop_last() =~= old(self).entries_v());
        }
    }


    /// An entry-for-entry copy.
    pub fn duplicate(&self) -> (r: StrMap)
        ensures
            r@ == self@,
            r.entries_v() == self.entries_v(),
    {
        let mut out: Vec<(String, String)> = Vec::new();
        let mut i: usize = 0;
        while i < self.entries.len()
            invariant
                i <= self.entries@.len(),
                out@.map_values(|e: (String, String)| (e.0@, e.1@)) == self.entries@.subrange(
                    0,
                    i as int,
                ).map_values(|e: (String, String)| (e.0@, e.1@)),
            decreases self.entries@.len() - i,
        {
            let ghost prev = out@;
            out.push((self.entries[i].0.clone(), self.entries[i].1.clone()));
            i = i + 1;
            proof {
                let f = |e: (String, String)| (e.0@, e.1@);
                let sub1 = self.entries@.subrange(0, i as int);
                let sub0 = self.entries@.subrange(0, i as int - 1);
                assert(sub1 =~= sub0.push(self.entries@[i as int - 1]));
                assert(sub1.map_values(f) =~= sub0.map_values(f).push(
                    f(self.entries@[i as int - 1]),
                ));
                assert(out@.map_values(f) =~= prev.map_values(f).push(f(out@.last())));
                assert(f(out@.last()) == f(self.entries@[i as int - 1]));
            }
        }
        let r = StrMap { entries: out };
        proof {
            assert(self.entries@.subrange(0, self.entries@.len() as int) =~= self.entries@);
            assert(r.entries_v() == self.entries_v());
        }
        r
    }

    pub fn contains_key(&self, k: &str) -> (r: bool)
        ensures
            r == self@.contains_key(k@),
    {
        self.get(k).is_some()
    }

    /// Looks the key up, returning the latest value bound to it.
    pub fn get(&self, k: &str) -> (r: Option<&String>)
        ensures
            match r {
                Some(v) => self@.contains_key(k@) && self@[k@] == v@,
                None => !self@.contains_key(k@),
            },
    {
        let ghost s = self.entries_v();
        let mut i: usize = self.entries.len();
        proof {
            assert(s.subrange(0, s.len() as int) =~= s);
        }
        while i > 0
            invariant
                i <= self.entries@.len(),
                s == self.entries_v(),
                s.len() == self.entries@.len(),
                str_entries_map(s).contains_key(k@) == str_entries_map(
                    s.subrange(0, i as int),
                ).contains_key(k@),
                str_entries_map(s).contains_key(k@) ==> str_entries_map(s)[k@] == str_entries_map(
                    s.subrange(0, i as int),
                )[k@],
            decreases i,
        {
            if crate::strutil::str_eq(self.entries[i - 1].0.as_str(), k) {
                proof {
                    let a = s.subrange(0, i as int);
                    assert(a.last() == s[i as int - 1]);
                    assert(str_entries_map(a) == str_entries_map(a.drop_last()).insert(
                        s[i as int - 1].0,
                        s[i as int - 1].1,
                    ));
                }
                return Some(&self.entries[i - 1].1);
            }
            proof {
                lemma_str_entries_map_prefix(s, i as int, k@);
            }
            i = i - 1;
        }
        proof {
            assert(s.subrange(0, 0) =~= Seq::<(Seq<char>, Seq<char>)>::empty());
        }
        None
    }
}

/// The map denoted by a sequence of integer pairs, later pairs winning.
pub open spec fn id_entries_map(s: Seq<(u32, u32)>) -> Map<u32, u32>
    decreases s.len(),
{
    if s.len() == 0 {
        Map::<u32, u32>::empty()
    } else {
        id_entries_map(s.drop_last()).insert(s.last().0, s.last().1)
    }
}

pub proof fn lemma_id_entries_map_prefix(s: Seq<(u32, u32)>, i: int, k: u32)
    requires
        0 < i <= s.len(),
        s[i - 1].0 != k,
    ensures
        id_entries_map(s.subrange(0, i)).contains_key(k) == id_entries_map(
            s.subrange(0, i - 1),
        ).contains_key(k),
        id_entries_map(s.subrange(0, i)).contains_key(k) ==> id_entries_map(s.subrange(0, i))[k]
            == id_entries_map(s.subrange(0, i - 1))[k],
{
    let a = s.subrange(0, i);
    assert(a.drop_last() =~= s.subrange(0, i - 1));
}

/// A map between symbol or declaration identities: variable links and
/// the method-to-class indirection.
pub struct IdMap {
    entries: Vec<(u32, u32)>,
}

impl IdMap {
    pub closed spec fn view(&self) -> Map<u32, u32> {
        id_entries_map(self.entries@)
    }

    pub closed spec fn len_v(&self) -> nat {
        self.entries@.len()
    }

    pub fn new() -> (r: IdMap)
        ensures
            r@ == Map::<u32, u32>::empty(),
            r.len_v() == 0,
    {
        IdMap { entries: Vec::new() }
    }

    pub fn insert(&mut self, k: u32, v: u32)
        ensures
            final(self)@ == old(self)@.insert(k, v),
            final(self).len_v() == old(self).len_v() + 1,
    {
        self.entries.push((k, v));
        proof {
            assert(self.entries@.drop_last() =~= old(self).entries@);
        }
    }

    pub fn entry_count(&self) -> (r: usize)
        ensures
            r == self.len_v(),
    {
        self.entries.len()
    }

    /// An entry-for-entry copy.
    pub fn duplicate(&self) -> (r: IdMap)
        ensures
            r@ == self@,
            r.len_v() == self.len_v(),
    {
        let mut out: Vec<(u32, u32)> = Vec::new();
        let mut i: usize = 0;
        while i < self.entries.len()
            invariant
                i <= self.entries@.len(),
                out@ == self.entries@.subrange(0, i as int),
            decreases self.entries@.len() - i,
        {
            out.push(self.entries[i]);
            i = i + 1;
            proof {
                assert(out@ =~= self.entries@.subrange(0, i as int));
            }
        }
        proof {
            assert(self.entries@.subrange(0, self.entries@.len() as int) =~= self.entries@);
        }
        IdMap { entries: out }
    }


    pub fn get(&self, k: u32) -> (r: Option<u32>)
        ensures
            match r {
                Some(v) => self@.contains_key(k) && self@[k] == v,
                None => !self@.contains_key(k),
            },
    {
        let ghost s = self.entries@;
        let mut i: usize = self.entries.len();
        proof {
            assert(s.subrange(0, s.len() as int) =~= s);
        }
        while i > 0
            invariant
                i <= s.len(),
                s == self.entries@,
                id_entries_map(s).contains_key(k) == id_entries_map(
                    s.subrange(0, i as int),
                ).contains_key(k),
                id_entries_map(s).contains_key(k) ==> id_entries_map(s)[k] == id_entries_map(
                    s.subrange(0, i as int),
                )[k],
            decreases i,
        {
            if self.entries[i - 1].0 == k {
                proof {
                    let a = s.subrange(0, i as int);
                    assert(a.last() == s[i as int - 1]);
                }
                return Some(self.entries[i - 1].1);
            }
            proof {
                lemma_id_entries_map_prefix(s, i as int, k);
            }
            i = i - 1;
        }
        proof {
            assert(s.subrange(0, 0) =~= Seq::<(u32, u32)>::empty());
        }
        None
    }

    pub fn contains_key(&self, k: u32) -> (r: bool)
        ensures
            r == self@.contains_key(k),
    {
        self.get(k).is_some()
    }
}

} // verus!
