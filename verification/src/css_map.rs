//! Insertion-ordered maps from declaration identities to CSS.
//!
//! Output CSS must be deterministic, so these maps keep entries in
//! insertion order: inserting an existing key replaces its value in
//! place, and appending CSS to a key extends that key's list.  The view
//! of each map is its entry sequence.

use vstd::prelude::*;

use crate::style_tag::{css_list_v, CSSData};

verus! {

/// First index bound to `k`, or the length.
pub open spec fn find_key<V>(s: Seq<(u32, V)>, k: u32, i: int) -> int
    decreases s.len() - i,
{
    if i < 0 || i >= s.len() {
        s.len() as int
    } else if s[i].0 == k {
        i
    } else {
        find_key(s, k, i + 1)
    }
}

pub proof fn lemma_find_key<V>(s: Seq<(u32, V)>, k: u32, i: int)
    requires
        0 <= i <= s.len(),
    ensures
        i <= find_key(s, k, i) <= s.len(),
        find_key(s, k, i) < s.len() ==> s[find_key(s, k, i)].0 == k,
        forall|j: int| i <= j < find_key(s, k, i) ==> (#[trigger] s[j]).0 != k,
    decreases s.len() - i,
{
    if i < s.len() && s[i].0 != k {
        lemma_find_key(s, k, i + 1);
    }
}

/// Insert-or-replace keeping the key's original position.
pub open spec fn ordered_insert<V>(s: Seq<(u32, V)>, k: u32, v: V) -> Seq<(u32, V)> {
    let i = find_key(s, k, 0);
    if i < s.len() {
        s.update(i, (k, v))
    } else {
        s.push((k, v))
    }
}

/// An insertion-ordered map from declaration identity to one CSS datum:
/// the flair-property visitor's scoped and global records.
pub struct OrderedCss {
    entries: Vec<(u32, CSSData)>,
}

pub open spec fn ocss_v(s: Seq<(u32, CSSData)>) -> Seq<(u32, (Seq<char>, bool))> {
    s.map_values(|e: (u32, CSSData)| (e.0, e.1@))
}

impl OrderedCss {
    pub closed spec fn view(&self) -> Seq<(u32, (Seq<char>, bool))> {
        ocss_v(self.entries@)
    }

    pub fn new() -> (r: OrderedCss)
        ensures
            r@ == Seq::<(u32, (Seq<char>, bool))>::empty(),
    {
        let r = OrderedCss { entries: Vec::new() };
        proof {
            assert(r@ =~= Seq::<(u32, (Seq<char>, bool))>::empty());
        }
        r
    }

    pub fn entry_count(&self) -> (r: usize)
        ensures
            r == self@.len(),
    {
        self.entries.len()
    }

    /// The entry at one position, copied.
    pub fn entry_at(&self, i: usize) -> (r: (u32, CSSData))
        requires
            i < self@.len(),
        ensures
            (r.0, r.1@) == self@[i as int],
    {
        let e = &self.entries[i];
        (e.0, e.1.duplicate())
    }

    /// Inserts, replacing in place when the key exists.
    pub fn insert(&mut self, k: u32, v: CSSData)
        ensures
            final(self)@ == ordered_insert(old(self)@, k, (v.raw_css@, v.is_global)),
    {
        let ghost sv = self@;
        let ghost vv = (v.raw_css@, v.is_global);
        let n = self.entries.len();
        let mut i: usize = 0;
        #[verifier::loop_isolation(false)]
        while i < n
            invariant
                i <= n,
                n == self.entries@.len(),
                self@ == sv,
                vv == (v.raw_css@, v.is_global),
                forall|j: int| 0 <= j < i ==> (#[trigger] self.entries@[j]).0 != k,
            decreases n - i,
        {
            if self.entries[i].0 == k {
                proof {
                    lemma_ocss_pointwise(self.entries@);
                    assert(forall|j: int| 0 <= j < i ==> (#[trigger] sv[j]).0 != k);
                    assert(sv[i as int].0 == k);
                    lemma_find_key_exact(sv, k, i as int);
                }
                let ghost pre_entries = self.entries@;
                let ghost vsnap = v;
                self.entries.set(i, (k, v));
                proof {
                    lemma_ocss_pointwise(pre_entries);
                    lemma_ocss_pointwise(self.entries@);
                    assert(self.entries@ == pre_entries.update(i as int, (k, vsnap)));
                    assert(self.entries@[i as int] == (k, vsnap));
                    assert(vsnap@ == vv);
                    assert forall|j: int| 0 <= j < sv.len() && j != i implies ocss_v(
                        self.entries@,
                    )[j] == sv[j] by {
                        assert(self.entries@[j] == pre_entries[j]);
                        assert(sv[j] == ocss_v(pre_entries)[j]);
                    }
                    assert(ocss_v(self.entries@)[i as int] == (k, vv));
                    assert(self@ =~= sv.update(i as int, (k, vv)));
                }
                return ;
            }
            i = i + 1;
        }
        proof {
            lemma_ocss_pointwise(self.entries@);
            assert(forall|j: int| 0 <= j < sv.len() ==> (#[trigger] sv[j]).0 != k);
            lemma_find_key_none(sv, k);
        }
        self.entries.push((k, v));
        proof {
            lemma_ocss_pointwise(self.entries@);
            assert(self@ =~= sv.push((k, vv)));
        }
    }
}


/// Pointwise characterization of the single-datum map's view.
pub proof fn lemma_ocss_pointwise(s: Seq<(u32, CSSData)>)
    ensures
        ocss_v(s).len() == s.len(),
        forall|j: int| 0 <= j < s.len() ==> ocss_v(s)[j] == ((#[trigger] s[j]).0, s[j].1@),
{
}

/// Pointwise characterization of the style map's view.
pub proof fn lemma_smap_pointwise(s: Seq<(u32, Vec<CSSData>)>)
    ensures
        smap_v(s).len() == s.len(),
        forall|j: int| 0 <= j < s.len() ==> smap_v(s)[j] == ((#[trigger] s[j]).0, css_list_v(
            s[j].1@,
        )),
{
}

/// Pointwise characterization of a CSS list's view.
pub proof fn lemma_css_list_pointwise(s: Seq<CSSData>)
    ensures
        css_list_v(s).len() == s.len(),
        forall|j: int| 0 <= j < s.len() ==> css_list_v(s)[j] == (#[trigger] s[j])@,
{
}

/// When entries before `i` miss and entry `i` hits, `i` is the find.
pub proof fn lemma_find_key_exact<V>(s: Seq<(u32, V)>, k: u32, i: int)
    requires
        0 <= i < s.len(),
        s[i].0 == k,
        forall|j: int| 0 <= j < i ==> (#[trigger] s[j]).0 != k,
    ensures
        find_key(s, k, 0) == i,
{
    lemma_find_key_from(s, k, 0, i);
}

proof fn lemma_find_key_from<V>(s: Seq<(u32, V)>, k: u32, a: int, i: int)
    requires
        0 <= a <= i < s.len(),
        s[i].0 == k,
        forall|j: int| a <= j < i ==> (#[trigger] s[j]).0 != k,
    ensures
        find_key(s, k, a) == i,
    decreases i - a,
{
    if a < i {
        lemma_find_key_from(s, k, a + 1, i);
    }
}

/// When no entry hits, the find is the length.
pub proof fn lemma_find_key_none<V>(s: Seq<(u32, V)>, k: u32)
    requires
        forall|j: int| 0 <= j < s.len() ==> (#[trigger] s[j]).0 != k,
    ensures
        find_key(s, k, 0) == s.len(),
{
    lemma_find_key_none_from(s, k, 0);
}

proof fn lemma_find_key_none_from<V>(s: Seq<(u32, V)>, k: u32, a: int)
    requires
        0 <= a <= s.len(),
        forall|j: int| a <= j < s.len() ==> (#[trigger] s[j]).0 != k,
    ensures
        find_key(s, k, a) == s.len(),
    decreases s.len() - a,
{
    if a < s.len() {
        lemma_find_key_none_from(s, k, a + 1);
    }
}

/// Append-or-create on a map from declaration identity to a CSS list.
pub open spec fn style_push(
    s: Seq<(u32, Seq<(Seq<char>, bool)>)>,
    k: u32,
    v: (Seq<char>, bool),
) -> Seq<(u32, Seq<(Seq<char>, bool)>)> {
    let i = find_key(s, k, 0);
    if i < s.len() {
        s.update(i, (k, s[i].1.push(v)))
    } else {
        s.push((k, seq![v]))
    }
}

/// A whole CSS list appended to the key's list, datum by datum.
pub open spec fn style_append(
    s: Seq<(u32, Seq<(Seq<char>, bool)>)>,
    k: u32,
    l: Seq<(Seq<char>, bool)>,
) -> Seq<(u32, Seq<(Seq<char>, bool)>)>
    decreases l.len(),
{
    if l.len() == 0 {
        s
    } else {
        style_push(style_append(s, k, l.drop_last()), k, l.last())
    }
}

/// The style map: declaration identity to the CSS accumulated for it,
/// in insertion order.
pub struct StyleMap {
    entries: Vec<(u32, Vec<CSSData>)>,
}

pub open spec fn smap_v(s: Seq<(u32, Vec<CSSData>)>) -> Seq<(u32, Seq<(Seq<char>, bool)>)> {
    s.map_values(|e: (u32, Vec<CSSData>)| (e.0, css_list_v(e.1@)))
}

impl StyleMap {
    pub closed spec fn view(&self) -> Seq<(u32, Seq<(Seq<char>, bool)>)> {
        smap_v(self.entries@)
    }

    pub fn new() -> (r: StyleMap)
        ensures
            r@ == Seq::<(u32, Seq<(Seq<char>, bool)>)>::empty(),
    {
        let r = StyleMap { entries: Vec::new() };
        proof {
            assert(r@ =~= Seq::<(u32, Seq<(Seq<char>, bool)>)>::empty());
        }
        r
    }

    pub fn entry_count(&self) -> (r: usize)
        ensures
            r == self@.len(),
    {
        self.entries.len()
    }

    /// The key and CSS list at one position, copied.
    pub fn entry_at(&self, i: usize) -> (r: (u32, Vec<CSSData>))
        requires
            i < self@.len(),
        ensures
            (r.0, css_list_v(r.1@)) == self@[i as int],
    {
        let e = &self.entries[i];
        let mut list: Vec<CSSData> = Vec::new();
        let mut j: usize = 0;
        while j < e.1.len()
            invariant
                j <= e.1@.len(),
                e == self.entries@[i as int],
                css_list_v(list@) == css_list_v(e.1@.subrange(0, j as int)),
            decreases e.1@.len() - j,
        {
            let ghost prev = list@;
            list.push(e.1[j].duplicate());
            j = j + 1;
            proof {
                assert(e.1@.subrange(0, j as int) =~= e.1@.subrange(0, j as int - 1).push(
                    e.1@[j as int - 1],
                ));
                assert(css_list_v(list@) =~= css_list_v(prev).push(list@.last()@));
                assert(css_list_v(e.1@.subrange(0, j as int)) =~= css_list_v(
                    e.1@.subrange(0, j as int - 1),
                ).push(e.1@[j as int - 1]@));
                assert(css_list_v(list@) =~= css_list_v(e.1@.subrange(0, j as int)));
            }
        }
        proof {
            assert(e.1@.subrange(0, e.1@.len() as int) =~= e.1@);
        }
        (e.0, list)
    }

    /// Appends one CSS datum to the key's list, creating the entry at
    /// the end when the key is new.
    pub fn push_css(&mut self, k: u32, v: CSSData)
        ensures
            final(self)@ == style_push(old(self)@, k, (v.raw_css@, v.is_global)),
    {
        let ghost sv = self@;
        let ghost vv = (v.raw_css@, v.is_global);
        let n = self.entries.len();
        let mut i: usize = 0;
        #[verifier::loop_isolation(false)]
        while i < n
            invariant
                i <= n,
                n == self.entries@.len(),
                self@ == sv,
                vv == (v.raw_css@, v.is_global),
                forall|j: int| 0 <= j < i ==> (#[trigger] self.entries@[j]).0 != k,
            decreases n - i,
        {
            if self.entries[i].0 == k {
                proof {
                    lemma_smap_pointwise(self.entries@);
                    assert(forall|j: int| 0 <= j < i ==> (#[trigger] sv[j]).0 != k);
                    assert(sv[i as int].0 == k);
                    lemma_find_key_exact(sv, k, i as int);
                }
                let ghost pre_entries = self.entries@;
                let mut pair = self.entries.remove(i);
                let ghost pre = pair.1@;
                let ghost vsnap = v;
                pair.1.push(v);
                let ghost newlist = pair.1@;
                let ghost pairsnap = pair;
                self.entries.insert(i, pair);
                proof {
                    assert(newlist.drop_last() =~= pre);
                    assert(newlist.last() == vsnap);
                    assert(vsnap@ == vv);
                    lemma_css_list_pointwise(newlist);
                    lemma_css_list_pointwise(pre);
                    assert(css_list_v(newlist) =~= css_list_v(pre).push(vv));
                    assert(self.entries@ =~= pre_entries.update(i as int, pairsnap));
                    lemma_smap_pointwise(self.entries@);
                    lemma_smap_pointwise(pre_entries);
                    assert forall|j: int| 0 <= j < sv.len() && j != i implies smap_v(
                        self.entries@,
                    )[j] == sv[j] by {
                        assert(self.entries@[j] == pre_entries[j]);
                        assert(sv[j] == smap_v(pre_entries)[j]);
                    }
                    assert(smap_v(self.entries@)[i as int] == (k, sv[i as int].1.push(vv)));
                    assert(self@ =~= sv.update(i as int, (k, sv[i as int].1.push(vv))));
                }
                return ;
            }
            i = i + 1;
        }
        proof {
            lemma_smap_pointwise(self.entries@);
            assert(forall|j: int| 0 <= j < sv.len() ==> (#[trigger] sv[j]).0 != k);
            lemma_find_key_none(sv, k);
        }
        let mut list: Vec<CSSData> = Vec::new();
        list.push(v);
        self.entries.push((k, list));
        proof {
            assert(css_list_v(self.entries@.last().1@) =~= seq![vv]);
            lemma_smap_pointwise(self.entries@);
            assert(self@ =~= sv.push((k, seq![vv])));
        }
    }

    /// Appends every datum of the list to the key's accumulated CSS,
    /// creating the entry at the end when the key is new.
    pub fn append_css(&mut self, k: u32, v: &Vec<CSSData>)
        ensures
            final(self)@ == style_append(old(self)@, k, css_list_v(v@)),
    {
        let ghost sv = self@;
        let mut i: usize = 0;
        proof {
            assert(css_list_v(v@.subrange(0, 0)) =~= Seq::<(Seq<char>, bool)>::empty());
        }
        #[verifier::loop_isolation(false)]
        while i < v.len()
            invariant
                i <= v@.len(),
                self@ == style_append(sv, k, css_list_v(v@.subrange(0, i as int))),
            decreases v@.len() - i,
        {
            self.push_css(k, v[i].duplicate());
            i = i + 1;
            proof {
                let sub1 = css_list_v(v@.subrange(0, i as int));
                let sub0 = css_list_v(v@.subrange(0, i as int - 1));
                assert(v@.subrange(0, i as int).drop_last() =~= v@.subrange(0, i as int - 1));
                lemma_css_list_pointwise(v@.subrange(0, i as int));
                lemma_css_list_pointwise(v@.subrange(0, i as int - 1));
                assert(sub1.drop_last() =~= sub0);
                assert(sub1.last() == v@[i as int - 1]@);
            }
        }
        proof {
            assert(v@.subrange(0, v@.len() as int) =~= v@);
        }
    }

    /// Inserts, replacing the key's whole list in place when it exists.
    pub fn insert(&mut self, k: u32, v: Vec<CSSData>)
        ensures
            final(self)@ == ordered_insert(old(self)@, k, css_list_v(v@)),
    {
        let ghost sv = self@;
        let ghost vv = css_list_v(v@);
        let n = self.entries.len();
        let mut i: usize = 0;
        #[verifier::loop_isolation(false)]
        while i < n
            invariant
                i <= n,
                n == self.entries@.len(),
                self@ == sv,
                vv == css_list_v(v@),
                forall|j: int| 0 <= j < i ==> (#[trigger] self.entries@[j]).0 != k,
            decreases n - i,
        {
            if self.entries[i].0 == k {
                proof {
                    lemma_smap_pointwise(self.entries@);
                    assert(forall|j: int| 0 <= j < i ==> (#[trigger] sv[j]).0 != k);
                    assert(sv[i as int].0 == k);
                    lemma_find_key_exact(sv, k, i as int);
                }
                let ghost pre_entries = self.entries@;
                let ghost vsnap = v;
                self.entries.set(i, (k, v));
                proof {
                    lemma_smap_pointwise(pre_entries);
                    lemma_smap_pointwise(self.entries@);
                    assert(self.entries@ == pre_entries.update(i as int, (k, vsnap)));
                    assert(self.entries@[i as int] == (k, vsnap));
                    assert(css_list_v(vsnap@) == vv);
                    assert forall|j: int| 0 <= j < sv.len() && j != i implies smap_v(
                        self.entries@,
                    )[j] == sv[j] by {
                        assert(self.entries@[j] == pre_entries[j]);
                        assert(sv[j] == smap_v(pre_entries)[j]);
                    }
                    assert(smap_v(self.entries@)[i as int] == (k, vv));
                    assert(self@ =~= sv.update(i as int, (k, vv)));
                }
                return ;
            }
            i = i + 1;
        }
        proof {
            lemma_smap_pointwise(self.entries@);
            assert(forall|j: int| 0 <= j < sv.len() ==> (#[trigger] sv[j]).0 != k);
            lemma_find_key_none(sv, k);
        }
        self.entries.push((k, v));
        proof {
            lemma_smap_pointwise(self.entries@);
            assert(self@ =~= sv.push((k, vv)));
        }
    }
}

} // verus!
