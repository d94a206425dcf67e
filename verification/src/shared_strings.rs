//! The shared string table of a workbook.

use vstd::prelude::*;

use crate::text::{str_eq, to_string};

verus! {

/// The index of the last entry of `strings` equal to `s`, or -1 when there is none.
pub open spec fn last_index_of(strings: Seq<Seq<char>>, s: Seq<char>) -> int
    decreases strings.len(),
{
    if strings.len() == 0 {
        -1
    } else if strings.last() == s {
        strings.len() - 1
    } else {
        last_index_of(strings.drop_last(), s)
    }
}

/// Deduplicated shared string table for xlsx.
///
/// Each entry keeps how many times it was interned. Interning a string that is already present
/// returns the index of its most recent entry.
pub struct SharedStringTable {
    strings: Vec<String>,
    ref_counts: Vec<u32>,
}

impl Default for SharedStringTable {
    /// An empty table.
    fn default() -> (res: Self)
        ensures
            res.wf(),
            res.strings() == Seq::<Seq<char>>::empty(),
            res.counts() == Seq::<u32>::empty(),
    {
        SharedStringTable::new()
    }
}

impl SharedStringTable {
    /// The strings of the table, in index order.
    pub closed spec fn strings(&self) -> Seq<Seq<char>> {
        self.strings@.map_values(|s: String| s@)
    }

    /// The reference count of each entry, in index order.
    pub closed spec fn counts(&self) -> Seq<u32> {
        self.ref_counts@
    }

    /// Both sequences describe the same entries.
    pub closed spec fn wf(&self) -> bool {
        self.strings@.len() == self.ref_counts@.len()
    }

    /// In a well-formed table every entry has a count.
    pub proof fn lemma_counts_len(&self)
        requires
            self.wf(),
        ensures
            self.counts().len() == self.strings().len(),
    {
    }

    pub fn new() -> (res: Self)
        ensures
            res.wf(),
            res.strings() == Seq::<Seq<char>>::empty(),
            res.counts() == Seq::<u32>::empty(),
    {
        let res = SharedStringTable { strings: Vec::new(), ref_counts: Vec::new() };
        assert(res.strings() =~= Seq::<Seq<char>>::empty());
        res
    }

    fn find(&self, s: &str) -> (res: Option<usize>)
        ensures
            match res {
                Some(i) => i < self.strings@.len() && last_index_of(self.strings(), s@) == i,
                None => last_index_of(self.strings(), s@) == -1,
            },
    {
        let ghost strs = self.strings();
        let mut i: usize = self.strings.len();
        assert(strs.take(i as int) =~= strs);
        while i > 0
            invariant
                i <= self.strings@.len(),
                strs == self.strings(),
                last_index_of(strs, s@) == last_index_of(strs.take(i as int), s@),
            decreases i,
        {
            let ghost pre = strs.take(i as int);
            assert(pre.drop_last() =~= strs.take(i - 1));
            assert(pre.last() == self.strings@[i - 1]@);
            if str_eq(self.strings[i - 1].as_str(), s) {
                return Some(i - 1);
            }
            i -= 1;
        }
        None
    }

    /// Get or insert a string, returning its index.
    pub fn intern(&mut self, s: &str) -> (res: u32)
        requires
            old(self).wf(),
            old(self).strings().len() < u32::MAX,
            last_index_of(old(self).strings(), s@) >= 0 ==> old(self).counts()[last_index_of(
                old(self).strings(),
                s@,
            )] < u32::MAX,
        ensures
            final(self).wf(),
            ({
                let k = last_index_of(old(self).strings(), s@);
                if k >= 0 {
                    &&& res == k
                    &&& final(self).strings() == old(self).strings()
                    &&& final(self).counts() == old(self).counts().update(k, (old(self).counts()[k] + 1) as u32)
                } else {
                    &&& res == old(self).strings().len()
                    &&& final(self).strings() == old(self).strings().push(s@)
                    &&& final(self).counts() == old(self).counts().push(1)
                }
            }),
            final(self).strings()[res as int] == s@,
    {
        match self.find(s) {
            Some(i) => {
                proof {
                    lemma_last_index_hit(self.strings(), s@);
                }
                let c = self.ref_counts[i];
                self.ref_counts.set(i, c + 1);
                i as u32
            },
            None => {
                let idx = self.strings.len() as u32;
                let ghost before = self.strings@;
                self.strings.push(to_string(s));
                self.ref_counts.push(1);
                assert(self.strings() =~= old(self).strings().push(s@));
                idx
            },
        }
    }

    /// Look up a string by index.
    pub fn get(&self, index: u32) -> (res: Option<&str>)
        ensures
            match res {
                Some(v) => index < self.strings().len() && v@ == self.strings()[index as int],
                None => index >= self.strings().len(),
            },
    {
        if (index as usize) < self.strings.len() {
            Some(self.strings[index as usize].as_str())
        } else {
            None
        }
    }

    /// Number of unique strings.
    pub fn len(&self) -> (res: u32)
        ensures
            res == self.strings().len() as u32,
    {
        self.strings.len() as u32
    }

    /// Whether the table holds no strings.
    pub fn is_empty(&self) -> (res: bool)
        ensures
            res == (self.strings().len() == 0),
    {
        self.strings.len() == 0
    }

    /// All strings in index order.
    pub fn iter(&self) -> (res: &[String])
        ensures
            res@.map_values(|s: String| s@) == self.strings(),
    {
        self.strings.as_slice()
    }

    /// Add a string at the next index (used during parsing), even if it is already present.
    pub fn push(&mut self, s: &str)
        requires
            old(self).wf(),
        ensures
            final(self).wf(),
            final(self).strings() == old(self).strings().push(s@),
            final(self).counts() == old(self).counts().push(1),
    {
        self.strings.push(to_string(s));
        self.ref_counts.push(1);
        assert(self.strings() =~= old(self).strings().push(s@));
    }

    /// Get the reference count for a string by index.
    pub fn ref_count(&self, index: u32) -> (res: u32)
        ensures
            res == if (index as int) < self.counts().len() { self.counts()[index as int] } else { 0 },
    {
        if (index as usize) < self.ref_counts.len() {
            self.ref_counts[index as usize]
        } else {
            0
        }
    }
}

pub(crate) proof fn lemma_last_index_hit(strings: Seq<Seq<char>>, s: Seq<char>)
    ensures
        last_index_of(strings, s) >= 0 ==> last_index_of(strings, s) < strings.len()
            && strings[last_index_of(strings, s)] == s,
        last_index_of(strings, s) >= -1,
    decreases strings.len(),
{
    if strings.len() > 0 && strings.last() != s {
        lemma_last_index_hit(strings.drop_last(), s);
    }
}

/// The table after interning `s`, and the index that interning returns.
pub open spec fn spec_intern(strings: Seq<Seq<char>>, s: Seq<char>) -> (Seq<Seq<char>>, int) {
    let k = last_index_of(strings, s);
    if k >= 0 {
        (strings, k)
    } else {
        (strings.push(s), strings.len() as int)
    }
}

proof fn lemma_last_index_miss(strings: Seq<Seq<char>>, s: Seq<char>)
    ensures
        last_index_of(strings, s) < 0 ==> !strings.contains(s),
    decreases strings.len(),
{
    if strings.len() > 0 && strings.last() != s {
        lemma_last_index_miss(strings.drop_last(), s);
        if last_index_of(strings, s) < 0 {
            assert forall|i: int| 0 <= i < strings.len() implies strings[i] != s by {
                if i < strings.len() - 1 {
                    assert(strings.drop_last()[i] == strings[i]);
                }
            }
        }
    }
}

/// The entries of a table built from an empty one by interning the strings of `h` in turn.
pub open spec fn intern_all(h: Seq<Seq<char>>) -> Seq<Seq<char>>
    decreases h.len(),
{
    if h.len() == 0 {
        Seq::empty()
    } else {
        spec_intern(intern_all(h.drop_last()), h.last()).0
    }
}

/// A table built by interning alone holds each interned string exactly once, and nothing else:
/// its length is the number of distinct strings interned.
pub proof fn lemma_intern_history(h: Seq<Seq<char>>)
    ensures
        intern_all(h).no_duplicates(),
        forall|s: Seq<char>| intern_all(h).contains(s) <==> h.contains(s),
        intern_all(h).len() == h.to_set().len(),
    decreases h.len(),
{
    if h.len() == 0 {
        assert(h.to_set() =~= Set::<Seq<char>>::empty());
    } else {
        let p = h.drop_last();
        let x = h.last();
        let t = intern_all(p);
        lemma_intern_history(p);
        lemma_last_index_hit(t, x);
        lemma_last_index_miss(t, x);
        assert forall|s: Seq<char>| h.contains(s) <==> (p.contains(s) || s == x) by {
            if h.contains(s) {
                let i = choose|i: int| 0 <= i < h.len() && h[i] == s;
                if i < h.len() - 1 {
                    assert(p[i] == s);
                }
            }
            if p.contains(s) {
                let i = choose|i: int| 0 <= i < p.len() && p[i] == s;
                assert(h[i] == s);
            }
            if s == x {
                assert(h[h.len() - 1] == s);
            }
        }
        let k = last_index_of(t, x);
        if k >= 0 {
            assert(t.contains(x)) by {
                assert(t[k] == x);
            }
        } else {
            let u = t.push(x);
            assert forall|i: int, j: int| 0 <= i < u.len() && 0 <= j < u.len() && i != j implies u[i]
                != u[j] by {
                if i < t.len() && j < t.len() {
                } else if i == t.len() {
                    assert(!t.contains(x));
                    assert(u[j] == t[j]);
                } else {
                    assert(!t.contains(x));
                    assert(u[i] == t[i]);
                }
            }
            assert forall|s: Seq<char>| u.contains(s) <==> (t.contains(s) || s == x) by {
                if u.contains(s) {
                    let i = choose|i: int| 0 <= i < u.len() && u[i] == s;
                    if i < t.len() {
                        assert(t[i] == s);
                    }
                }
                if t.contains(s) {
                    let i = choose|i: int| 0 <= i < t.len() && t[i] == s;
                    assert(u[i] == s);
                }
                if s == x {
                    assert(u[t.len() as int] == s);
                }
            }
        }
        let r = intern_all(h);
        assert(r.to_set() =~= h.to_set());
        r.unique_seq_to_set();
    }
}

/// How many times `s` occurs in `h`.
pub open spec fn occurrences(h: Seq<Seq<char>>, s: Seq<char>) -> int
    decreases h.len(),
{
    if h.len() == 0 {
        0
    } else {
        occurrences(h.drop_last(), s) + if h.last() == s {
            1int
        } else {
            0int
        }
    }
}

/// The reference counts of a table built from an empty one by interning the strings of `h` in
/// turn (without the limits of the counts' type).
pub open spec fn intern_all_counts(h: Seq<Seq<char>>) -> Seq<int>
    decreases h.len(),
{
    if h.len() == 0 {
        Seq::empty()
    } else {
        let c = intern_all_counts(h.drop_last());
        let k = last_index_of(intern_all(h.drop_last()), h.last());
        if k >= 0 {
            c.update(k, c[k] + 1)
        } else {
            c.push(1)
        }
    }
}

proof fn lemma_occurrences_absent(h: Seq<Seq<char>>, s: Seq<char>)
    requires
        !h.contains(s),
    ensures
        occurrences(h, s) == 0,
    decreases h.len(),
{
    if h.len() > 0 {
        assert(h[h.len() - 1] == h.last());
        assert(!h.drop_last().contains(s)) by {
            if h.drop_last().contains(s) {
                let i = choose|i: int| 0 <= i < h.drop_last().len() && h.drop_last()[i] == s;
                assert(h[i] == s);
            }
        }
        lemma_occurrences_absent(h.drop_last(), s);
    }
}

/// In a table built by interning alone, the count of each entry is the number of times its
/// string was interned.
pub proof fn lemma_intern_counts(h: Seq<Seq<char>>)
    ensures
        intern_all_counts(h).len() == intern_all(h).len(),
        forall|i: int|
            0 <= i < intern_all(h).len() ==> #[trigger] intern_all_counts(h)[i] == occurrences(h, intern_all(h)[i]),
    decreases h.len(),
{
    if h.len() > 0 {
        let p = h.drop_last();
        let x = h.last();
        let t = intern_all(p);
        let c = intern_all_counts(p);
        lemma_intern_counts(p);
        lemma_intern_history(p);
        lemma_last_index_hit(t, x);
        lemma_last_index_miss(t, x);
        let k = last_index_of(t, x);
        if k >= 0 {
            assert forall|i: int| 0 <= i < t.len() implies #[trigger] intern_all_counts(h)[i] == occurrences(
                h,
                t[i],
            ) by {
                if i != k {
                    assert(t[i] != t[k]);
                }
            }
        } else {
            let u = t.push(x);
            assert(!p.contains(x));
            lemma_occurrences_absent(p, x);
            assert forall|i: int| 0 <= i < u.len() implies #[trigger] intern_all_counts(h)[i] == occurrences(
                h,
                u[i],
            ) by {
                if i < t.len() {
                    assert(u[i] == t[i]);
                    assert(t.contains(t[i]));
                    assert(t[i] != x);
                }
            }
        }
    }
}

/// Interning is idempotent: interning the same string again returns the same index and adds no
/// entry, and the entry at that index is the string.
pub proof fn lemma_intern_dedup(strings: Seq<Seq<char>>, s: Seq<char>)
    ensures
        spec_intern(spec_intern(strings, s).0, s) == spec_intern(strings, s),
        spec_intern(strings, s).0[spec_intern(strings, s).1] == s,
{
    lemma_last_index_hit(strings, s);
    let k = last_index_of(strings, s);
    if k < 0 {
        let t = strings.push(s);
        assert(t.last() == s);
        assert(last_index_of(t, s) == strings.len());
    }
}

} // verus!
