//! Inserting and removing whole rows and columns of a worksheet: cells, merged ranges, row
//! heights and column widths move with their lines.

use vstd::prelude::*;

use crate::error::Error;
use crate::sheet::Worksheet;
use crate::sheet_styles::positions_of;
use crate::utility::{ColNum, RowNum};

verus! {

broadcast use vstd::std_specs::btree::group_btree_axioms, vstd::laws_cmp::group_laws_cmp;

/// An edit of whole lines: `count` rows (or columns) inserted before line `at`, or the `count`
/// lines from `at` on removed.
#[derive(Clone, Copy)]
pub struct LineEdit {
    pub rows: bool,
    pub insert: bool,
    pub at: u32,
    pub count: u32,
}

/// The largest index of the edited kind of line.
pub open spec fn line_max(e: LineEdit) -> int {
    if e.rows {
        u32::MAX as int
    } else {
        u16::MAX as int
    }
}

/// Where line `x` goes: lines from `at` on move down by `count` when inserting; when removing,
/// the removed lines go and the lines after them move up by `count`.
pub open spec fn line_after(e: LineEdit, x: int) -> Option<int> {
    if e.insert {
        if x >= e.at {
            Some(x + e.count)
        } else {
            Some(x)
        }
    } else if e.at <= x < e.at + e.count {
        None
    } else if x >= e.at + e.count {
        Some(x - e.count)
    } else {
        Some(x)
    }
}

/// An edit that the integer types can carry out on line `x`.
pub open spec fn line_fits(e: LineEdit, x: int) -> bool {
    &&& !e.insert ==> e.at + e.count <= line_max(e)
    &&& line_after(e, x) matches Some(y) ==> y <= line_max(e)
}

/// The line of a cell position that the edit moves.
pub open spec fn key_line(e: LineEdit, k: (RowNum, ColNum)) -> int {
    if e.rows {
        k.0 as int
    } else {
        k.1 as int
    }
}

/// Where a cell position goes, if it stays.
pub open spec fn key_after(e: LineEdit, k: (RowNum, ColNum)) -> Option<(RowNum, ColNum)> {
    match line_after(e, key_line(e, k)) {
        Some(y) => if e.rows {
            Some((y as RowNum, k.1))
        } else {
            Some((k.0, y as ColNum))
        },
        None => None,
    }
}

/// `new` holds each entry of `old` that the edit keeps, at the position it moves to, and
/// nothing else.
pub open spec fn cells_moved<V>(old: Map<(RowNum, ColNum), V>, new: Map<(RowNum, ColNum), V>, e: LineEdit) -> bool {
    &&& forall|k: (RowNum, ColNum)|
        #[trigger] old.contains_key(k) && key_after(e, k) is Some ==> new.contains_key(key_after(e, k)->0)
            && new[key_after(e, k)->0] == old[k]
    &&& forall|k2: (RowNum, ColNum)| #[trigger]
        new.contains_key(k2) ==> exists|k: (RowNum, ColNum)| old.contains_key(k) && key_after(e, k) == Some(k2)
}

/// `new` holds each entry of `old` that the edit keeps, at the line it moves to, and nothing
/// else (RowNum keys).
pub open spec fn rows_moved<V>(old: Map<RowNum, V>, new: Map<RowNum, V>, e: LineEdit) -> bool {
    &&& forall|x: RowNum| #[trigger]
        old.contains_key(x) && line_after(e, x as int) is Some ==> new.contains_key((line_after(e, x as int)->0) as RowNum)
            && new[(line_after(e, x as int)->0) as RowNum] == old[x]
    &&& forall|y: RowNum| #[trigger]
        new.contains_key(y) ==> exists|x: RowNum| old.contains_key(x) && line_after(e, x as int) == Some(y as int)
}

/// `new` holds each entry of `old` that the edit keeps, at the line it moves to, and nothing
/// else (ColNum keys).
pub open spec fn cols_moved<V>(old: Map<ColNum, V>, new: Map<ColNum, V>, e: LineEdit) -> bool {
    &&& forall|x: ColNum| #[trigger]
        old.contains_key(x) && line_after(e, x as int) is Some ==> new.contains_key((line_after(e, x as int)->0) as ColNum)
            && new[(line_after(e, x as int)->0) as ColNum] == old[x]
    &&& forall|y: ColNum| #[trigger]
        new.contains_key(y) ==> exists|x: ColNum| old.contains_key(x) && line_after(e, x as int) == Some(y as int)
}

/// What a merged range becomes, or none when the edit removes it. A removal drops a range that
/// lies within the removed lines; every corner line after them moves up.
pub open spec fn merge_after(e: LineEdit, m: (RowNum, ColNum, RowNum, ColNum)) -> Option<(RowNum, ColNum, RowNum, ColNum)> {
    let (a, b) = if e.rows {
        (m.0 as int, m.2 as int)
    } else {
        (m.1 as int, m.3 as int)
    };
    let end = e.at + e.count;
    let (a2, b2) = if e.insert {
        (if a >= e.at {
            a + e.count
        } else {
            a
        }, if b >= e.at {
            b + e.count
        } else {
            b
        })
    } else {
        (if a >= end {
            a - e.count
        } else {
            a
        }, if b >= end {
            b - e.count
        } else {
            b
        })
    };
    if !e.insert && a >= e.at && b < end {
        None
    } else if e.rows {
        Some((a2 as RowNum, m.1, b2 as RowNum, m.3))
    } else {
        Some((m.0, a2 as ColNum, m.2, b2 as ColNum))
    }
}

/// The merged ranges after the edit, in their order.
pub open spec fn merges_after(s: Seq<(RowNum, ColNum, RowNum, ColNum)>, e: LineEdit) -> Seq<(RowNum, ColNum, RowNum, ColNum)>
    decreases s.len(),
{
    if s.len() == 0 {
        Seq::empty()
    } else {
        let prev = merges_after(s.drop_last(), e);
        match merge_after(e, s.last()) {
            Some(m) => prev.push(m),
            None => prev,
        }
    }
}

/// The edit can be carried out on a merged range without leaving the integer types.
pub open spec fn merge_fits(e: LineEdit, m: (RowNum, ColNum, RowNum, ColNum)) -> bool {
    if e.rows {
        line_fits(e, m.0 as int) && line_fits(e, m.2 as int)
    } else {
        line_fits(e, m.1 as int) && line_fits(e, m.3 as int)
    }
}

proof fn lemma_line_after_injective(e: LineEdit, x: int, y: int)
    requires
        line_after(e, x) is Some,
        line_after(e, x) == line_after(e, y),
    ensures
        x == y,
{
}

fn line_after_exec(e: LineEdit, x: u32) -> (res: Option<u32>)
    requires
        line_fits(e, x as int),
        line_max(e) <= u32::MAX,
    ensures
        match res {
            Some(y) => line_after(e, x as int) == Some(y as int),
            None => line_after(e, x as int) is None,
        },
{
    if e.insert {
        if x >= e.at {
            Some(x + e.count)
        } else {
            Some(x)
        }
    } else if e.at <= x && x < e.at + e.count {
        None
    } else if x >= e.at + e.count {
        Some(x - e.count)
    } else {
        Some(x)
    }
}

fn key_after_exec(e: LineEdit, k: (RowNum, ColNum)) -> (res: Option<(RowNum, ColNum)>)
    requires
        line_fits(e, key_line(e, k)),
    ensures
        res == key_after(e, k),
{
    if e.rows {
        match line_after_exec(e, k.0) {
            Some(y) => Some((y, k.1)),
            None => None,
        }
    } else {
        match line_after_exec(e, k.1 as u32) {
            Some(y) => Some((k.0, y as ColNum)),
            None => None,
        }
    }
}

fn merge_after_exec(e: LineEdit, m: (RowNum, ColNum, RowNum, ColNum)) -> (res: Option<(RowNum, ColNum, RowNum, ColNum)>)
    requires
        merge_fits(e, m),
    ensures
        res == merge_after(e, m),
{
    let (a, b): (u32, u32) = if e.rows {
        (m.0, m.2)
    } else {
        (m.1 as u32, m.3 as u32)
    };
    let end: u32 = if e.insert {
        0
    } else {
        e.at + e.count
    };
    let a2 = if e.insert {
        if a >= e.at {
            a + e.count
        } else {
            a
        }
    } else if a >= end {
        a - e.count
    } else {
        a
    };
    let b2 = if e.insert {
        if b >= e.at {
            b + e.count
        } else {
            b
        }
    } else if b >= end {
        b - e.count
    } else {
        b
    };
    if !e.insert && a >= e.at && b < end {
        None
    } else if e.rows {
        Some((a2, m.1, b2, m.3))
    } else {
        Some((m.0, a2 as ColNum, m.2, b2 as ColNum))
    }
}

/// Moves the entries of a cell-keyed map by the edit.
fn move_cells<V>(m: &mut std::collections::BTreeMap<(RowNum, ColNum), V>, e: LineEdit)
    requires
        forall|k: (RowNum, ColNum)| #[trigger] old(m)@.contains_key(k) ==> line_fits(e, key_line(e, k)),
    ensures
        cells_moved(old(m)@, final(m)@, e),
{
    let ghost orig = m@;
    let ps = positions_of(m);
    let mut src: std::collections::BTreeMap<(RowNum, ColNum), V> = std::collections::BTreeMap::new();
    std::mem::swap(&mut src, m);
    let mut i: usize = 0;
    while i < ps.len()
        invariant
            0 <= i <= ps.len(),
            ps@.to_set() == orig.dom(),
            ps@.no_duplicates(),
            forall|k: (RowNum, ColNum)| #[trigger] orig.contains_key(k) ==> line_fits(e, key_line(e, k)),
            forall|k: (RowNum, ColNum)| #[trigger]
                src@.contains_key(k) <==> (orig.contains_key(k) && !(exists|j: int| 0 <= j < i && ps@[j] == k)),
            forall|k: (RowNum, ColNum)| #[trigger] src@.contains_key(k) ==> src@[k] == orig[k],
            forall|j: int|
                0 <= j < i && key_after(e, #[trigger] ps@[j]) is Some ==> m@.contains_key(key_after(e, ps@[j])->0)
                    && m@[key_after(e, ps@[j])->0] == orig[ps@[j]],
            forall|k2: (RowNum, ColNum)| #[trigger]
                m@.contains_key(k2) ==> exists|j: int| 0 <= j < i && key_after(e, ps@[j]) == Some(k2),
        decreases ps.len() - i,
    {
        let k = ps[i];
        assert(ps@.to_set().contains(k));
        assert(!(exists|j: int| 0 <= j < i && ps@[j] == k)) by {
            if exists|j: int| 0 <= j < i && ps@[j] == k {
                let j = choose|j: int| 0 <= j < i && ps@[j] == k;
                assert(ps@[j] == ps@[i as int]);
            }
        }
        let ghost src_before = src@;
        let ghost m_before = m@;
        let moved = key_after_exec(e, k);
        match src.remove(&k) {
            Some(v) => {
                match moved {
                    Some(k2) => {
                        m.insert(k2, v);
                    },
                    None => {},
                }
            },
            None => {},
        }
        assert forall|k3: (RowNum, ColNum)| #[trigger]
            src@.contains_key(k3) <==> (orig.contains_key(k3) && !(exists|j: int| 0 <= j < i + 1 && ps@[j] == k3)) by {
            if k3 != k && orig.contains_key(k3) && exists|j: int| 0 <= j < i + 1 && ps@[j] == k3 {
                let j = choose|j: int| 0 <= j < i + 1 && ps@[j] == k3;
                assert(j != i);
            }
            if k3 == k {
                assert(ps@[i as int] == k3);
            }
        }
        assert forall|j: int|
            0 <= j < i + 1 && key_after(e, #[trigger] ps@[j]) is Some implies m@.contains_key(key_after(e, ps@[j])->0)
                && m@[key_after(e, ps@[j])->0] == orig[ps@[j]] by {
            if j < i {
                if key_after(e, ps@[j]) == key_after(e, k) {
                    let a = ps@[j];
                    assert(ps@.to_set().contains(a));
                    assert(line_fits(e, key_line(e, a)) && line_fits(e, key_line(e, k)));
                    let ya = line_after(e, key_line(e, a))->0;
                    let yk = line_after(e, key_line(e, k))->0;
                    assert(0 <= ya <= line_max(e) && 0 <= yk <= line_max(e));
                    if e.rows {
                        assert(ya as RowNum == yk as RowNum && a.1 == k.1);
                    } else {
                        assert(ya as ColNum == yk as ColNum && a.0 == k.0);
                    }
                    assert(ya == yk);
                    lemma_line_after_injective(e, key_line(e, a), key_line(e, k));
                    assert(a == ps@[i as int]);
                }
            }
        }
        assert forall|k2: (RowNum, ColNum)| #[trigger] m@.contains_key(k2) implies exists|j: int|
            0 <= j < i + 1 && key_after(e, ps@[j]) == Some(k2) by {
            if m_before.contains_key(k2) {
                let j = choose|j: int| 0 <= j < i && key_after(e, ps@[j]) == Some(k2);
                assert(0 <= j < i + 1);
            } else {
                assert(key_after(e, ps@[i as int]) == Some(k2));
            }
        }
        i += 1;
    }
    assert forall|k: (RowNum, ColNum)| #[trigger] orig.contains_key(k) && key_after(e, k) is Some implies m@.contains_key(
        key_after(e, k)->0,
    ) && m@[key_after(e, k)->0] == orig[k] by {
        assert(ps@.to_set().contains(k));
        let j = choose|j: int| 0 <= j < ps@.len() && ps@[j] == k;
        assert(key_after(e, ps@[j]) is Some);
    }
    assert forall|k2: (RowNum, ColNum)| #[trigger] m@.contains_key(k2) implies exists|k: (RowNum, ColNum)|
        orig.contains_key(k) && key_after(e, k) == Some(k2) by {
        let j = choose|j: int| 0 <= j < ps@.len() && key_after(e, ps@[j]) == Some(k2);
        assert(ps@.to_set().contains(ps@[j]));
    }
}


fn row_keys<V>(m: &std::collections::BTreeMap<RowNum, V>) -> (res: Vec<RowNum>)
    ensures
        res@.to_set() == m@.dom(),
        res@.no_duplicates(),
{
    let mut v: Vec<RowNum> = Vec::new();
    for k in it: m.keys()
        invariant
            v@ == it.seq().take(it.index()).unref(),
            it.seq().unref().to_set() == m@.dom(),
            it.seq().unref().no_duplicates(),
            it.index() == it.seq().len() ==> v@.to_set() == m@.dom() && v@.no_duplicates(),
    {
        v.push(*k);
        assert(v@ =~= it.seq().take(it.index() + 1).unref());
        assert(it.index() + 1 == it.seq().len() ==> it.seq().take(it.index() + 1) =~= it.seq());
    }
    v
}

/// Moves the entries of a RowNum-keyed map by the edit.
fn move_rows<V>(m: &mut std::collections::BTreeMap<RowNum, V>, e: LineEdit)
    requires
        line_max(e) <= u32::MAX,
        
        forall|x: RowNum| #[trigger] old(m)@.contains_key(x) ==> line_fits(e, x as int),
    ensures
        rows_moved(old(m)@, final(m)@, e),
{
    let ghost orig = m@;
    let ps = row_keys(m);
    let mut src: std::collections::BTreeMap<RowNum, V> = std::collections::BTreeMap::new();
    std::mem::swap(&mut src, m);
    let mut i: usize = 0;
    while i < ps.len()
        invariant
            0 <= i <= ps.len(),
            line_max(e) <= u32::MAX,
            
            ps@.to_set() == orig.dom(),
            ps@.no_duplicates(),
            forall|x: RowNum| #[trigger] orig.contains_key(x) ==> line_fits(e, x as int),
            forall|x: RowNum| #[trigger] src@.contains_key(x) <==> (orig.contains_key(x) && !(exists|j: int| 0 <= j < i && ps@[j] == x)),
            forall|x: RowNum| #[trigger] src@.contains_key(x) ==> src@[x] == orig[x],
            forall|j: int|
                0 <= j < i && line_after(e, (#[trigger] ps@[j]) as int) is Some ==> m@.contains_key(
                    (line_after(e, ps@[j] as int)->0) as RowNum,
                ) && m@[(line_after(e, ps@[j] as int)->0) as RowNum] == orig[ps@[j]],
            forall|y: RowNum| #[trigger] m@.contains_key(y) ==> exists|j: int| 0 <= j < i && line_after(e, ps@[j] as int) == Some(y as int),
        decreases ps.len() - i,
    {
        let x = ps[i];
        assert(ps@.to_set().contains(x));
        assert(!(exists|j: int| 0 <= j < i && ps@[j] == x)) by {
            if exists|j: int| 0 <= j < i && ps@[j] == x {
                let j = choose|j: int| 0 <= j < i && ps@[j] == x;
                assert(ps@[j] == ps@[i as int]);
            }
        }
        let ghost m_before = m@;
        let moved = line_after_exec(e, x as u32);
        match src.remove(&x) {
            Some(v) => {
                match moved {
                    Some(y) => {
                        m.insert(y as RowNum, v);
                    },
                    None => {},
                }
            },
            None => {},
        }
        assert forall|x3: RowNum| #[trigger] src@.contains_key(x3) <==> (orig.contains_key(x3) && !(exists|j: int| 0 <= j < i + 1 && ps@[j] == x3)) by {
            if x3 != x && orig.contains_key(x3) && exists|j: int| 0 <= j < i + 1 && ps@[j] == x3 {
                let j = choose|j: int| 0 <= j < i + 1 && ps@[j] == x3;
                assert(j != i);
            }
            if x3 == x {
                assert(ps@[i as int] == x3);
            }
        }
        assert forall|j: int|
            0 <= j < i + 1 && line_after(e, (#[trigger] ps@[j]) as int) is Some implies m@.contains_key(
                (line_after(e, ps@[j] as int)->0) as RowNum,
            ) && m@[(line_after(e, ps@[j] as int)->0) as RowNum] == orig[ps@[j]] by {
            if j < i {
                let a = ps@[j];
                assert(ps@.to_set().contains(a));
                assert(line_fits(e, a as int));
                if line_after(e, x as int) is Some {
                    assert(line_fits(e, x as int));
                    let ya = line_after(e, a as int)->0;
                    let yx = line_after(e, x as int)->0;
                    assert(0 <= ya <= line_max(e) && 0 <= yx <= line_max(e));
                    if ya as RowNum == yx as RowNum {
                        assert(ya == yx);
                        lemma_line_after_injective(e, a as int, x as int);
                        assert(a == ps@[i as int]);
                    }
                }
            }
        }
        assert forall|y: RowNum| #[trigger] m@.contains_key(y) implies exists|j: int| 0 <= j < i + 1 && line_after(e, ps@[j] as int) == Some(y as int) by {
            if m_before.contains_key(y) {
                let j = choose|j: int| 0 <= j < i && line_after(e, ps@[j] as int) == Some(y as int);
                assert(0 <= j < i + 1);
            } else {
                let yx = line_after(e, x as int)->0;
                assert(0 <= yx <= line_max(e));
                assert(line_after(e, ps@[i as int] as int) == Some(y as int));
            }
        }
        i += 1;
    }
    assert forall|x: RowNum| #[trigger] orig.contains_key(x) && line_after(e, x as int) is Some implies m@.contains_key(
        (line_after(e, x as int)->0) as RowNum,
    ) && m@[(line_after(e, x as int)->0) as RowNum] == orig[x] by {
        assert(ps@.to_set().contains(x));
        let j = choose|j: int| 0 <= j < ps@.len() && ps@[j] == x;
        assert(line_after(e, ps@[j] as int) is Some);
    }
    assert forall|y: RowNum| #[trigger] m@.contains_key(y) implies exists|x: RowNum| orig.contains_key(x) && line_after(e, x as int) == Some(y as int) by {
        let j = choose|j: int| 0 <= j < ps@.len() && line_after(e, ps@[j] as int) == Some(y as int);
        assert(ps@.to_set().contains(ps@[j]));
    }
}

fn col_keys<V>(m: &std::collections::BTreeMap<ColNum, V>) -> (res: Vec<ColNum>)
    ensures
        res@.to_set() == m@.dom(),
        res@.no_duplicates(),
{
    let mut v: Vec<ColNum> = Vec::new();
    for k in it: m.keys()
        invariant
            v@ == it.seq().take(it.index()).unref(),
            it.seq().unref().to_set() == m@.dom(),
            it.seq().unref().no_duplicates(),
            it.index() == it.seq().len() ==> v@.to_set() == m@.dom() && v@.no_duplicates(),
    {
        v.push(*k);
        assert(v@ =~= it.seq().take(it.index() + 1).unref());
        assert(it.index() + 1 == it.seq().len() ==> it.seq().take(it.index() + 1) =~= it.seq());
    }
    v
}

/// Moves the entries of a ColNum-keyed map by the edit.
fn move_cols<V>(m: &mut std::collections::BTreeMap<ColNum, V>, e: LineEdit)
    requires
        line_max(e) <= u32::MAX,
        !e.rows,
        forall|x: ColNum| #[trigger] old(m)@.contains_key(x) ==> line_fits(e, x as int),
    ensures
        cols_moved(old(m)@, final(m)@, e),
{
    let ghost orig = m@;
    let ps = col_keys(m);
    let mut src: std::collections::BTreeMap<ColNum, V> = std::collections::BTreeMap::new();
    std::mem::swap(&mut src, m);
    let mut i: usize = 0;
    while i < ps.len()
        invariant
            0 <= i <= ps.len(),
            line_max(e) <= u32::MAX,
            !e.rows,
            ps@.to_set() == orig.dom(),
            ps@.no_duplicates(),
            forall|x: ColNum| #[trigger] orig.contains_key(x) ==> line_fits(e, x as int),
            forall|x: ColNum| #[trigger] src@.contains_key(x) <==> (orig.contains_key(x) && !(exists|j: int| 0 <= j < i && ps@[j] == x)),
            forall|x: ColNum| #[trigger] src@.contains_key(x) ==> src@[x] == orig[x],
            forall|j: int|
                0 <= j < i && line_after(e, (#[trigger] ps@[j]) as int) is Some ==> m@.contains_key(
                    (line_after(e, ps@[j] as int)->0) as ColNum,
                ) && m@[(line_after(e, ps@[j] as int)->0) as ColNum] == orig[ps@[j]],
            forall|y: ColNum| #[trigger] m@.contains_key(y) ==> exists|j: int| 0 <= j < i && line_after(e, ps@[j] as int) == Some(y as int),
        decreases ps.len() - i,
    {
        let x = ps[i];
        assert(ps@.to_set().contains(x));
        assert(!(exists|j: int| 0 <= j < i && ps@[j] == x)) by {
            if exists|j: int| 0 <= j < i && ps@[j] == x {
                let j = choose|j: int| 0 <= j < i && ps@[j] == x;
                assert(ps@[j] == ps@[i as int]);
            }
        }
        let ghost m_before = m@;
        let moved = line_after_exec(e, x as u32);
        match src.remove(&x) {
            Some(v) => {
                match moved {
                    Some(y) => {
                        m.insert(y as ColNum, v);
                    },
                    None => {},
                }
            },
            None => {},
        }
        assert forall|x3: ColNum| #[trigger] src@.contains_key(x3) <==> (orig.contains_key(x3) && !(exists|j: int| 0 <= j < i + 1 && ps@[j] == x3)) by {
            if x3 != x && orig.contains_key(x3) && exists|j: int| 0 <= j < i + 1 && ps@[j] == x3 {
                let j = choose|j: int| 0 <= j < i + 1 && ps@[j] == x3;
                assert(j != i);
            }
            if x3 == x {
                assert(ps@[i as int] == x3);
            }
        }
        assert forall|j: int|
            0 <= j < i + 1 && line_after(e, (#[trigger] ps@[j]) as int) is Some implies m@.contains_key(
                (line_after(e, ps@[j] as int)->0) as ColNum,
            ) && m@[(line_after(e, ps@[j] as int)->0) as ColNum] == orig[ps@[j]] by {
            if j < i {
                let a = ps@[j];
                assert(ps@.to_set().contains(a));
                assert(line_fits(e, a as int));
                if line_after(e, x as int) is Some {
                    assert(line_fits(e, x as int));
                    let ya = line_after(e, a as int)->0;
                    let yx = line_after(e, x as int)->0;
                    assert(0 <= ya <= line_max(e) && 0 <= yx <= line_max(e));
                    if ya as ColNum == yx as ColNum {
                        assert(ya == yx);
                        lemma_line_after_injective(e, a as int, x as int);
                        assert(a == ps@[i as int]);
                    }
                }
            }
        }
        assert forall|y: ColNum| #[trigger] m@.contains_key(y) implies exists|j: int| 0 <= j < i + 1 && line_after(e, ps@[j] as int) == Some(y as int) by {
            if m_before.contains_key(y) {
                let j = choose|j: int| 0 <= j < i && line_after(e, ps@[j] as int) == Some(y as int);
                assert(0 <= j < i + 1);
            } else {
                let yx = line_after(e, x as int)->0;
                assert(0 <= yx <= line_max(e));
                assert(line_after(e, ps@[i as int] as int) == Some(y as int));
            }
        }
        i += 1;
    }
    assert forall|x: ColNum| #[trigger] orig.contains_key(x) && line_after(e, x as int) is Some implies m@.contains_key(
        (line_after(e, x as int)->0) as ColNum,
    ) && m@[(line_after(e, x as int)->0) as ColNum] == orig[x] by {
        assert(ps@.to_set().contains(x));
        let j = choose|j: int| 0 <= j < ps@.len() && ps@[j] == x;
        assert(line_after(e, ps@[j] as int) is Some);
    }
    assert forall|y: ColNum| #[trigger] m@.contains_key(y) implies exists|x: ColNum| orig.contains_key(x) && line_after(e, x as int) == Some(y as int) by {
        let j = choose|j: int| 0 <= j < ps@.len() && line_after(e, ps@[j] as int) == Some(y as int);
        assert(ps@.to_set().contains(ps@[j]));
    }
}


fn move_merges(v: &Vec<(RowNum, ColNum, RowNum, ColNum)>, e: LineEdit) -> (res: Vec<(RowNum, ColNum, RowNum, ColNum)>)
    requires
        forall|i: int| 0 <= i < v@.len() ==> merge_fits(e, #[trigger] v@[i]),
    ensures
        res@ == merges_after(v@, e),
{
    let mut res: Vec<(RowNum, ColNum, RowNum, ColNum)> = Vec::new();
    let mut i: usize = 0;
    while i < v.len()
        invariant
            0 <= i <= v.len(),
            forall|i: int| 0 <= i < v@.len() ==> merge_fits(e, #[trigger] v@[i]),
            res@ == merges_after(v@.take(i as int), e),
        decreases v.len() - i,
    {
        assert(v@.take(i + 1).drop_last() =~= v@.take(i as int));
        assert(v@.take(i + 1).last() == v@[i as int]);
        match merge_after_exec(e, v[i]) {
            Some(m) => res.push(m),
            None => {},
        }
        i += 1;
    }
    assert(v@.take(v.len() as int) =~= v@);
    res
}

/// The edit that inserts `count` rows before row `at`.
pub open spec fn row_insert(at: RowNum, count: u32) -> LineEdit {
    LineEdit { rows: true, insert: true, at, count }
}

/// The edit that removes the `count` rows from row `at` on.
pub open spec fn row_removal(at: RowNum, count: u32) -> LineEdit {
    LineEdit { rows: true, insert: false, at, count }
}

/// The edit that inserts `count` columns before column `at`.
pub open spec fn col_insert(at: ColNum, count: u16) -> LineEdit {
    LineEdit { rows: false, insert: true, at: at as u32, count: count as u32 }
}

/// The edit that removes the `count` columns from column `at` on.
pub open spec fn col_removal(at: ColNum, count: u16) -> LineEdit {
    LineEdit { rows: false, insert: false, at: at as u32, count: count as u32 }
}

/// The edit can be carried out on every cell, merged range, row height and column width of the
/// sheet without leaving the integer types.
pub open spec fn edit_fits(ws: Worksheet, e: LineEdit) -> bool {
    &&& forall|k: (RowNum, ColNum)| #[trigger] ws.cells@.contains_key(k) ==> line_fits(e, key_line(e, k))
    &&& forall|i: int| 0 <= i < ws.merge_ranges@.len() ==> merge_fits(e, #[trigger] ws.merge_ranges@[i])
    &&& e.rows ==> forall|r: RowNum| #[trigger] ws.row_heights@.contains_key(r) ==> line_fits(e, r as int)
    &&& !e.rows ==> forall|c: ColNum| #[trigger] ws.col_widths@.contains_key(c) ==> line_fits(e, c as int)
}

impl Worksheet {
    fn apply_rows(&mut self, e: LineEdit)
        requires
            e.rows,
            edit_fits(*old(self), e),
        ensures
            cells_moved(old(self).cells@, final(self).cells@, e),
            final(self).merge_ranges@ == merges_after(old(self).merge_ranges@, e),
            rows_moved(old(self).row_heights@, final(self).row_heights@, e),
            *final(self) == (Worksheet {
                cells: final(self).cells,
                merge_ranges: final(self).merge_ranges,
                row_heights: final(self).row_heights,
                dirty: true,
                ..*old(self)
            }),
    {
        self.dirty = true;
        move_cells(&mut self.cells, e);
        self.merge_ranges = move_merges(&self.merge_ranges, e);
        move_rows(&mut self.row_heights, e);
    }

    fn apply_cols(&mut self, e: LineEdit)
        requires
            !e.rows,
            edit_fits(*old(self), e),
        ensures
            cells_moved(old(self).cells@, final(self).cells@, e),
            final(self).merge_ranges@ == merges_after(old(self).merge_ranges@, e),
            cols_moved(old(self).col_widths@, final(self).col_widths@, e),
            *final(self) == (Worksheet {
                cells: final(self).cells,
                merge_ranges: final(self).merge_ranges,
                col_widths: final(self).col_widths,
                dirty: true,
                ..*old(self)
            }),
    {
        self.dirty = true;
        move_cells(&mut self.cells, e);
        self.merge_ranges = move_merges(&self.merge_ranges, e);
        move_cols(&mut self.col_widths, e);
    }

    /// Inserts `count` rows before row `at`: cells, merged-range corners and row heights from row
    /// `at` on move down by `count`. Formula texts are kept as written.
    pub fn insert_rows(&mut self, at: RowNum, count: u32) -> (res: Result<(), Error>)
        requires
            edit_fits(*old(self), row_insert(at, count)),
        ensures
            res is Ok,
            cells_moved(old(self).cells@, final(self).cells@, row_insert(at, count)),
            final(self).merge_ranges@ == merges_after(old(self).merge_ranges@, row_insert(at, count)),
            rows_moved(old(self).row_heights@, final(self).row_heights@, row_insert(at, count)),
            *final(self) == (Worksheet {
                cells: final(self).cells,
                merge_ranges: final(self).merge_ranges,
                row_heights: final(self).row_heights,
                dirty: true,
                ..*old(self)
            }),
    {
        self.apply_rows(LineEdit { rows: true, insert: true, at, count });
        Ok(())
    }

    /// Removes the `count` rows from row `at` on: their cells and heights go, as does a merged
    /// range lying within them; what lies below moves up by `count`. Formula texts are kept as
    /// written.
    pub fn remove_rows(&mut self, at: RowNum, count: u32) -> (res: Result<(), Error>)
        requires
            at + count <= u32::MAX,
            edit_fits(*old(self), row_removal(at, count)),
        ensures
            res is Ok,
            cells_moved(old(self).cells@, final(self).cells@, row_removal(at, count)),
            final(self).merge_ranges@ == merges_after(old(self).merge_ranges@, row_removal(at, count)),
            rows_moved(old(self).row_heights@, final(self).row_heights@, row_removal(at, count)),
            *final(self) == (Worksheet {
                cells: final(self).cells,
                merge_ranges: final(self).merge_ranges,
                row_heights: final(self).row_heights,
                dirty: true,
                ..*old(self)
            }),
    {
        self.apply_rows(LineEdit { rows: true, insert: false, at, count });
        Ok(())
    }

    /// Inserts `count` columns before column `at`: cells, merged-range corners and column widths
    /// from column `at` on move right by `count`. Formula texts are kept as written.
    pub fn insert_columns(&mut self, at: ColNum, count: u16) -> (res: Result<(), Error>)
        requires
            edit_fits(*old(self), col_insert(at, count)),
        ensures
            res is Ok,
            cells_moved(old(self).cells@, final(self).cells@, col_insert(at, count)),
            final(self).merge_ranges@ == merges_after(old(self).merge_ranges@, col_insert(at, count)),
            cols_moved(old(self).col_widths@, final(self).col_widths@, col_insert(at, count)),
            *final(self) == (Worksheet {
                cells: final(self).cells,
                merge_ranges: final(self).merge_ranges,
                col_widths: final(self).col_widths,
                dirty: true,
                ..*old(self)
            }),
    {
        self.apply_cols(LineEdit { rows: false, insert: true, at: at as u32, count: count as u32 });
        Ok(())
    }

    /// Removes the `count` columns from column `at` on: their cells and widths go, as does a
    /// merged range lying within them; what lies right of them moves left by `count`. Formula
    /// texts are kept as written.
    pub fn remove_columns(&mut self, at: ColNum, count: u16) -> (res: Result<(), Error>)
        requires
            at + count <= u16::MAX,
            edit_fits(*old(self), col_removal(at, count)),
        ensures
            res is Ok,
            cells_moved(old(self).cells@, final(self).cells@, col_removal(at, count)),
            final(self).merge_ranges@ == merges_after(old(self).merge_ranges@, col_removal(at, count)),
            cols_moved(old(self).col_widths@, final(self).col_widths@, col_removal(at, count)),
            *final(self) == (Worksheet {
                cells: final(self).cells,
                merge_ranges: final(self).merge_ranges,
                col_widths: final(self).col_widths,
                dirty: true,
                ..*old(self)
            }),
    {
        self.apply_cols(LineEdit { rows: false, insert: false, at: at as u32, count: count as u32 });
        Ok(())
    }
}

/// Removing the rows just inserted gives every line back its place.
pub proof fn lemma_line_insert_then_remove(at: RowNum, count: u32, x: int)
    requires
        0 <= x,
    ensures
        line_after(row_insert(at, count), x) matches Some(y) && line_after(row_removal(at, count), y) == Some(x),
{
}

/// Inserting rows and then removing the same rows gives the cells back as they were.
pub proof fn lemma_insert_then_remove_rows<V>(
    a: Map<(RowNum, ColNum), V>,
    b: Map<(RowNum, ColNum), V>,
    c: Map<(RowNum, ColNum), V>,
    at: RowNum,
    count: u32,
)
    requires
        forall|k: (RowNum, ColNum)| #[trigger] a.contains_key(k) ==> line_fits(row_insert(at, count), k.0 as int),
        cells_moved(a, b, row_insert(at, count)),
        cells_moved(b, c, row_removal(at, count)),
    ensures
        c == a,
{
    let ins = row_insert(at, count);
    let rem = row_removal(at, count);
    assert forall|k: (RowNum, ColNum)| a.contains_key(k) implies c.contains_key(k) && c[k] == a[k] by {
        let k1 = key_after(ins, k)->0;
        assert(b.contains_key(k1) && b[k1] == a[k]);
        assert(key_after(rem, k1) == Some(k));
    }
    assert forall|k2: (RowNum, ColNum)| c.contains_key(k2) implies a.contains_key(k2) by {
        let k1 = choose|k1: (RowNum, ColNum)| b.contains_key(k1) && key_after(rem, k1) == Some(k2);
        let k = choose|k: (RowNum, ColNum)| a.contains_key(k) && key_after(ins, k) == Some(k1);
        assert(key_after(rem, k1) == Some(k));
    }
    assert(c =~= a);
}

/// Inserting `count` rows before row `at` moves each corner row of a merged range on its own:
/// a corner row at or below `at` moves down by `count`, one above `at` stays, so a range that
/// spans row `at` grows by `count`; its columns stay. Removing the `count` rows from `at` on drops
/// a range lying within them; otherwise each corner row below the removed rows moves up by
/// `count` and the others stay.
pub proof fn lemma_merge_corners_rows(m: (RowNum, ColNum, RowNum, ColNum), at: RowNum, count: u32)
    ensures
        m.0 + count <= u32::MAX && m.2 + count <= u32::MAX ==> merge_after(row_insert(at, count), m) == Some(
            (
                (if m.0 >= at {
                    m.0 + count
                } else {
                    m.0 as int
                }) as RowNum,
                m.1,
                (if m.2 >= at {
                    m.2 + count
                } else {
                    m.2 as int
                }) as RowNum,
                m.3,
            ),
        ),
        merge_after(row_removal(at, count), m) == if m.0 >= at && m.2 < at + count {
            None
        } else {
            Some(
                (
                    (if m.0 >= at + count {
                        m.0 - count
                    } else {
                        m.0 as int
                    }) as RowNum,
                    m.1,
                    (if m.2 >= at + count {
                        m.2 - count
                    } else {
                        m.2 as int
                    }) as RowNum,
                    m.3,
                ),
            )
        },
{
}

/// Inserting `count` columns before column `at` moves each corner column of a merged range on its
/// own, as [`lemma_merge_corners_rows`] moves rows; removing columns likewise.
pub proof fn lemma_merge_corners_cols(m: (RowNum, ColNum, RowNum, ColNum), at: ColNum, count: u16)
    ensures
        m.1 + count <= u16::MAX && m.3 + count <= u16::MAX ==> merge_after(col_insert(at, count), m) == Some(
            (
                m.0,
                (if m.1 >= at {
                    m.1 + count
                } else {
                    m.1 as int
                }) as ColNum,
                m.2,
                (if m.3 >= at {
                    m.3 + count
                } else {
                    m.3 as int
                }) as ColNum,
            ),
        ),
        merge_after(col_removal(at, count), m) == if m.1 >= at && m.3 < at + count {
            None
        } else {
            Some(
                (
                    m.0,
                    (if m.1 >= at + count {
                        m.1 - count
                    } else {
                        m.1 as int
                    }) as ColNum,
                    m.2,
                    (if m.3 >= at + count {
                        m.3 - count
                    } else {
                        m.3 as int
                    }) as ColNum,
                ),
            )
        },
{
}

/// Inserting rows or columns keeps every merged range, in its order: range `i` after the edit is
/// range `i` before it, moved.
pub proof fn lemma_insert_keeps_merges(s: Seq<(RowNum, ColNum, RowNum, ColNum)>, e: LineEdit)
    requires
        e.insert,
    ensures
        merges_after(s, e).len() == s.len(),
        forall|i: int| 0 <= i < s.len() ==> Some(#[trigger] merges_after(s, e)[i]) == merge_after(e, s[i]),
    decreases s.len(),
{
    if s.len() > 0 {
        lemma_insert_keeps_merges(s.drop_last(), e);
        assert(merge_after(e, s.last()) is Some);
        assert forall|i: int| 0 <= i < s.len() implies Some(#[trigger] merges_after(s, e)[i]) == merge_after(
            e,
            s[i],
        ) by {
            if i < s.len() - 1 {
                assert(s.drop_last()[i] == s[i]);
            }
        }
    }
}

/// Where inserting and removing lines put a cell: inserting `count` rows before row `at` moves
/// a cell at or below `at` down by `count` and leaves one above in place; removing the `count`
/// rows from `at` on drops a cell in them, moves one below them up by `count` and leaves one
/// above in place. The cell keeps its column. Columns behave the same way, keeping the row.
pub proof fn lemma_cell_moves(r: RowNum, c: ColNum, at: u32, count: u32, cat: ColNum, ccount: u16)
    ensures
        r + count <= u32::MAX ==> key_after(row_insert(at, count), (r, c)) == Some(
            (
                (if r >= at {
                    r + count
                } else {
                    r as int
                }) as RowNum,
                c,
            ),
        ),
        key_after(row_removal(at, count), (r, c)) == if at <= r < at + count {
            None
        } else if r >= at + count {
            Some(((r - count) as RowNum, c))
        } else {
            Some((r, c))
        },
        c + ccount <= u16::MAX ==> key_after(col_insert(cat, ccount), (r, c)) == Some(
            (
                r,
                (if c >= cat {
                    c + ccount
                } else {
                    c as int
                }) as ColNum,
            ),
        ),
        key_after(col_removal(cat, ccount), (r, c)) == if cat <= c < cat + ccount {
            None
        } else if c >= cat + ccount {
            Some((r, (c - ccount) as ColNum))
        } else {
            Some((r, c))
        },
{
}

} // verus!
