//! Finalizing a worksheet for saving: the formats waiting for its cells are registered in the
//! workbook's style registry, its inline strings move to the shared-string table, and date-times
//! without a format get a date format.

use vstd::prelude::*;

use crate::format::Format;
use crate::shared_strings::SharedStringTable;
use crate::sheet::{cell_type_view, cells_view, CellType, CellTypeV, Worksheet};
use crate::style_laws::{extends, has_room, lemma_register_format_describes};
use crate::style_registry::{
    format_alignment, format_border, format_fill, format_font, spec_register_format, RegistryView, StyleRegistry,
};
use crate::text::to_string;
use crate::utility::{ColNum, RowNum};

verus! {

broadcast use vstd::std_specs::btree::group_btree_axioms, vstd::laws_cmp::group_laws_cmp;

/// The xf record at `xf` gives what `f` asks for: its font, fill, border, alignment, protection
/// flags and number format.
pub open spec fn styled_as(s: RegistryView, xf: u32, f: Format) -> bool {
    let rec = s.xf_records[xf as int];
    &&& 0 <= xf < s.xf_records.len()
    &&& 0 <= rec.font_id < s.fonts.len() && s.fonts[rec.font_id as int] == format_font(f)
    &&& 0 <= rec.fill_id < s.fills.len() && s.fills[rec.fill_id as int] == format_fill(f)
    &&& 0 <= rec.border_id < s.borders.len() && s.borders[rec.border_id as int] == format_border(f)
    &&& rec.alignment == format_alignment(f)
    &&& rec.locked == f.locked
    &&& rec.formula_hidden == f.formula_hidden
    &&& rec.quote_prefix == f.quote_prefix
    &&& (f.num_format@.len() == 0 || f.num_format@ == "General"@) ==> rec.num_fmt_id == 0
    &&& !(f.num_format@.len() == 0 || f.num_format@ == "General"@) ==> exists|k: int|
        0 <= k < s.num_formats.len() && #[trigger] s.num_formats[k] == (rec.num_fmt_id, f.num_format@)
}

/// The format a date-time cell without one gets: the default format showing `yyyy-mm-dd`.
pub open spec fn is_date_format(f: Format) -> bool {
    f.is_plain() && f.num_format@ == "yyyy-mm-dd"@
}

/// Whether a range format covers `p`.
pub open spec fn covers(r: (RowNum, ColNum, RowNum, ColNum, Format), p: (RowNum, ColNum)) -> bool {
    r.0 <= p.0 <= r.2 && r.1 <= p.1 <= r.3
}

/// The index of the last range format covering `p`, or -1.
pub open spec fn last_cover(rs: Seq<(RowNum, ColNum, RowNum, ColNum, Format)>, p: (RowNum, ColNum)) -> int
    decreases rs.len(),
{
    if rs.len() == 0 {
        -1
    } else if covers(rs.last(), p) {
        rs.len() - 1
    } else {
        last_cover(rs.drop_last(), p)
    }
}

/// The format that decides a cell's style when its sheet is finalized: the last range format
/// covering it, else the format waiting for it.
pub open spec fn deciding_format(ws: Worksheet, p: (RowNum, ColNum)) -> Option<Format> {
    let k = last_cover(ws.range_formats@, p);
    if k >= 0 {
        Some(ws.range_formats@[k].4)
    } else if ws.pending_formats@.contains_key(p) {
        Some(ws.pending_formats@[p])
    } else {
        None
    }
}

/// What a cell held before finalizing: its content, or nothing for a cell that only had a
/// format waiting.
pub open spec fn content_before(ws: Worksheet, p: (RowNum, ColNum)) -> CellTypeV {
    if ws.cells@.contains_key(p) {
        cell_type_view(ws.cells@[p].0)
    } else {
        CellTypeV::Empty
    }
}

/// The style index a cell has once its formats are applied is `x`: one giving its deciding
/// format, else the index it had.
pub open spec fn style_after_formats(ws: Worksheet, s: RegistryView, p: (RowNum, ColNum), x: u32) -> bool {
    match deciding_format(ws, p) {
        Some(f) => styled_as(s, x, f),
        None => x == ws.cells@[p].1,
    }
}

/// How finalizing leaves the cell at `p` of `ws`, given the registry `s` and shared strings
/// `strings` after it: an inline string becomes the index of that string; a date-time whose
/// style index after its formats is 0 gets the date format; every other style index is the one
/// its formats give.
pub open spec fn finalized_cell(
    ws: Worksheet,
    s: RegistryView,
    strings: Seq<Seq<char>>,
    p: (RowNum, ColNum),
    e: (CellTypeV, u32),
) -> bool {
    let c0 = content_before(ws, p);
    &&& match c0 {
        CellTypeV::InlineString(t) => e.0 matches CellTypeV::SharedString(i) && 0 <= i < strings.len() && strings[i as int]
            == t,
        _ => e.0 == c0,
    }
    &&& if c0 is DateTime {
        ||| exists|f: Format| is_date_format(f) && #[trigger] styled_as(s, e.1, f)
        ||| style_after_formats(ws, s, p, e.1) && e.1 != 0
    } else {
        style_after_formats(ws, s, p, e.1)
    }
}

/// How many registrations finalizing can make at most.
pub open spec fn registration_budget(ws: Worksheet) -> int {
    (ws.cells@.dom().len() + 2 * ws.pending_formats@.dom().len() + ws.range_formats@.len()) as int
}

/// Registering a format moves the next custom number-format id on by at most one.
proof fn lemma_register_next(r: RegistryView, f: Format)
    requires
        r.next_custom_num_fmt_id < u16::MAX,
    ensures
        r.next_custom_num_fmt_id <= spec_register_format(r, f).0.next_custom_num_fmt_id <= r.next_custom_num_fmt_id
            + 1,
{
}

/// A style index keeps giving a format as the registry grows.
proof fn lemma_styled_as_extends(r: RegistryView, s: RegistryView, xf: u32, f: Format)
    requires
        extends(r, s),
        styled_as(r, xf, f),
    ensures
        styled_as(s, xf, f),
{
    let rec = r.xf_records[xf as int];
    assert(s.xf_records[xf as int] == rec);
    assert(s.fonts[rec.font_id as int] == r.fonts[rec.font_id as int]);
    assert(s.fills[rec.fill_id as int] == r.fills[rec.fill_id as int]);
    assert(s.borders[rec.border_id as int] == r.borders[rec.border_id as int]);
    if !(f.num_format@.len() == 0 || f.num_format@ == "General"@) {
        let k = choose|k: int| 0 <= k < r.num_formats.len() && #[trigger] r.num_formats[k] == (rec.num_fmt_id, f.num_format@);
        assert(s.num_formats[k] == r.num_formats[k]);
    }
}

/// Growth of the registry is transitive.
proof fn lemma_extends_trans(a: RegistryView, b: RegistryView, c: RegistryView)
    requires
        extends(a, b),
        extends(b, c),
    ensures
        extends(a, c),
{
    assert forall|k: int| 0 <= k < a.fonts.len() implies #[trigger] c.fonts[k] == a.fonts[k] by {
        assert(c.fonts[k] == b.fonts[k]);
    }
    assert forall|k: int| 0 <= k < a.fills.len() implies #[trigger] c.fills[k] == a.fills[k] by {
        assert(c.fills[k] == b.fills[k]);
    }
    assert forall|k: int| 0 <= k < a.borders.len() implies #[trigger] c.borders[k] == a.borders[k] by {
        assert(c.borders[k] == b.borders[k]);
    }
    assert forall|k: int| 0 <= k < a.num_formats.len() implies #[trigger] c.num_formats[k] == a.num_formats[k] by {
        assert(c.num_formats[k] == b.num_formats[k]);
    }
    assert forall|k: int| 0 <= k < a.xf_records.len() implies #[trigger] c.xf_records[k] == a.xf_records[k] by {
        assert(c.xf_records[k] == b.xf_records[k]);
    }
    assert forall|k: int| 0 <= k < a.xf_style_ids.len() implies #[trigger] c.xf_style_ids[k] == a.xf_style_ids[k] by {
        assert(c.xf_style_ids[k] == b.xf_style_ids[k]);
    }
    assert forall|k: int| 0 <= k < a.cell_style_xfs.len() implies #[trigger] c.cell_style_xfs[k] == a.cell_style_xfs[k] by {
        assert(c.cell_style_xfs[k] == b.cell_style_xfs[k]);
    }
    assert forall|k: int| 0 <= k < a.cell_styles.len() implies #[trigger] c.cell_styles[k] == a.cell_styles[k] by {
        assert(c.cell_styles[k] == b.cell_styles[k]);
    }
}

/// Every registry extends itself.
proof fn lemma_extends_refl(a: RegistryView)
    ensures
        extends(a, a),
{
}

/// Registering a format in a registry with room for `n` more entries, `n` at least one, leaves
/// room for `n - 1`, grows the registry, and gives an index for the format.
proof fn lemma_register_step(r: RegistryView, f: Format, n: int)
    requires
        n >= 1,
        has_room(r, n),
        r.next_custom_num_fmt_id < u16::MAX,
    ensures
        ({
            let (s, i) = spec_register_format(r, f);
            &&& extends(r, s)
            &&& has_room(s, n - 1)
            &&& styled_as(s, i, f)
            &&& r.next_custom_num_fmt_id <= s.next_custom_num_fmt_id <= r.next_custom_num_fmt_id + 1
        }),
{
    lemma_register_format_describes(r, f);
    lemma_register_next(r, f);
}

/// The positions of a map keyed by cell, in key order.
pub(crate) fn positions_of<V>(m: &std::collections::BTreeMap<(RowNum, ColNum), V>) -> (res: Vec<(RowNum, ColNum)>)
    ensures
        res@.to_set() == m@.dom(),
        res@.len() == m@.dom().len(),
        res@.no_duplicates(),
{
    let mut v: Vec<(RowNum, ColNum)> = Vec::new();
    for k in it: m.keys()
        invariant
            v@ == it.seq().take(it.index()).unref(),
            it.seq().unref().to_set() == m@.dom(),
            it.seq().len() == m@.dom().len(),
            it.seq().unref().no_duplicates(),
            it.index() == it.seq().len() ==> v@.to_set() == m@.dom() && v@.len() == m@.dom().len() && v@.no_duplicates(),
    {
        v.push(*k);
        assert(v@ =~= it.seq().take(it.index() + 1).unref());
        assert(it.index() + 1 == it.seq().len() ==> it.seq().take(it.index() + 1) =~= it.seq());
    }
    v
}

/// `s` took at most `n` more entries in each table than `r`, and at most `n` more custom
/// number-format ids.
pub open spec fn grown_by(r: RegistryView, s: RegistryView, n: int) -> bool {
    &&& s.fonts.len() <= r.fonts.len() + n
    &&& s.fills.len() <= r.fills.len() + n
    &&& s.borders.len() <= r.borders.len() + n
    &&& s.cell_style_xfs.len() <= r.cell_style_xfs.len() + n
    &&& s.xf_records.len() <= r.xf_records.len() + n
    &&& s.next_custom_num_fmt_id <= r.next_custom_num_fmt_id + n
}

/// Room for `n` registrations: table room and custom number-format ids.
pub open spec fn room_for(r: RegistryView, n: int) -> bool {
    has_room(r, n) && r.next_custom_num_fmt_id + n < u16::MAX
}

proof fn lemma_room_after(r: RegistryView, s: RegistryView, n: int, m: int)
    requires
        room_for(r, n + m),
        grown_by(r, s, n),
        n >= 0,
        m >= 0,
    ensures
        room_for(s, m),
{
}

impl Worksheet {
    /// Registers each waiting cell format and gives its cell the resulting style index (a cell
    /// that had only a format becomes an empty cell).
    fn apply_pending(&mut self, styles: &mut StyleRegistry)
        requires
            room_for(old(styles)@, old(self).pending_formats@.dom().len() as int),
        ensures
            final(self).pending_formats@ == Map::<(RowNum, ColNum), Format>::empty(),
            final(self).cells@.dom() == old(self).cells@.dom().union(old(self).pending_formats@.dom()),
            forall|q: (RowNum, ColNum)| #[trigger]
                final(self).cells@.contains_key(q) ==> {
                    &&& cell_type_view(final(self).cells@[q].0) == content_before(*old(self), q)
                    &&& old(self).pending_formats@.contains_key(q) ==> styled_as(
                        final(styles)@,
                        final(self).cells@[q].1,
                        old(self).pending_formats@[q],
                    )
                    &&& !old(self).pending_formats@.contains_key(q) ==> final(self).cells@[q].1 == old(
                        self,
                    ).cells@[q].1
                },
            extends(old(styles)@, final(styles)@),
            grown_by(old(styles)@, final(styles)@, old(self).pending_formats@.dom().len() as int),
            *final(self) == (Worksheet { cells: final(self).cells, pending_formats: final(self).pending_formats, ..*old(self) }),
    {
        let ghost orig = *self;
        let ghost s0 = styles@;
        let ps = positions_of(&self.pending_formats);
        let mut pending: std::collections::BTreeMap<(RowNum, ColNum), Format> = std::collections::BTreeMap::new();
        std::mem::swap(&mut pending, &mut self.pending_formats);
        proof {
            lemma_extends_refl(s0);
        }
        let mut i: usize = 0;
        while i < ps.len()
            invariant
                0 <= i <= ps.len(),
                ps@.to_set() == orig.pending_formats@.dom(),
                ps@.len() == orig.pending_formats@.dom().len(),
                pending@ == orig.pending_formats@,
                self.pending_formats@ == Map::<(RowNum, ColNum), Format>::empty(),
                room_for(s0, ps@.len() as int),
                extends(s0, styles@),
                grown_by(s0, styles@, i as int),
                forall|q: (RowNum, ColNum)|
                    #[trigger] self.cells@.contains_key(q) <==> (orig.cells@.contains_key(q) || exists|j: int|
                        0 <= j < i && ps@[j] == q),
                forall|q: (RowNum, ColNum)| #[trigger]
                    self.cells@.contains_key(q) ==> {
                        &&& cell_type_view(self.cells@[q].0) == content_before(orig, q)
                        &&& (exists|j: int| 0 <= j < i && ps@[j] == q) ==> styled_as(
                            styles@,
                            self.cells@[q].1,
                            orig.pending_formats@[q],
                        )
                        &&& !(exists|j: int| 0 <= j < i && ps@[j] == q) ==> self.cells@[q].1 == orig.cells@[q].1
                    },
                *self == (Worksheet { cells: self.cells, pending_formats: self.pending_formats, ..orig }),
            decreases ps.len() - i,
        {
            let p = ps[i];
            assert(ps@.to_set().contains(p));
            let ghost before = styles@;
            let ghost cells_before = self.cells@;
            proof {
                lemma_room_after(s0, before, i as int, ps@.len() - i);
                lemma_register_step(before, pending@[p], ps@.len() - i);
            }
            let xf = match pending.get(&p) {
                Some(f) => styles.register_format(f),
                None => 0,
            };
            proof {
                lemma_extends_trans(s0, before, styles@);
            }
            let content = match self.cells.remove(&p) {
                Some(e) => e.0,
                None => CellType::Empty,
            };
            assert(cell_type_view(content) == content_before(orig, p));
            self.cells.insert(p, (content, xf));
            assert forall|q: (RowNum, ColNum)| #[trigger]
                self.cells@.contains_key(q) implies {
                    &&& cell_type_view(self.cells@[q].0) == content_before(orig, q)
                    &&& (exists|j: int| 0 <= j < i + 1 && ps@[j] == q) ==> styled_as(
                        styles@,
                        self.cells@[q].1,
                        orig.pending_formats@[q],
                    )
                    &&& !(exists|j: int| 0 <= j < i + 1 && ps@[j] == q) ==> self.cells@[q].1 == orig.cells@[q].1
                } by {
                if q != p {
                    assert(cells_before.contains_key(q));
                    if exists|j: int| 0 <= j < i + 1 && ps@[j] == q {
                        let j = choose|j: int| 0 <= j < i + 1 && ps@[j] == q;
                        assert(j != i);
                        assert(exists|j: int| 0 <= j < i && ps@[j] == q);
                        lemma_styled_as_extends(before, styles@, self.cells@[q].1, orig.pending_formats@[q]);
                    }
                } else {
                    assert(ps@[i as int] == q);
                }
            }
            assert forall|q: (RowNum, ColNum)|
                #[trigger] self.cells@.contains_key(q) <==> (orig.cells@.contains_key(q) || exists|j: int|
                    0 <= j < i + 1 && ps@[j] == q) by {
                if q == p {
                    assert(ps@[i as int] == q);
                } else if exists|j: int| 0 <= j < i + 1 && ps@[j] == q {
                    let j = choose|j: int| 0 <= j < i + 1 && ps@[j] == q;
                    assert(j != i);
                    assert(exists|j: int| 0 <= j < i && ps@[j] == q);
                }
            }
            i += 1;
        }
        assert(self.cells@.dom() =~= orig.cells@.dom().union(orig.pending_formats@.dom())) by {
            assert forall|q: (RowNum, ColNum)| self.cells@.contains_key(q) <==> (orig.cells@.contains_key(q)
                || orig.pending_formats@.contains_key(q)) by {
                if orig.pending_formats@.contains_key(q) {
                    assert(ps@.to_set().contains(q));
                }
                if exists|j: int| 0 <= j < ps@.len() && ps@[j] == q {
                    let j = choose|j: int| 0 <= j < ps@.len() && ps@[j] == q;
                    assert(ps@.to_set().contains(ps@[j]));
                }
            }
        }
        assert forall|q: (RowNum, ColNum)| #[trigger]
            self.cells@.contains_key(q) implies (orig.pending_formats@.contains_key(q) <==> exists|j: int|
                0 <= j < ps@.len() && ps@[j] == q) by {
            if orig.pending_formats@.contains_key(q) {
                assert(ps@.to_set().contains(q));
            }
            if exists|j: int| 0 <= j < ps@.len() && ps@[j] == q {
                let j = choose|j: int| 0 <= j < ps@.len() && ps@[j] == q;
                assert(ps@.to_set().contains(ps@[j]));
            }
        }
    }
}

proof fn lemma_last_cover_step(rs: Seq<(RowNum, ColNum, RowNum, ColNum, Format)>, k: int, p: (RowNum, ColNum))
    requires
        0 <= k < rs.len(),
    ensures
        last_cover(rs.take(k + 1), p) == if covers(rs[k], p) {
            k
        } else {
            last_cover(rs.take(k), p)
        },
        -1 <= last_cover(rs.take(k), p) < k,
{
    assert(rs.take(k + 1).drop_last() =~= rs.take(k));
    assert(rs.take(k + 1).last() == rs[k]);
    lemma_last_cover_range(rs.take(k), p);
}

proof fn lemma_last_cover_range(rs: Seq<(RowNum, ColNum, RowNum, ColNum, Format)>, p: (RowNum, ColNum))
    ensures
        -1 <= last_cover(rs, p) < rs.len(),
    decreases rs.len(),
{
    if rs.len() > 0 {
        lemma_last_cover_range(rs.drop_last(), p);
    }
}

impl Worksheet {
    /// Registers each range format in turn and gives every cell it covers the resulting style
    /// index, so the last range covering a cell decides it.
    fn apply_ranges(&mut self, styles: &mut StyleRegistry)
        requires
            room_for(old(styles)@, old(self).range_formats@.len() as int),
        ensures
            final(self).range_formats@.len() == 0,
            final(self).cells@.dom() == old(self).cells@.dom(),
            forall|q: (RowNum, ColNum)| #[trigger]
                final(self).cells@.contains_key(q) ==> {
                    let k = last_cover(old(self).range_formats@, q);
                    &&& final(self).cells@[q].0 == old(self).cells@[q].0
                    &&& k >= 0 ==> styled_as(final(styles)@, final(self).cells@[q].1, old(self).range_formats@[k].4)
                    &&& k < 0 ==> final(self).cells@[q].1 == old(self).cells@[q].1
                },
            extends(old(styles)@, final(styles)@),
            grown_by(old(styles)@, final(styles)@, old(self).range_formats@.len() as int),
            *final(self) == (Worksheet { cells: final(self).cells, range_formats: final(self).range_formats, ..*old(self) }),
    {
        let ghost orig = *self;
        let ghost s0 = styles@;
        let ps = positions_of(&self.cells);
        let mut ranges: Vec<(RowNum, ColNum, RowNum, ColNum, Format)> = Vec::new();
        std::mem::swap(&mut ranges, &mut self.range_formats);
        let ghost rs = ranges@;
        proof {
            lemma_extends_refl(s0);
            assert(rs.take(0) =~= Seq::<(RowNum, ColNum, RowNum, ColNum, Format)>::empty());
        }
        let mut k: usize = 0;
        while k < ranges.len()
            invariant
                0 <= k <= ranges.len(),
                ranges@ == rs,
                rs == orig.range_formats@,
                ps@.to_set() == orig.cells@.dom(),
                ps@.no_duplicates(),
                self.range_formats@.len() == 0,
                room_for(s0, rs.len() as int),
                extends(s0, styles@),
                grown_by(s0, styles@, k as int),
                self.cells@.dom() == orig.cells@.dom(),
                forall|q: (RowNum, ColNum)| #[trigger]
                    self.cells@.contains_key(q) ==> {
                        let kk = last_cover(rs.take(k as int), q);
                        &&& self.cells@[q].0 == orig.cells@[q].0
                        &&& kk >= 0 ==> styled_as(styles@, self.cells@[q].1, rs[kk].4)
                        &&& kk < 0 ==> self.cells@[q].1 == orig.cells@[q].1
                    },
                *self == (Worksheet { cells: self.cells, range_formats: self.range_formats, ..orig }),
            decreases ranges.len() - k,
        {
            let ghost before = styles@;
            proof {
                lemma_room_after(s0, before, k as int, rs.len() - k);
                lemma_register_step(before, rs[k as int].4, rs.len() - k);
            }
            let r = &ranges[k];
            let xf = styles.register_format(&r.4);
            proof {
                lemma_extends_trans(s0, before, styles@);
            }
            let ghost cells_k = self.cells@;
            let mut j: usize = 0;
            while j < ps.len()
                invariant
                    0 <= j <= ps.len(),
                    ps@.to_set() == orig.cells@.dom(),
                    ps@.no_duplicates(),
                    *r == rs[k as int],
                    self.range_formats@.len() == 0,
                    self.cells@.dom() == cells_k.dom(),
                    cells_k.dom() == orig.cells@.dom(),
                    forall|q: (RowNum, ColNum)| #[trigger]
                        self.cells@.contains_key(q) ==> {
                            &&& self.cells@[q].0 == cells_k[q].0
                            &&& if covers(rs[k as int], q) && exists|m: int| 0 <= m < j && ps@[m] == q {
                                self.cells@[q].1 == xf
                            } else {
                                self.cells@[q].1 == cells_k[q].1
                            }
                        },
                    *self == (Worksheet { cells: self.cells, range_formats: self.range_formats, ..orig }),
                decreases ps.len() - j,
            {
                let p = ps[j];
                assert(ps@.to_set().contains(p));
                let ghost inner_before = self.cells@;
                if r.0 <= p.0 && p.0 <= r.2 && r.1 <= p.1 && p.1 <= r.3 {
                    match self.cells.remove(&p) {
                        Some(e) => {
                            self.cells.insert(p, (e.0, xf));
                        },
                        None => {},
                    }
                }
                assert forall|q: (RowNum, ColNum)| #[trigger]
                    self.cells@.contains_key(q) implies {
                        &&& self.cells@[q].0 == cells_k[q].0
                        &&& if covers(rs[k as int], q) && exists|m: int| 0 <= m < j + 1 && ps@[m] == q {
                            self.cells@[q].1 == xf
                        } else {
                            self.cells@[q].1 == cells_k[q].1
                        }
                    } by {
                    if q == p {
                        assert(ps@[j as int] == q);
                    } else {
                        assert(inner_before.contains_key(q));
                        if exists|m: int| 0 <= m < j + 1 && ps@[m] == q {
                            let m = choose|m: int| 0 <= m < j + 1 && ps@[m] == q;
                            assert(m != j);
                            assert(exists|m: int| 0 <= m < j && ps@[m] == q);
                        }
                    }
                }
                assert(self.cells@.dom() =~= cells_k.dom());
                j += 1;
            }
            assert forall|q: (RowNum, ColNum)| #[trigger]
                self.cells@.contains_key(q) implies {
                    let kk = last_cover(rs.take(k + 1), q);
                    &&& self.cells@[q].0 == orig.cells@[q].0
                    &&& kk >= 0 ==> styled_as(styles@, self.cells@[q].1, rs[kk].4)
                    &&& kk < 0 ==> self.cells@[q].1 == orig.cells@[q].1
                } by {
                lemma_last_cover_step(rs, k as int, q);
                assert(cells_k.contains_key(q));
                assert(ps@.to_set().contains(q));
                let m = choose|m: int| 0 <= m < ps@.len() && ps@[m] == q;
                assert(exists|m: int| 0 <= m < ps@.len() && ps@[m] == q);
                if !covers(rs[k as int], q) {
                    let kk = last_cover(rs.take(k as int), q);
                    if kk >= 0 {
                        lemma_styled_as_extends(before, styles@, self.cells@[q].1, rs[kk].4);
                    }
                }
            }
            k += 1;
        }
        assert(rs.take(rs.len() as int) =~= rs);
    }
}

/// `t` is the string at index `i` of `strings`.
pub open spec fn shared_at(strings: Seq<Seq<char>>, i: u32, t: Seq<char>) -> bool {
    0 <= i < strings.len() && strings[i as int] == t
}

/// How sharing strings leaves a cell's content: an inline string becomes the index of an
/// equal shared string, every other content stays.
pub open spec fn shared_content(before: CellTypeV, after: CellTypeV, strings: Seq<Seq<char>>) -> bool {
    match before {
        CellTypeV::InlineString(t) => after matches CellTypeV::SharedString(i) && shared_at(strings, i, t),
        _ => after == before,
    }
}

proof fn lemma_shared_content_grows(before: CellTypeV, after: CellTypeV, a: Seq<Seq<char>>, b: Seq<Seq<char>>)
    requires
        shared_content(before, after, a),
        a.len() <= b.len(),
        forall|j: int| 0 <= j < a.len() ==> #[trigger] b[j] == a[j],
    ensures
        shared_content(before, after, b),
{
}

impl Worksheet {
    /// Moves every inline string into the shared-string table, each cell keeping the index of
    /// its string.
    fn share_strings(&mut self, sst: &mut SharedStringTable)
        requires
            old(sst).wf(),
            old(sst).strings().len() + old(self).cells@.dom().len() < u32::MAX,
            forall|k: int|
                0 <= k < old(sst).counts().len() ==> #[trigger] old(sst).counts()[k] + old(self).cells@.dom().len()
                    < u32::MAX,
        ensures
            final(sst).wf(),
            final(self).cells@.dom() == old(self).cells@.dom(),
            old(sst).strings().len() <= final(sst).strings().len(),
            forall|j: int| 0 <= j < old(sst).strings().len() ==> #[trigger] final(sst).strings()[j] == old(sst).strings()[j],
            forall|q: (RowNum, ColNum)| #[trigger]
                final(self).cells@.contains_key(q) ==> {
                    &&& final(self).cells@[q].1 == old(self).cells@[q].1
                    &&& shared_content(
                        cell_type_view(old(self).cells@[q].0),
                        cell_type_view(final(self).cells@[q].0),
                        final(sst).strings(),
                    )
                },
            *final(self) == (Worksheet { cells: final(self).cells, ..*old(self) }),
    {
        let ghost orig = *self;
        let ghost strings0 = sst.strings();
        let ps = positions_of(&self.cells);
        let n = ps.len();
        let mut i: usize = 0;
        while i < n
            invariant
                0 <= i <= n,
                n == ps@.len(),
                ps@.to_set() == orig.cells@.dom(),
                ps@.len() == orig.cells@.dom().len(),
                ps@.no_duplicates(),
                sst.wf(),
                sst.strings().len() + (n - i) < u32::MAX,
                forall|k: int| 0 <= k < sst.counts().len() ==> #[trigger] sst.counts()[k] + (n - i) < u32::MAX,
                strings0.len() <= sst.strings().len(),
                forall|j: int| 0 <= j < strings0.len() ==> #[trigger] sst.strings()[j] == strings0[j],
                self.cells@.dom() == orig.cells@.dom(),
                forall|q: (RowNum, ColNum)| #[trigger]
                    self.cells@.contains_key(q) ==> {
                        &&& self.cells@[q].1 == orig.cells@[q].1
                        &&& (exists|m: int| 0 <= m < i && ps@[m] == q) ==> shared_content(
                            cell_type_view(orig.cells@[q].0),
                            cell_type_view(self.cells@[q].0),
                            sst.strings(),
                        )
                        &&& !(exists|m: int| 0 <= m < i && ps@[m] == q) ==> self.cells@[q].0 == orig.cells@[q].0
                    },
                *self == (Worksheet { cells: self.cells, ..orig }),
            decreases n - i,
        {
            let p = ps[i];
            assert(ps@.to_set().contains(p));
            let ghost strings_before = sst.strings();
            let ghost cells_before = self.cells@;
            assert(!(exists|m: int| 0 <= m < i && ps@[m] == p)) by {
                if exists|m: int| 0 <= m < i && ps@[m] == p {
                    let m = choose|m: int| 0 <= m < i && ps@[m] == p;
                    assert(ps@[m] == ps@[i as int]);
                }
            }
            let entry = self.cells.remove(&p);
            match entry {
                Some((CellType::InlineString(t), xf)) => {
                    proof {
                        sst.lemma_counts_len();
                        crate::shared_strings::lemma_last_index_hit(sst.strings(), t@);
                    }
                    let idx = sst.intern(t.as_str());
                    self.cells.insert(p, (CellType::SharedString(idx), xf));
                },
                Some(e) => {
                    self.cells.insert(p, e);
                },
                None => {},
            }
            assert(self.cells@.dom() =~= orig.cells@.dom());
            assert forall|q: (RowNum, ColNum)| #[trigger]
                self.cells@.contains_key(q) implies {
                    &&& self.cells@[q].1 == orig.cells@[q].1
                    &&& (exists|m: int| 0 <= m < i + 1 && ps@[m] == q) ==> shared_content(
                        cell_type_view(orig.cells@[q].0),
                        cell_type_view(self.cells@[q].0),
                        sst.strings(),
                    )
                    &&& !(exists|m: int| 0 <= m < i + 1 && ps@[m] == q) ==> self.cells@[q].0 == orig.cells@[q].0
                } by {
                if q == p {
                    assert(ps@[i as int] == q);
                } else {
                    assert(cells_before.contains_key(q));
                    if exists|m: int| 0 <= m < i + 1 && ps@[m] == q {
                        let m = choose|m: int| 0 <= m < i + 1 && ps@[m] == q;
                        assert(m != i);
                        assert(exists|m: int| 0 <= m < i && ps@[m] == q);
                        lemma_shared_content_grows(
                            cell_type_view(orig.cells@[q].0),
                            cell_type_view(self.cells@[q].0),
                            strings_before,
                            sst.strings(),
                        );
                    }
                }
            }
            i += 1;
        }
        assert forall|q: (RowNum, ColNum)| #[trigger] self.cells@.contains_key(q) implies exists|m: int|
            0 <= m < n && ps@[m] == q by {
            assert(ps@.to_set().contains(q));
        }
    }
}

impl Worksheet {
    /// Gives every date-time cell whose style index is 0 the index of the date format.
    fn date_defaults(&mut self, styles: &mut StyleRegistry)
        requires
            room_for(old(styles)@, old(self).cells@.dom().len() as int),
        ensures
            final(self).cells@.dom() == old(self).cells@.dom(),
            forall|q: (RowNum, ColNum)| #[trigger]
                final(self).cells@.contains_key(q) ==> {
                    &&& final(self).cells@[q].0 == old(self).cells@[q].0
                    &&& if cell_type_view(old(self).cells@[q].0) is DateTime && old(self).cells@[q].1 == 0 {
                        exists|f: Format| is_date_format(f) && #[trigger] styled_as(final(styles)@, final(self).cells@[q].1, f)
                    } else {
                        final(self).cells@[q].1 == old(self).cells@[q].1
                    }
                },
            extends(old(styles)@, final(styles)@),
            grown_by(old(styles)@, final(styles)@, old(self).cells@.dom().len() as int),
            *final(self) == (Worksheet { cells: final(self).cells, ..*old(self) }),
    {
        let ghost orig = *self;
        let ghost s0 = styles@;
        let ps = positions_of(&self.cells);
        let n = ps.len();
        let mut date = Format::new();
        date.num_format = to_string("yyyy-mm-dd");
        assert(is_date_format(date));
        proof {
            lemma_extends_refl(s0);
        }
        let mut i: usize = 0;
        while i < n
            invariant
                0 <= i <= n,
                n == ps@.len(),
                ps@.to_set() == orig.cells@.dom(),
                ps@.len() == orig.cells@.dom().len(),
                ps@.no_duplicates(),
                is_date_format(date),
                room_for(s0, n as int),
                extends(s0, styles@),
                grown_by(s0, styles@, i as int),
                self.cells@.dom() == orig.cells@.dom(),
                forall|q: (RowNum, ColNum)| #[trigger]
                    self.cells@.contains_key(q) ==> {
                        &&& self.cells@[q].0 == orig.cells@[q].0
                        &&& if (exists|m: int| 0 <= m < i && ps@[m] == q) && cell_type_view(orig.cells@[q].0) is DateTime
                            && orig.cells@[q].1 == 0 {
                            exists|f: Format| is_date_format(f) && #[trigger] styled_as(styles@, self.cells@[q].1, f)
                        } else {
                            self.cells@[q].1 == orig.cells@[q].1
                        }
                    },
                *self == (Worksheet { cells: self.cells, ..orig }),
            decreases n - i,
        {
            let p = ps[i];
            assert(ps@.to_set().contains(p));
            let ghost before = styles@;
            let ghost cells_before = self.cells@;
            assert(!(exists|m: int| 0 <= m < i && ps@[m] == p)) by {
                if exists|m: int| 0 <= m < i && ps@[m] == p {
                    let m = choose|m: int| 0 <= m < i && ps@[m] == p;
                    assert(ps@[m] == ps@[i as int]);
                }
            }
            proof {
                lemma_room_after(s0, before, i as int, n - i);
                lemma_register_step(before, date, n - i);
            }
            let entry = self.cells.remove(&p);
            match entry {
                Some((CellType::DateTime(t), 0)) => {
                    let xf = styles.register_format(&date);
                    self.cells.insert(p, (CellType::DateTime(t), xf));
                    assert(styled_as(styles@, xf, date));
                },
                Some(e) => {
                    self.cells.insert(p, e);
                },
                None => {},
            }
            proof {
                if styles@ != before {
                    lemma_extends_trans(s0, before, styles@);
                }
            }
            assert(self.cells@.dom() =~= orig.cells@.dom());
            assert forall|q: (RowNum, ColNum)| #[trigger]
                self.cells@.contains_key(q) implies {
                    &&& self.cells@[q].0 == orig.cells@[q].0
                    &&& if (exists|m: int| 0 <= m < i + 1 && ps@[m] == q) && cell_type_view(orig.cells@[q].0) is DateTime
                        && orig.cells@[q].1 == 0 {
                        exists|f: Format| is_date_format(f) && #[trigger] styled_as(styles@, self.cells@[q].1, f)
                    } else {
                        self.cells@[q].1 == orig.cells@[q].1
                    }
                } by {
                if q == p {
                    assert(ps@[i as int] == q);
                    if cell_type_view(orig.cells@[q].0) is DateTime && orig.cells@[q].1 == 0 {
                        assert(is_date_format(date) && styled_as(styles@, self.cells@[q].1, date));
                    }
                } else {
                    assert(cells_before.contains_key(q));
                    if (exists|m: int| 0 <= m < i + 1 && ps@[m] == q) && cell_type_view(orig.cells@[q].0) is DateTime
                        && orig.cells@[q].1 == 0 {
                        let m = choose|m: int| 0 <= m < i + 1 && ps@[m] == q;
                        assert(m != i);
                        assert(exists|m: int| 0 <= m < i && ps@[m] == q);
                        let f = choose|f: Format| is_date_format(f) && #[trigger] styled_as(before, self.cells@[q].1, f);
                        lemma_styled_as_extends(before, styles@, self.cells@[q].1, f);
                    } else if exists|m: int| 0 <= m < i + 1 && ps@[m] == q {
                        let m = choose|m: int| 0 <= m < i + 1 && ps@[m] == q;
                        assert(m != i);
                    }
                }
            }
            i += 1;
        }
        assert forall|q: (RowNum, ColNum)| #[trigger] self.cells@.contains_key(q) implies exists|m: int|
            0 <= m < n && ps@[m] == q by {
            assert(ps@.to_set().contains(q));
        }
    }
}

proof fn lemma_room_mono(r: RegistryView, n: int, m: int)
    requires
        room_for(r, n),
        0 <= m <= n,
    ensures
        room_for(r, m),
{
}

impl Worksheet {
    /// Makes the sheet ready for saving. Each waiting cell format, then each range format in
    /// the order they were set, is registered in `styles` and its index given to the cells it
    /// applies to (a cell that only had a format becomes an empty cell); every inline string
    /// moves into `sst`; and a date-time cell left with style index 0 gets the index of the
    /// `yyyy-mm-dd` format.
    pub fn finalize(&mut self, sst: &mut SharedStringTable, styles: &mut StyleRegistry)
        requires
            room_for(old(styles)@, registration_budget(*old(self))),
            old(sst).wf(),
            old(sst).strings().len() + old(self).cells@.dom().len() + old(self).pending_formats@.dom().len() < u32::MAX,
            forall|k: int|
                0 <= k < old(sst).counts().len() ==> #[trigger] old(sst).counts()[k] + old(self).cells@.dom().len()
                    + old(self).pending_formats@.dom().len() < u32::MAX,
        ensures
            final(self).pending_formats@ == Map::<(RowNum, ColNum), Format>::empty(),
            final(self).range_formats@.len() == 0,
            final(self).cells@.dom() == old(self).cells@.dom().union(old(self).pending_formats@.dom()),
            forall|q: (RowNum, ColNum)| #[trigger]
                final(self).cells@.contains_key(q) ==> finalized_cell(
                    *old(self),
                    final(styles)@,
                    final(sst).strings(),
                    q,
                    cells_view(final(self).cells@)[q],
                ),
            extends(old(styles)@, final(styles)@),
            final(sst).wf(),
            old(sst).strings().len() <= final(sst).strings().len(),
            forall|j: int| 0 <= j < old(sst).strings().len() ==> #[trigger] final(sst).strings()[j] == old(sst).strings()[j],
            *final(self) == (Worksheet {
                cells: final(self).cells,
                pending_formats: final(self).pending_formats,
                range_formats: final(self).range_formats,
                ..*old(self)
            }),
    {
        let ghost w0 = *self;
        let ghost s0 = styles@;
        let ghost np = w0.pending_formats@.dom().len() as int;
        let ghost nr = w0.range_formats@.len() as int;
        let ghost budget = registration_budget(w0);
        proof {
            lemma_room_mono(s0, budget, np);
        }
        self.apply_pending(styles);
        let ghost w1 = *self;
        let ghost s1 = styles@;
        proof {
            vstd::set_lib::lemma_len_union(w0.cells@.dom(), w0.pending_formats@.dom());
            lemma_room_after(s0, s1, np, budget - np);
            lemma_room_mono(s1, budget - np, nr);
        }
        self.apply_ranges(styles);
        let ghost w2 = *self;
        let ghost s2 = styles@;
        proof {
            lemma_room_after(s1, s2, nr, budget - np - nr);
        }
        self.share_strings(sst);
        let ghost w3 = *self;
        proof {
            lemma_room_mono(s2, budget - np - nr, w3.cells@.dom().len() as int);
        }
        self.date_defaults(styles);
        let ghost s4 = styles@;
        proof {
            lemma_extends_trans(s0, s1, s2);
            lemma_extends_trans(s0, s2, s4);
            lemma_extends_trans(s1, s2, s4);
        }
        assert forall|q: (RowNum, ColNum)| #[trigger] self.cells@.contains_key(q) implies finalized_cell(
            w0,
            s4,
            sst.strings(),
            q,
            cells_view(self.cells@)[q],
        ) by {
            assert(w3.cells@.contains_key(q) && w2.cells@.contains_key(q) && w1.cells@.contains_key(q));
            let c0 = content_before(w0, q);
            assert(cell_type_view(w1.cells@[q].0) == c0);
            assert(w2.cells@[q].0 == w1.cells@[q].0);
            let x2 = w2.cells@[q].1;
            let k = last_cover(w0.range_formats@, q);
            lemma_last_cover_range(w0.range_formats@, q);
            if k >= 0 {
                lemma_styled_as_extends(s2, s4, x2, w0.range_formats@[k].4);
            } else if w0.pending_formats@.contains_key(q) {
                lemma_styled_as_extends(s1, s4, x2, w0.pending_formats@[q]);
            } else {
                assert(w0.cells@.contains_key(q));
            }
            assert(style_after_formats(w0, s4, q, x2));
            assert(w3.cells@[q].1 == x2);
            if c0 is DateTime {
                assert(cell_type_view(w3.cells@[q].0) is DateTime);
            } else {
                assert(!(cell_type_view(w3.cells@[q].0) is DateTime));
            }
        }
    }
}

} // verus!
