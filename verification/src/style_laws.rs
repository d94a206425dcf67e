//! What registering formats promises across calls: repeating a registration changes nothing,
//! the default format is style 0, every index points at a record describing its format, and
//! registration only ever appends.

use vstd::prelude::*;

use crate::format::{border_code, pattern_code, underline_code, Format};
use crate::style_parser::ParsedStyles;
use crate::style_registry::{
    default_font, default_xf, first_code_index, format_alignment, format_border, format_fill,
    format_font, initial_registry, last_index, lemma_intern_twice, lemma_last_index, no_fill,
    spec_ensure_cell_style, spec_intern, spec_intern_num_format, spec_register_format, style_index,
    RegistryView, XfRecord, highest_fmt_id, num_format_views, spec_import_parsed,
};

verus! {

/// No entry before the first match carries the code.
proof fn lemma_first_code_none(nf: Seq<(u16, Seq<char>)>, code: Seq<char>)
    ensures
        -1 <= first_code_index(nf, code) < nf.len(),
        first_code_index(nf, code) >= 0 ==> nf[first_code_index(nf, code)].1 == code,
        first_code_index(nf, code) < 0 ==> forall|k: int| 0 <= k < nf.len() ==> #[trigger] nf[k].1 != code,
    decreases nf.len(),
{
    if nf.len() > 0 && nf[0].1 != code {
        let t = nf.drop_first();
        lemma_first_code_none(t, code);
        if first_code_index(nf, code) < 0 {
            assert forall|k: int| 0 <= k < nf.len() implies #[trigger] nf[k].1 != code by {
                if k > 0 {
                    assert(nf[k] == t[k - 1]);
                }
            }
        }
    }
}

/// The first match in a sequence that gained one entry at its end.
proof fn lemma_first_code_push(nf: Seq<(u16, Seq<char>)>, e: (u16, Seq<char>), code: Seq<char>)
    requires
        first_code_index(nf, code) < 0,
        e.1 == code,
    ensures
        first_code_index(nf.push(e), code) == nf.len(),
    decreases nf.len(),
{
    if nf.len() > 0 {
        let t = nf.drop_first();
        assert(nf.push(e).drop_first() =~= t.push(e));
        lemma_first_code_push(t, e, code);
    } else {
        assert(nf.push(e)[0] == e);
    }
}

/// Interning a number-format code a second time, in a registry whose number formats are those
/// the first interning left, changes nothing and gives the same id.
proof fn lemma_num_format_twice(r: RegistryView, s: RegistryView, code: Seq<char>)
    requires
        s.num_formats == spec_intern_num_format(r, code).0.num_formats,
        s.next_custom_num_fmt_id == spec_intern_num_format(r, code).0.next_custom_num_fmt_id,
    ensures
        spec_intern_num_format(s, code) == (s, spec_intern_num_format(r, code).1),
{
    if !(code.len() == 0 || code == "General"@) {
        let k = first_code_index(r.num_formats, code);
        if k < 0 {
            lemma_first_code_push(
                r.num_formats,
                (r.next_custom_num_fmt_id, code),
                code,
            );
        }
    }
}

/// Registering a named cell style a second time, in a registry whose cell styles are those the
/// first registration left, changes nothing and gives the same xfId.
proof fn lemma_cell_style_twice(
    r: RegistryView,
    s: RegistryView,
    name: Seq<char>,
    font_id: usize,
    fill_id: usize,
    border_id: usize,
    num_fmt_id: u16,
)
    requires
        s.cell_styles == spec_ensure_cell_style(r, name, font_id, fill_id, border_id, num_fmt_id).0.cell_styles,
        s.cell_style_xfs == spec_ensure_cell_style(r, name, font_id, fill_id, border_id, num_fmt_id).0.cell_style_xfs,
    ensures
        spec_ensure_cell_style(s, name, font_id, fill_id, border_id, num_fmt_id) == (
            s,
            spec_ensure_cell_style(r, name, font_id, fill_id, border_id, num_fmt_id).1,
        ),
{
    let k = style_index(r.cell_styles, name);
    if k < 0 {
        let t = s.cell_styles;
        assert(t.last().0 == name);
        assert(style_index(t, name) == t.len() - 1);
    }
}

/// Registering the same format twice in a row: the second registration leaves the registry as
/// the first left it and gives the same index.
pub proof fn lemma_register_format_twice(r: RegistryView, f: Format)
    ensures
        spec_register_format(spec_register_format(r, f).0, f) == spec_register_format(r, f),
{
    let (r4, idx) = spec_register_format(r, f);
    let (fonts, font_id) = spec_intern(r.fonts, format_font(f));
    let (fills, fill_id) = spec_intern(r.fills, format_fill(f));
    let (borders, border_id) = spec_intern(r.borders, format_border(f));
    lemma_intern_twice(r.fonts, format_font(f));
    lemma_intern_twice(r.fills, format_fill(f));
    lemma_intern_twice(r.borders, format_border(f));
    let r1 = RegistryView { fonts, fills, borders, ..r };
    let (r2, num_fmt_id) = spec_intern_num_format(r1, f.num_format@);
    assert(r4.fonts == fonts && r4.fills == fills && r4.borders == borders);
    let s1 = RegistryView { fonts: r4.fonts, fills: r4.fills, borders: r4.borders, ..r4 };
    assert(s1 == r4);
    lemma_num_format_twice(r1, r4, f.num_format@);
    let (r3, xf_id) = match f.cell_style {
        Some(name) => spec_ensure_cell_style(
            r2,
            name@,
            font_id as usize,
            fill_id as usize,
            border_id as usize,
            num_fmt_id,
        ),
        None => (r2, 0usize),
    };
    if let Some(name) = f.cell_style {
        lemma_cell_style_twice(
            r2,
            r4,
            name@,
            font_id as usize,
            fill_id as usize,
            border_id as usize,
            num_fmt_id,
        );
    }
    let xf = XfRecord {
        font_id: font_id as usize,
        fill_id: fill_id as usize,
        border_id: border_id as usize,
        num_fmt_id,
        alignment: format_alignment(f),
        locked: f.locked,
        formula_hidden: f.formula_hidden,
        quote_prefix: f.quote_prefix,
    };
    lemma_last_index(r3.xf_records, xf);
    if last_index(r3.xf_records, xf) < 0 {
        let t = r3.xf_records.push(xf);
        assert(t.last() == xf);
        assert(last_index(t, xf) == r3.xf_records.len());
    }
}

/// The default format, registered in a fresh registry, is style 0 and adds nothing.
pub proof fn lemma_default_format_is_zero(f: Format)
    requires
        f.is_default(),
    ensures
        spec_register_format(initial_registry(), f) == (initial_registry(), 0u32),
{
    let r = initial_registry();
    assert(format_font(f) == default_font());
    assert(format_fill(f) == no_fill());
    assert(r.fonts.last() == default_font());
    assert(last_index(r.fonts, default_font()) == 0);
    assert(r.fills.last() != no_fill());
    assert(r.fills.drop_last() =~= seq![no_fill()]);
    assert(last_index(r.fills.drop_last(), no_fill()) == 0);
    assert(last_index(r.fills, no_fill()) == 0);
    assert(last_index(r.borders, format_border(f)) == 0);
    assert(format_alignment(f) == None::<crate::style_registry::AlignmentData>);
    assert(last_index(r.xf_records, default_xf()) == 0);
}

/// Every table of `r` is kept, entry for entry, at the front of the same table of `s`.
pub open spec fn extends(r: RegistryView, s: RegistryView) -> bool {
    &&& r.fonts.len() <= s.fonts.len()
    &&& forall|k: int| 0 <= k < r.fonts.len() ==> #[trigger] s.fonts[k] == r.fonts[k]
    &&& r.fills.len() <= s.fills.len()
    &&& forall|k: int| 0 <= k < r.fills.len() ==> #[trigger] s.fills[k] == r.fills[k]
    &&& r.borders.len() <= s.borders.len()
    &&& forall|k: int| 0 <= k < r.borders.len() ==> #[trigger] s.borders[k] == r.borders[k]
    &&& r.num_formats.len() <= s.num_formats.len()
    &&& forall|k: int| 0 <= k < r.num_formats.len() ==> #[trigger] s.num_formats[k] == r.num_formats[k]
    &&& r.xf_records.len() <= s.xf_records.len()
    &&& forall|k: int| 0 <= k < r.xf_records.len() ==> #[trigger] s.xf_records[k] == r.xf_records[k]
    &&& r.xf_style_ids.len() <= s.xf_style_ids.len()
    &&& forall|k: int| 0 <= k < r.xf_style_ids.len() ==> #[trigger] s.xf_style_ids[k] == r.xf_style_ids[k]
    &&& r.cell_style_xfs.len() <= s.cell_style_xfs.len()
    &&& forall|k: int| 0 <= k < r.cell_style_xfs.len() ==> #[trigger] s.cell_style_xfs[k] == r.cell_style_xfs[k]
    &&& r.cell_styles.len() <= s.cell_styles.len()
    &&& forall|k: int| 0 <= k < r.cell_styles.len() ==> #[trigger] s.cell_styles[k] == r.cell_styles[k]
    &&& s.dxf_formats == r.dxf_formats
}

/// Each table of `r` can take `n` more entries before its indices overflow the integer types
/// that the xf records and the returned index use.
pub open spec fn has_room(r: RegistryView, n: int) -> bool {
    &&& r.fonts.len() + n <= usize::MAX
    &&& r.fills.len() + n <= usize::MAX
    &&& r.borders.len() + n <= usize::MAX
    &&& r.cell_style_xfs.len() + n <= usize::MAX
    &&& r.xf_records.len() + n <= u32::MAX
}

/// What the index that registering `f` gives points at: an xf record whose font, fill and border
/// are those `f` asks for, whose number format is `f`'s (0 for none or `General`), and whose
/// alignment and protection flags are `f`'s. Registration only appends to the registry.
pub proof fn lemma_register_format_describes(r: RegistryView, f: Format)
    requires
        has_room(r, 1),
    ensures
        ({
            let (s, i) = spec_register_format(r, f);
            let xf = s.xf_records[i as int];
            &&& extends(r, s)
            &&& s.fonts.len() <= r.fonts.len() + 1 && s.fills.len() <= r.fills.len() + 1
            &&& s.borders.len() <= r.borders.len() + 1 && s.xf_records.len() <= r.xf_records.len() + 1
            &&& s.cell_style_xfs.len() <= r.cell_style_xfs.len() + 1
            &&& 0 <= i < s.xf_records.len()
            &&& s.xf_style_ids.len() - r.xf_style_ids.len() == s.xf_records.len() - r.xf_records.len()
            &&& 0 <= xf.font_id < s.fonts.len() && s.fonts[xf.font_id as int] == format_font(f)
            &&& 0 <= xf.fill_id < s.fills.len() && s.fills[xf.fill_id as int] == format_fill(f)
            &&& 0 <= xf.border_id < s.borders.len() && s.borders[xf.border_id as int] == format_border(f)
            &&& xf.alignment == format_alignment(f)
            &&& xf.locked == f.locked
            &&& xf.formula_hidden == f.formula_hidden
            &&& xf.quote_prefix == f.quote_prefix
            &&& (f.num_format@.len() == 0 || f.num_format@ == "General"@) ==> xf.num_fmt_id == 0
            &&& !(f.num_format@.len() == 0 || f.num_format@ == "General"@) ==> exists|k: int|
                0 <= k < s.num_formats.len() && #[trigger] s.num_formats[k] == (xf.num_fmt_id, f.num_format@)
        }),
{
    let (fonts, font_id) = spec_intern(r.fonts, format_font(f));
    let (fills, fill_id) = spec_intern(r.fills, format_fill(f));
    let (borders, border_id) = spec_intern(r.borders, format_border(f));
    lemma_intern_twice(r.fonts, format_font(f));
    lemma_intern_twice(r.fills, format_fill(f));
    lemma_intern_twice(r.borders, format_border(f));
    let r1 = RegistryView { fonts, fills, borders, ..r };
    let (r2, num_fmt_id) = spec_intern_num_format(r1, f.num_format@);
    lemma_first_code_none(r1.num_formats, f.num_format@);
    let (r3, xf_id) = match f.cell_style {
        Some(name) => spec_ensure_cell_style(
            r2,
            name@,
            font_id as usize,
            fill_id as usize,
            border_id as usize,
            num_fmt_id,
        ),
        None => (r2, 0usize),
    };
    let xf = XfRecord {
        font_id: font_id as usize,
        fill_id: fill_id as usize,
        border_id: border_id as usize,
        num_fmt_id,
        alignment: format_alignment(f),
        locked: f.locked,
        formula_hidden: f.formula_hidden,
        quote_prefix: f.quote_prefix,
    };
    lemma_last_index(r3.xf_records, xf);
    let (s, i) = spec_register_format(r, f);
    assert(s.xf_records[i as int] == xf);
    if !(f.num_format@.len() == 0 || f.num_format@ == "General"@) {
        let k = first_code_index(r1.num_formats, f.num_format@);
        if k >= 0 {
            assert(s.num_formats[k] == (xf.num_fmt_id, f.num_format@));
        } else {
            let n = r1.num_formats.len() as int;
            assert(s.num_formats[n] == (xf.num_fmt_id, f.num_format@));
        }
    }
}

/// The border that registering `f` records for it has each side of `f`: its top, bottom, left
/// and right sides and its diagonal carry the codes of `f`'s own sides, and its colours are
/// `f`'s colours.
pub proof fn lemma_registered_border_sides(r: RegistryView, f: Format)
    requires
        has_room(r, 1),
    ensures
        ({
            let (s, i) = spec_register_format(r, f);
            let b = s.borders[s.xf_records[i as int].border_id as int];
            &&& b.top == border_code(f.border_top)
            &&& b.bottom == border_code(f.border_bottom)
            &&& b.left == border_code(f.border_left)
            &&& b.right == border_code(f.border_right)
            &&& b.diagonal == border_code(f.diagonal_border)
            &&& b.color_rgb == f.border_color
            &&& b.top_color == f.border_top_color
            &&& b.bottom_color == f.border_bottom_color
            &&& b.left_color == f.border_left_color
            &&& b.right_color == f.border_right_color
        }),
{
    lemma_register_format_describes(r, f);
}

/// The font that registering `f` records for it is `f`'s font, attribute by attribute.
pub proof fn lemma_registered_font(r: RegistryView, f: Format)
    requires
        has_room(r, 1),
    ensures
        ({
            let (s, i) = spec_register_format(r, f);
            let t = s.fonts[s.xf_records[i as int].font_id as int];
            &&& t.bold == f.bold
            &&& t.italic == f.italic
            &&& t.underline == underline_code(f.underline)
            &&& t.strikethrough == f.strikethrough
            &&& t.size_x100 == f.font_size_x100
            &&& t.name == f.font_name@
            &&& t.color_rgb == f.font_color
            &&& t.theme_color == f.theme_color
            &&& t.shadow == f.shadow
            &&& t.outline == f.outline
            &&& t.emboss == f.emboss
            &&& t.engrave == f.engrave
        }),
{
    lemma_register_format_describes(r, f);
}

/// The fill that registering `f` records for it: `f`'s gradient when it has one; otherwise,
/// under a background colour, that background with `f`'s pattern (solid when it sets none) and
/// `f`'s foreground (the background when it sets none); otherwise `f`'s pattern and foreground
/// alone, or no fill at all when it sets no pattern.
pub proof fn lemma_registered_fill(r: RegistryView, f: Format)
    requires
        has_room(r, 1),
    ensures
        ({
            let (s, i) = spec_register_format(r, f);
            let t = s.fills[s.xf_records[i as int].fill_id as int];
            &&& f.gradient matches Some(g) ==> t.gradient == Some((g.0, g.1@)) && t.pattern == 0
            &&& f.gradient is None && f.bg_color is Some ==> {
                &&& t.gradient is None
                &&& t.bg_rgb == f.bg_color
                &&& t.pattern == if pattern_code(f.pattern) == 0 {
                    1
                } else {
                    pattern_code(f.pattern)
                }
                &&& t.fg_rgb == if f.fg_color is Some {
                    f.fg_color
                } else {
                    f.bg_color
                }
            }
            &&& f.gradient is None && f.bg_color is None ==> {
                &&& t.gradient is None
                &&& t.bg_rgb is None
                &&& t.pattern == pattern_code(f.pattern)
                &&& pattern_code(f.pattern) != 0 ==> t.fg_rgb == f.fg_color
            }
        }),
{
    lemma_register_format_describes(r, f);
}

/// The alignment of the xf record that registering `f` gives is `f`'s, field by field, and there
/// is one exactly when `f` sets any.
pub proof fn lemma_registered_alignment(r: RegistryView, f: Format)
    requires
        has_room(r, 1),
    ensures
        ({
            let (s, i) = spec_register_format(r, f);
            let xf = s.xf_records[i as int];
            &&& xf.alignment is Some <==> f.spec_has_alignment()
            &&& xf.alignment matches Some(a) ==> {
                &&& a.horizontal == f.h_align
                &&& a.vertical == f.v_align
                &&& a.wrap_text == f.wrap_text
                &&& a.shrink == f.shrink
                &&& a.indent == f.indent
                &&& a.rotation == f.rotation
            }
        }),
{
    lemma_register_format_describes(r, f);
}

/// Two formats registered one after the other share an xf index only when they ask for the same
/// font, fill, border, alignment and protection flags: formats that differ in any of these get
/// different indices.
pub proof fn lemma_register_distinct(r: RegistryView, f: Format, g: Format)
    requires
        has_room(r, 2),
    ensures
        ({
            let (r1, i) = spec_register_format(r, f);
            let (r2, j) = spec_register_format(r1, g);
            i == j ==> {
                &&& format_font(f) == format_font(g)
                &&& format_fill(f) == format_fill(g)
                &&& format_border(f) == format_border(g)
                &&& format_alignment(f) == format_alignment(g)
                &&& f.locked == g.locked
                &&& f.formula_hidden == g.formula_hidden
                &&& f.quote_prefix == g.quote_prefix
            }
        }),
{
    let (r1, i) = spec_register_format(r, f);
    let (r2, j) = spec_register_format(r1, g);
    lemma_register_format_describes(r, f);
    lemma_register_format_describes(r1, g);
    if i == j {
        let xf = r1.xf_records[i as int];
        assert(r2.xf_records[i as int] == xf);
        assert(r2.fonts[xf.font_id as int] == r1.fonts[xf.font_id as int]);
        assert(r2.fills[xf.fill_id as int] == r1.fills[xf.fill_id as int]);
        assert(r2.borders[xf.border_id as int] == r1.borders[xf.border_id as int]);
    }
}

/// The references inside a registry point at entries that exist: each xf record's font, fill
/// and border, each cellStyleXfs record's too, each xf's named style, and each named style's
/// cellStyleXfs record.
pub open spec fn references_valid(r: RegistryView) -> bool {
    &&& r.cell_style_xfs.len() > 0
    &&& r.xf_style_ids.len() == r.xf_records.len()
    &&& forall|k: int| 0 <= k < r.xf_records.len() ==> {
        &&& #[trigger] r.xf_records[k].font_id < r.fonts.len()
        &&& r.xf_records[k].fill_id < r.fills.len()
        &&& r.xf_records[k].border_id < r.borders.len()
    }
    &&& forall|k: int| 0 <= k < r.cell_style_xfs.len() ==> {
        &&& #[trigger] r.cell_style_xfs[k].font_id < r.fonts.len()
        &&& r.cell_style_xfs[k].fill_id < r.fills.len()
        &&& r.cell_style_xfs[k].border_id < r.borders.len()
    }
    &&& forall|k: int| 0 <= k < r.xf_style_ids.len() ==> #[trigger] r.xf_style_ids[k] < r.cell_style_xfs.len()
    &&& forall|k: int| 0 <= k < r.cell_styles.len() ==> #[trigger] r.cell_styles[k].1 < r.cell_style_xfs.len()
}

/// `style_index` points at an entry with the name, or at nothing.
proof fn lemma_style_index(cs: Seq<(Seq<char>, usize, u32)>, name: Seq<char>)
    ensures
        -1 <= style_index(cs, name) < cs.len(),
        style_index(cs, name) >= 0 ==> cs[style_index(cs, name)].0 == name,
    decreases cs.len(),
{
    if cs.len() > 0 && cs.last().0 != name {
        lemma_style_index(cs.drop_last(), name);
    }
}

/// A fresh registry has valid references.
pub proof fn lemma_initial_references_valid()
    ensures
        references_valid(initial_registry()),
{
    let r = initial_registry();
    assert(r.xf_records[0] == default_xf());
    assert(r.cell_style_xfs[0] == default_xf());
    assert(r.cell_styles[0].1 == 0usize);
}

/// Registering a format keeps every reference in the registry valid.
pub proof fn lemma_register_keeps_references_valid(r: RegistryView, f: Format)
    requires
        references_valid(r),
        has_room(r, 1),
    ensures
        references_valid(spec_register_format(r, f).0),
{
    lemma_register_format_describes(r, f);
    let (s, i) = spec_register_format(r, f);
    let (fonts, font_id) = spec_intern(r.fonts, format_font(f));
    let (fills, fill_id) = spec_intern(r.fills, format_fill(f));
    let (borders, border_id) = spec_intern(r.borders, format_border(f));
    lemma_intern_twice(r.fonts, format_font(f));
    lemma_intern_twice(r.fills, format_fill(f));
    lemma_intern_twice(r.borders, format_border(f));
    let r1 = RegistryView { fonts, fills, borders, ..r };
    let (r2, num_fmt_id) = spec_intern_num_format(r1, f.num_format@);
    let (r3, xf_id) = match f.cell_style {
        Some(name) => spec_ensure_cell_style(
            r2,
            name@,
            font_id as usize,
            fill_id as usize,
            border_id as usize,
            num_fmt_id,
        ),
        None => (r2, 0usize),
    };
    if let Some(name) = f.cell_style {
        lemma_style_index(r2.cell_styles, name@);
    }
    assert(xf_id < r3.cell_style_xfs.len());
    assert forall|k: int| 0 <= k < s.cell_style_xfs.len() implies {
        &&& #[trigger] s.cell_style_xfs[k].font_id < s.fonts.len()
        &&& s.cell_style_xfs[k].fill_id < s.fills.len()
        &&& s.cell_style_xfs[k].border_id < s.borders.len()
    } by {
        if k < r.cell_style_xfs.len() {
            assert(s.cell_style_xfs[k] == r.cell_style_xfs[k]);
            assert(r.cell_style_xfs[k].font_id < r.fonts.len());
        } else {
            assert(s.cell_style_xfs[k].font_id == font_id);
            assert(s.cell_style_xfs[k].fill_id == fill_id);
            assert(s.cell_style_xfs[k].border_id == border_id);
        }
    }
    assert forall|k: int| 0 <= k < s.xf_records.len() implies {
        &&& #[trigger] s.xf_records[k].font_id < s.fonts.len()
        &&& s.xf_records[k].fill_id < s.fills.len()
        &&& s.xf_records[k].border_id < s.borders.len()
    } by {
        if k < r.xf_records.len() {
            assert(s.xf_records[k] == r.xf_records[k]);
            assert(r.xf_records[k].font_id < r.fonts.len());
        } else {
            assert(s.xf_records[k].font_id == font_id);
            assert(s.xf_records[k].fill_id == fill_id);
            assert(s.xf_records[k].border_id == border_id);
        }
    }
    assert forall|k: int| 0 <= k < s.xf_style_ids.len() implies #[trigger] s.xf_style_ids[k]
        < s.cell_style_xfs.len() by {
        if k < r.xf_style_ids.len() {
            assert(s.xf_style_ids[k] == r.xf_style_ids[k]);
        }
    }
    assert forall|k: int| 0 <= k < s.cell_styles.len() implies #[trigger] s.cell_styles[k].1
        < s.cell_style_xfs.len() by {
        if k < r.cell_styles.len() {
            assert(s.cell_styles[k] == r.cell_styles[k]);
        }
    }
}

/// An element that occurs in a table is found there by interning, which then adds nothing.
proof fn lemma_intern_known<T>(s: Seq<T>, x: T)
    requires
        s.contains(x),
    ensures
        spec_intern(s, x).0 == s,
{
    lemma_last_index(s, x);
    if last_index(s, x) < 0 {
        let k = choose|k: int| 0 <= k < s.len() && s[k] == x;
        assert(s[k] != x);
    }
}

/// Registering a format whose font, fill, border and number format the registry already has
/// (whether it registered them or adopted them from a file) adds no font, fill, border or number
/// format: the existing entries are reused.
pub proof fn lemma_register_reuses_known_entries(r: RegistryView, f: Format)
    requires
        r.fonts.contains(format_font(f)),
        r.fills.contains(format_fill(f)),
        r.borders.contains(format_border(f)),
        f.num_format@.len() == 0 || f.num_format@ == "General"@ || exists|k: int|
            0 <= k < r.num_formats.len() && #[trigger] r.num_formats[k].1 == f.num_format@,
    ensures
        spec_register_format(r, f).0.fonts == r.fonts,
        spec_register_format(r, f).0.fills == r.fills,
        spec_register_format(r, f).0.borders == r.borders,
        spec_register_format(r, f).0.num_formats == r.num_formats,
        spec_register_format(r, f).0.next_custom_num_fmt_id == r.next_custom_num_fmt_id,
{
    lemma_intern_known(r.fonts, format_font(f));
    lemma_intern_known(r.fills, format_fill(f));
    lemma_intern_known(r.borders, format_border(f));
    lemma_first_code_none(r.num_formats, f.num_format@);
}

/// Every number-format id in the registry is below the next custom id it would hand out.
pub open spec fn ids_below_next(r: RegistryView) -> bool {
    forall|k: int| 0 <= k < r.num_formats.len() ==> #[trigger] r.num_formats[k].0 < r.next_custom_num_fmt_id
}

/// A fresh registry hands out ids above all it has.
pub proof fn lemma_initial_ids_below_next()
    ensures
        ids_below_next(initial_registry()),
{
}

/// The highest id is at least every id in the table.
proof fn lemma_highest_fmt_id(nf: Seq<(u16, Seq<char>)>)
    ensures
        highest_fmt_id(nf) >= 163,
        forall|k: int| 0 <= k < nf.len() ==> #[trigger] nf[k].0 <= highest_fmt_id(nf),
    decreases nf.len(),
{
    if nf.len() > 0 {
        let t = nf.drop_last();
        lemma_highest_fmt_id(t);
        assert forall|k: int| 0 <= k < nf.len() implies #[trigger] nf[k].0 <= highest_fmt_id(nf) by {
            if k < t.len() {
                assert(nf[k] == t[k]);
            }
        }
    }
}

/// Adopting a file's style table leaves the next custom id above every id the file uses, so a
/// format registered afterwards never takes an id the file already gave another format.
pub proof fn lemma_import_ids_below_next(r: RegistryView, p: ParsedStyles)
    requires
        ids_below_next(r),
        highest_fmt_id(num_format_views(p.num_formats@)) < u16::MAX,
    ensures
        ids_below_next(spec_import_parsed(r, p)),
{
    lemma_highest_fmt_id(num_format_views(p.num_formats@));
}

/// Registering a format keeps every id below the next custom id, as long as that id has not
/// reached the top of its range; a format that needs a new id gets one that no entry had.
pub proof fn lemma_register_ids_below_next(r: RegistryView, f: Format)
    requires
        ids_below_next(r),
        r.next_custom_num_fmt_id < u16::MAX,
    ensures
        ids_below_next(spec_register_format(r, f).0),
        r.next_custom_num_fmt_id <= spec_register_format(r, f).0.next_custom_num_fmt_id,
        forall|k: int| 0 <= k < r.num_formats.len() ==> #[trigger] r.num_formats[k].0
            != spec_register_format(r, f).0.next_custom_num_fmt_id - 1
            || spec_register_format(r, f).0.next_custom_num_fmt_id == r.next_custom_num_fmt_id,
{
}

} // verus!
