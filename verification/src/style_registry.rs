//! The style registry: deduplicated fonts, fills, borders, number formats and xf records.

use vstd::prelude::*;

use crate::format::{border_code, pattern_code, underline_code, Format};
use crate::style_parser::{ParsedAlignment, ParsedBorder, ParsedFill, ParsedFont, ParsedStyles};
use crate::text::{chars_of, str_eq, to_string};

verus! {

/// The index of the last element of `s` equal to `x`, or -1 when there is none.
pub open spec fn last_index<T>(s: Seq<T>, x: T) -> int
    decreases s.len(),
{
    if s.len() == 0 {
        -1
    } else if s.last() == x {
        s.len() - 1
    } else {
        last_index(s.drop_last(), x)
    }
}

/// Interning `x` into `s`: the index of its last occurrence, or `x` appended at the end.
pub open spec fn spec_intern<T>(s: Seq<T>, x: T) -> (Seq<T>, int) {
    let k = last_index(s, x);
    if k >= 0 {
        (s, k)
    } else {
        (s.push(x), s.len() as int)
    }
}

/// `last_index` points at an occurrence, or at nothing.
pub proof fn lemma_last_index<T>(s: Seq<T>, x: T)
    ensures
        -1 <= last_index(s, x) < s.len(),
        last_index(s, x) >= 0 ==> s[last_index(s, x)] == x,
        last_index(s, x) == -1 ==> forall|i: int| 0 <= i < s.len() ==> s[i] != x,
    decreases s.len(),
{
    if s.len() > 0 && s.last() != x {
        lemma_last_index(s.drop_last(), x);
        assert forall|i: int| 0 <= i < s.len() - 1 implies s[i] == s.drop_last()[i] by {}
    }
}

/// Interning the same element twice changes nothing the second time and gives the same index.
pub proof fn lemma_intern_twice<T>(s: Seq<T>, x: T)
    ensures
        spec_intern(spec_intern(s, x).0, x) == spec_intern(s, x),
        spec_intern(s, x).0[spec_intern(s, x).1] == x,
        0 <= spec_intern(s, x).1 < spec_intern(s, x).0.len(),
{
    lemma_last_index(s, x);
    if last_index(s, x) < 0 {
        let t = s.push(x);
        assert(t.drop_last() =~= s);
        assert(last_index(t, x) == s.len());
    }
}

impl Default for StyleRegistry {
    /// The registry with Excel's required default entries, as [`StyleRegistry::new`] builds it.
    fn default() -> (res: Self)
        ensures
            res@ == initial_registry(),
    {
        Self::new()
    }
}

/// Internal font data for dedup.
pub struct FontData {
    pub bold: bool,
    pub italic: bool,
    /// 0 = none, 1 = single, 2 = double.
    pub underline: u8,
    pub strikethrough: bool,
    /// Size × 100.
    pub size_x100: u32,
    pub name: String,
    pub color_rgb: Option<[u8; 3]>,
    /// (theme index, tint × 10000).
    pub theme_color: Option<(u8, i64)>,
    pub shadow: bool,
    pub outline: bool,
    pub emboss: bool,
    pub engrave: bool,
}

/// The mathematical form of [`FontData`].
pub ghost struct FontView {
    pub bold: bool,
    pub italic: bool,
    pub underline: u8,
    pub strikethrough: bool,
    pub size_x100: u32,
    pub name: Seq<char>,
    pub color_rgb: Option<[u8; 3]>,
    pub theme_color: Option<(u8, i64)>,
    pub shadow: bool,
    pub outline: bool,
    pub emboss: bool,
    pub engrave: bool,
}

impl View for FontData {
    type V = FontView;

    open spec fn view(&self) -> FontView {
        FontView {
            bold: self.bold,
            italic: self.italic,
            underline: self.underline,
            strikethrough: self.strikethrough,
            size_x100: self.size_x100,
            name: self.name@,
            color_rgb: self.color_rgb,
            theme_color: self.theme_color,
            shadow: self.shadow,
            outline: self.outline,
            emboss: self.emboss,
            engrave: self.engrave,
        }
    }
}

/// Internal gradient stop data for dedup.
#[derive(Clone, Copy)]
pub struct GradientStopData {
    /// Position × 1000.
    pub position_x1000: u32,
    pub color: [u8; 3],
}

/// Internal gradient fill data for dedup.
pub struct GradientFillData {
    /// Angle × 100.
    pub angle_x100: i64,
    pub stops: Vec<GradientStopData>,
}

/// Internal fill data for dedup.
pub struct FillData {
    /// 0 = none, 1 = solid, ...
    pub pattern: u8,
    pub fg_rgb: Option<[u8; 3]>,
    pub bg_rgb: Option<[u8; 3]>,
    pub gradient: Option<GradientFillData>,
}

/// The mathematical form of a gradient: (angle × 100, stops as (position × 1000, color)).
pub open spec fn gradient_view(g: GradientFillData) -> (i64, Seq<(u32, [u8; 3])>) {
    (g.angle_x100, g.stops@.map_values(|s: GradientStopData| (s.position_x1000, s.color)))
}

/// The mathematical form of [`FillData`].
pub ghost struct FillView {
    pub pattern: u8,
    pub fg_rgb: Option<[u8; 3]>,
    pub bg_rgb: Option<[u8; 3]>,
    pub gradient: Option<(i64, Seq<(u32, [u8; 3])>)>,
}

impl View for FillData {
    type V = FillView;

    open spec fn view(&self) -> FillView {
        FillView {
            pattern: self.pattern,
            fg_rgb: self.fg_rgb,
            bg_rgb: self.bg_rgb,
            gradient: match self.gradient {
                Some(g) => Some(gradient_view(g)),
                None => None,
            },
        }
    }
}

/// Internal border data for dedup.
#[derive(Clone, Copy)]
pub struct BorderData {
    pub top: u8,
    pub bottom: u8,
    pub left: u8,
    pub right: u8,
    pub color_rgb: Option<[u8; 3]>,
    pub top_color: Option<[u8; 3]>,
    pub bottom_color: Option<[u8; 3]>,
    pub left_color: Option<[u8; 3]>,
    pub right_color: Option<[u8; 3]>,
    pub diagonal: u8,
    /// 0 = none, 1 = up, 2 = down, 3 = both.
    pub diagonal_type: u8,
}

/// Internal alignment data.
#[derive(Clone, Copy)]
pub struct AlignmentData {
    /// 0 = general, 1 = left, 2 = center, 3 = right, 4 = fill, 5 = justify.
    pub horizontal: u8,
    /// 0 = top, 1 = center, 2 = bottom.
    pub vertical: u8,
    pub wrap_text: bool,
    pub shrink: bool,
    pub indent: u8,
    pub rotation: i16,
}

/// An xf record — references into the indexed collections.
#[derive(Clone, Copy)]
pub struct XfRecord {
    pub font_id: usize,
    pub fill_id: usize,
    pub border_id: usize,
    pub num_fmt_id: u16,
    pub alignment: Option<AlignmentData>,
    pub locked: Option<bool>,
    pub formula_hidden: bool,
    pub quote_prefix: bool,
}

/// A named cell style entry referencing a cellStyleXfs record.
pub struct CellStyleEntry {
    pub name: String,
    pub xf_id: usize,
    pub builtin_id: u32,
}

/// Differential formatting data for conditional formatting.
pub struct DxfData {
    pub font: Option<FontData>,
    pub fill: Option<FillData>,
    pub border: Option<BorderData>,
    pub num_format: Option<String>,
}

/// The mathematical form of [`DxfData`].
pub ghost struct DxfView {
    pub font: Option<FontView>,
    pub fill: Option<FillView>,
    pub border: Option<BorderData>,
    pub num_format: Option<Seq<char>>,
}

impl View for DxfData {
    type V = DxfView;

    open spec fn view(&self) -> DxfView {
        DxfView {
            font: match self.font {
                Some(f) => Some(f@),
                None => None,
            },
            fill: match self.fill {
                Some(f) => Some(f@),
                None => None,
            },
            border: self.border,
            num_format: match self.num_format {
                Some(n) => Some(n@),
                None => None,
            },
        }
    }
}

/// Centralized style registry with deduplication.
pub struct StyleRegistry {
    pub fonts: Vec<FontData>,
    pub fills: Vec<FillData>,
    pub borders: Vec<BorderData>,
    /// (id, format_code)
    pub num_formats: Vec<(u16, String)>,
    pub xf_records: Vec<XfRecord>,
    /// Parallel to `xf_records`: the xfId referencing `cell_style_xfs`.
    pub xf_style_ids: Vec<usize>,
    pub dxf_formats: Vec<DxfData>,
    pub cell_style_xfs: Vec<XfRecord>,
    pub cell_styles: Vec<CellStyleEntry>,
    /// The id the next custom number format gets.
    pub next_custom_num_fmt_id: u16,
}

/// The mathematical form of a [`StyleRegistry`].
pub ghost struct RegistryView {
    pub fonts: Seq<FontView>,
    pub fills: Seq<FillView>,
    pub borders: Seq<BorderData>,
    pub num_formats: Seq<(u16, Seq<char>)>,
    pub xf_records: Seq<XfRecord>,
    pub xf_style_ids: Seq<usize>,
    pub dxf_formats: Seq<DxfView>,
    pub cell_style_xfs: Seq<XfRecord>,
    /// (name, xf_id, builtin_id)
    pub cell_styles: Seq<(Seq<char>, usize, u32)>,
    pub next_custom_num_fmt_id: u16,
}

/// The views of number-format entries.
pub open spec fn num_format_views(v: Seq<(u16, String)>) -> Seq<(u16, Seq<char>)> {
    v.map_values(|p: (u16, String)| (p.0, p.1@))
}

impl View for StyleRegistry {
    type V = RegistryView;

    open spec fn view(&self) -> RegistryView {
        RegistryView {
            fonts: self.fonts@.map_values(|f: FontData| f@),
            fills: self.fills@.map_values(|f: FillData| f@),
            borders: self.borders@,
            num_formats: num_format_views(self.num_formats@),
            xf_records: self.xf_records@,
            xf_style_ids: self.xf_style_ids@,
            dxf_formats: self.dxf_formats@.map_values(|d: DxfData| d@),
            cell_style_xfs: self.cell_style_xfs@,
            cell_styles: self.cell_styles@.map_values(
                |c: CellStyleEntry| (c.name@, c.xf_id, c.builtin_id),
            ),
            next_custom_num_fmt_id: self.next_custom_num_fmt_id,
        }
    }
}

/// The font every workbook starts with: Calibri 11.
pub open spec fn default_font() -> FontView {
    FontView {
        bold: false,
        italic: false,
        underline: 0,
        strikethrough: false,
        size_x100: 1100,
        name: "Calibri"@,
        color_rgb: None,
        theme_color: None,
        shadow: false,
        outline: false,
        emboss: false,
        engrave: false,
    }
}

/// The empty fill.
pub open spec fn no_fill() -> FillView {
    FillView { pattern: 0, fg_rgb: None, bg_rgb: None, gradient: None }
}

/// The gray125 fill that Excel requires at index 1.
pub open spec fn gray125_fill() -> FillView {
    FillView { pattern: 17, fg_rgb: None, bg_rgb: None, gradient: None }
}

/// The border with no lines.
pub open spec fn no_border() -> BorderData {
    BorderData {
        top: 0,
        bottom: 0,
        left: 0,
        right: 0,
        color_rgb: None,
        top_color: None,
        bottom_color: None,
        left_color: None,
        right_color: None,
        diagonal: 0,
        diagonal_type: 0,
    }
}

/// The xf record of the default cell format (style 0).
pub open spec fn default_xf() -> XfRecord {
    XfRecord {
        font_id: 0,
        fill_id: 0,
        border_id: 0,
        num_fmt_id: 0,
        alignment: None,
        locked: None,
        formula_hidden: false,
        quote_prefix: false,
    }
}

/// The registry every workbook starts with.
pub open spec fn initial_registry() -> RegistryView {
    RegistryView {
        fonts: seq![default_font()],
        fills: seq![no_fill(), gray125_fill()],
        borders: seq![no_border()],
        num_formats: Seq::empty(),
        xf_records: seq![default_xf()],
        xf_style_ids: seq![0usize],
        dxf_formats: Seq::empty(),
        cell_style_xfs: seq![default_xf()],
        cell_styles: seq![("Normal"@, 0usize, 0u32)],
        next_custom_num_fmt_id: 164,
    }
}

/// The builtinId of a named cell style (0, for "Normal", when the name is not a built-in one).
pub open spec fn spec_builtin_id(name: Seq<char>) -> u32 {
    if name == "Normal"@ {
        0
    } else if name == "Comma"@ {
        3
    } else if name == "Currency"@ {
        4
    } else if name == "Percent"@ {
        5
    } else if name == "Title"@ {
        15
    } else if name == "Heading 1"@ {
        16
    } else if name == "Heading 2"@ {
        17
    } else if name == "Heading 3"@ {
        18
    } else if name == "Heading 4"@ {
        19
    } else if name == "Total"@ {
        25
    } else if name == "Good"@ {
        26
    } else if name == "Bad"@ {
        27
    } else if name == "Neutral"@ {
        28
    } else {
        0
    }
}

/// The index of the first number-format entry with the given code, or -1.
pub open spec fn first_code_index(nf: Seq<(u16, Seq<char>)>, code: Seq<char>) -> int
    decreases nf.len(),
{
    if nf.len() == 0 {
        -1
    } else if nf[0].1 == code {
        0
    } else {
        let r = first_code_index(nf.drop_first(), code);
        if r < 0 { -1 } else { r + 1 }
    }
}

/// Whether interning `code` needs a fresh custom id.
pub open spec fn needs_new_num_format(r: RegistryView, code: Seq<char>) -> bool {
    code.len() != 0 && code != "General"@ && first_code_index(r.num_formats, code) < 0
}

/// Interning a number-format code: `General` and empty are 0, a known code keeps its id, a new
/// one gets the next custom id.
pub open spec fn spec_intern_num_format(r: RegistryView, code: Seq<char>) -> (RegistryView, u16) {
    if code.len() == 0 || code == "General"@ {
        (r, 0)
    } else {
        let k = first_code_index(r.num_formats, code);
        if k >= 0 {
            (r, r.num_formats[k].0)
        } else {
            (
                RegistryView {
                    num_formats: r.num_formats.push((r.next_custom_num_fmt_id, code)),
                    next_custom_num_fmt_id: (r.next_custom_num_fmt_id + 1) as u16,
                    ..r
                },
                r.next_custom_num_fmt_id,
            )
        }
    }
}

/// The index of the last cell style entry with the given name, or -1.
pub open spec fn style_index(styles: Seq<(Seq<char>, usize, u32)>, name: Seq<char>) -> int
    decreases styles.len(),
{
    if styles.len() == 0 {
        -1
    } else if styles.last().0 == name {
        styles.len() - 1
    } else {
        style_index(styles.drop_last(), name)
    }
}

/// Registering a named cell style: a known name keeps its xfId, a new one gets a cellStyleXfs
/// record built from the given ids.
pub open spec fn spec_ensure_cell_style(
    r: RegistryView,
    name: Seq<char>,
    font_id: usize,
    fill_id: usize,
    border_id: usize,
    num_fmt_id: u16,
) -> (RegistryView, usize) {
    let k = style_index(r.cell_styles, name);
    if k >= 0 {
        (r, r.cell_styles[k].1)
    } else {
        let xf = XfRecord {
            font_id,
            fill_id,
            border_id,
            num_fmt_id,
            alignment: None,
            locked: None,
            formula_hidden: false,
            quote_prefix: false,
        };
        let xf_id = r.cell_style_xfs.len() as usize;
        (
            RegistryView {
                cell_style_xfs: r.cell_style_xfs.push(xf),
                cell_styles: r.cell_styles.push((name, xf_id, spec_builtin_id(name))),
                ..r
            },
            xf_id,
        )
    }
}

/// The font a format asks for.
pub open spec fn format_font(f: Format) -> FontView {
    FontView {
        bold: f.bold,
        italic: f.italic,
        underline: underline_code(f.underline),
        strikethrough: f.strikethrough,
        size_x100: f.font_size_x100,
        name: f.font_name@,
        color_rgb: f.font_color,
        theme_color: f.theme_color,
        shadow: f.shadow,
        outline: f.outline,
        emboss: f.emboss,
        engrave: f.engrave,
    }
}

/// The fill a format asks for: its gradient if any, else a patterned fill under a background
/// color (solid when no pattern is set), else its pattern alone, else no fill.
pub open spec fn format_fill(f: Format) -> FillView {
    match f.gradient {
        Some(g) => FillView {
            pattern: 0,
            fg_rgb: None,
            bg_rgb: None,
            gradient: Some((g.0, g.1@)),
        },
        None => match f.bg_color {
            Some(bg) => FillView {
                pattern: if pattern_code(f.pattern) == 0 { 1 } else { pattern_code(f.pattern) },
                fg_rgb: match f.fg_color {
                    Some(fg) => Some(fg),
                    None => Some(bg),
                },
                bg_rgb: Some(bg),
                gradient: None,
            },
            None => if pattern_code(f.pattern) != 0 {
                FillView { pattern: pattern_code(f.pattern), fg_rgb: f.fg_color, bg_rgb: None, gradient: None }
            } else {
                no_fill()
            },
        },
    }
}

/// The border a format asks for.
pub open spec fn format_border(f: Format) -> BorderData {
    BorderData {
        top: border_code(f.border_top),
        bottom: border_code(f.border_bottom),
        left: border_code(f.border_left),
        right: border_code(f.border_right),
        color_rgb: f.border_color,
        top_color: f.border_top_color,
        bottom_color: f.border_bottom_color,
        left_color: f.border_left_color,
        right_color: f.border_right_color,
        diagonal: border_code(f.diagonal_border),
        diagonal_type: f.diagonal_type,
    }
}

/// The alignment a format asks for, if it sets any.
pub open spec fn format_alignment(f: Format) -> Option<AlignmentData> {
    if f.spec_has_alignment() {
        Some(
            AlignmentData {
                horizontal: f.h_align,
                vertical: f.v_align,
                wrap_text: f.wrap_text,
                shrink: f.shrink,
                indent: f.indent,
                rotation: f.rotation,
            },
        )
    } else {
        None
    }
}

/// Whether registering `f` in `r` needs a fresh custom number-format id.
pub open spec fn register_needs_id(r: RegistryView, f: Format) -> bool {
    needs_new_num_format(r, f.num_format@)
}

/// Registering a format: intern its font, fill, border and number format, register its named
/// cell style, then intern the resulting xf record. Gives the registry after, and the xf index.
pub open spec fn spec_register_format(r: RegistryView, f: Format) -> (RegistryView, u32) {
    let (fonts, font_id) = spec_intern(r.fonts, format_font(f));
    let (fills, fill_id) = spec_intern(r.fills, format_fill(f));
    let (borders, border_id) = spec_intern(r.borders, format_border(f));
    let r1 = RegistryView { fonts, fills, borders, ..r };
    let (r2, num_fmt_id) = spec_intern_num_format(r1, f.num_format@);
    let (r3, xf_id) = match f.cell_style {
        Some(name) => spec_ensure_cell_style(
            r2,
            name@,
            font_id as usize,
            fill_id as usize,
            border_id as usize,
            num_fmt_id,
        ),
        None => (r2, 0usize),
    };
    let xf = XfRecord {
        font_id: font_id as usize,
        fill_id: fill_id as usize,
        border_id: border_id as usize,
        num_fmt_id,
        alignment: format_alignment(f),
        locked: f.locked,
        formula_hidden: f.formula_hidden,
        quote_prefix: f.quote_prefix,
    };
    let k = last_index(r3.xf_records, xf);
    if k >= 0 {
        (r3, k as u32)
    } else {
        (
            RegistryView {
                xf_records: r3.xf_records.push(xf),
                xf_style_ids: r3.xf_style_ids.push(xf_id),
                ..r3
            },
            r3.xf_records.len() as u32,
        )
    }
}

fn rgb_eq(a: &Option<[u8; 3]>, b: &Option<[u8; 3]>) -> (res: bool)
    ensures
        res == (*a == *b),
{
    match (a, b) {
        (Some(x), Some(y)) => {
            let same = x[0] == y[0] && x[1] == y[1] && x[2] == y[2];
            if same {
                assert(x@ =~= y@);
                assert(*x == *y);
            } else {
                assert(x@ != y@);
            }
            same
        },
        (None, None) => true,
        _ => false,
    }
}

fn font_eq(a: &FontData, b: &FontData) -> (res: bool)
    ensures
        res == (a@ == b@),
{
    let theme_same = match (&a.theme_color, &b.theme_color) {
        (Some(x), Some(y)) => x.0 == y.0 && x.1 == y.1,
        (None, None) => true,
        _ => false,
    };
    a.bold == b.bold && a.italic == b.italic && a.underline == b.underline && a.strikethrough
        == b.strikethrough && a.size_x100 == b.size_x100 && str_eq(a.name.as_str(), b.name.as_str())
        && rgb_eq(&a.color_rgb, &b.color_rgb) && theme_same && a.shadow == b.shadow && a.outline
        == b.outline && a.emboss == b.emboss && a.engrave == b.engrave
}

fn stops_eq(a: &Vec<GradientStopData>, b: &Vec<GradientStopData>) -> (res: bool)
    ensures
        res == (a@.map_values(|s: GradientStopData| (s.position_x1000, s.color)) == b@.map_values(
            |s: GradientStopData| (s.position_x1000, s.color),
        )),
{
    let ghost av = a@.map_values(|s: GradientStopData| (s.position_x1000, s.color));
    let ghost bv = b@.map_values(|s: GradientStopData| (s.position_x1000, s.color));
    if a.len() != b.len() {
        assert(av.len() != bv.len());
        return false;
    }
    let mut i: usize = 0;
    while i < a.len()
        invariant
            0 <= i <= a.len() == b.len(),
            av == a@.map_values(|s: GradientStopData| (s.position_x1000, s.color)),
            bv == b@.map_values(|s: GradientStopData| (s.position_x1000, s.color)),
            av.take(i as int) == bv.take(i as int),
        decreases a.len() - i,
    {
        let x = a[i];
        let y = b[i];
        let same_color = rgb_eq(&Some(x.color), &Some(y.color));
        if x.position_x1000 != y.position_x1000 || !same_color {
            assert(av[i as int] != bv[i as int]);
            return false;
        }
        assert(av.take(i + 1) =~= bv.take(i + 1));
        i += 1;
    }
    assert(av.take(a.len() as int) =~= av);
    assert(bv.take(b.len() as int) =~= bv);
    true
}

fn fill_eq(a: &FillData, b: &FillData) -> (res: bool)
    ensures
        res == (a@ == b@),
{
    let grad_same = match (&a.gradient, &b.gradient) {
        (Some(x), Some(y)) => x.angle_x100 == y.angle_x100 && stops_eq(&x.stops, &y.stops),
        (None, None) => true,
        _ => false,
    };
    a.pattern == b.pattern && rgb_eq(&a.fg_rgb, &b.fg_rgb) && rgb_eq(&a.bg_rgb, &b.bg_rgb) && grad_same
}

fn border_eq(a: &BorderData, b: &BorderData) -> (res: bool)
    ensures
        res == (*a == *b),
{
    a.top == b.top && a.bottom == b.bottom && a.left == b.left && a.right == b.right && rgb_eq(
        &a.color_rgb,
        &b.color_rgb,
    ) && rgb_eq(&a.top_color, &b.top_color) && rgb_eq(&a.bottom_color, &b.bottom_color) && rgb_eq(
        &a.left_color,
        &b.left_color,
    ) && rgb_eq(&a.right_color, &b.right_color) && a.diagonal == b.diagonal && a.diagonal_type
        == b.diagonal_type
}

fn alignment_eq(a: &Option<AlignmentData>, b: &Option<AlignmentData>) -> (res: bool)
    ensures
        res == (*a == *b),
{
    match (a, b) {
        (Some(x), Some(y)) => x.horizontal == y.horizontal && x.vertical == y.vertical && x.wrap_text
            == y.wrap_text && x.shrink == y.shrink && x.indent == y.indent && x.rotation == y.rotation,
        (None, None) => true,
        _ => false,
    }
}

fn xf_eq(a: &XfRecord, b: &XfRecord) -> (res: bool)
    ensures
        res == (*a == *b),
{
    let locked_same = match (a.locked, b.locked) {
        (Some(x), Some(y)) => x == y,
        (None, None) => true,
        _ => false,
    };
    a.font_id == b.font_id && a.fill_id == b.fill_id && a.border_id == b.border_id && a.num_fmt_id
        == b.num_fmt_id && alignment_eq(&a.alignment, &b.alignment) && locked_same && a.formula_hidden
        == b.formula_hidden && a.quote_prefix == b.quote_prefix
}


proof fn lemma_last_index_prefix<T>(s: Seq<T>, x: T, i: int)
    requires
        0 <= i <= s.len(),
        forall|k: int| i <= k < s.len() ==> #[trigger] s[k] != x,
    ensures
        last_index(s, x) == last_index(s.take(i), x),
    decreases s.len() - i,
{
    if i < s.len() {
        let t = s.drop_last();
        assert forall|k: int| i <= k < t.len() implies #[trigger] t[k] != x by {
            assert(t[k] == s[k]);
        }
        assert(s.last() != x);
        lemma_last_index_prefix(t, x, i);
        assert(t.take(i) =~= s.take(i));
    } else {
        assert(s.take(i) =~= s);
    }
}

proof fn lemma_last_index_hit_at<T>(s: Seq<T>, x: T, i: int)
    requires
        0 <= i < s.len(),
        s[i] == x,
        forall|k: int| i < k < s.len() ==> #[trigger] s[k] != x,
    ensures
        last_index(s, x) == i,
{
    lemma_last_index_prefix(s, x, i + 1);
    let t = s.take(i + 1);
    assert(t.last() == x);
}

impl StyleRegistry {
    /// Create with Excel's required default entries.
    pub fn new() -> (res: Self)
        ensures
            res@ == initial_registry(),
    {
        let default_font = FontData {
            bold: false,
            italic: false,
            underline: 0,
            strikethrough: false,
            size_x100: 1100,
            name: to_string("Calibri"),
            color_rgb: None,
            theme_color: None,
            shadow: false,
            outline: false,
            emboss: false,
            engrave: false,
        };
        let none_fill = FillData { pattern: 0, fg_rgb: None, bg_rgb: None, gradient: None };
        let gray_fill = FillData { pattern: 17, fg_rgb: None, bg_rgb: None, gradient: None };
        let default_border = BorderData {
            top: 0,
            bottom: 0,
            left: 0,
            right: 0,
            color_rgb: None,
            top_color: None,
            bottom_color: None,
            left_color: None,
            right_color: None,
            diagonal: 0,
            diagonal_type: 0,
        };
        let default_xf = XfRecord {
            font_id: 0,
            fill_id: 0,
            border_id: 0,
            num_fmt_id: 0,
            alignment: None,
            locked: None,
            formula_hidden: false,
            quote_prefix: false,
        };
        let mut fonts = Vec::new();
        fonts.push(default_font);
        let mut fills = Vec::new();
        fills.push(none_fill);
        fills.push(gray_fill);
        let mut borders = Vec::new();
        borders.push(default_border);
        let mut xf_records = Vec::new();
        xf_records.push(default_xf);
        let mut xf_style_ids = Vec::new();
        xf_style_ids.push(0);
        let mut cell_style_xfs = Vec::new();
        cell_style_xfs.push(default_xf);
        let mut cell_styles = Vec::new();
        cell_styles.push(CellStyleEntry { name: to_string("Normal"), xf_id: 0, builtin_id: 0 });
        let reg = StyleRegistry {
            fonts,
            fills,
            borders,
            num_formats: Vec::new(),
            xf_records,
            xf_style_ids,
            dxf_formats: Vec::new(),
            cell_style_xfs,
            cell_styles,
            next_custom_num_fmt_id: 164,
        };
        assert(reg@.fonts =~= initial_registry().fonts);
        assert(reg@.fills =~= initial_registry().fills);
        assert(reg@.borders =~= initial_registry().borders);
        assert(reg@.num_formats =~= initial_registry().num_formats);
        assert(reg@.xf_records =~= initial_registry().xf_records);
        assert(reg@.xf_style_ids =~= initial_registry().xf_style_ids);
        assert(reg@.dxf_formats =~= initial_registry().dxf_formats);
        assert(reg@.cell_style_xfs =~= initial_registry().cell_style_xfs);
        assert(reg@.cell_styles =~= initial_registry().cell_styles);
        reg
    }

    fn intern_font(&mut self, f: FontData) -> (res: usize)
        ensures
            final(self)@ == (RegistryView { fonts: spec_intern(old(self)@.fonts, f@).0, ..old(self)@ }),
            res == spec_intern(old(self)@.fonts, f@).1,
    {
        let ghost fv = self@.fonts;
        let mut i: usize = self.fonts.len();
        while i > 0
            invariant
                i <= self.fonts@.len(),
                fv == self@.fonts,
                forall|k: int| i <= k < fv.len() ==> #[trigger] fv[k] != f@,
            decreases i,
        {
            assert(fv[i - 1] == self.fonts@[i - 1]@);
            if font_eq(&self.fonts[i - 1], &f) {
                proof {
                    lemma_last_index_hit_at(fv, f@, i - 1);
                }
                return i - 1;
            }
            i -= 1;
        }
        proof {
            lemma_last_index_prefix(fv, f@, 0);
        }
        let id = self.fonts.len();
        let ghost view_f = f@;
        self.fonts.push(f);
        assert(self@.fonts =~= fv.push(view_f));
        id
    }

    fn intern_fill(&mut self, f: FillData) -> (res: usize)
        ensures
            final(self)@ == (RegistryView { fills: spec_intern(old(self)@.fills, f@).0, ..old(self)@ }),
            res == spec_intern(old(self)@.fills, f@).1,
    {
        let ghost fv = self@.fills;
        let mut i: usize = self.fills.len();
        while i > 0
            invariant
                i <= self.fills@.len(),
                fv == self@.fills,
                forall|k: int| i <= k < fv.len() ==> #[trigger] fv[k] != f@,
            decreases i,
        {
            assert(fv[i - 1] == self.fills@[i - 1]@);
            if fill_eq(&self.fills[i - 1], &f) {
                proof {
                    lemma_last_index_hit_at(fv, f@, i - 1);
                }
                return i - 1;
            }
            i -= 1;
        }
        proof {
            lemma_last_index_prefix(fv, f@, 0);
        }
        let id = self.fills.len();
        let ghost view_f = f@;
        self.fills.push(f);
        assert(self@.fills =~= fv.push(view_f));
        id
    }

    fn intern_border(&mut self, b: BorderData) -> (res: usize)
        ensures
            final(self)@ == (RegistryView { borders: spec_intern(old(self)@.borders, b).0, ..old(self)@ }),
            res == spec_intern(old(self)@.borders, b).1,
    {
        let ghost bv = self@.borders;
        let mut i: usize = self.borders.len();
        while i > 0
            invariant
                i <= self.borders@.len(),
                bv == self@.borders,
                forall|k: int| i <= k < bv.len() ==> #[trigger] bv[k] != b,
            decreases i,
        {
            if border_eq(&self.borders[i - 1], &b) {
                proof {
                    lemma_last_index_hit_at(bv, b, i - 1);
                }
                return i - 1;
            }
            i -= 1;
        }
        proof {
            lemma_last_index_prefix(bv, b, 0);
        }
        let id = self.borders.len();
        self.borders.push(b);
        assert(self@.borders =~= bv.push(b));
        id
    }

    fn intern_num_format(&mut self, code: &str) -> (res: u16)
        requires
            needs_new_num_format(old(self)@, code@) ==> old(self).next_custom_num_fmt_id < u16::MAX,
        ensures
            (final(self)@, res) == spec_intern_num_format(old(self)@, code@),
    {
        if code.is_empty() || str_eq(code, "General") {
            return 0;
        }
        let ghost nf = self@.num_formats;
        let mut i: usize = 0;
        while i < self.num_formats.len()
            invariant
                0 <= i <= self.num_formats@.len(),
                nf == self@.num_formats,
                self@ == old(self)@,
                code@.len() != 0 && code@ != "General"@,
                forall|k: int| 0 <= k < i ==> #[trigger] nf[k].1 != code@,
            decreases self.num_formats.len() - i,
        {
            assert(nf[i as int] == (self.num_formats@[i as int].0, self.num_formats@[i as int].1@));
            if str_eq(self.num_formats[i].1.as_str(), code) {
                proof {
                    lemma_first_code_at(nf, code@, i as int);
                }
                return self.num_formats[i].0;
            }
            i += 1;
        }
        proof {
            lemma_first_code_at(nf, code@, i as int);
        }
        let id = self.next_custom_num_fmt_id;
        self.next_custom_num_fmt_id = id + 1;
        let entry = (id, to_string(code));
        self.num_formats.push(entry);
        assert(self@.num_formats =~= nf.push((id, code@)));
        id
    }

    /// Get the builtinId for a named cell style.
    fn builtin_id_for_name(name: &str) -> (res: u32)
        ensures
            res == spec_builtin_id(name@),
    {
        if str_eq(name, "Normal") {
            0
        } else if str_eq(name, "Comma") {
            3
        } else if str_eq(name, "Currency") {
            4
        } else if str_eq(name, "Percent") {
            5
        } else if str_eq(name, "Title") {
            15
        } else if str_eq(name, "Heading 1") {
            16
        } else if str_eq(name, "Heading 2") {
            17
        } else if str_eq(name, "Heading 3") {
            18
        } else if str_eq(name, "Heading 4") {
            19
        } else if str_eq(name, "Total") {
            25
        } else if str_eq(name, "Good") {
            26
        } else if str_eq(name, "Bad") {
            27
        } else if str_eq(name, "Neutral") {
            28
        } else {
            0
        }
    }

    /// Ensure a named cell style is registered in cellStyleXfs. Returns the xfId.
    fn ensure_cell_style(
        &mut self,
        name: &str,
        font_id: usize,
        fill_id: usize,
        border_id: usize,
        num_fmt_id: u16,
    ) -> (res: usize)
        ensures
            (final(self)@, res) == spec_ensure_cell_style(
                old(self)@,
                name@,
                font_id,
                fill_id,
                border_id,
                num_fmt_id,
            ),
    {
        let ghost cs = self@.cell_styles;
        let mut i: usize = self.cell_styles.len();
        while i > 0
            invariant
                i <= self.cell_styles@.len(),
                cs == self@.cell_styles,
                forall|k: int| i <= k < cs.len() ==> #[trigger] cs[k].0 != name@,
            decreases i,
        {
            assert(cs[i - 1] == (self.cell_styles@[i - 1].name@, self.cell_styles@[i - 1].xf_id, self.cell_styles@[i - 1].builtin_id));
            if str_eq(self.cell_styles[i - 1].name.as_str(), name) {
                proof {
                    lemma_style_index_at(cs, name@, (i - 1) as int);
                }
                return self.cell_styles[i - 1].xf_id;
            }
            i -= 1;
        }
        proof {
            lemma_style_index_none(cs, name@);
        }
        let builtin_id = Self::builtin_id_for_name(name);
        let xf = XfRecord {
            font_id,
            fill_id,
            border_id,
            num_fmt_id,
            alignment: None,
            locked: None,
            formula_hidden: false,
            quote_prefix: false,
        };
        let xf_id = self.cell_style_xfs.len();
        self.cell_style_xfs.push(xf);
        self.cell_styles.push(CellStyleEntry { name: to_string(name), xf_id, builtin_id });
        assert(self@.cell_styles =~= cs.push((name@, xf_id, builtin_id)));
        xf_id
    }

    fn intern_xf(&mut self, xf: XfRecord, xf_id: usize) -> (res: u32)
        ensures
            ({
                let k = last_index(old(self)@.xf_records, xf);
                if k >= 0 {
                    final(self)@ == old(self)@ && res == k as u32
                } else {
                    &&& final(self)@ == (RegistryView {
                        xf_records: old(self)@.xf_records.push(xf),
                        xf_style_ids: old(self)@.xf_style_ids.push(xf_id),
                        ..old(self)@
                    })
                    &&& res == old(self)@.xf_records.len() as u32
                }
            }),
    {
        let ghost xv = self@.xf_records;
        let mut i: usize = self.xf_records.len();
        while i > 0
            invariant
                i <= self.xf_records@.len(),
                xv == self@.xf_records,
                self@ == old(self)@,
                forall|k: int| i <= k < xv.len() ==> #[trigger] xv[k] != xf,
            decreases i,
        {
            if xf_eq(&self.xf_records[i - 1], &xf) {
                proof {
                    lemma_last_index_hit_at(xv, xf, i - 1);
                }
                return (i - 1) as u32;
            }
            i -= 1;
        }
        proof {
            lemma_last_index_prefix(xv, xf, 0);
        }
        let idx = self.xf_records.len() as u32;
        self.xf_records.push(xf);
        self.xf_style_ids.push(xf_id);
        assert(self@.xf_records =~= old(self)@.xf_records.push(xf));
        assert(self@.xf_style_ids =~= old(self)@.xf_style_ids.push(xf_id));
        idx
    }

    /// Register a Format and return its xf index.
    pub fn register_format(&mut self, fmt: &Format) -> (res: u32)
        requires
            register_needs_id(
                RegistryView {
                    fonts: spec_intern(old(self)@.fonts, format_font(*fmt)).0,
                    fills: spec_intern(old(self)@.fills, format_fill(*fmt)).0,
                    borders: spec_intern(old(self)@.borders, format_border(*fmt)).0,
                    ..old(self)@
                },
                *fmt,
            ) ==> old(self).next_custom_num_fmt_id < u16::MAX,
        ensures
            (final(self)@, res) == spec_register_format(old(self)@, *fmt),
    {
        let font = font_of_format(fmt);
        let fill = fill_of_format(fmt);
        let border = border_of_format(fmt);
        let alignment = alignment_of_format(fmt);
        let font_id = self.intern_font(font);
        let fill_id = self.intern_fill(fill);
        let border_id = self.intern_border(border);
        let num_fmt_id = self.intern_num_format(fmt.num_format.as_str());
        let xf_id = match &fmt.cell_style {
            Some(style_name) => self.ensure_cell_style(
                style_name.as_str(),
                font_id,
                fill_id,
                border_id,
                num_fmt_id,
            ),
            None => 0,
        };
        let xf = XfRecord {
            font_id,
            fill_id,
            border_id,
            num_fmt_id,
            alignment,
            locked: fmt.locked,
            formula_hidden: fmt.formula_hidden,
            quote_prefix: fmt.quote_prefix,
        };
        self.intern_xf(xf, xf_id)
    }
}

fn font_of_format(fmt: &Format) -> (res: FontData)
    ensures
        res@ == format_font(*fmt),
{
    FontData {
        bold: fmt.bold,
        italic: fmt.italic,
        underline: fmt.underline.code(),
        strikethrough: fmt.strikethrough,
        size_x100: fmt.font_size_x100,
        name: fmt.font_name.clone(),
        color_rgb: fmt.font_color,
        theme_color: fmt.theme_color,
        shadow: fmt.shadow,
        outline: fmt.outline,
        emboss: fmt.emboss,
        engrave: fmt.engrave,
    }
}

fn fill_of_format(fmt: &Format) -> (res: FillData)
    ensures
        res@ == format_fill(*fmt),
{
    match &fmt.gradient {
        Some(grad) => {
            let mut stops: Vec<GradientStopData> = Vec::new();
            let mut j: usize = 0;
            while j < grad.1.len()
                invariant
                    0 <= j <= grad.1.len(),
                    stops@.map_values(|s: GradientStopData| (s.position_x1000, s.color))
                        == grad.1@.take(j as int),
                decreases grad.1.len() - j,
            {
                let (pos, color) = grad.1[j];
                let ghost before = stops@;
                let st = GradientStopData { position_x1000: pos, color };
                stops.push(st);
                assert(stops@ == before.push(st));
                assert(stops@.map_values(|s: GradientStopData| (s.position_x1000, s.color))
                    =~= before.map_values(|s: GradientStopData| (s.position_x1000, s.color)).push(
                    (pos, color),
                ));
                assert(grad.1@.take(j + 1) =~= grad.1@.take(j as int).push(grad.1@[j as int]));
                j += 1;
            }
            assert(grad.1@.take(grad.1.len() as int) =~= grad.1@);
            FillData {
                pattern: 0,
                fg_rgb: None,
                bg_rgb: None,
                gradient: Some(GradientFillData { angle_x100: grad.0, stops }),
            }
        },
        None => match fmt.bg_color {
            Some(bg) => {
                let p = if fmt.pattern.code() == 0 {
                    1u8
                } else {
                    fmt.pattern.code()
                };
                let fg = match fmt.fg_color {
                    Some(fg) => Some(fg),
                    None => Some(bg),
                };
                FillData { pattern: p, fg_rgb: fg, bg_rgb: Some(bg), gradient: None }
            },
            None => if fmt.pattern.code() != 0 {
                FillData { pattern: fmt.pattern.code(), fg_rgb: fmt.fg_color, bg_rgb: None, gradient: None }
            } else {
                FillData { pattern: 0, fg_rgb: None, bg_rgb: None, gradient: None }
            },
        },
    }
}

fn border_of_format(fmt: &Format) -> (res: BorderData)
    ensures
        res == format_border(*fmt),
        res.top == border_code(fmt.border_top),
        res.bottom == border_code(fmt.border_bottom),
        res.left == border_code(fmt.border_left),
        res.right == border_code(fmt.border_right),
        res.diagonal == border_code(fmt.diagonal_border),
{
    BorderData {
        top: fmt.border_top.code(),
        bottom: fmt.border_bottom.code(),
        left: fmt.border_left.code(),
        right: fmt.border_right.code(),
        color_rgb: fmt.border_color,
        top_color: fmt.border_top_color,
        bottom_color: fmt.border_bottom_color,
        left_color: fmt.border_left_color,
        right_color: fmt.border_right_color,
        diagonal: fmt.diagonal_border.code(),
        diagonal_type: fmt.diagonal_type,
    }
}

fn alignment_of_format(fmt: &Format) -> (res: Option<AlignmentData>)
    ensures
        res == format_alignment(*fmt),
{
    if fmt.has_alignment() {
        Some(
            AlignmentData {
                horizontal: fmt.h_align,
                vertical: fmt.v_align,
                wrap_text: fmt.wrap_text,
                shrink: fmt.shrink,
                indent: fmt.indent,
                rotation: fmt.rotation,
            },
        )
    } else {
        None
    }
}

proof fn lemma_first_code_at(nf: Seq<(u16, Seq<char>)>, code: Seq<char>, i: int)
    requires
        0 <= i <= nf.len(),
        forall|k: int| 0 <= k < i ==> #[trigger] nf[k].1 != code,
    ensures
        i < nf.len() && nf[i].1 == code ==> first_code_index(nf, code) == i,
        i == nf.len() ==> first_code_index(nf, code) == -1,
    decreases i,
{
    if i > 0 {
        let t = nf.drop_first();
        assert forall|k: int| 0 <= k < i - 1 implies #[trigger] t[k].1 != code by {
            assert(t[k] == nf[k + 1]);
        }
        if i < nf.len() {
            assert(t[i - 1] == nf[i]);
        }
        assert(nf[0].1 != code);
        lemma_first_code_at(t, code, i - 1);
    }
}

proof fn lemma_style_index_at(cs: Seq<(Seq<char>, usize, u32)>, name: Seq<char>, i: int)
    requires
        0 <= i < cs.len(),
        cs[i].0 == name,
        forall|k: int| i < k < cs.len() ==> #[trigger] cs[k].0 != name,
    ensures
        style_index(cs, name) == i,
    decreases cs.len() - i,
{
    if i < cs.len() - 1 {
        let t = cs.drop_last();
        assert forall|k: int| i < k < t.len() implies #[trigger] t[k].0 != name by {
            assert(t[k] == cs[k]);
        }
        assert(cs.last().0 != name);
        lemma_style_index_at(t, name, i);
    }
}

proof fn lemma_style_index_none(cs: Seq<(Seq<char>, usize, u32)>, name: Seq<char>)
    requires
        forall|k: int| 0 <= k < cs.len() ==> #[trigger] cs[k].0 != name,
    ensures
        style_index(cs, name) == -1,
    decreases cs.len(),
{
    if cs.len() > 0 {
        let t = cs.drop_last();
        assert forall|k: int| 0 <= k < t.len() implies #[trigger] t[k].0 != name by {
            assert(t[k] == cs[k]);
        }
        assert(cs.last().0 != name);
        lemma_style_index_none(t, name);
    }
}


/// The differential format a format asks for: a font only when some font property is set, a
/// solid fill only under a background color, a border only when some side has a line, a number
/// format only when one is given.
pub open spec fn format_dxf(f: Format) -> DxfView {
    DxfView {
        font: if f.bold || f.italic || f.strikethrough || f.font_color is Some || underline_code(
            f.underline,
        ) > 0 {
            Some(
                FontView {
                    bold: f.bold,
                    italic: f.italic,
                    underline: underline_code(f.underline),
                    strikethrough: f.strikethrough,
                    size_x100: 0,
                    name: Seq::empty(),
                    color_rgb: f.font_color,
                    theme_color: None,
                    shadow: false,
                    outline: false,
                    emboss: false,
                    engrave: false,
                },
            )
        } else {
            None
        },
        fill: match f.bg_color {
            Some(bg) => Some(FillView { pattern: 1, fg_rgb: Some(bg), bg_rgb: None, gradient: None }),
            None => None,
        },
        border: if border_code(f.border_top) > 0 || border_code(f.border_bottom) > 0 || border_code(
            f.border_left,
        ) > 0 || border_code(f.border_right) > 0 {
            Some(
                BorderData {
                    top: border_code(f.border_top),
                    bottom: border_code(f.border_bottom),
                    left: border_code(f.border_left),
                    right: border_code(f.border_right),
                    color_rgb: f.border_color,
                    top_color: None,
                    bottom_color: None,
                    left_color: None,
                    right_color: None,
                    diagonal: 0,
                    diagonal_type: 0,
                },
            )
        } else {
            None
        },
        num_format: if f.num_format@.len() == 0 {
            None
        } else {
            Some(f.num_format@)
        },
    }
}

/// Whether a built-in number format id is a date or time format.
pub open spec fn builtin_is_date(id: u16) -> bool {
    (14 <= id <= 22) || (45 <= id <= 47) || (27 <= id <= 36) || (50 <= id <= 58) || (71 <= id <= 81)
}

/// Scanning a format code for a date/time token (`d`, `m`, `y`, `h`, `s`) outside quotes and
/// brackets, in its first section only (up to an unquoted `;`); the character after an unquoted
/// backslash is escaped and skipped.
pub open spec fn date_scan(s: Seq<char>, in_quote: bool, in_bracket: bool) -> bool
    decreases s.len(),
{
    if s.len() == 0 {
        false
    } else {
        let c = s[0];
        let rest = s.drop_first();
        if c == '"' {
            date_scan(rest, !in_quote, in_bracket)
        } else if c == '[' && !in_quote {
            date_scan(rest, in_quote, true)
        } else if c == ']' && !in_quote {
            date_scan(rest, in_quote, false)
        } else if c == '\\' && !in_quote {
            if rest.len() > 0 {
                date_scan(rest.drop_first(), in_quote, in_bracket)
            } else {
                false
            }
        } else if c == ';' && !in_quote {
            false
        } else if (c == 'd' || c == 'm' || c == 'y' || c == 'h' || c == 's') && !in_quote
            && !in_bracket {
            true
        } else {
            date_scan(rest, in_quote, in_bracket)
        }
    }
}

/// The index of the first custom format with the given id, or -1.
pub open spec fn first_id_index(nf: Seq<(u16, Seq<char>)>, id: u16) -> int
    decreases nf.len(),
{
    if nf.len() == 0 {
        -1
    } else if nf[0].0 == id {
        0
    } else {
        let r = first_id_index(nf.drop_first(), id);
        if r < 0 { -1 } else { r + 1 }
    }
}

/// Whether a number format id is a date/time format: a built-in date id, or a custom format
/// whose code looks like a date.
pub open spec fn spec_is_date_format(id: u16, custom: Seq<(u16, Seq<char>)>) -> bool {
    if builtin_is_date(id) {
        true
    } else {
        let k = first_id_index(custom, id);
        k >= 0 && date_scan(custom[k].1, false, false)
    }
}

/// The built-in date and time formats (14–22, 27–36, 45–47 — `mm:ss`, `[h]:mm:ss`, `mmss.0` —
/// 50–58 and 71–81) are dates whatever custom formats a workbook declares.
pub proof fn lemma_builtin_date_ids(id: u16, custom: Seq<(u16, Seq<char>)>)
    requires
        (14 <= id <= 22) || (27 <= id <= 36) || (45 <= id <= 47) || (50 <= id <= 58) || (71 <= id <= 81),
    ensures
        spec_is_date_format(id, custom),
{
}

proof fn lemma_first_id_at(nf: Seq<(u16, Seq<char>)>, id: u16, i: int)
    requires
        0 <= i <= nf.len(),
        forall|k: int| 0 <= k < i ==> #[trigger] nf[k].0 != id,
    ensures
        i < nf.len() && nf[i].0 == id ==> first_id_index(nf, id) == i,
        i == nf.len() ==> first_id_index(nf, id) == -1,
    decreases i,
{
    if i > 0 {
        let t = nf.drop_first();
        assert forall|k: int| 0 <= k < i - 1 implies #[trigger] t[k].0 != id by {
            assert(t[k] == nf[k + 1]);
        }
        if i < nf.len() {
            assert(t[i - 1] == nf[i]);
        }
        assert(nf[0].0 != id);
        lemma_first_id_at(t, id, i - 1);
    }
}

/// Whether `c` is one of the letters that make a format code a date or time (`d`, `m`, `y`,
/// `h`, `s`).
pub open spec fn is_date_letter(c: char) -> bool {
    c == 'd' || c == 'm' || c == 'y' || c == 'h' || c == 's'
}

/// A format code without any date or time letter is never a date.
pub proof fn lemma_no_date_letter(s: Seq<char>, in_quote: bool, in_bracket: bool)
    requires
        forall|i: int| 0 <= i < s.len() ==> !is_date_letter(#[trigger] s[i]),
    ensures
        !date_scan(s, in_quote, in_bracket),
    decreases s.len(),
{
    if s.len() > 0 {
        let rest = s.drop_first();
        assert forall|i: int| 0 <= i < rest.len() implies !is_date_letter(#[trigger] rest[i]) by {
            assert(rest[i] == s[i + 1]);
        }
        assert(!is_date_letter(s[0]));
        lemma_no_date_letter(rest, !in_quote, in_bracket);
        lemma_no_date_letter(rest, in_quote, true);
        lemma_no_date_letter(rest, in_quote, false);
        lemma_no_date_letter(rest, in_quote, in_bracket);
        if rest.len() > 0 {
            let r2 = rest.drop_first();
            assert forall|i: int| 0 <= i < r2.len() implies !is_date_letter(#[trigger] r2[i]) by {
                assert(r2[i] == s[i + 2]);
            }
            lemma_no_date_letter(r2, in_quote, in_bracket);
        }
    }
}

/// A format code whose first section reaches a date or time letter before any quote, bracket,
/// backslash or `;` is a date (`yyyy-mm-dd`, `0.0 h`).
pub proof fn lemma_plain_date_letter(s: Seq<char>, i: int)
    requires
        0 <= i < s.len(),
        is_date_letter(s[i]),
        forall|j: int|
            0 <= j < i ==> {
                let c = #[trigger] s[j];
                c != '"' && c != '[' && c != ']' && c != '\\' && c != ';'
            },
    ensures
        date_scan(s, false, false),
    decreases i,
{
    if i > 0 && !is_date_letter(s[0]) {
        let rest = s.drop_first();
        assert forall|j: int| 0 <= j < i - 1 implies {
            let c = #[trigger] rest[j];
            c != '"' && c != '[' && c != ']' && c != '\\' && c != ';'
        } by {
            assert(rest[j] == s[j + 1]);
        }
        assert(rest[i - 1] == s[i]);
        assert(s[0] != '"' && s[0] != '[' && s[0] != ']' && s[0] != '\\' && s[0] != ';');
        lemma_plain_date_letter(rest, i - 1);
    }
}

proof fn lemma_scan_in_quote(q: Seq<char>, tail: Seq<char>, in_bracket: bool)
    requires
        forall|i: int| 0 <= i < q.len() ==> #[trigger] q[i] != '"',
    ensures
        date_scan(q + tail, true, in_bracket) == date_scan(tail, true, in_bracket),
    decreases q.len(),
{
    if q.len() > 0 {
        let r = q.drop_first();
        assert forall|i: int| 0 <= i < r.len() implies #[trigger] r[i] != '"' by {
            assert(r[i] == q[i + 1]);
        }
        lemma_scan_in_quote(r, tail, in_bracket);
        assert((q + tail)[0] == q[0]);
        assert((q + tail).drop_first() =~= r + tail);
    } else {
        assert(q + tail =~= tail);
    }
}

proof fn lemma_scan_in_bracket(q: Seq<char>, tail: Seq<char>)
    requires
        forall|i: int|
            0 <= i < q.len() ==> {
                let c = #[trigger] q[i];
                c != '"' && c != ']' && c != '\\' && c != ';'
            },
    ensures
        date_scan(q + tail, false, true) == date_scan(tail, false, true),
    decreases q.len(),
{
    if q.len() > 0 {
        let r = q.drop_first();
        assert forall|i: int| 0 <= i < r.len() implies {
            let c = #[trigger] r[i];
            c != '"' && c != ']' && c != '\\' && c != ';'
        } by {
            assert(r[i] == q[i + 1]);
        }
        lemma_scan_in_bracket(r, tail);
        assert((q + tail)[0] == q[0]);
        assert((q + tail).drop_first() =~= r + tail);
    } else {
        assert(q + tail =~= tail);
    }
}

proof fn lemma_scan_plain(p: Seq<char>, tail: Seq<char>)
    requires
        forall|i: int|
            0 <= i < p.len() ==> {
                let c = #[trigger] p[i];
                c != '"' && c != '[' && c != ']' && c != '\\' && c != ';' && !is_date_letter(c)
            },
    ensures
        date_scan(p + tail, false, false) == date_scan(tail, false, false),
    decreases p.len(),
{
    if p.len() > 0 {
        let r = p.drop_first();
        assert forall|i: int| 0 <= i < r.len() implies {
            let c = #[trigger] r[i];
            c != '"' && c != '[' && c != ']' && c != '\\' && c != ';' && !is_date_letter(c)
        } by {
            assert(r[i] == p[i + 1]);
        }
        lemma_scan_plain(r, tail);
        assert((p + tail)[0] == p[0]);
        assert((p + tail).drop_first() =~= r + tail);
    } else {
        assert(p + tail =~= tail);
    }
}

/// How the parts of a format code decide whether it is a date: quoted text (`"day"`) and
/// bracketed text (`[Red]`, `[$-409]`) never make it one, nor does a character escaped by a
/// backslash (`\h`); only the first section counts, so a code whose first section has none of
/// the date letters is no date whatever follows its `;`.
pub proof fn lemma_date_scan_parts(q: Seq<char>, c: char, rest: Seq<char>)
    ensures
        (forall|i: int| 0 <= i < q.len() ==> #[trigger] q[i] != '"') ==> date_scan(
            seq!['"'] + q + seq!['"'] + rest,
            false,
            false,
        ) == date_scan(rest, false, false),
        (forall|i: int|
            0 <= i < q.len() ==> {
                let d = #[trigger] q[i];
                d != '"' && d != ']' && d != '\\' && d != ';'
            }) ==> date_scan(seq!['['] + q + seq![']'] + rest, false, false) == date_scan(rest, false, false),
        date_scan(seq!['\\', c] + rest, false, false) == date_scan(rest, false, false),
        (forall|i: int|
            0 <= i < q.len() ==> {
                let d = #[trigger] q[i];
                d != '"' && d != '[' && d != ']' && d != '\\' && d != ';' && !is_date_letter(d)
            }) ==> !date_scan(q + seq![';'] + rest, false, false),
{
    let dq = seq!['"'];
    if forall|i: int| 0 <= i < q.len() ==> #[trigger] q[i] != '"' {
        let s1 = dq + q + dq + rest;
        assert(s1[0] == '"');
        assert(s1.drop_first() =~= q + (dq + rest));
        lemma_scan_in_quote(q, dq + rest, false);
        assert((dq + rest)[0] == '"');
        assert((dq + rest).drop_first() =~= rest);
    }
    let ob = seq!['['];
    let cb = seq![']'];
    if forall|i: int|
        0 <= i < q.len() ==> {
            let d = #[trigger] q[i];
            d != '"' && d != ']' && d != '\\' && d != ';'
        } {
        let s2 = ob + q + cb + rest;
        assert(s2[0] == '[');
        assert(s2.drop_first() =~= q + (cb + rest));
        lemma_scan_in_bracket(q, cb + rest);
        assert((cb + rest)[0] == ']');
        assert((cb + rest).drop_first() =~= rest);
    }
    let s3 = seq!['\\', c] + rest;
    assert(s3[0] == '\\');
    assert(s3.drop_first().len() > 0);
    assert(s3.drop_first().drop_first() =~= rest);
    let sc = seq![';'];
    if forall|i: int|
        0 <= i < q.len() ==> {
            let d = #[trigger] q[i];
            d != '"' && d != '[' && d != ']' && d != '\\' && d != ';' && !is_date_letter(d)
        } {
        assert(q + sc + rest =~= q + (sc + rest));
        lemma_scan_plain(q, sc + rest);
        assert((sc + rest)[0] == ';');
    }
}

/// An id outside the built-in date ranges is a date exactly when the workbook declares a custom
/// format under it and the first such format's code is a date: it is not one when there is no
/// such format or when that code has no date letter, and it is one when that code reaches a date
/// letter before any quote, bracket, backslash or `;`.
pub proof fn lemma_custom_date_formats(id: u16, custom: Seq<(u16, Seq<char>)>, k: int, i: int)
    requires
        !((14 <= id <= 22) || (27 <= id <= 36) || (45 <= id <= 47) || (50 <= id <= 58) || (71 <= id
            <= 81)),
        0 <= k <= custom.len(),
        forall|j: int| 0 <= j < k ==> #[trigger] custom[j].0 != id,
    ensures
        k == custom.len() ==> !spec_is_date_format(id, custom),
        k < custom.len() && custom[k].0 == id && (forall|j: int|
            0 <= j < custom[k].1.len() ==> !is_date_letter(#[trigger] custom[k].1[j])) ==> !spec_is_date_format(
            id,
            custom,
        ),
        k < custom.len() && custom[k].0 == id && 0 <= i < custom[k].1.len() && is_date_letter(custom[k].1[i])
            && (forall|j: int|
            0 <= j < i ==> {
                let c = #[trigger] custom[k].1[j];
                c != '"' && c != '[' && c != ']' && c != '\\' && c != ';'
            }) ==> spec_is_date_format(id, custom),
{
    lemma_first_id_at(custom, id, k);
    if k < custom.len() && custom[k].0 == id {
        let code = custom[k].1;
        if forall|j: int| 0 <= j < code.len() ==> !is_date_letter(#[trigger] code[j]) {
            lemma_no_date_letter(code, false, false);
        }
        if 0 <= i < code.len() && is_date_letter(code[i]) && (forall|j: int|
            0 <= j < i ==> {
                let c = #[trigger] code[j];
                c != '"' && c != '[' && c != ']' && c != '\\' && c != ';'
            }) {
            lemma_plain_date_letter(code, i);
        }
    }
}

impl StyleRegistry {
    /// Register a differential format for conditional formatting. Returns dxf index.
    pub fn register_dxf(&mut self, fmt: &Format) -> (res: u32)
        ensures
            res == old(self)@.dxf_formats.len() as u32,
            final(self)@ == (RegistryView {
                dxf_formats: old(self)@.dxf_formats.push(format_dxf(*fmt)),
                ..old(self)@
            }),
    {
        let font = if fmt.bold || fmt.italic || fmt.strikethrough || fmt.font_color.is_some()
            || fmt.underline.code() > 0 {
            Some(
                FontData {
                    bold: fmt.bold,
                    italic: fmt.italic,
                    underline: fmt.underline.code(),
                    strikethrough: fmt.strikethrough,
                    size_x100: 0,
                    name: String::new(),
                    color_rgb: fmt.font_color,
                    theme_color: None,
                    shadow: false,
                    outline: false,
                    emboss: false,
                    engrave: false,
                },
            )
        } else {
            None
        };
        let fill = match fmt.bg_color {
            Some(bg) => Some(FillData { pattern: 1, fg_rgb: Some(bg), bg_rgb: None, gradient: None }),
            None => None,
        };
        let border = if fmt.border_top.code() > 0 || fmt.border_bottom.code() > 0
            || fmt.border_left.code() > 0 || fmt.border_right.code() > 0 {
            Some(
                BorderData {
                    top: fmt.border_top.code(),
                    bottom: fmt.border_bottom.code(),
                    left: fmt.border_left.code(),
                    right: fmt.border_right.code(),
                    color_rgb: fmt.border_color,
                    top_color: None,
                    bottom_color: None,
                    left_color: None,
                    right_color: None,
                    diagonal: 0,
                    diagonal_type: 0,
                },
            )
        } else {
            None
        };
        let num_format = if fmt.num_format.as_str().is_empty() {
            None
        } else {
            Some(fmt.num_format.clone())
        };
        let idx = self.dxf_formats.len() as u32;
        let d = DxfData { font, fill, border, num_format };
        let ghost dv = d@;
        assert(dv == format_dxf(*fmt));
        self.dxf_formats.push(d);
        assert(self@.dxf_formats =~= old(self)@.dxf_formats.push(dv));
        idx
    }

    /// Detect if a number format ID represents a date/time.
    pub fn is_date_format(num_fmt_id: u16, custom_formats: &[(u16, String)]) -> (res: bool)
        ensures
            res == spec_is_date_format(num_fmt_id, num_format_views(custom_formats@)),
            (14 <= num_fmt_id <= 22) || (27 <= num_fmt_id <= 36) || (45 <= num_fmt_id <= 47) || (50
                <= num_fmt_id <= 58) || (71 <= num_fmt_id <= 81) ==> res,
    {
        if (14 <= num_fmt_id && num_fmt_id <= 22) || (45 <= num_fmt_id && num_fmt_id <= 47) || (27
            <= num_fmt_id && num_fmt_id <= 36) || (50 <= num_fmt_id && num_fmt_id <= 58) || (71
            <= num_fmt_id && num_fmt_id <= 81) {
            return true;
        }
        let ghost nf = num_format_views(custom_formats@);
        let mut i: usize = 0;
        while i < custom_formats.len()
            invariant
                0 <= i <= custom_formats.len(),
                nf == num_format_views(custom_formats@),
                !builtin_is_date(num_fmt_id),
                forall|k: int| 0 <= k < i ==> #[trigger] nf[k].0 != num_fmt_id,
            decreases custom_formats.len() - i,
        {
            assert(nf[i as int] == (custom_formats@[i as int].0, custom_formats@[i as int].1@));
            if custom_formats[i].0 == num_fmt_id {
                proof {
                    lemma_first_id_at(nf, num_fmt_id, i as int);
                }
                return Self::format_string_is_date(custom_formats[i].1.as_str());
            }
            i += 1;
        }
        proof {
            lemma_first_id_at(nf, num_fmt_id, i as int);
        }
        false
    }

    /// Heuristic: does a format string contain date/time tokens?
    pub fn format_string_is_date(code: &str) -> (res: bool)
        ensures
            res == date_scan(code@, false, false),
    {
        let cs = chars_of(code);
        let mut in_quote = false;
        let mut in_bracket = false;
        let mut i: usize = 0;
        assert(cs@.skip(0) =~= cs@);
        while i < cs.len()
            invariant
                0 <= i <= cs.len(),
                cs@ == code@,
                date_scan(code@, false, false) == date_scan(cs@.skip(i as int), in_quote, in_bracket),
            decreases cs.len() - i,
        {
            let c = cs[i];
            assert(cs@.skip(i as int)[0] == c);
            assert(cs@.skip(i as int).drop_first() =~= cs@.skip(i + 1));
            if c == '"' {
                in_quote = !in_quote;
            } else if c == '[' && !in_quote {
                in_bracket = true;
            } else if c == ']' && !in_quote {
                in_bracket = false;
            } else if c == '\\' && !in_quote {
                if i + 1 >= cs.len() {
                    return false;
                }
                assert(cs@.skip(i + 1).drop_first() =~= cs@.skip(i + 2));
                i += 1;
            } else if c == ';' && !in_quote {
                return false;
            } else if (c == 'd' || c == 'm' || c == 'y' || c == 'h' || c == 's') && !in_quote
                && !in_bracket {
                return true;
            }
            i += 1;
        }
        false
    }
}


/// A parsed font as the registry stores it (no theme color, no effects).
pub open spec fn font_from_parsed(f: ParsedFont) -> FontView {
    FontView {
        bold: f.bold,
        italic: f.italic,
        underline: underline_code(f.underline),
        strikethrough: f.strikethrough,
        size_x100: f.size_x100,
        name: f.name@,
        color_rgb: f.color,
        theme_color: None,
        shadow: false,
        outline: false,
        emboss: false,
        engrave: false,
    }
}

/// A parsed fill as the registry stores it.
pub open spec fn fill_from_parsed(f: ParsedFill) -> FillView {
    FillView { pattern: pattern_code(f.pattern), fg_rgb: f.fg_color, bg_rgb: f.bg_color, gradient: None }
}

/// A parsed border as the registry stores it: the overall color is the top side's, else the left
/// side's; no diagonal.
pub open spec fn border_from_parsed(b: ParsedBorder) -> BorderData {
    BorderData {
        top: border_code(b.top.style),
        bottom: border_code(b.bottom.style),
        left: border_code(b.left.style),
        right: border_code(b.right.style),
        color_rgb: match b.top.color {
            Some(c) => Some(c),
            None => b.left.color,
        },
        top_color: b.top.color,
        bottom_color: b.bottom.color,
        left_color: b.left.color,
        right_color: b.right.color,
        diagonal: 0,
        diagonal_type: 0,
    }
}

/// A parsed alignment, kept only when it differs from the defaults.
pub open spec fn alignment_from_parsed(a: ParsedAlignment) -> Option<AlignmentData> {
    if a.horizontal == 0 && a.vertical == 0 && !a.wrap_text && !a.shrink_to_fit && a.indent == 0
        && a.rotation == 0 {
        None
    } else {
        Some(
            AlignmentData {
                horizontal: a.horizontal,
                vertical: a.vertical,
                wrap_text: a.wrap_text,
                shrink: a.shrink_to_fit,
                indent: a.indent,
                rotation: a.rotation,
            },
        )
    }
}

/// The `i`-th parsed xf record as the registry stores it, with the number format id kept beside
/// the records when there is one for it.
pub open spec fn xf_from_parsed(r: crate::style_parser::XfRecord, ids: Seq<u16>, i: int) -> XfRecord {
    XfRecord {
        font_id: r.font_id,
        fill_id: r.fill_id,
        border_id: r.border_id,
        num_fmt_id: if 0 <= i < ids.len() { ids[i] } else { r.num_fmt_id },
        alignment: alignment_from_parsed(r.alignment),
        locked: None,
        formula_hidden: false,
        quote_prefix: false,
    }
}

/// The highest number-format id in use, and at least 163.
pub open spec fn highest_fmt_id(nf: Seq<(u16, Seq<char>)>) -> int
    decreases nf.len(),
{
    if nf.len() == 0 {
        163
    } else {
        let prev = highest_fmt_id(nf.drop_last());
        if nf.last().0 > prev { nf.last().0 as int } else { prev }
    }
}

/// The fonts after an import: the file's, or the default font when it has none.
pub open spec fn imported_fonts(p: ParsedStyles) -> Seq<FontView> {
    let f = p.fonts@.map_values(|x: ParsedFont| font_from_parsed(x));
    if f.len() == 0 { seq![default_font()] } else { f }
}

/// The fills after an import: the file's, padded with empty fills to at least two.
pub open spec fn imported_fills(p: ParsedStyles) -> Seq<FillView> {
    let f = p.fills@.map_values(|x: ParsedFill| fill_from_parsed(x));
    if f.len() == 0 {
        seq![no_fill(), no_fill()]
    } else if f.len() == 1 {
        f.push(no_fill())
    } else {
        f
    }
}

/// The borders after an import: the file's, or the empty border when it has none.
pub open spec fn imported_borders(p: ParsedStyles) -> Seq<BorderData> {
    let b = p.borders@.map_values(|x: ParsedBorder| border_from_parsed(x));
    if b.len() == 0 { seq![no_border()] } else { b }
}

/// The registry after adopting a file's style table, indices preserved. A file with no xf
/// records leaves the registry as it was. Differential formats and named cell styles are kept.
pub open spec fn spec_import_parsed(r: RegistryView, p: ParsedStyles) -> RegistryView {
    if p.xf_records@.len() == 0 {
        r
    } else {
        RegistryView {
            fonts: imported_fonts(p),
            fills: imported_fills(p),
            borders: imported_borders(p),
            num_formats: num_format_views(p.num_formats@),
            xf_records: Seq::new(
                p.xf_records@.len(),
                |i: int| xf_from_parsed(p.xf_records@[i], p.xf_num_fmt_ids@, i),
            ),
            xf_style_ids: Seq::new(p.xf_records@.len(), |i: int| 0usize),
            next_custom_num_fmt_id: (highest_fmt_id(num_format_views(p.num_formats@)) + 1) as u16,
            ..r
        }
    }
}

impl StyleRegistry {
    /// Adopt the style table a file was read with, keeping every index where it was.
    ///
    /// Indices are preserved rather than remapped, because they are already written into every
    /// cell of every sheet. Anything registered afterwards appends, and deduplicates against
    /// what the file already had.
    pub fn import_parsed(&mut self, parsed: &ParsedStyles)
        requires
            highest_fmt_id(num_format_views(parsed.num_formats@)) < u16::MAX,
        ensures
            final(self)@ == spec_import_parsed(old(self)@, *parsed),
    {
        if parsed.xf_records.len() == 0 {
            return;
        }
        let mut fonts: Vec<FontData> = Vec::new();
        let mut i: usize = 0;
        while i < parsed.fonts.len()
            invariant
                0 <= i <= parsed.fonts.len(),
                fonts@.map_values(|f: FontData| f@) == parsed.fonts@.map_values(
                    |x: ParsedFont| font_from_parsed(x),
                ).take(i as int),
            decreases parsed.fonts.len() - i,
        {
            let pf = &parsed.fonts[i];
            let f = FontData {
                bold: pf.bold,
                italic: pf.italic,
                underline: pf.underline.code(),
                strikethrough: pf.strikethrough,
                size_x100: pf.size_x100,
                name: pf.name.clone(),
                color_rgb: pf.color,
                theme_color: None,
                shadow: false,
                outline: false,
                emboss: false,
                engrave: false,
            };
            let ghost before = fonts@;
            let ghost fv = f@;
            fonts.push(f);
            assert(fonts@.map_values(|f: FontData| f@) =~= before.map_values(|f: FontData| f@).push(fv));
            assert(parsed.fonts@.map_values(|x: ParsedFont| font_from_parsed(x)).take(i + 1)
                =~= parsed.fonts@.map_values(|x: ParsedFont| font_from_parsed(x)).take(i as int).push(fv));
            i += 1;
        }
        assert(parsed.fonts@.map_values(|x: ParsedFont| font_from_parsed(x)).take(
            parsed.fonts.len() as int,
        ) =~= parsed.fonts@.map_values(|x: ParsedFont| font_from_parsed(x)));
        if fonts.len() == 0 {
            fonts.push(
                FontData {
                    bold: false,
                    italic: false,
                    underline: 0,
                    strikethrough: false,
                    size_x100: 1100,
                    name: to_string("Calibri"),
                    color_rgb: None,
                    theme_color: None,
                    shadow: false,
                    outline: false,
                    emboss: false,
                    engrave: false,
                },
            );
        }
        assert(fonts@.map_values(|f: FontData| f@) =~= imported_fonts(*parsed));
        let mut fills: Vec<FillData> = Vec::new();
        let mut i: usize = 0;
        while i < parsed.fills.len()
            invariant
                0 <= i <= parsed.fills.len(),
                fills@.map_values(|f: FillData| f@) == parsed.fills@.map_values(
                    |x: ParsedFill| fill_from_parsed(x),
                ).take(i as int),
            decreases parsed.fills.len() - i,
        {
            let pf = parsed.fills[i];
            let f = FillData {
                pattern: pf.pattern.code(),
                fg_rgb: pf.fg_color,
                bg_rgb: pf.bg_color,
                gradient: None,
            };
            let ghost before = fills@;
            let ghost fv = f@;
            fills.push(f);
            assert(fills@.map_values(|f: FillData| f@) =~= before.map_values(|f: FillData| f@).push(fv));
            assert(parsed.fills@.map_values(|x: ParsedFill| fill_from_parsed(x)).take(i + 1)
                =~= parsed.fills@.map_values(|x: ParsedFill| fill_from_parsed(x)).take(i as int).push(fv));
            i += 1;
        }
        assert(parsed.fills@.map_values(|x: ParsedFill| fill_from_parsed(x)).take(
            parsed.fills.len() as int,
        ) =~= parsed.fills@.map_values(|x: ParsedFill| fill_from_parsed(x)));
        let ghost mapped_fills = fills@.map_values(|f: FillData| f@);
        while fills.len() < 2
            invariant
                fills@.len() <= 2 || fills@.len() == mapped_fills.len(),
                mapped_fills.len() >= 2 ==> fills@.map_values(|f: FillData| f@) == mapped_fills,
                mapped_fills.len() == 1 ==> (fills@.len() == 1 && fills@.map_values(|f: FillData| f@) == mapped_fills) || (fills@.len() == 2 && fills@.map_values(|f: FillData| f@) == mapped_fills.push(no_fill())),
                mapped_fills.len() == 0 ==> fills@.map_values(|f: FillData| f@) == seq![no_fill(), no_fill()].take(fills@.len() as int),
            decreases 2 - fills.len(),
        {
            let ghost before = fills@;
            fills.push(FillData { pattern: 0, fg_rgb: None, bg_rgb: None, gradient: None });
            assert(fills@.map_values(|f: FillData| f@) =~= before.map_values(|f: FillData| f@).push(no_fill()));
            assert(seq![no_fill(), no_fill()].take(fills@.len() as int) =~= seq![no_fill(), no_fill()].take(before.len() as int).push(no_fill()));
        }
        assert(fills@.map_values(|f: FillData| f@) =~= imported_fills(*parsed));
        let mut borders: Vec<BorderData> = Vec::new();
        let mut i: usize = 0;
        while i < parsed.borders.len()
            invariant
                0 <= i <= parsed.borders.len(),
                borders@ == parsed.borders@.map_values(|x: ParsedBorder| border_from_parsed(x)).take(
                    i as int,
                ),
            decreases parsed.borders.len() - i,
        {
            let pb = parsed.borders[i];
            let color = match pb.top.color {
                Some(c) => Some(c),
                None => pb.left.color,
            };
            let b = BorderData {
                top: pb.top.style.code(),
                bottom: pb.bottom.style.code(),
                left: pb.left.style.code(),
                right: pb.right.style.code(),
                color_rgb: color,
                top_color: pb.top.color,
                bottom_color: pb.bottom.color,
                left_color: pb.left.color,
                right_color: pb.right.color,
                diagonal: 0,
                diagonal_type: 0,
            };
            borders.push(b);
            assert(borders@ =~= parsed.borders@.map_values(|x: ParsedBorder| border_from_parsed(x)).take(
                i + 1,
            ));
            i += 1;
        }
        assert(parsed.borders@.map_values(|x: ParsedBorder| border_from_parsed(x)).take(
            parsed.borders.len() as int,
        ) =~= parsed.borders@.map_values(|x: ParsedBorder| border_from_parsed(x)));
        if borders.len() == 0 {
            borders.push(
                BorderData {
                    top: 0,
                    bottom: 0,
                    left: 0,
                    right: 0,
                    color_rgb: None,
                    top_color: None,
                    bottom_color: None,
                    left_color: None,
                    right_color: None,
                    diagonal: 0,
                    diagonal_type: 0,
                },
            );
        }
        assert(borders@ =~= imported_borders(*parsed));
        let mut num_formats: Vec<(u16, String)> = Vec::new();
        let mut highest: u16 = 163;
        let ghost nf = num_format_views(parsed.num_formats@);
        let mut i: usize = 0;
        while i < parsed.num_formats.len()
            invariant
                0 <= i <= parsed.num_formats.len(),
                nf == num_format_views(parsed.num_formats@),
                num_format_views(num_formats@) == nf.take(i as int),
                highest == highest_fmt_id(nf.take(i as int)),
            decreases parsed.num_formats.len() - i,
        {
            let id = parsed.num_formats[i].0;
            let code = parsed.num_formats[i].1.clone();
            let ghost before = num_formats@;
            let ghost cv = code@;
            num_formats.push((id, code));
            assert(nf[i as int] == (id, cv));
            assert(num_format_views(num_formats@) =~= num_format_views(before).push((id, cv)));
            assert(nf.take(i + 1) =~= nf.take(i as int).push((id, cv)));
            assert(nf.take(i + 1).drop_last() =~= nf.take(i as int));
            if id > highest {
                highest = id;
            }
            i += 1;
        }
        assert(nf.take(parsed.num_formats.len() as int) =~= nf);
        let n = parsed.xf_records.len();
        let mut xf_records: Vec<XfRecord> = Vec::new();
        let mut xf_style_ids: Vec<usize> = Vec::new();
        let mut i: usize = 0;
        while i < n
            invariant
                0 <= i <= n,
                n == parsed.xf_records@.len(),
                xf_records@ == Seq::new(
                    n as nat,
                    |k: int| xf_from_parsed(parsed.xf_records@[k], parsed.xf_num_fmt_ids@, k),
                ).take(i as int),
                xf_style_ids@ == Seq::new(n as nat, |k: int| 0usize).take(i as int),
            decreases n - i,
        {
            let r = parsed.xf_records[i];
            let a = r.alignment;
            let alignment = if a.horizontal == 0 && a.vertical == 0 && !a.wrap_text && !a.shrink_to_fit
                && a.indent == 0 && a.rotation == 0 {
                None
            } else {
                Some(
                    AlignmentData {
                        horizontal: a.horizontal,
                        vertical: a.vertical,
                        wrap_text: a.wrap_text,
                        shrink: a.shrink_to_fit,
                        indent: a.indent,
                        rotation: a.rotation,
                    },
                )
            };
            let num_fmt_id = if i < parsed.xf_num_fmt_ids.len() {
                parsed.xf_num_fmt_ids[i]
            } else {
                r.num_fmt_id
            };
            let x = XfRecord {
                font_id: r.font_id,
                fill_id: r.fill_id,
                border_id: r.border_id,
                num_fmt_id,
                alignment,
                locked: None,
                formula_hidden: false,
                quote_prefix: false,
            };
            xf_records.push(x);
            xf_style_ids.push(0);
            assert(xf_records@ =~= Seq::new(
                n as nat,
                |k: int| xf_from_parsed(parsed.xf_records@[k], parsed.xf_num_fmt_ids@, k),
            ).take(i + 1));
            assert(xf_style_ids@ =~= Seq::new(n as nat, |k: int| 0usize).take(i + 1));
            i += 1;
        }
        assert(Seq::new(
            n as nat,
            |k: int| xf_from_parsed(parsed.xf_records@[k], parsed.xf_num_fmt_ids@, k),
        ).take(n as int) =~= Seq::new(
            n as nat,
            |k: int| xf_from_parsed(parsed.xf_records@[k], parsed.xf_num_fmt_ids@, k),
        ));
        assert(Seq::new(n as nat, |k: int| 0usize).take(n as int) =~= Seq::new(n as nat, |k: int| 0usize));
        self.fonts = fonts;
        self.fills = fills;
        self.borders = borders;
        self.num_formats = num_formats;
        self.xf_records = xf_records;
        self.xf_style_ids = xf_style_ids;
        self.next_custom_num_fmt_id = highest + 1;
    }
}

} // verus!
