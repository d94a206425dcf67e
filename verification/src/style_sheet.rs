//! Reading the style part of a workbook (`xl/styles.xml`) into its tables.

use vstd::prelude::*;

use crate::error::Error;
use crate::format::{BorderStyle, Format, Pattern, Underline};
use crate::numbers::{
    parse_i16, parse_rgb_color, parse_size_x100, parse_unsigned, spec_parse_rgb, spec_size_x100,
    std_parse_signed, std_parse_unsigned,
};
use crate::style_parser::{
    parse_border_style, parse_h_align, parse_pattern_type, parse_v_align, spec_parse_border_style,
    spec_parse_h_align, spec_parse_pattern_type, spec_parse_v_align, DxfRecord, DxfV, FontV,
    ParsedAlignment, ParsedBorder, ParsedBorderSide, ParsedFill, ParsedFont, ParsedStyles, StylesV,
    XfRecord,
};
use crate::text::{str_eq, to_string};
use crate::xml::{
    attr_items, attr_value, get_attr, local_name, local_part, scan_xml_with, xml_events_in,
    xml_items, XmlAttr, XmlEvent, XmlItem,
};

verus! {

// ── Attribute values ────────────────────────────────────────────────────────

/// An attribute read as a `u16` (0 when absent or not a number in range).
pub open spec fn attr_u16(attrs: Seq<(Seq<char>, Seq<char>)>, key: Seq<char>) -> u16 {
    match attr_value(attrs, key) {
        Some(v) => match std_parse_unsigned(v, u16::MAX as int) {
            Some(n) => n as u16,
            None => 0,
        },
        None => 0,
    }
}

/// An attribute read as a `usize` (0 when absent or not a number in range).
pub open spec fn attr_usize(attrs: Seq<(Seq<char>, Seq<char>)>, key: Seq<char>) -> usize {
    match attr_value(attrs, key) {
        Some(v) => match std_parse_unsigned(v, usize::MAX as int) {
            Some(n) => n as usize,
            None => 0,
        },
        None => 0,
    }
}

/// An attribute's text (empty when absent).
pub open spec fn attr_text(attrs: Seq<(Seq<char>, Seq<char>)>, key: Seq<char>) -> Seq<char> {
    match attr_value(attrs, key) {
        Some(v) => v,
        None => Seq::empty(),
    }
}

/// Whether an attribute is present and reads as true (`1` or `true`).
pub open spec fn attr_flag(attrs: Seq<(Seq<char>, Seq<char>)>, key: Seq<char>) -> Option<bool> {
    match attr_value(attrs, key) {
        Some(v) => Some(v == "1"@ || v == "true"@),
        None => None,
    }
}

/// The color a `<color>`-like element gives through its `rgb` attribute.
///
/// A theme color reference (`theme` and `tint` attributes) is not resolved into a color.
pub open spec fn color_of(attrs: Seq<(Seq<char>, Seq<char>)>) -> Option<[u8; 3]> {
    match attr_value(attrs, "rgb"@) {
        Some(v) => spec_parse_rgb(vstd::utf8::encode_utf8(v)),
        None => None,
    }
}

fn get_u16(attrs: &[XmlAttr], key: &str) -> (res: u16)
    ensures
        res == attr_u16(attr_items(attrs@), key@),
{
    match get_attr(attrs, key) {
        Some(v) => match parse_unsigned(v.as_str(), 65535) {
            Some(n) => n as u16,
            None => 0,
        },
        None => 0,
    }
}

fn get_usize(attrs: &[XmlAttr], key: &str) -> (res: usize)
    ensures
        res == attr_usize(attr_items(attrs@), key@),
{
    match get_attr(attrs, key) {
        Some(v) => match parse_unsigned(v.as_str(), usize::MAX as u64) {
            Some(n) => n as usize,
            None => 0,
        },
        None => 0,
    }
}

fn get_text(attrs: &[XmlAttr], key: &str) -> (res: String)
    ensures
        res@ == attr_text(attr_items(attrs@), key@),
{
    match get_attr(attrs, key) {
        Some(v) => v.clone(),
        None => String::new(),
    }
}

fn get_flag(attrs: &[XmlAttr], key: &str) -> (res: Option<bool>)
    ensures
        res == attr_flag(attr_items(attrs@), key@),
{
    match get_attr(attrs, key) {
        Some(v) => Some(str_eq(v.as_str(), "1") || str_eq(v.as_str(), "true")),
        None => None,
    }
}

fn get_color(attrs: &[XmlAttr]) -> (res: Option<[u8; 3]>)
    ensures
        res == color_of(attr_items(attrs@)),
{
    match get_attr(attrs, "rgb") {
        Some(v) => parse_rgb_color(v.as_str().as_bytes()),
        None => None,
    }
}

// ── Records ─────────────────────────────────────────────────────────────────

/// Calibri 11, no decoration, no color.
pub open spec fn default_font_v() -> FontV {
    FontV {
        bold: false,
        italic: false,
        underline: Underline::NoUnderline,
        strikethrough: false,
        size_x100: 1100,
        name: "Calibri"@,
        color: None,
    }
}

/// No pattern and no colors.
pub open spec fn empty_fill() -> ParsedFill {
    ParsedFill { pattern: Pattern::NoFill, fg_color: None, bg_color: None }
}

/// A side with no line and no color.
pub open spec fn empty_side() -> ParsedBorderSide {
    ParsedBorderSide { style: BorderStyle::NoBorder, color: None }
}

/// A border with no lines.
pub open spec fn empty_border() -> ParsedBorder {
    ParsedBorder {
        left: empty_side(),
        right: empty_side(),
        top: empty_side(),
        bottom: empty_side(),
        diagonal: empty_side(),
    }
}

/// Default alignment: nothing set.
pub open spec fn no_alignment() -> ParsedAlignment {
    ParsedAlignment {
        horizontal: 0,
        vertical: 0,
        wrap_text: false,
        shrink_to_fit: false,
        indent: 0,
        rotation: 0,
    }
}

/// A differential format with nothing in it.
pub open spec fn empty_dxf() -> DxfV {
    DxfV { font: None, fill: None, border: None, num_fmt: None }
}

fn new_font() -> (res: ParsedFont)
    ensures
        res@ == default_font_v(),
{
    ParsedFont {
        bold: false,
        italic: false,
        underline: Underline::NoUnderline,
        strikethrough: false,
        size_x100: 1100,
        name: to_string("Calibri"),
        color: None,
    }
}

fn new_fill() -> (res: ParsedFill)
    ensures
        res == empty_fill(),
{
    ParsedFill { pattern: Pattern::NoFill, fg_color: None, bg_color: None }
}

fn new_side() -> (res: ParsedBorderSide)
    ensures
        res == empty_side(),
{
    ParsedBorderSide { style: BorderStyle::NoBorder, color: None }
}

fn new_border() -> (res: ParsedBorder)
    ensures
        res == empty_border(),
{
    ParsedBorder {
        left: new_side(),
        right: new_side(),
        top: new_side(),
        bottom: new_side(),
        diagonal: new_side(),
    }
}

fn new_dxf() -> (res: DxfRecord)
    ensures
        res@ == empty_dxf(),
{
    DxfRecord { font: None, fill: None, border: None, num_fmt: None }
}

// ── Element readers ─────────────────────────────────────────────────────────

/// The underline a `<u>` element names: `double`, `none`, or single otherwise (also when `val` is
/// absent).
pub open spec fn underline_of(attrs: Seq<(Seq<char>, Seq<char>)>) -> Underline {
    let v = match attr_value(attrs, "val"@) {
        Some(v) => v,
        None => "single"@,
    };
    if v == "double"@ {
        Underline::Double
    } else if v == "none"@ {
        Underline::NoUnderline
    } else {
        Underline::Single
    }
}

/// What an element inside `<font>` sets.
pub open spec fn font_elem(f: FontV, local: Seq<char>, attrs: Seq<(Seq<char>, Seq<char>)>) -> FontV {
    if local == "b"@ {
        FontV { bold: true, ..f }
    } else if local == "i"@ {
        FontV { italic: true, ..f }
    } else if local == "u"@ {
        FontV { underline: underline_of(attrs), ..f }
    } else if local == "strike"@ {
        FontV { strikethrough: true, ..f }
    } else if local == "sz"@ {
        match attr_value(attrs, "val"@) {
            Some(v) => match spec_size_x100(v) {
                Some(x) => FontV { size_x100: x, ..f },
                None => f,
            },
            None => f,
        }
    } else if local == "name"@ {
        match attr_value(attrs, "val"@) {
            Some(v) => FontV { name: v, ..f },
            None => f,
        }
    } else if local == "color"@ {
        FontV { color: color_of(attrs), ..f }
    } else {
        f
    }
}

/// The name and attributes of a start tag or an empty element.
pub open spec fn open_tag(ev: XmlItem) -> Option<(Seq<char>, Seq<(Seq<char>, Seq<char>)>)> {
    match ev {
        XmlItem::Start { name, attrs } => Some((local_part(name), attrs)),
        XmlItem::Empty { name, attrs } => Some((local_part(name), attrs)),
        _ => None,
    }
}

/// The local name of an end tag.
pub open spec fn close_tag(ev: XmlItem) -> Option<Seq<char>> {
    match ev {
        XmlItem::End { name } => Some(local_part(name)),
        _ => None,
    }
}

/// One event inside a `<font>`: the font after it, and whether it closed the font.
pub open spec fn font_step(f: FontV, ev: XmlItem) -> (FontV, bool) {
    match open_tag(ev) {
        Some((local, attrs)) => (font_elem(f, local, attrs), false),
        None => (f, close_tag(ev) == Some("font"@)),
    }
}

/// What an element opened inside a `<fill>` sets: the fill, and whether a `<patternFill>` is
/// open.
pub open spec fn fill_open(
    f: ParsedFill,
    in_pattern: bool,
    local: Seq<char>,
    attrs: Seq<(Seq<char>, Seq<char>)>,
) -> (ParsedFill, bool) {
    if local == "patternFill"@ {
        (
            match attr_value(attrs, "patternType"@) {
                Some(v) => ParsedFill { pattern: spec_parse_pattern_type(v), ..f },
                None => f,
            },
            true,
        )
    } else if local == "fgColor"@ && in_pattern {
        (ParsedFill { fg_color: color_of(attrs), ..f }, in_pattern)
    } else if local == "bgColor"@ && in_pattern {
        (ParsedFill { bg_color: color_of(attrs), ..f }, in_pattern)
    } else {
        (f, in_pattern)
    }
}

/// One event inside a `<fill>`: the fill, whether a `<patternFill>` is open, and whether the
/// fill closed.
pub open spec fn fill_step(f: ParsedFill, in_pattern: bool, ev: XmlItem) -> (ParsedFill, bool, bool) {
    match open_tag(ev) {
        Some((local, attrs)) => {
            let (f2, p2) = fill_open(f, in_pattern, local, attrs);
            (f2, p2, false)
        },
        None => match close_tag(ev) {
            Some(local) => if local == "patternFill"@ {
                (f, false, false)
            } else {
                (f, in_pattern, local == "fill"@)
            },
            None => (f, in_pattern, false),
        },
    }
}

/// The sides of a border.
#[derive(Clone, Copy, PartialEq, Eq, Structural)]
pub enum BorderEdge {
    Left,
    Right,
    Top,
    Bottom,
    Diagonal,
}

/// The side an element name stands for.
pub open spec fn edge_of(local: Seq<char>) -> Option<BorderEdge> {
    if local == "left"@ {
        Some(BorderEdge::Left)
    } else if local == "right"@ {
        Some(BorderEdge::Right)
    } else if local == "top"@ {
        Some(BorderEdge::Top)
    } else if local == "bottom"@ {
        Some(BorderEdge::Bottom)
    } else if local == "diagonal"@ {
        Some(BorderEdge::Diagonal)
    } else {
        None
    }
}

/// The element name of a side.
pub open spec fn edge_name(e: BorderEdge) -> Seq<char> {
    match e {
        BorderEdge::Left => "left"@,
        BorderEdge::Right => "right"@,
        BorderEdge::Top => "top"@,
        BorderEdge::Bottom => "bottom"@,
        BorderEdge::Diagonal => "diagonal"@,
    }
}

/// A border with one side replaced.
pub open spec fn set_edge(b: ParsedBorder, e: BorderEdge, s: ParsedBorderSide) -> ParsedBorder {
    match e {
        BorderEdge::Left => ParsedBorder { left: s, ..b },
        BorderEdge::Right => ParsedBorder { right: s, ..b },
        BorderEdge::Top => ParsedBorder { top: s, ..b },
        BorderEdge::Bottom => ParsedBorder { bottom: s, ..b },
        BorderEdge::Diagonal => ParsedBorder { diagonal: s, ..b },
    }
}

/// The line style a side element names in its `style` attribute (none when absent).
pub open spec fn style_of(attrs: Seq<(Seq<char>, Seq<char>)>) -> BorderStyle {
    match attr_value(attrs, "style"@) {
        Some(v) => spec_parse_border_style(v),
        None => BorderStyle::NoBorder,
    }
}

/// One event inside a `<border>`: the border, the side being read (if any), and whether the
/// border closed.
pub open spec fn border_step(
    b: ParsedBorder,
    side: Option<(BorderEdge, ParsedBorderSide)>,
    ev: XmlItem,
) -> (ParsedBorder, Option<(BorderEdge, ParsedBorderSide)>, bool) {
    match side {
        Some((e, sd)) => match open_tag(ev) {
            Some((local, attrs)) => if local == "color"@ {
                (b, Some((e, ParsedBorderSide { color: color_of(attrs), ..sd })), false)
            } else {
                (b, side, false)
            },
            None => if close_tag(ev) == Some(edge_name(e)) {
                (set_edge(b, e, sd), None, false)
            } else {
                (b, side, false)
            },
        },
        None => match ev {
            XmlItem::Start { name, attrs } => match edge_of(local_part(name)) {
                Some(e) => (b, Some((e, ParsedBorderSide { style: style_of(attrs), color: None })), false),
                None => (b, None, false),
            },
            XmlItem::Empty { name, attrs } => match edge_of(local_part(name)) {
                Some(e) => (
                    set_edge(b, e, ParsedBorderSide { style: style_of(attrs), color: None }),
                    None,
                    false,
                ),
                None => (b, None, false),
            },
            XmlItem::End { name } => (b, None, local_part(name) == "border"@),
            _ => (b, None, false),
        },
    }
}

/// A border with the side being read, if any, stored in it.
pub open spec fn flush_border(b: ParsedBorder, side: Option<(BorderEdge, ParsedBorderSide)>) -> ParsedBorder {
    match side {
        Some((e, sd)) => set_edge(b, e, sd),
        None => b,
    }
}

/// The alignment an `<alignment>` element gives.
pub open spec fn alignment_of(attrs: Seq<(Seq<char>, Seq<char>)>) -> ParsedAlignment {
    ParsedAlignment {
        horizontal: match attr_value(attrs, "horizontal"@) {
            Some(v) => spec_parse_h_align(v),
            None => 0,
        },
        vertical: match attr_value(attrs, "vertical"@) {
            Some(v) => spec_parse_v_align(v),
            None => 0,
        },
        wrap_text: attr_flag(attrs, "wrapText"@) == Some(true),
        shrink_to_fit: attr_flag(attrs, "shrinkToFit"@) == Some(true),
        indent: match attr_value(attrs, "indent"@) {
            Some(v) => match std_parse_unsigned(v, u8::MAX as int) {
                Some(n) => n as u8,
                None => 0,
            },
            None => 0,
        },
        rotation: match attr_value(attrs, "textRotation"@) {
            Some(v) => match std_parse_signed(v, i16::MIN as int, i16::MAX as int) {
                Some(n) => n as i16,
                None => 0,
            },
            None => 0,
        },
    }
}

/// The xf record an `<xf>` element opens (alignment not yet read).
pub open spec fn xf_of(attrs: Seq<(Seq<char>, Seq<char>)>) -> XfRecord {
    XfRecord {
        font_id: attr_usize(attrs, "fontId"@),
        fill_id: attr_usize(attrs, "fillId"@),
        border_id: attr_usize(attrs, "borderId"@),
        num_fmt_id: attr_u16(attrs, "numFmtId"@),
        alignment: no_alignment(),
    }
}

/// The (id, code) pair a `<numFmt>` element declares.
pub open spec fn num_fmt_of(attrs: Seq<(Seq<char>, Seq<char>)>) -> (u16, Seq<char>) {
    (attr_u16(attrs, "numFmtId"@), attr_text(attrs, "formatCode"@))
}

// ── The reader ──────────────────────────────────────────────────────────────

/// What the reader is in the middle of.
#[derive(Clone, Copy, PartialEq, Eq, Structural)]
pub enum StyleMode {
    Idle,
    Font,
    Fill,
    Border,
    Dxf,
}

/// Where the reader stands in a style part.
pub ghost struct StyleScan {
    pub out: StylesV,
    pub in_fonts: bool,
    pub in_fills: bool,
    pub in_borders: bool,
    pub in_cell_xfs: bool,
    pub in_dxfs: bool,
    pub current_xf: Option<XfRecord>,
    /// The element being read at the top level.
    pub mode: StyleMode,
    /// The element being read inside a `<dxf>`.
    pub dxf_mode: StyleMode,
    pub font: FontV,
    pub fill: ParsedFill,
    pub in_pattern: bool,
    pub border: ParsedBorder,
    pub side: Option<(BorderEdge, ParsedBorderSide)>,
    pub dxf: DxfV,
}

/// The state before the first event.
pub open spec fn style_scan_start() -> StyleScan {
    StyleScan {
        out: StylesV {
            num_formats: Seq::empty(),
            xf_num_fmt_ids: Seq::empty(),
            fonts: Seq::empty(),
            fills: Seq::empty(),
            borders: Seq::empty(),
            xf_records: Seq::empty(),
            dxf_records: Seq::empty(),
        },
        in_fonts: false,
        in_fills: false,
        in_borders: false,
        in_cell_xfs: false,
        in_dxfs: false,
        current_xf: None,
        mode: StyleMode::Idle,
        dxf_mode: StyleMode::Idle,
        font: default_font_v(),
        fill: empty_fill(),
        in_pattern: false,
        border: empty_border(),
        side: None,
        dxf: empty_dxf(),
    }
}

/// A start tag at the top level.
pub open spec fn top_start(st: StyleScan, local: Seq<char>, attrs: Seq<(Seq<char>, Seq<char>)>) -> StyleScan {
    if local == "fonts"@ {
        StyleScan { in_fonts: true, ..st }
    } else if local == "fills"@ {
        StyleScan { in_fills: true, ..st }
    } else if local == "borders"@ {
        StyleScan { in_borders: true, ..st }
    } else if local == "cellXfs"@ {
        StyleScan { in_cell_xfs: true, ..st }
    } else if local == "dxfs"@ {
        StyleScan { in_dxfs: true, ..st }
    } else if local == "font"@ && st.in_fonts && !st.in_dxfs {
        StyleScan { mode: StyleMode::Font, font: default_font_v(), ..st }
    } else if local == "fill"@ && st.in_fills && !st.in_dxfs {
        StyleScan { mode: StyleMode::Fill, fill: empty_fill(), in_pattern: false, ..st }
    } else if local == "border"@ && st.in_borders && !st.in_dxfs {
        StyleScan { mode: StyleMode::Border, border: empty_border(), side: None, ..st }
    } else if local == "xf"@ && st.in_cell_xfs {
        StyleScan {
            out: StylesV { xf_num_fmt_ids: st.out.xf_num_fmt_ids.push(attr_u16(attrs, "numFmtId"@)), ..st.out },
            current_xf: Some(xf_of(attrs)),
            ..st
        }
    } else if local == "alignment"@ && st.current_xf is Some {
        StyleScan { current_xf: Some(XfRecord { alignment: alignment_of(attrs), ..st.current_xf.unwrap() }), ..st }
    } else if local == "dxf"@ && st.in_dxfs {
        StyleScan { mode: StyleMode::Dxf, dxf_mode: StyleMode::Idle, dxf: empty_dxf(), ..st }
    } else if local == "numFmt"@ {
        StyleScan { out: StylesV { num_formats: st.out.num_formats.push(num_fmt_of(attrs)), ..st.out }, ..st }
    } else {
        st
    }
}

/// An empty element at the top level.
pub open spec fn top_empty(st: StyleScan, local: Seq<char>, attrs: Seq<(Seq<char>, Seq<char>)>) -> StyleScan {
    if local == "numFmt"@ {
        StyleScan { out: StylesV { num_formats: st.out.num_formats.push(num_fmt_of(attrs)), ..st.out }, ..st }
    } else if local == "xf"@ && st.in_cell_xfs {
        StyleScan {
            out: StylesV {
                xf_num_fmt_ids: st.out.xf_num_fmt_ids.push(attr_u16(attrs, "numFmtId"@)),
                xf_records: st.out.xf_records.push(xf_of(attrs)),
                ..st.out
            },
            ..st
        }
    } else if local == "alignment"@ && st.current_xf is Some {
        StyleScan { current_xf: Some(XfRecord { alignment: alignment_of(attrs), ..st.current_xf.unwrap() }), ..st }
    } else if local == "font"@ && st.in_fonts && !st.in_dxfs {
        StyleScan { out: StylesV { fonts: st.out.fonts.push(default_font_v()), ..st.out }, ..st }
    } else if local == "fill"@ && st.in_fills && !st.in_dxfs {
        StyleScan { out: StylesV { fills: st.out.fills.push(empty_fill()), ..st.out }, ..st }
    } else if local == "border"@ && st.in_borders && !st.in_dxfs {
        StyleScan { out: StylesV { borders: st.out.borders.push(empty_border()), ..st.out }, ..st }
    } else if local == "dxf"@ && st.in_dxfs {
        StyleScan { out: StylesV { dxf_records: st.out.dxf_records.push(empty_dxf()), ..st.out }, ..st }
    } else {
        st
    }
}

/// An end tag at the top level.
pub open spec fn top_end(st: StyleScan, local: Seq<char>) -> StyleScan {
    if local == "fonts"@ {
        StyleScan { in_fonts: false, ..st }
    } else if local == "fills"@ {
        StyleScan { in_fills: false, ..st }
    } else if local == "borders"@ {
        StyleScan { in_borders: false, ..st }
    } else if local == "cellXfs"@ {
        StyleScan { in_cell_xfs: false, ..st }
    } else if local == "dxfs"@ {
        StyleScan { in_dxfs: false, ..st }
    } else if local == "xf"@ && st.in_cell_xfs {
        match st.current_xf {
            Some(xf) => StyleScan {
                out: StylesV { xf_records: st.out.xf_records.push(xf), ..st.out },
                current_xf: None,
                ..st
            },
            None => st,
        }
    } else {
        st
    }
}

/// One event inside a `<dxf>` that is not inside one of its font, fill or border.
pub open spec fn dxf_idle_step(st: StyleScan, ev: XmlItem) -> StyleScan {
    match ev {
        XmlItem::Start { name, attrs } => {
            let local = local_part(name);
            if local == "font"@ {
                StyleScan { dxf_mode: StyleMode::Font, font: default_font_v(), ..st }
            } else if local == "fill"@ {
                StyleScan { dxf_mode: StyleMode::Fill, fill: empty_fill(), in_pattern: false, ..st }
            } else if local == "border"@ {
                StyleScan { dxf_mode: StyleMode::Border, border: empty_border(), side: None, ..st }
            } else if local == "numFmt"@ {
                StyleScan { dxf: DxfV { num_fmt: Some(num_fmt_of(attrs)), ..st.dxf }, ..st }
            } else {
                st
            }
        },
        XmlItem::Empty { name, attrs } => if local_part(name) == "numFmt"@ {
            StyleScan { dxf: DxfV { num_fmt: Some(num_fmt_of(attrs)), ..st.dxf }, ..st }
        } else {
            st
        },
        XmlItem::End { name } => if local_part(name) == "dxf"@ {
            StyleScan {
                out: StylesV { dxf_records: st.out.dxf_records.push(st.dxf), ..st.out },
                mode: StyleMode::Idle,
                dxf: empty_dxf(),
                ..st
            }
        } else {
            st
        },
        _ => st,
    }
}

/// One event inside a `<dxf>`.
pub open spec fn dxf_step(st: StyleScan, ev: XmlItem) -> StyleScan {
    if st.dxf_mode == StyleMode::Font {
        let (f, done) = font_step(st.font, ev);
        if done {
            StyleScan { dxf: DxfV { font: Some(f), ..st.dxf }, dxf_mode: StyleMode::Idle, font: default_font_v(), ..st }
        } else {
            StyleScan { font: f, ..st }
        }
    } else if st.dxf_mode == StyleMode::Fill {
        let (f, p, done) = fill_step(st.fill, st.in_pattern, ev);
        if done {
            StyleScan { dxf: DxfV { fill: Some(f), ..st.dxf }, dxf_mode: StyleMode::Idle, fill: f, in_pattern: p, ..st }
        } else {
            StyleScan { fill: f, in_pattern: p, ..st }
        }
    } else if st.dxf_mode == StyleMode::Border {
        let (b, sd, done) = border_step(st.border, st.side, ev);
        if done {
            StyleScan { dxf: DxfV { border: Some(b), ..st.dxf }, dxf_mode: StyleMode::Idle, border: b, side: sd, ..st }
        } else {
            StyleScan { border: b, side: sd, ..st }
        }
    } else {
        dxf_idle_step(st, ev)
    }
}

/// How one event moves the reader.
pub open spec fn style_step(st: StyleScan, ev: XmlItem) -> StyleScan {
    if st.mode == StyleMode::Font {
        let (f, done) = font_step(st.font, ev);
        if done {
            StyleScan {
                out: StylesV { fonts: st.out.fonts.push(f), ..st.out },
                mode: StyleMode::Idle,
                font: default_font_v(),
                ..st
            }
        } else {
            StyleScan { font: f, ..st }
        }
    } else if st.mode == StyleMode::Fill {
        let (f, p, done) = fill_step(st.fill, st.in_pattern, ev);
        if done {
            StyleScan {
                out: StylesV { fills: st.out.fills.push(f), ..st.out },
                mode: StyleMode::Idle,
                fill: f,
                in_pattern: p,
                ..st
            }
        } else {
            StyleScan { fill: f, in_pattern: p, ..st }
        }
    } else if st.mode == StyleMode::Border {
        let (b, sd, done) = border_step(st.border, st.side, ev);
        if done {
            StyleScan {
                out: StylesV { borders: st.out.borders.push(b), ..st.out },
                mode: StyleMode::Idle,
                border: b,
                side: sd,
                ..st
            }
        } else {
            StyleScan { border: b, side: sd, ..st }
        }
    } else if st.mode == StyleMode::Dxf {
        dxf_step(st, ev)
    } else {
        match ev {
            XmlItem::Start { name, attrs } => top_start(st, local_part(name), attrs),
            XmlItem::Empty { name, attrs } => top_empty(st, local_part(name), attrs),
            XmlItem::End { name } => top_end(st, local_part(name)),
            _ => st,
        }
    }
}

/// The reader's state after a run of events.
pub open spec fn style_run(items: Seq<XmlItem>) -> StyleScan
    decreases items.len(),
{
    if items.len() == 0 {
        style_scan_start()
    } else {
        style_step(style_run(items.drop_last()), items.last())
    }
}

/// The tables once the input has ended: an element still being read is kept as far as it was
/// read, and the number-format ids of the xf records are at least `[0]`.
pub open spec fn style_finish(st: StyleScan) -> StylesV {
    let out = if st.mode == StyleMode::Font {
        StylesV { fonts: st.out.fonts.push(st.font), ..st.out }
    } else if st.mode == StyleMode::Fill {
        StylesV { fills: st.out.fills.push(st.fill), ..st.out }
    } else if st.mode == StyleMode::Border {
        StylesV { borders: st.out.borders.push(flush_border(st.border, st.side)), ..st.out }
    } else if st.mode == StyleMode::Dxf {
        let d = if st.dxf_mode == StyleMode::Font {
            DxfV { font: Some(st.font), ..st.dxf }
        } else if st.dxf_mode == StyleMode::Fill {
            DxfV { fill: Some(st.fill), ..st.dxf }
        } else if st.dxf_mode == StyleMode::Border {
            DxfV { border: Some(flush_border(st.border, st.side)), ..st.dxf }
        } else {
            st.dxf
        };
        StylesV { dxf_records: st.out.dxf_records.push(d), ..st.out }
    } else {
        st.out
    };
    if out.xf_num_fmt_ids.len() == 0 {
        StylesV { xf_num_fmt_ids: seq![0u16], ..out }
    } else {
        out
    }
}

/// What `parse_styles` reads from a style part: its tables, or nothing when the part is not
/// well-formed XML. Empty elements are read as they are written, not expanded.
pub open spec fn spec_parse_styles(data: Seq<u8>) -> Option<StylesV> {
    if xml_events_in(data, false).1 {
        Some(style_finish(style_run(xml_events_in(data, false).0)))
    } else {
        None
    }
}

// ── Executable reader ───────────────────────────────────────────────────────

fn read_underline(attrs: &[XmlAttr]) -> (res: Underline)
    ensures
        res == underline_of(attr_items(attrs@)),
{
    let v = match get_attr(attrs, "val") {
        Some(v) => v.as_str(),
        None => "single",
    };
    if str_eq(v, "double") {
        Underline::Double
    } else if str_eq(v, "none") {
        Underline::NoUnderline
    } else {
        Underline::Single
    }
}

fn apply_font_elem(f: &mut ParsedFont, local: &str, attrs: &[XmlAttr])
    ensures
        final(f)@ == font_elem(old(f)@, local@, attr_items(attrs@)),
{
    if str_eq(local, "b") {
        f.bold = true;
    } else if str_eq(local, "i") {
        f.italic = true;
    } else if str_eq(local, "u") {
        f.underline = read_underline(attrs);
    } else if str_eq(local, "strike") {
        f.strikethrough = true;
    } else if str_eq(local, "sz") {
        match get_attr(attrs, "val") {
            Some(v) => match parse_size_x100(v.as_str()) {
                Some(x) => {
                    f.size_x100 = x;
                },
                None => {},
            },
            None => {},
        }
    } else if str_eq(local, "name") {
        match get_attr(attrs, "val") {
            Some(v) => {
                f.name = v.clone();
            },
            None => {},
        }
    } else if str_eq(local, "color") {
        f.color = get_color(attrs);
    }
}

fn font_event(f: &mut ParsedFont, ev: &XmlEvent) -> (done: bool)
    ensures
        (final(f)@, done) == font_step(old(f)@, ev@),
{
    match ev {
        XmlEvent::Start { name, attrs } => {
            let local = local_name(name.as_str());
            apply_font_elem(f, local.as_str(), attrs.as_slice());
            false
        },
        XmlEvent::Empty { name, attrs } => {
            let local = local_name(name.as_str());
            apply_font_elem(f, local.as_str(), attrs.as_slice());
            false
        },
        XmlEvent::End { name } => {
            let local = local_name(name.as_str());
            str_eq(local.as_str(), "font")
        },
        _ => false,
    }
}

fn apply_fill_open(f: &mut ParsedFill, in_pattern: &mut bool, local: &str, attrs: &[XmlAttr])
    ensures
        (*final(f), *final(in_pattern)) == fill_open(*old(f), *old(in_pattern), local@, attr_items(attrs@)),
{
    if str_eq(local, "patternFill") {
        match get_attr(attrs, "patternType") {
            Some(v) => {
                f.pattern = parse_pattern_type(v.as_str());
            },
            None => {},
        }
        *in_pattern = true;
    } else if str_eq(local, "fgColor") && *in_pattern {
        f.fg_color = get_color(attrs);
    } else if str_eq(local, "bgColor") && *in_pattern {
        f.bg_color = get_color(attrs);
    }
}

fn fill_event(f: &mut ParsedFill, in_pattern: &mut bool, ev: &XmlEvent) -> (done: bool)
    ensures
        (*final(f), *final(in_pattern), done) == fill_step(*old(f), *old(in_pattern), ev@),
{
    match ev {
        XmlEvent::Start { name, attrs } => {
            let local = local_name(name.as_str());
            apply_fill_open(f, in_pattern, local.as_str(), attrs.as_slice());
            false
        },
        XmlEvent::Empty { name, attrs } => {
            let local = local_name(name.as_str());
            apply_fill_open(f, in_pattern, local.as_str(), attrs.as_slice());
            false
        },
        XmlEvent::End { name } => {
            let local = local_name(name.as_str());
            if str_eq(local.as_str(), "patternFill") {
                *in_pattern = false;
                false
            } else {
                str_eq(local.as_str(), "fill")
            }
        },
        _ => false,
    }
}

fn read_edge(local: &str) -> (res: Option<BorderEdge>)
    ensures
        res == edge_of(local@),
{
    if str_eq(local, "left") {
        Some(BorderEdge::Left)
    } else if str_eq(local, "right") {
        Some(BorderEdge::Right)
    } else if str_eq(local, "top") {
        Some(BorderEdge::Top)
    } else if str_eq(local, "bottom") {
        Some(BorderEdge::Bottom)
    } else if str_eq(local, "diagonal") {
        Some(BorderEdge::Diagonal)
    } else {
        None
    }
}

fn edge_tag(e: BorderEdge) -> (res: &'static str)
    ensures
        res@ == edge_name(e),
{
    match e {
        BorderEdge::Left => "left",
        BorderEdge::Right => "right",
        BorderEdge::Top => "top",
        BorderEdge::Bottom => "bottom",
        BorderEdge::Diagonal => "diagonal",
    }
}

fn put_edge(b: &mut ParsedBorder, e: BorderEdge, sd: ParsedBorderSide)
    ensures
        *final(b) == set_edge(*old(b), e, sd),
{
    match e {
        BorderEdge::Left => b.left = sd,
        BorderEdge::Right => b.right = sd,
        BorderEdge::Top => b.top = sd,
        BorderEdge::Bottom => b.bottom = sd,
        BorderEdge::Diagonal => b.diagonal = sd,
    }
}

fn read_style(attrs: &[XmlAttr]) -> (res: BorderStyle)
    ensures
        res == style_of(attr_items(attrs@)),
{
    match get_attr(attrs, "style") {
        Some(v) => parse_border_style(v.as_str()),
        None => BorderStyle::NoBorder,
    }
}

fn border_event(
    b: &mut ParsedBorder,
    side: &mut Option<(BorderEdge, ParsedBorderSide)>,
    ev: &XmlEvent,
) -> (done: bool)
    ensures
        (*final(b), *final(side), done) == border_step(*old(b), *old(side), ev@),
{
    match *side {
        Some((e, sd)) => {
            match ev {
                XmlEvent::Start { name, attrs } => {
                    let local = local_name(name.as_str());
                    if str_eq(local.as_str(), "color") {
                        *side = Some((e, ParsedBorderSide { color: get_color(attrs.as_slice()), ..sd }));
                    }
                },
                XmlEvent::Empty { name, attrs } => {
                    let local = local_name(name.as_str());
                    if str_eq(local.as_str(), "color") {
                        *side = Some((e, ParsedBorderSide { color: get_color(attrs.as_slice()), ..sd }));
                    }
                },
                XmlEvent::End { name } => {
                    let local = local_name(name.as_str());
                    if str_eq(local.as_str(), edge_tag(e)) {
                        put_edge(b, e, sd);
                        *side = None;
                    }
                },
                _ => {},
            }
            false
        },
        None => match ev {
            XmlEvent::Start { name, attrs } => {
                let local = local_name(name.as_str());
                match read_edge(local.as_str()) {
                    Some(e) => {
                        *side = Some((e, ParsedBorderSide { style: read_style(attrs.as_slice()), color: None }));
                    },
                    None => {},
                }
                false
            },
            XmlEvent::Empty { name, attrs } => {
                let local = local_name(name.as_str());
                match read_edge(local.as_str()) {
                    Some(e) => {
                        put_edge(b, e, ParsedBorderSide { style: read_style(attrs.as_slice()), color: None });
                    },
                    None => {},
                }
                false
            },
            XmlEvent::End { name } => {
                let local = local_name(name.as_str());
                str_eq(local.as_str(), "border")
            },
            _ => false,
        },
    }
}

fn read_alignment(attrs: &[XmlAttr]) -> (res: ParsedAlignment)
    ensures
        res == alignment_of(attr_items(attrs@)),
{
    let horizontal = match get_attr(attrs, "horizontal") {
        Some(v) => parse_h_align(v.as_str()),
        None => 0,
    };
    let vertical = match get_attr(attrs, "vertical") {
        Some(v) => parse_v_align(v.as_str()),
        None => 0,
    };
    let wrap_text = match get_flag(attrs, "wrapText") {
        Some(b) => b,
        None => false,
    };
    let shrink_to_fit = match get_flag(attrs, "shrinkToFit") {
        Some(b) => b,
        None => false,
    };
    let indent = match get_attr(attrs, "indent") {
        Some(v) => match parse_unsigned(v.as_str(), 255) {
            Some(n) => n as u8,
            None => 0,
        },
        None => 0,
    };
    let rotation = match get_attr(attrs, "textRotation") {
        Some(v) => match parse_i16(v.as_str()) {
            Some(n) => n,
            None => 0,
        },
        None => 0,
    };
    ParsedAlignment { horizontal, vertical, wrap_text, shrink_to_fit, indent, rotation }
}

fn read_xf(attrs: &[XmlAttr]) -> (res: XfRecord)
    ensures
        res == xf_of(attr_items(attrs@)),
{
    XfRecord {
        font_id: get_usize(attrs, "fontId"),
        fill_id: get_usize(attrs, "fillId"),
        border_id: get_usize(attrs, "borderId"),
        num_fmt_id: get_u16(attrs, "numFmtId"),
        alignment: ParsedAlignment {
            horizontal: 0,
            vertical: 0,
            wrap_text: false,
            shrink_to_fit: false,
            indent: 0,
            rotation: 0,
        },
    }
}

fn read_num_fmt(attrs: &[XmlAttr]) -> (res: (u16, String))
    ensures
        (res.0, res.1@) == num_fmt_of(attr_items(attrs@)),
{
    (get_u16(attrs, "numFmtId"), get_text(attrs, "formatCode"))
}

fn push_font(out: &mut ParsedStyles, f: ParsedFont)
    ensures
        final(out)@ == (StylesV { fonts: old(out)@.fonts.push(f@), ..old(out)@ }),
{
    let ghost fv = f@;
    out.fonts.push(f);
    assert(out@.fonts =~= old(out)@.fonts.push(fv));
}

fn push_dxf(out: &mut ParsedStyles, d: DxfRecord)
    ensures
        final(out)@ == (StylesV { dxf_records: old(out)@.dxf_records.push(d@), ..old(out)@ }),
{
    let ghost dv = d@;
    out.dxf_records.push(d);
    assert(out@.dxf_records =~= old(out)@.dxf_records.push(dv));
}

fn push_num_fmt(out: &mut ParsedStyles, n: (u16, String))
    ensures
        final(out)@ == (StylesV { num_formats: old(out)@.num_formats.push((n.0, n.1@)), ..old(out)@ }),
{
    let ghost nv = (n.0, n.1@);
    out.num_formats.push(n);
    assert(out@.num_formats =~= old(out)@.num_formats.push(nv));
}

fn take_font(f: &mut ParsedFont) -> (res: ParsedFont)
    ensures
        res@ == old(f)@,
        final(f)@ == default_font_v(),
{
    let mut fresh = new_font();
    std::mem::swap(f, &mut fresh);
    fresh
}

fn take_dxf(d: &mut DxfRecord) -> (res: DxfRecord)
    ensures
        res@ == old(d)@,
        final(d)@ == empty_dxf(),
{
    let mut fresh = new_dxf();
    std::mem::swap(d, &mut fresh);
    fresh
}

struct StyleReader {
    out: ParsedStyles,
    in_fonts: bool,
    in_fills: bool,
    in_borders: bool,
    in_cell_xfs: bool,
    in_dxfs: bool,
    current_xf: Option<XfRecord>,
    mode: StyleMode,
    dxf_mode: StyleMode,
    font: ParsedFont,
    fill: ParsedFill,
    in_pattern: bool,
    border: ParsedBorder,
    side: Option<(BorderEdge, ParsedBorderSide)>,
    dxf: DxfRecord,
}

impl View for StyleReader {
    type V = StyleScan;

    closed spec fn view(&self) -> StyleScan {
        StyleScan {
            out: self.out@,
            in_fonts: self.in_fonts,
            in_fills: self.in_fills,
            in_borders: self.in_borders,
            in_cell_xfs: self.in_cell_xfs,
            in_dxfs: self.in_dxfs,
            current_xf: self.current_xf,
            mode: self.mode,
            dxf_mode: self.dxf_mode,
            font: self.font@,
            fill: self.fill,
            in_pattern: self.in_pattern,
            border: self.border,
            side: self.side,
            dxf: self.dxf@,
        }
    }
}

impl StyleReader {
    fn new() -> (res: Self)
        ensures
            res@ == style_scan_start(),
    {
        let res = StyleReader {
            out: ParsedStyles {
                num_formats: Vec::new(),
                xf_num_fmt_ids: Vec::new(),
                fonts: Vec::new(),
                fills: Vec::new(),
                borders: Vec::new(),
                xf_records: Vec::new(),
                dxf_records: Vec::new(),
            },
            in_fonts: false,
            in_fills: false,
            in_borders: false,
            in_cell_xfs: false,
            in_dxfs: false,
            current_xf: None,
            mode: StyleMode::Idle,
            dxf_mode: StyleMode::Idle,
            font: new_font(),
            fill: new_fill(),
            in_pattern: false,
            border: new_border(),
            side: None,
            dxf: new_dxf(),
        };
        assert(res.out@.num_formats =~= Seq::<(u16, Seq<char>)>::empty());
        assert(res.out@.fonts =~= Seq::<FontV>::empty());
        assert(res.out@.dxf_records =~= Seq::<DxfV>::empty());
        res
    }

    fn top_start(&mut self, local: &str, attrs: &[XmlAttr])
        ensures
            final(self)@ == top_start(old(self)@, local@, attr_items(attrs@)),
    {
        if str_eq(local, "fonts") {
            self.in_fonts = true;
        } else if str_eq(local, "fills") {
            self.in_fills = true;
        } else if str_eq(local, "borders") {
            self.in_borders = true;
        } else if str_eq(local, "cellXfs") {
            self.in_cell_xfs = true;
        } else if str_eq(local, "dxfs") {
            self.in_dxfs = true;
        } else if str_eq(local, "font") && self.in_fonts && !self.in_dxfs {
            self.mode = StyleMode::Font;
            self.font = new_font();
        } else if str_eq(local, "fill") && self.in_fills && !self.in_dxfs {
            self.mode = StyleMode::Fill;
            self.fill = new_fill();
            self.in_pattern = false;
        } else if str_eq(local, "border") && self.in_borders && !self.in_dxfs {
            self.mode = StyleMode::Border;
            self.border = new_border();
            self.side = None;
        } else if str_eq(local, "xf") && self.in_cell_xfs {
            let xf = read_xf(attrs);
            self.out.xf_num_fmt_ids.push(xf.num_fmt_id);
            self.current_xf = Some(xf);
        } else if str_eq(local, "alignment") && self.current_xf.is_some() {
            let a = read_alignment(attrs);
            match self.current_xf {
                Some(xf) => {
                    self.current_xf = Some(XfRecord { alignment: a, ..xf });
                },
                None => {},
            }
        } else if str_eq(local, "dxf") && self.in_dxfs {
            self.mode = StyleMode::Dxf;
            self.dxf_mode = StyleMode::Idle;
            self.dxf = new_dxf();
        } else if str_eq(local, "numFmt") {
            push_num_fmt(&mut self.out, read_num_fmt(attrs));
        }
    }

    fn top_empty(&mut self, local: &str, attrs: &[XmlAttr])
        ensures
            final(self)@ == top_empty(old(self)@, local@, attr_items(attrs@)),
    {
        if str_eq(local, "numFmt") {
            push_num_fmt(&mut self.out, read_num_fmt(attrs));
        } else if str_eq(local, "xf") && self.in_cell_xfs {
            let xf = read_xf(attrs);
            self.out.xf_num_fmt_ids.push(xf.num_fmt_id);
            self.out.xf_records.push(xf);
        } else if str_eq(local, "alignment") && self.current_xf.is_some() {
            let a = read_alignment(attrs);
            match self.current_xf {
                Some(xf) => {
                    self.current_xf = Some(XfRecord { alignment: a, ..xf });
                },
                None => {},
            }
        } else if str_eq(local, "font") && self.in_fonts && !self.in_dxfs {
            push_font(&mut self.out, new_font());
        } else if str_eq(local, "fill") && self.in_fills && !self.in_dxfs {
            self.out.fills.push(new_fill());
        } else if str_eq(local, "border") && self.in_borders && !self.in_dxfs {
            self.out.borders.push(new_border());
        } else if str_eq(local, "dxf") && self.in_dxfs {
            push_dxf(&mut self.out, new_dxf());
        }
    }

    fn top_end(&mut self, local: &str)
        ensures
            final(self)@ == top_end(old(self)@, local@),
    {
        if str_eq(local, "fonts") {
            self.in_fonts = false;
        } else if str_eq(local, "fills") {
            self.in_fills = false;
        } else if str_eq(local, "borders") {
            self.in_borders = false;
        } else if str_eq(local, "cellXfs") {
            self.in_cell_xfs = false;
        } else if str_eq(local, "dxfs") {
            self.in_dxfs = false;
        } else if str_eq(local, "xf") && self.in_cell_xfs {
            match self.current_xf {
                Some(xf) => {
                    self.out.xf_records.push(xf);
                    self.current_xf = None;
                },
                None => {},
            }
        }
    }

    fn dxf_idle(&mut self, ev: &XmlEvent)
        ensures
            final(self)@ == dxf_idle_step(old(self)@, ev@),
    {
        match ev {
            XmlEvent::Start { name, attrs } => {
                let local = local_name(name.as_str());
                let l = local.as_str();
                if str_eq(l, "font") {
                    self.dxf_mode = StyleMode::Font;
                    self.font = new_font();
                } else if str_eq(l, "fill") {
                    self.dxf_mode = StyleMode::Fill;
                    self.fill = new_fill();
                    self.in_pattern = false;
                } else if str_eq(l, "border") {
                    self.dxf_mode = StyleMode::Border;
                    self.border = new_border();
                    self.side = None;
                } else if str_eq(l, "numFmt") {
                    self.dxf.num_fmt = Some(read_num_fmt(attrs.as_slice()));
                }
            },
            XmlEvent::Empty { name, attrs } => {
                let local = local_name(name.as_str());
                if str_eq(local.as_str(), "numFmt") {
                    self.dxf.num_fmt = Some(read_num_fmt(attrs.as_slice()));
                }
            },
            XmlEvent::End { name } => {
                let local = local_name(name.as_str());
                if str_eq(local.as_str(), "dxf") {
                    let d = take_dxf(&mut self.dxf);
                    push_dxf(&mut self.out, d);
                    self.mode = StyleMode::Idle;
                }
            },
            _ => {},
        }
    }

    fn dxf_event(&mut self, ev: &XmlEvent)
        requires
            old(self)@.mode == StyleMode::Dxf,
        ensures
            final(self)@ == dxf_step(old(self)@, ev@),
    {
        if self.dxf_mode == StyleMode::Font {
            if font_event(&mut self.font, ev) {
                let f = take_font(&mut self.font);
                self.dxf.font = Some(f);
                self.dxf_mode = StyleMode::Idle;
            }
        } else if self.dxf_mode == StyleMode::Fill {
            if fill_event(&mut self.fill, &mut self.in_pattern, ev) {
                self.dxf.fill = Some(self.fill);
                self.dxf_mode = StyleMode::Idle;
            }
        } else if self.dxf_mode == StyleMode::Border {
            if border_event(&mut self.border, &mut self.side, ev) {
                self.dxf.border = Some(self.border);
                self.dxf_mode = StyleMode::Idle;
            }
        } else {
            self.dxf_idle(ev);
        }
    }

    #[verifier::spinoff_prover]
    #[verifier::rlimit(40)]
    fn step(&mut self, ev: &XmlEvent)
        ensures
            final(self)@ == style_step(old(self)@, ev@),
    {
        if self.mode == StyleMode::Font {
            if font_event(&mut self.font, ev) {
                let f = take_font(&mut self.font);
                push_font(&mut self.out, f);
                self.mode = StyleMode::Idle;
            }
        } else if self.mode == StyleMode::Fill {
            if fill_event(&mut self.fill, &mut self.in_pattern, ev) {
                self.out.fills.push(self.fill);
                self.mode = StyleMode::Idle;
            }
        } else if self.mode == StyleMode::Border {
            if border_event(&mut self.border, &mut self.side, ev) {
                self.out.borders.push(self.border);
                self.mode = StyleMode::Idle;
            }
        } else if self.mode == StyleMode::Dxf {
            self.dxf_event(ev);
        } else {
            match ev {
                XmlEvent::Start { name, attrs } => {
                    let local = local_name(name.as_str());
                    self.top_start(local.as_str(), attrs.as_slice());
                },
                XmlEvent::Empty { name, attrs } => {
                    let local = local_name(name.as_str());
                    self.top_empty(local.as_str(), attrs.as_slice());
                },
                XmlEvent::End { name } => {
                    let local = local_name(name.as_str());
                    self.top_end(local.as_str());
                },
                _ => {},
            }
        }
    }

    fn finish(self) -> (res: ParsedStyles)
        ensures
            res@ == style_finish(self@),
    {
        let ghost st = self@;
        let mut out = self.out;
        let mut font = self.font;
        let mut dxf = self.dxf;
        let mut border = self.border;
        match self.side {
            Some((e, sd)) => put_edge(&mut border, e, sd),
            None => {},
        }
        assert(border == flush_border(st.border, st.side));
        if self.mode == StyleMode::Font {
            push_font(&mut out, font);
        } else if self.mode == StyleMode::Fill {
            out.fills.push(self.fill);
        } else if self.mode == StyleMode::Border {
            out.borders.push(border);
        } else if self.mode == StyleMode::Dxf {
            if self.dxf_mode == StyleMode::Font {
                dxf.font = Some(font);
            } else if self.dxf_mode == StyleMode::Fill {
                dxf.fill = Some(self.fill);
            } else if self.dxf_mode == StyleMode::Border {
                dxf.border = Some(border);
            }
            push_dxf(&mut out, dxf);
        }
        if out.xf_num_fmt_ids.len() == 0 {
            out.xf_num_fmt_ids.push(0);
            assert(out.xf_num_fmt_ids@ =~= seq![0u16]);
        }
        out
    }
}

/// Parse the style part (`xl/styles.xml`) into its tables: number formats, fonts, fills,
/// borders, cell xf records (with the number-format id of each) and differential formats.
///
/// An element cut off by the end of the input is kept as far as it was read. The part is read
/// with empty elements as written. Fails when the part is not well-formed XML.
pub fn parse_styles(data: &[u8]) -> (res: Result<ParsedStyles, Error>)
    ensures
        match res {
            Ok(p) => spec_parse_styles(data@) == Some(p@),
            Err(e) => spec_parse_styles(data@) is None && e is Xml,
        },
{
    let scan = scan_xml_with(data, false);
    if !scan.complete {
        return Err(Error::Xml(to_string("malformed style part")));
    }
    let ghost items = xml_items(scan.events@);
    let mut st = StyleReader::new();
    let mut i: usize = 0;
    while i < scan.events.len()
        invariant
            0 <= i <= scan.events.len(),
            items == xml_items(scan.events@),
            st@ == style_run(items.take(i as int)),
        decreases scan.events.len() - i,
    {
        assert(items.take(i + 1).drop_last() =~= items.take(i as int));
        assert(items.take(i + 1).last() == scan.events@[i as int]@);
        st.step(&scan.events[i]);
        i += 1;
    }
    assert(items.take(scan.events.len() as int) =~= items);
    Ok(st.finish())
}

// ── Resolving an xf record into a format ────────────────────────────────────

/// The code of the first custom number format with the given id, if any.
pub open spec fn custom_code(nf: Seq<(u16, Seq<char>)>, id: u16) -> Option<Seq<char>>
    decreases nf.len(),
{
    if nf.len() == 0 {
        None
    } else if nf[0].0 == id {
        Some(nf[0].1)
    } else {
        custom_code(nf.drop_first(), id)
    }
}

/// The number format code an xf's number-format id stands for: none for id 0, else the file's
/// own code for it, else the built-in code, else none.
pub open spec fn code_for_id(nf: Seq<(u16, Seq<char>)>, id: u16) -> Option<Seq<char>> {
    if id == 0 {
        None
    } else {
        match custom_code(nf, id) {
            Some(c) => Some(c),
            None => crate::style_parser::spec_builtin_num_format(id),
        }
    }
}

/// What `resolve_format` gives for xf index `i`: the default format carrying the record's font
/// (when its index is in range), fill (likewise), border sides (likewise), alignment and number
/// format; the fields that a style part's xf cannot set keep their defaults.
pub open spec fn resolves_to(p: StylesV, i: int, f: Format) -> bool {
    let xf = p.xf_records[i];
    let font = if xf.font_id < p.fonts.len() { p.fonts[xf.font_id as int] } else { default_font_v() };
    let fill = if xf.fill_id < p.fills.len() { p.fills[xf.fill_id as int] } else { empty_fill() };
    let border = if xf.border_id < p.borders.len() { p.borders[xf.border_id as int] } else { empty_border() };
    &&& f.bold == font.bold && f.italic == font.italic && f.underline == font.underline
    &&& f.strikethrough == font.strikethrough && f.font_size_x100 == font.size_x100
    &&& f.font_name@ == font.name && f.font_color == font.color
    &&& f.fg_color == fill.fg_color && f.bg_color == fill.bg_color && f.pattern == fill.pattern
    &&& f.border_left == border.left.style && f.border_right == border.right.style
    &&& f.border_top == border.top.style && f.border_bottom == border.bottom.style
    &&& f.border_left_color == border.left.color && f.border_right_color == border.right.color
    &&& f.border_top_color == border.top.color && f.border_bottom_color == border.bottom.color
    &&& f.diagonal_border == border.diagonal.style
    &&& f.h_align == xf.alignment.horizontal && f.v_align == xf.alignment.vertical
    &&& f.wrap_text == xf.alignment.wrap_text && f.shrink == xf.alignment.shrink_to_fit
    &&& f.indent == xf.alignment.indent && f.rotation == xf.alignment.rotation
    &&& f.num_format@ == match code_for_id(p.num_formats, xf.num_fmt_id) {
        Some(c) => c,
        None => Seq::<char>::empty(),
    }
    &&& f.theme_color is None && !f.shadow && !f.outline && !f.emboss && !f.engrave
    &&& f.gradient is None && f.border_color is None && f.diagonal_type == 0
    &&& f.cell_style is None && f.locked is None && !f.formula_hidden && !f.quote_prefix
}

proof fn lemma_custom_code_at(nf: Seq<(u16, Seq<char>)>, id: u16, i: int)
    requires
        0 <= i <= nf.len(),
        forall|k: int| 0 <= k < i ==> #[trigger] nf[k].0 != id,
    ensures
        i < nf.len() && nf[i].0 == id ==> custom_code(nf, id) == Some(nf[i].1),
        i == nf.len() ==> custom_code(nf, id) is None,
    decreases i,
{
    if i > 0 {
        let t = nf.drop_first();
        assert forall|k: int| 0 <= k < i - 1 implies #[trigger] t[k].0 != id by {
            assert(t[k] == nf[k + 1]);
        }
        if i < nf.len() {
            assert(t[i - 1] == nf[i]);
        }
        assert(nf[0].0 != id);
        lemma_custom_code_at(t, id, i - 1);
    }
}

fn find_custom_code<'a>(nf: &'a [(u16, String)], id: u16) -> (res: Option<&'a String>)
    ensures
        match res {
            Some(c) => custom_code(nf@.map_values(|n: (u16, String)| (n.0, n.1@)), id) == Some(c@),
            None => custom_code(nf@.map_values(|n: (u16, String)| (n.0, n.1@)), id) is None,
        },
{
    let ghost v = nf@.map_values(|n: (u16, String)| (n.0, n.1@));
    let mut i: usize = 0;
    while i < nf.len()
        invariant
            0 <= i <= nf.len(),
            v == nf@.map_values(|n: (u16, String)| (n.0, n.1@)),
            forall|k: int| 0 <= k < i ==> #[trigger] v[k].0 != id,
        decreases nf.len() - i,
    {
        assert(v[i as int] == (nf@[i as int].0, nf@[i as int].1@));
        if nf[i].0 == id {
            proof {
                lemma_custom_code_at(v, id, i as int);
            }
            return Some(&nf[i].1);
        }
        i += 1;
    }
    proof {
        lemma_custom_code_at(v, id, i as int);
    }
    None
}

impl ParsedStyles {
    /// Resolve an xf index into a fully populated `Format`.
    ///
    /// Returns `None` if `xf_index` is out of bounds.
    #[verifier::rlimit(60)]
    pub fn resolve_format(&self, xf_index: usize) -> (res: Option<Format>)
        ensures
            match res {
                Some(f) => xf_index < self@.xf_records.len() && resolves_to(self@, xf_index as int, f),
                None => xf_index >= self@.xf_records.len(),
            },
    {
        if xf_index >= self.xf_records.len() {
            return None;
        }
        let xf = self.xf_records[xf_index];
        let mut fmt = Format::new();
        assert(fmt.num_format@ =~= Seq::<char>::empty());
        if xf.font_id < self.fonts.len() {
            let font = &self.fonts[xf.font_id];
            assert(self@.fonts[xf.font_id as int] == font@);
            fmt.bold = font.bold;
            fmt.italic = font.italic;
            fmt.underline = font.underline;
            fmt.strikethrough = font.strikethrough;
            fmt.font_size_x100 = font.size_x100;
            fmt.font_name = font.name.clone();
            fmt.font_color = font.color;
        }
        if xf.fill_id < self.fills.len() {
            let fill = self.fills[xf.fill_id];
            fmt.fg_color = fill.fg_color;
            fmt.bg_color = fill.bg_color;
            fmt.pattern = fill.pattern;
        }
        if xf.border_id < self.borders.len() {
            let border = self.borders[xf.border_id];
            fmt.border_left = border.left.style;
            fmt.border_right = border.right.style;
            fmt.border_top = border.top.style;
            fmt.border_bottom = border.bottom.style;
            fmt.border_left_color = border.left.color;
            fmt.border_right_color = border.right.color;
            fmt.border_top_color = border.top.color;
            fmt.border_bottom_color = border.bottom.color;
            fmt.diagonal_border = border.diagonal.style;
        }
        fmt.h_align = xf.alignment.horizontal;
        fmt.v_align = xf.alignment.vertical;
        fmt.wrap_text = xf.alignment.wrap_text;
        fmt.shrink = xf.alignment.shrink_to_fit;
        fmt.indent = xf.alignment.indent;
        fmt.rotation = xf.alignment.rotation;
        if xf.num_fmt_id != 0 {
            match find_custom_code(self.num_formats.as_slice(), xf.num_fmt_id) {
                Some(code) => {
                    fmt.num_format = code.clone();
                },
                None => match crate::style_parser::builtin_num_format(xf.num_fmt_id) {
                    Some(b) => {
                        fmt.num_format = to_string(b);
                    },
                    None => {},
                },
            }
        }
        assert(fmt.num_format@ == match code_for_id(self@.num_formats, xf.num_fmt_id) {
            Some(c) => c,
            None => Seq::<char>::empty(),
        });
        Some(fmt)
    }
}

} // verus!
