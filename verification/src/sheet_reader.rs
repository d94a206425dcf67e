//! Reading a whole sheet part: its cells and the metadata around them (merged ranges, column
//! widths, row heights, frozen panes, hyperlinks, drawings, protection and print settings).
//!
//! Measurements that a sheet part writes as decimal numbers (column widths, row heights, page
//! margins) are kept as the text the part wrote; reading them as floating-point values is left to
//! the caller.

use vstd::prelude::*;
use vstd::utf8::encode_utf8;

use crate::cell::{cell_flat, cell_view, resolve_cell_value, spec_resolve_cell, CellV, CellValue, ValueV};
use crate::error::Error;
use crate::numbers::{parse_unsigned, std_parse_unsigned};
use crate::protection::SheetProtection;
use crate::shared_strings::SharedStringTable;
use crate::style_parser::{ParsedStyles, StylesV};
use crate::text::{push_str, str_eq, to_string};
use crate::utility::{
    atoi_parse_u16, atoi_parse_u32, atoi_parse_u8, atoi_parse_usize, atoi_u16, atoi_u32, atoi_u8,
    atoi_usize, cell_attr_col_fits, parse_cell_attr_checked, parse_range_ref, spec_parse_cell_attr,
    spec_parse_range_ref, ColNum, RowNum,
};
use crate::worksheet::Orientation;
use crate::xml::{attr_items, attr_value, get_attr, local_name, local_part, scan_xml, xml_events, xml_items, XmlAttr, XmlEvent, XmlItem};

verus! {

/// A cell read from a sheet part.
#[derive(Debug)]
pub struct RawCell {
    pub row: RowNum,
    pub col: ColNum,
    pub value: CellValue,
    pub xf_index: u32,
}

/// A hyperlink parsed from the sheet XML (before relationship resolution).
#[derive(Debug, Clone)]
pub struct ParsedHyperlink {
    pub cell_ref: String,
    pub rid: Option<String>,
    pub location: Option<String>,
    pub display: Option<String>,
    pub tooltip: Option<String>,
}

/// Print settings for a worksheet, page margins as the text the sheet part wrote.
#[derive(Debug, Clone)]
pub struct PrintSettings {
    pub paper_size: Option<u8>,
    pub orientation: Option<Orientation>,
    pub fit_to_page: bool,
    pub fit_to_width: Option<u16>,
    pub fit_to_height: Option<u16>,
    pub scale: Option<u16>,
    pub margin_top: Option<String>,
    pub margin_bottom: Option<String>,
    pub margin_left: Option<String>,
    pub margin_right: Option<String>,
    pub margin_header: Option<String>,
    pub margin_footer: Option<String>,
    pub header: Option<String>,
    pub footer: Option<String>,
    pub row_breaks: Vec<RowNum>,
    pub col_breaks: Vec<ColNum>,
    pub print_area: Option<(RowNum, ColNum, RowNum, ColNum)>,
    pub repeat_rows: Option<(RowNum, RowNum)>,
    pub repeat_cols: Option<(ColNum, ColNum)>,
    pub print_gridlines: bool,
    pub print_headings: bool,
    pub center_horizontally: bool,
    pub center_vertically: bool,
    pub black_and_white: bool,
    pub first_page_number: Option<u16>,
    pub protected_ranges: Vec<(String, String, Option<String>)>,
}

/// Metadata parsed from sheet XML (merges, widths, heights, freeze panes, and more).
#[derive(Debug)]
pub struct SheetMeta {
    pub merge_ranges: Vec<(RowNum, ColNum, RowNum, ColNum)>,
    /// Each column with a `width`, and the width's text.
    pub col_widths: Vec<(ColNum, String)>,
    /// Each numbered row with an `ht`, and the height's text.
    pub row_heights: Vec<(RowNum, String)>,
    pub freeze_row: RowNum,
    pub freeze_col: ColNum,
    pub drawing_rid: Option<String>,
    pub legacy_drawing_rid: Option<String>,
    pub hyperlinks: Vec<ParsedHyperlink>,
    pub print_settings: Option<PrintSettings>,
    pub protection: Option<SheetProtection>,
    pub row_outline_levels: std::collections::BTreeMap<RowNum, u8>,
    pub col_outline_levels: std::collections::BTreeMap<ColNum, u8>,
}

// ── Views ───────────────────────────────────────────────────────────────────

/// The view of an optional string.
pub open spec fn opt_text(o: Option<String>) -> Option<Seq<char>> {
    match o {
        Some(s) => Some(s@),
        None => None,
    }
}

/// The mathematical form of a [`RawCell`].
pub ghost struct RawCellV {
    pub row: RowNum,
    pub col: ColNum,
    pub value: CellV,
    pub xf_index: u32,
}

/// The view of a raw cell.
pub open spec fn raw_cell_view(c: RawCell) -> RawCellV {
    RawCellV { row: c.row, col: c.col, value: cell_view(c.value), xf_index: c.xf_index }
}

/// The views of a run of raw cells.
pub open spec fn raw_cells(v: Seq<RawCell>) -> Seq<RawCellV> {
    v.map_values(|c: RawCell| raw_cell_view(c))
}

/// The mathematical form of a [`ParsedHyperlink`].
pub ghost struct HyperlinkV {
    pub cell_ref: Seq<char>,
    pub rid: Option<Seq<char>>,
    pub location: Option<Seq<char>>,
    pub display: Option<Seq<char>>,
    pub tooltip: Option<Seq<char>>,
}

/// The view of a parsed hyperlink.
pub open spec fn hyperlink_view(h: ParsedHyperlink) -> HyperlinkV {
    HyperlinkV {
        cell_ref: h.cell_ref@,
        rid: opt_text(h.rid),
        location: opt_text(h.location),
        display: opt_text(h.display),
        tooltip: opt_text(h.tooltip),
    }
}

/// The mathematical form of [`SheetProtection`].
pub ghost struct ProtectionV {
    pub password_hash: Option<Seq<char>>,
    pub sheet: bool,
    pub objects: bool,
    pub scenarios: bool,
    pub format_cells: bool,
    pub format_columns: bool,
    pub format_rows: bool,
    pub insert_columns: bool,
    pub insert_rows: bool,
    pub insert_hyperlinks: bool,
    pub delete_columns: bool,
    pub delete_rows: bool,
    pub select_locked_cells: bool,
    pub sort: bool,
    pub auto_filter: bool,
    pub pivot_tables: bool,
    pub select_unlocked_cells: bool,
}

/// The view of sheet protection settings.
pub open spec fn protection_view(p: SheetProtection) -> ProtectionV {
    ProtectionV {
        password_hash: opt_text(p.password_hash),
        sheet: p.sheet,
        objects: p.objects,
        scenarios: p.scenarios,
        format_cells: p.format_cells,
        format_columns: p.format_columns,
        format_rows: p.format_rows,
        insert_columns: p.insert_columns,
        insert_rows: p.insert_rows,
        insert_hyperlinks: p.insert_hyperlinks,
        delete_columns: p.delete_columns,
        delete_rows: p.delete_rows,
        select_locked_cells: p.select_locked_cells,
        sort: p.sort,
        auto_filter: p.auto_filter,
        pivot_tables: p.pivot_tables,
        select_unlocked_cells: p.select_unlocked_cells,
    }
}

/// The mathematical form of [`PrintSettings`].
pub ghost struct PrintV {
    pub paper_size: Option<u8>,
    pub orientation: Option<Orientation>,
    pub fit_to_page: bool,
    pub fit_to_width: Option<u16>,
    pub fit_to_height: Option<u16>,
    pub scale: Option<u16>,
    pub margin_top: Option<Seq<char>>,
    pub margin_bottom: Option<Seq<char>>,
    pub margin_left: Option<Seq<char>>,
    pub margin_right: Option<Seq<char>>,
    pub margin_header: Option<Seq<char>>,
    pub margin_footer: Option<Seq<char>>,
    pub header: Option<Seq<char>>,
    pub footer: Option<Seq<char>>,
    pub row_breaks: Seq<RowNum>,
    pub col_breaks: Seq<ColNum>,
    pub print_area: Option<(RowNum, ColNum, RowNum, ColNum)>,
    pub repeat_rows: Option<(RowNum, RowNum)>,
    pub repeat_cols: Option<(ColNum, ColNum)>,
    pub print_gridlines: bool,
    pub print_headings: bool,
    pub center_horizontally: bool,
    pub center_vertically: bool,
    pub black_and_white: bool,
    pub first_page_number: Option<u16>,
    pub protected_ranges: Seq<(Seq<char>, Seq<char>, Option<Seq<char>>)>,
}

/// The view of print settings.
pub open spec fn print_view(p: PrintSettings) -> PrintV {
    PrintV {
        paper_size: p.paper_size,
        orientation: p.orientation,
        fit_to_page: p.fit_to_page,
        fit_to_width: p.fit_to_width,
        fit_to_height: p.fit_to_height,
        scale: p.scale,
        margin_top: opt_text(p.margin_top),
        margin_bottom: opt_text(p.margin_bottom),
        margin_left: opt_text(p.margin_left),
        margin_right: opt_text(p.margin_right),
        margin_header: opt_text(p.margin_header),
        margin_footer: opt_text(p.margin_footer),
        header: opt_text(p.header),
        footer: opt_text(p.footer),
        row_breaks: p.row_breaks@,
        col_breaks: p.col_breaks@,
        print_area: p.print_area,
        repeat_rows: p.repeat_rows,
        repeat_cols: p.repeat_cols,
        print_gridlines: p.print_gridlines,
        print_headings: p.print_headings,
        center_horizontally: p.center_horizontally,
        center_vertically: p.center_vertically,
        black_and_white: p.black_and_white,
        first_page_number: p.first_page_number,
        protected_ranges: p.protected_ranges@.map_values(
            |r: (String, String, Option<String>)| (r.0@, r.1@, opt_text(r.2)),
        ),
    }
}

/// Print settings with nothing set.
pub open spec fn empty_print() -> PrintV {
    PrintV {
        paper_size: None,
        orientation: None,
        fit_to_page: false,
        fit_to_width: None,
        fit_to_height: None,
        scale: None,
        margin_top: None,
        margin_bottom: None,
        margin_left: None,
        margin_right: None,
        margin_header: None,
        margin_footer: None,
        header: None,
        footer: None,
        row_breaks: Seq::empty(),
        col_breaks: Seq::empty(),
        print_area: None,
        repeat_rows: None,
        repeat_cols: None,
        print_gridlines: false,
        print_headings: false,
        center_horizontally: false,
        center_vertically: false,
        black_and_white: false,
        first_page_number: None,
        protected_ranges: Seq::empty(),
    }
}

/// The mathematical form of [`SheetMeta`].
pub ghost struct MetaV {
    pub merge_ranges: Seq<(RowNum, ColNum, RowNum, ColNum)>,
    pub col_widths: Seq<(ColNum, Seq<char>)>,
    pub row_heights: Seq<(RowNum, Seq<char>)>,
    pub freeze_row: RowNum,
    pub freeze_col: ColNum,
    pub drawing_rid: Option<Seq<char>>,
    pub legacy_drawing_rid: Option<Seq<char>>,
    pub hyperlinks: Seq<HyperlinkV>,
    pub print_settings: Option<PrintV>,
    pub protection: Option<ProtectionV>,
    pub row_outline_levels: Map<RowNum, u8>,
    pub col_outline_levels: Map<ColNum, u8>,
}

/// The view of sheet metadata.
pub open spec fn meta_view(m: SheetMeta) -> MetaV {
    MetaV {
        merge_ranges: m.merge_ranges@,
        col_widths: m.col_widths@.map_values(|w: (ColNum, String)| (w.0, w.1@)),
        row_heights: m.row_heights@.map_values(|h: (RowNum, String)| (h.0, h.1@)),
        freeze_row: m.freeze_row,
        freeze_col: m.freeze_col,
        drawing_rid: opt_text(m.drawing_rid),
        legacy_drawing_rid: opt_text(m.legacy_drawing_rid),
        hyperlinks: m.hyperlinks@.map_values(|h: ParsedHyperlink| hyperlink_view(h)),
        print_settings: match m.print_settings {
            Some(p) => Some(print_view(p)),
            None => None,
        },
        protection: match m.protection {
            Some(p) => Some(protection_view(p)),
            None => None,
        },
        row_outline_levels: m.row_outline_levels@,
        col_outline_levels: m.col_outline_levels@,
    }
}

/// Metadata with nothing read.
pub open spec fn empty_meta() -> MetaV {
    MetaV {
        merge_ranges: Seq::empty(),
        col_widths: Seq::empty(),
        row_heights: Seq::empty(),
        freeze_row: 0,
        freeze_col: 0,
        drawing_rid: None,
        legacy_drawing_rid: None,
        hyperlinks: Seq::empty(),
        print_settings: None,
        protection: None,
        row_outline_levels: Map::empty(),
        col_outline_levels: Map::empty(),
    }
}

// ── Attribute readers ───────────────────────────────────────────────────────

/// An attribute read with `atoi_simd` as a `u8`.
pub open spec fn attr_u8(attrs: Seq<(Seq<char>, Seq<char>)>, key: Seq<char>) -> Option<u8> {
    match attr_value(attrs, key) {
        Some(v) => atoi_u8(encode_utf8(v)),
        None => None,
    }
}

/// An attribute read with `atoi_simd` as a `u16`.
pub open spec fn attr_u16(attrs: Seq<(Seq<char>, Seq<char>)>, key: Seq<char>) -> Option<u16> {
    match attr_value(attrs, key) {
        Some(v) => atoi_u16(encode_utf8(v)),
        None => None,
    }
}

/// An attribute read with `atoi_simd` as a `u32`.
pub open spec fn attr_u32(attrs: Seq<(Seq<char>, Seq<char>)>, key: Seq<char>) -> Option<u32> {
    match attr_value(attrs, key) {
        Some(v) => atoi_u32(encode_utf8(v)),
        None => None,
    }
}

/// Whether an attribute is present and `1` or `true`.
pub open spec fn attr_is_true(attrs: Seq<(Seq<char>, Seq<char>)>, key: Seq<char>) -> bool {
    match attr_value(attrs, key) {
        Some(v) => v == "1"@ || v == "true"@,
        None => false,
    }
}

/// Whether an attribute is absent, or `1` or `true`.
pub open spec fn attr_not_false(attrs: Seq<(Seq<char>, Seq<char>)>, key: Seq<char>) -> bool {
    match attr_value(attrs, key) {
        Some(v) => v == "1"@ || v == "true"@,
        None => true,
    }
}

/// The protection a `<sheetProtection>` element gives: flags that default to off are on only
/// when written as true, flags that default to on are off only when written otherwise.
pub open spec fn protection_of(a: Seq<(Seq<char>, Seq<char>)>) -> ProtectionV {
    ProtectionV {
        password_hash: attr_value(a, "password"@),
        sheet: attr_is_true(a, "sheet"@),
        objects: attr_is_true(a, "objects"@),
        scenarios: attr_is_true(a, "scenarios"@),
        format_cells: attr_not_false(a, "formatCells"@),
        format_columns: attr_not_false(a, "formatColumns"@),
        format_rows: attr_not_false(a, "formatRows"@),
        insert_columns: attr_not_false(a, "insertColumns"@),
        insert_rows: attr_not_false(a, "insertRows"@),
        insert_hyperlinks: attr_not_false(a, "insertHyperlinks"@),
        delete_columns: attr_not_false(a, "deleteColumns"@),
        delete_rows: attr_not_false(a, "deleteRows"@),
        select_locked_cells: attr_is_true(a, "selectLockedCells"@),
        sort: attr_not_false(a, "sort"@),
        auto_filter: attr_not_false(a, "autoFilter"@),
        pivot_tables: attr_not_false(a, "pivotTables"@),
        select_unlocked_cells: attr_is_true(a, "selectUnlockedCells"@),
    }
}

/// The merged range a `<mergeCell ref>` names.
pub open spec fn merge_of(a: Seq<(Seq<char>, Seq<char>)>) -> Option<(RowNum, ColNum, RowNum, ColNum)> {
    match attr_value(a, "ref"@) {
        Some(r) => spec_parse_range_ref(r),
        None => None,
    }
}

/// A 1-based index made 0-based (index 0 wraps to the largest value).
pub open spec fn zero_based16(c: u16) -> u16 {
    if c == 0 { u16::MAX } else { (c - 1) as u16 }
}

/// A 1-based index made 0-based (index 0 wraps to the largest value).
pub open spec fn zero_based32(c: u32) -> u32 {
    if c == 0 { u32::MAX } else { (c - 1) as u32 }
}

/// The widths a `<col>` gives: one entry for each column from `min` to `max`.
pub open spec fn width_entries(min: u16, max: u16, w: Seq<char>) -> Seq<(ColNum, Seq<char>)> {
    if min <= max {
        Seq::new((max - min + 1) as nat, |k: int| (zero_based16((min + k) as u16), w))
    } else {
        Seq::empty()
    }
}

/// Outline levels for each column from `min` to `max`, on top of `m`.
pub open spec fn outline_cols(m: Map<ColNum, u8>, min: u16, max: u16, level: u8) -> Map<ColNum, u8>
    decreases max - min,
{
    if min > max {
        m
    } else if min == max {
        m.insert(zero_based16(min), level)
    } else {
        outline_cols(m.insert(zero_based16(min), level), (min + 1) as u16, max, level)
    }
}

/// The position an `r` attribute of a `<c>` gives.
pub open spec fn cell_pos_of(attrs: Seq<(Seq<char>, Seq<char>)>) -> Option<(RowNum, ColNum)> {
    match attr_value(attrs, "r"@) {
        Some(v) => if cell_attr_col_fits(encode_utf8(v)) {
            spec_parse_cell_attr(encode_utf8(v))
        } else {
            None
        },
        None => None,
    }
}

/// The xf index an `s` attribute of a `<c>` gives (0 when absent or unreadable).
pub open spec fn cell_style_of(attrs: Seq<(Seq<char>, Seq<char>)>) -> usize {
    match attr_value(attrs, "s"@) {
        Some(v) => match atoi_usize(encode_utf8(v)) {
            Some(n) => n,
            None => 0,
        },
        None => 0,
    }
}

/// Where the reader stands in a sheet part.
pub ghost struct SheetScan {
    /// 0 before `<sheetData>`, 1 inside it, 2 after it.
    pub phase: u8,
    pub cells: Seq<RawCellV>,
    pub meta: MetaV,
    pub fit_to_page: bool,
    pub cell_pos: Option<(RowNum, ColNum)>,
    pub cell_type: Option<Seq<char>>,
    pub cell_style: usize,
    pub in_v: bool,
    pub in_f: bool,
    pub v_text: Seq<char>,
    pub f_text: Seq<char>,
    pub ps: PrintV,
    pub has_ps: bool,
    pub in_hf: bool,
    pub in_odd_header: bool,
    pub in_odd_footer: bool,
    pub header_text: Seq<char>,
    pub footer_text: Seq<char>,
    pub in_row_breaks: bool,
    pub in_col_breaks: bool,
}

/// The state before the first event.
pub open spec fn sheet_scan_start() -> SheetScan {
    SheetScan {
        phase: 0,
        cells: Seq::empty(),
        meta: empty_meta(),
        fit_to_page: false,
        cell_pos: None,
        cell_type: None,
        cell_style: 0,
        in_v: false,
        in_f: false,
        v_text: Seq::empty(),
        f_text: Seq::empty(),
        ps: empty_print(),
        has_ps: false,
        in_hf: false,
        in_odd_header: false,
        in_odd_footer: false,
        header_text: Seq::empty(),
        footer_text: Seq::empty(),
        in_row_breaks: false,
        in_col_breaks: false,
    }
}

/// A `<col>` element: its width for each column it spans, and its outline level when above 0.
pub open spec fn col_elem(m: MetaV, a: Seq<(Seq<char>, Seq<char>)>) -> MetaV {
    let min: u16 = match attr_u16(a, "min"@) {
        Some(v) => v,
        None => 1,
    };
    let max: u16 = match attr_u16(a, "max"@) {
        Some(v) => v,
        None => min,
    };
    MetaV {
        col_widths: match attr_value(a, "width"@) {
            Some(w) => m.col_widths + width_entries(min, max, w),
            None => m.col_widths,
        },
        col_outline_levels: match attr_u8(a, "outlineLevel"@) {
            Some(l) => if l > 0 { outline_cols(m.col_outline_levels, min, max, l) } else { m.col_outline_levels },
            None => m.col_outline_levels,
        },
        ..m
    }
}

/// A start tag before `<sheetData>`.
pub open spec fn pre_start(st: SheetScan, local: Seq<char>, a: Seq<(Seq<char>, Seq<char>)>) -> SheetScan {
    if local == "col"@ {
        SheetScan { meta: col_elem(st.meta, a), ..st }
    } else if local == "pane"@ {
        SheetScan {
            meta: MetaV {
                freeze_row: match attr_u32(a, "ySplit"@) {
                    Some(v) => v,
                    None => 0,
                },
                freeze_col: match attr_u16(a, "xSplit"@) {
                    Some(v) => v,
                    None => 0,
                },
                ..st.meta
            },
            ..st
        }
    } else if local == "mergeCell"@ {
        match merge_of(a) {
            Some(r) => SheetScan { meta: MetaV { merge_ranges: st.meta.merge_ranges.push(r), ..st.meta }, ..st },
            None => st,
        }
    } else if local == "pageSetUpPr"@ {
        SheetScan { fit_to_page: attr_is_true(a, "fitToPage"@), ..st }
    } else if local == "sheetProtection"@ {
        SheetScan { meta: MetaV { protection: Some(protection_of(a)), ..st.meta }, ..st }
    } else if local == "sheetData"@ {
        SheetScan { phase: 1, ..st }
    } else {
        st
    }
}

/// A `<row>` element: its height and outline level, when it has a number.
pub open spec fn row_elem(m: MetaV, a: Seq<(Seq<char>, Seq<char>)>) -> MetaV {
    let r = attr_u32(a, "r"@);
    MetaV {
        row_heights: match (attr_value(a, "ht"@), r) {
            (Some(h), Some(n)) => m.row_heights.push((zero_based32(n), h)),
            _ => m.row_heights,
        },
        row_outline_levels: match (attr_u8(a, "outlineLevel"@), r) {
            (Some(l), Some(n)) => if l > 0 {
                m.row_outline_levels.insert(zero_based32(n), l)
            } else {
                m.row_outline_levels
            },
            _ => m.row_outline_levels,
        },
        ..m
    }
}

/// A start tag inside `<sheetData>`.
pub open spec fn data_start(st: SheetScan, local: Seq<char>, a: Seq<(Seq<char>, Seq<char>)>) -> SheetScan {
    if local == "row"@ {
        SheetScan { meta: row_elem(st.meta, a), ..st }
    } else if local == "c"@ {
        SheetScan {
            cell_pos: cell_pos_of(a),
            cell_type: attr_value(a, "t"@),
            cell_style: cell_style_of(a),
            v_text: Seq::empty(),
            f_text: Seq::empty(),
            ..st
        }
    } else if local == "v"@ {
        SheetScan { in_v: true, v_text: Seq::empty(), ..st }
    } else if local == "f"@ {
        SheetScan { in_f: true, f_text: Seq::empty(), ..st }
    } else {
        st
    }
}

/// The end of a `<c>`: a cell with a position is kept when it holds a value or a formula.
pub open spec fn data_cell_end(st: SheetScan, strings: Seq<Seq<char>>, styles: StylesV) -> SheetScan {
    let cells = match st.cell_pos {
        Some((row, col)) => {
            let cv = spec_resolve_cell(st.cell_type, st.v_text, st.f_text, st.cell_style, strings, styles);
            if cv.formula is None && cv.value is Empty {
                st.cells
            } else {
                st.cells.push(RawCellV { row, col, value: cv, xf_index: st.cell_style as u32 })
            }
        },
        None => st.cells,
    };
    SheetScan { cells, cell_pos: None, cell_type: None, ..st }
}

/// An end tag inside `<sheetData>`.
pub open spec fn data_end(st: SheetScan, local: Seq<char>, strings: Seq<Seq<char>>, styles: StylesV) -> SheetScan {
    if local == "v"@ {
        SheetScan { in_v: false, ..st }
    } else if local == "f"@ {
        SheetScan { in_f: false, ..st }
    } else if local == "c"@ {
        data_cell_end(st, strings, styles)
    } else if local == "sheetData"@ {
        SheetScan { phase: 2, ..st }
    } else {
        st
    }
}

/// The hyperlink a `<hyperlink>` element declares.
pub open spec fn hyperlink_of(a: Seq<(Seq<char>, Seq<char>)>) -> HyperlinkV {
    HyperlinkV {
        cell_ref: match attr_value(a, "ref"@) {
            Some(v) => v,
            None => Seq::empty(),
        },
        rid: attr_value(a, "r:id"@),
        location: attr_value(a, "location"@),
        display: attr_value(a, "display"@),
        tooltip: attr_value(a, "tooltip"@),
    }
}

/// The print settings after a `<pageSetup>`.
pub open spec fn page_setup(p: PrintV, a: Seq<(Seq<char>, Seq<char>)>) -> PrintV {
    PrintV {
        paper_size: attr_u8(a, "paperSize"@),
        scale: attr_u16(a, "scale"@),
        orientation: match attr_value(a, "orientation"@) {
            Some(o) => if o == "landscape"@ {
                Some(Orientation::Landscape)
            } else if o == "portrait"@ {
                Some(Orientation::Portrait)
            } else {
                None
            },
            None => p.orientation,
        },
        fit_to_width: attr_u16(a, "fitToWidth"@),
        fit_to_height: attr_u16(a, "fitToHeight"@),
        black_and_white: attr_is_true(a, "blackAndWhite"@),
        first_page_number: attr_u16(a, "firstPageNumber"@),
        ..p
    }
}

/// A `<brk>` element: a break at the 0-based row or column before its `id`.
pub open spec fn page_break(st: SheetScan, a: Seq<(Seq<char>, Seq<char>)>) -> SheetScan {
    let id = match attr_value(a, "id"@) {
        Some(v) => std_parse_unsigned(v, u32::MAX as int),
        None => None,
    };
    match id {
        Some(i) => if st.in_row_breaks {
            SheetScan { ps: PrintV { row_breaks: st.ps.row_breaks.push(zero_based32(i as u32)), ..st.ps }, ..st }
        } else if st.in_col_breaks {
            SheetScan {
                ps: PrintV {
                    col_breaks: st.ps.col_breaks.push((if i == 0 { 0 } else { i - 1 }) as u16),
                    ..st.ps
                },
                ..st
            }
        } else {
            st
        },
        None => st,
    }
}

/// The element names after `</sheetData>` that carry metadata other than print settings.
pub open spec fn is_meta_tag(local: Seq<char>) -> bool {
    local == "mergeCell"@ || local == "drawing"@ || local == "legacyDrawing"@ || local
        == "sheetProtection"@ || local == "hyperlink"@
}

/// A start tag after `</sheetData>` that carries metadata other than print settings.
pub open spec fn post_meta(st: SheetScan, local: Seq<char>, a: Seq<(Seq<char>, Seq<char>)>) -> SheetScan {
    if local == "mergeCell"@ {
        match merge_of(a) {
            Some(r) => SheetScan { meta: MetaV { merge_ranges: st.meta.merge_ranges.push(r), ..st.meta }, ..st },
            None => st,
        }
    } else if local == "drawing"@ {
        SheetScan { meta: MetaV { drawing_rid: attr_value(a, "r:id"@), ..st.meta }, ..st }
    } else if local == "legacyDrawing"@ {
        SheetScan { meta: MetaV { legacy_drawing_rid: attr_value(a, "r:id"@), ..st.meta }, ..st }
    } else if local == "sheetProtection"@ {
        SheetScan { meta: MetaV { protection: Some(protection_of(a)), ..st.meta }, ..st }
    } else {
        let h = hyperlink_of(a);
        if h.cell_ref.len() > 0 {
            SheetScan { meta: MetaV { hyperlinks: st.meta.hyperlinks.push(h), ..st.meta }, ..st }
        } else {
            st
        }
    }
}

/// A start tag after `</sheetData>` that concerns printing.
pub open spec fn post_print(st: SheetScan, local: Seq<char>, a: Seq<(Seq<char>, Seq<char>)>) -> SheetScan {
    if local == "pageMargins"@ {
        SheetScan {
            has_ps: true,
            ps: PrintV {
                margin_top: attr_value(a, "top"@),
                margin_bottom: attr_value(a, "bottom"@),
                margin_left: attr_value(a, "left"@),
                margin_right: attr_value(a, "right"@),
                margin_header: attr_value(a, "header"@),
                margin_footer: attr_value(a, "footer"@),
                ..st.ps
            },
            ..st
        }
    } else if local == "pageSetup"@ {
        SheetScan { has_ps: true, ps: page_setup(st.ps, a), ..st }
    } else if local == "headerFooter"@ {
        SheetScan { in_hf: true, has_ps: true, ..st }
    } else if local == "oddHeader"@ && st.in_hf {
        SheetScan { in_odd_header: true, header_text: Seq::empty(), ..st }
    } else if local == "oddFooter"@ && st.in_hf {
        SheetScan { in_odd_footer: true, footer_text: Seq::empty(), ..st }
    } else if local == "rowBreaks"@ {
        SheetScan { in_row_breaks: true, has_ps: true, ..st }
    } else if local == "colBreaks"@ {
        SheetScan { in_col_breaks: true, has_ps: true, ..st }
    } else if local == "brk"@ {
        page_break(st, a)
    } else {
        st
    }
}

/// A start tag after `</sheetData>`.
pub open spec fn post_start(st: SheetScan, local: Seq<char>, a: Seq<(Seq<char>, Seq<char>)>) -> SheetScan {
    if is_meta_tag(local) {
        post_meta(st, local, a)
    } else {
        post_print(st, local, a)
    }
}

/// An end tag after `</sheetData>`.
pub open spec fn post_end(st: SheetScan, local: Seq<char>) -> SheetScan {
    if local == "oddHeader"@ {
        SheetScan {
            in_odd_header: false,
            ps: if st.header_text.len() > 0 { PrintV { header: Some(st.header_text), ..st.ps } } else { st.ps },
            ..st
        }
    } else if local == "oddFooter"@ {
        SheetScan {
            in_odd_footer: false,
            ps: if st.footer_text.len() > 0 { PrintV { footer: Some(st.footer_text), ..st.ps } } else { st.ps },
            ..st
        }
    } else if local == "headerFooter"@ {
        SheetScan { in_hf: false, ..st }
    } else if local == "rowBreaks"@ {
        SheetScan { in_row_breaks: false, ..st }
    } else if local == "colBreaks"@ {
        SheetScan { in_col_breaks: false, ..st }
    } else {
        st
    }
}

/// How one event moves the reader.
pub open spec fn sheet_step(st: SheetScan, ev: XmlItem, strings: Seq<Seq<char>>, styles: StylesV) -> SheetScan {
    if st.phase == 0 {
        match ev {
            XmlItem::Start { name, attrs } => pre_start(st, local_part(name), attrs),
            _ => st,
        }
    } else if st.phase == 1 {
        match ev {
            XmlItem::Start { name, attrs } => data_start(st, local_part(name), attrs),
            XmlItem::Text(t) => if st.in_v {
                SheetScan { v_text: st.v_text + t, ..st }
            } else if st.in_f {
                SheetScan { f_text: st.f_text + t, ..st }
            } else {
                st
            },
            XmlItem::End { name } => data_end(st, local_part(name), strings, styles),
            _ => st,
        }
    } else {
        match ev {
            XmlItem::Start { name, attrs } => post_start(st, local_part(name), attrs),
            XmlItem::Text(t) => if st.in_odd_header {
                SheetScan { header_text: st.header_text + t, ..st }
            } else if st.in_odd_footer {
                SheetScan { footer_text: st.footer_text + t, ..st }
            } else {
                st
            },
            XmlItem::End { name } => post_end(st, local_part(name)),
            _ => st,
        }
    }
}

/// The reader's state after a run of events.
pub open spec fn sheet_run(items: Seq<XmlItem>, strings: Seq<Seq<char>>, styles: StylesV) -> SheetScan
    decreases items.len(),
{
    if items.len() == 0 {
        sheet_scan_start()
    } else {
        sheet_step(sheet_run(items.drop_last(), strings, styles), items.last(), strings, styles)
    }
}

/// The cells and metadata once the part has been read: print settings are kept when any
/// print-related element was read (or the sheet fits to page) and `<sheetData>` was reached.
pub open spec fn sheet_finish(st: SheetScan) -> (Seq<RawCellV>, MetaV) {
    if st.phase != 0 && (st.has_ps || st.fit_to_page) {
        (st.cells, MetaV { print_settings: Some(PrintV { fit_to_page: st.fit_to_page, ..st.ps }), ..st.meta })
    } else {
        (st.cells, st.meta)
    }
}

/// What `read_sheet_full` gives for a sheet part: its cells and metadata, or nothing when the
/// part is not well-formed XML.
pub open spec fn spec_read_sheet(data: Seq<u8>, strings: Seq<Seq<char>>, styles: StylesV) -> Option<(Seq<RawCellV>, MetaV)> {
    if xml_events(data).1 {
        Some(sheet_finish(sheet_run(xml_events(data).0, strings, styles)))
    } else {
        None
    }
}

// ── Executable reader ───────────────────────────────────────────────────────

fn read_u8(attrs: &[XmlAttr], key: &str) -> (res: Option<u8>)
    ensures
        res == attr_u8(attr_items(attrs@), key@),
{
    match get_attr(attrs, key) {
        Some(v) => atoi_parse_u8(v.as_str().as_bytes()),
        None => None,
    }
}

fn read_u16(attrs: &[XmlAttr], key: &str) -> (res: Option<u16>)
    ensures
        res == attr_u16(attr_items(attrs@), key@),
{
    match get_attr(attrs, key) {
        Some(v) => atoi_parse_u16(v.as_str().as_bytes()),
        None => None,
    }
}

fn read_u32(attrs: &[XmlAttr], key: &str) -> (res: Option<u32>)
    ensures
        res == attr_u32(attr_items(attrs@), key@),
{
    match get_attr(attrs, key) {
        Some(v) => atoi_parse_u32(v.as_str().as_bytes()),
        None => None,
    }
}

fn read_text(attrs: &[XmlAttr], key: &str) -> (res: Option<String>)
    ensures
        opt_text(res) == attr_value(attr_items(attrs@), key@),
{
    match get_attr(attrs, key) {
        Some(v) => Some(v.clone()),
        None => None,
    }
}

fn is_true(attrs: &[XmlAttr], key: &str) -> (res: bool)
    ensures
        res == attr_is_true(attr_items(attrs@), key@),
{
    match get_attr(attrs, key) {
        Some(v) => str_eq(v.as_str(), "1") || str_eq(v.as_str(), "true"),
        None => false,
    }
}

fn not_false(attrs: &[XmlAttr], key: &str) -> (res: bool)
    ensures
        res == attr_not_false(attr_items(attrs@), key@),
{
    match get_attr(attrs, key) {
        Some(v) => str_eq(v.as_str(), "1") || str_eq(v.as_str(), "true"),
        None => true,
    }
}

fn read_protection(a: &[XmlAttr]) -> (res: SheetProtection)
    ensures
        protection_view(res) == protection_of(attr_items(a@)),
{
    SheetProtection {
        password_hash: read_text(a, "password"),
        sheet: is_true(a, "sheet"),
        objects: is_true(a, "objects"),
        scenarios: is_true(a, "scenarios"),
        format_cells: not_false(a, "formatCells"),
        format_columns: not_false(a, "formatColumns"),
        format_rows: not_false(a, "formatRows"),
        insert_columns: not_false(a, "insertColumns"),
        insert_rows: not_false(a, "insertRows"),
        insert_hyperlinks: not_false(a, "insertHyperlinks"),
        delete_columns: not_false(a, "deleteColumns"),
        delete_rows: not_false(a, "deleteRows"),
        select_locked_cells: is_true(a, "selectLockedCells"),
        sort: not_false(a, "sort"),
        auto_filter: not_false(a, "autoFilter"),
        pivot_tables: not_false(a, "pivotTables"),
        select_unlocked_cells: is_true(a, "selectUnlockedCells"),
    }
}

fn read_merge(a: &[XmlAttr]) -> (res: Option<(RowNum, ColNum, RowNum, ColNum)>)
    ensures
        res == merge_of(attr_items(a@)),
{
    match get_attr(a, "ref") {
        Some(r) => match parse_range_ref(r.as_str()) {
            Ok(m) => Some(m),
            Err(_) => None,
        },
        None => None,
    }
}

fn read_cell_pos(attrs: &[XmlAttr]) -> (res: Option<(RowNum, ColNum)>)
    ensures
        res == cell_pos_of(attr_items(attrs@)),
{
    match get_attr(attrs, "r") {
        Some(v) => parse_cell_attr_checked(v.as_str().as_bytes()),
        None => None,
    }
}

fn read_cell_style(attrs: &[XmlAttr]) -> (res: usize)
    ensures
        res == cell_style_of(attr_items(attrs@)),
{
    match get_attr(attrs, "s") {
        Some(v) => match atoi_parse_usize(v.as_str().as_bytes()) {
            Some(n) => n,
            None => 0,
        },
        None => 0,
    }
}

impl PrintSettings {
    /// Print settings with nothing set.
    pub fn new() -> (res: Self)
        ensures
            print_view(res) == empty_print(),
    {
        new_print()
    }

    /// Sets the paper size code.
    pub fn paper_size(self, size: u8) -> (res: Self)
        ensures
            print_view(res) == (PrintV { paper_size: Some(size), ..print_view(self) }),
    {
        PrintSettings { paper_size: Some(size), ..self }
    }

    /// Sets the page orientation.
    pub fn orientation(self, o: Orientation) -> (res: Self)
        ensures
            print_view(res) == (PrintV { orientation: Some(o), ..print_view(self) }),
    {
        PrintSettings { orientation: Some(o), ..self }
    }

    /// Fits the printout to `width` pages across and `height` pages down.
    pub fn fit_to_page(self, width: u16, height: u16) -> (res: Self)
        ensures
            print_view(res) == (PrintV {
                fit_to_page: true,
                fit_to_width: Some(width),
                fit_to_height: Some(height),
                ..print_view(self)
            }),
    {
        PrintSettings { fit_to_page: true, fit_to_width: Some(width), fit_to_height: Some(height), ..self }
    }

    /// Sets the top, bottom, left and right margins (inches, as the text they are written with).
    pub fn margins(self, top: &str, bottom: &str, left: &str, right: &str) -> (res: Self)
        ensures
            print_view(res) == (PrintV {
                margin_top: Some(top@),
                margin_bottom: Some(bottom@),
                margin_left: Some(left@),
                margin_right: Some(right@),
                ..print_view(self)
            }),
    {
        PrintSettings {
            margin_top: Some(to_string(top)),
            margin_bottom: Some(to_string(bottom)),
            margin_left: Some(to_string(left)),
            margin_right: Some(to_string(right)),
            ..self
        }
    }

    /// Sets the page header text.
    pub fn header(self, h: &str) -> (res: Self)
        ensures
            print_view(res) == (PrintV { header: Some(h@), ..print_view(self) }),
    {
        PrintSettings { header: Some(to_string(h)), ..self }
    }

    /// Sets the page footer text.
    pub fn footer(self, f: &str) -> (res: Self)
        ensures
            print_view(res) == (PrintV { footer: Some(f@), ..print_view(self) }),
    {
        PrintSettings { footer: Some(to_string(f)), ..self }
    }

    /// Whether gridlines are printed.
    pub fn print_gridlines(self, v: bool) -> (res: Self)
        ensures
            print_view(res) == (PrintV { print_gridlines: v, ..print_view(self) }),
    {
        PrintSettings { print_gridlines: v, ..self }
    }

    /// Whether row and column headings are printed.
    pub fn print_headings(self, v: bool) -> (res: Self)
        ensures
            print_view(res) == (PrintV { print_headings: v, ..print_view(self) }),
    {
        PrintSettings { print_headings: v, ..self }
    }

    /// Whether the printout is centered horizontally.
    pub fn center_horizontally(self, v: bool) -> (res: Self)
        ensures
            print_view(res) == (PrintV { center_horizontally: v, ..print_view(self) }),
    {
        PrintSettings { center_horizontally: v, ..self }
    }

    /// Whether the printout is centered vertically.
    pub fn center_vertically(self, v: bool) -> (res: Self)
        ensures
            print_view(res) == (PrintV { center_vertically: v, ..print_view(self) }),
    {
        PrintSettings { center_vertically: v, ..self }
    }

    /// Whether the printout is black and white.
    pub fn black_and_white(self, v: bool) -> (res: Self)
        ensures
            print_view(res) == (PrintV { black_and_white: v, ..print_view(self) }),
    {
        PrintSettings { black_and_white: v, ..self }
    }

    /// Sets the number of the first printed page.
    pub fn first_page_number(self, n: u16) -> (res: Self)
        ensures
            print_view(res) == (PrintV { first_page_number: Some(n), ..print_view(self) }),
    {
        PrintSettings { first_page_number: Some(n), ..self }
    }
}

fn new_print() -> (res: PrintSettings)
    ensures
        print_view(res) == empty_print(),
{
    let res = PrintSettings {
        paper_size: None,
        orientation: None,
        fit_to_page: false,
        fit_to_width: None,
        fit_to_height: None,
        scale: None,
        margin_top: None,
        margin_bottom: None,
        margin_left: None,
        margin_right: None,
        margin_header: None,
        margin_footer: None,
        header: None,
        footer: None,
        row_breaks: Vec::new(),
        col_breaks: Vec::new(),
        print_area: None,
        repeat_rows: None,
        repeat_cols: None,
        print_gridlines: false,
        print_headings: false,
        center_horizontally: false,
        center_vertically: false,
        black_and_white: false,
        first_page_number: None,
        protected_ranges: Vec::new(),
    };
    assert(print_view(res).protected_ranges =~= Seq::<(Seq<char>, Seq<char>, Option<Seq<char>>)>::empty());
    assert(res.row_breaks@ =~= Seq::<RowNum>::empty());
    assert(res.col_breaks@ =~= Seq::<ColNum>::empty());
    res
}

fn new_meta() -> (res: SheetMeta)
    ensures
        meta_view(res) == empty_meta(),
{
    let res = SheetMeta {
        merge_ranges: Vec::new(),
        col_widths: Vec::new(),
        row_heights: Vec::new(),
        freeze_row: 0,
        freeze_col: 0,
        drawing_rid: None,
        legacy_drawing_rid: None,
        hyperlinks: Vec::new(),
        print_settings: None,
        protection: None,
        row_outline_levels: std::collections::BTreeMap::new(),
        col_outline_levels: std::collections::BTreeMap::new(),
    };
    assert(meta_view(res).merge_ranges =~= Seq::<(RowNum, ColNum, RowNum, ColNum)>::empty());
    assert(meta_view(res).col_widths =~= Seq::<(ColNum, Seq<char>)>::empty());
    assert(meta_view(res).row_heights =~= Seq::<(RowNum, Seq<char>)>::empty());
    assert(meta_view(res).hyperlinks =~= Seq::<HyperlinkV>::empty());
    res
}

fn apply_col(m: &mut SheetMeta, a: &[XmlAttr])
    ensures
        meta_view(*final(m)) == col_elem(meta_view(*old(m)), attr_items(a@)),
{
    let min: u16 = match read_u16(a, "min") {
        Some(v) => v,
        None => 1,
    };
    let max: u16 = match read_u16(a, "max") {
        Some(v) => v,
        None => min,
    };
    match get_attr(a, "width") {
        Some(w) => if min <= max {
            let ghost start = meta_view(*m).col_widths;
            let mut c: u32 = min as u32;
            while c <= max as u32
                invariant
                    min as u32 <= c <= max as u32 + 1,
                    meta_view(*m).col_widths == start + width_entries(min, max, w@).take(c - min),
                    min <= max ==> width_entries(min, max, w@).len() == max - min + 1,
                    meta_view(*m) == (MetaV { col_widths: meta_view(*m).col_widths, ..meta_view(*old(m)) }),
                    start == meta_view(*old(m)).col_widths,
                decreases max as u32 + 1 - c,
            {
                let col: u16 = if c == 0 { 65535 } else { (c - 1) as u16 };
                let ghost before = m.col_widths@;
                m.col_widths.push((col, w.clone()));
                assert(width_entries(min, max, w@)[c - min] == (zero_based16(c as u16), w@));
                assert(meta_view(*m).col_widths =~= start + width_entries(min, max, w@).take(c + 1 - min)) by {
                    assert(m.col_widths@.map_values(|x: (ColNum, String)| (x.0, x.1@)) =~= before.map_values(
                        |x: (ColNum, String)| (x.0, x.1@),
                    ).push((col, w@)));
                }
                c += 1;
            }
            assert(width_entries(min, max, w@).take(max + 1 - min) =~= width_entries(min, max, w@));
        } else {
            assert(width_entries(min, max, w@) =~= Seq::<(ColNum, Seq<char>)>::empty());
            assert(meta_view(*m).col_widths =~= meta_view(*m).col_widths + width_entries(min, max, w@));
        },
        None => {},
    }
    let ghost mid = meta_view(*m);
    match read_u8(a, "outlineLevel") {
        Some(l) => if l > 0 && min <= max {
            let mut c: u32 = min as u32;
            while c <= max as u32
                invariant
                    min as u32 <= c <= max as u32 + 1,
                    l > 0,
                    outline_cols(meta_view(*m).col_outline_levels, c as u16, max, l) == outline_cols(
                        mid.col_outline_levels,
                        min,
                        max,
                        l,
                    ) || c > max,
                    c > max ==> meta_view(*m).col_outline_levels == outline_cols(mid.col_outline_levels, min, max, l),
                    meta_view(*m) == (MetaV { col_outline_levels: meta_view(*m).col_outline_levels, ..mid }),
                decreases max as u32 + 1 - c,
            {
                let col: u16 = if c == 0 { 65535 } else { (c - 1) as u16 };
                assert(col == zero_based16(c as u16));
                crate::outline::set_col_level(&mut m.col_outline_levels, col, l);
                c += 1;
            }
        },
        None => {},
    }
}

fn apply_row(m: &mut SheetMeta, a: &[XmlAttr])
    ensures
        meta_view(*final(m)) == row_elem(meta_view(*old(m)), attr_items(a@)),
{
    let r = read_u32(a, "r");
    match (get_attr(a, "ht"), r) {
        (Some(h), Some(n)) => {
            let row: u32 = if n == 0 { u32::MAX } else { n - 1 };
            let ghost before = m.row_heights@;
            m.row_heights.push((row, h.clone()));
            assert(m.row_heights@.map_values(|x: (RowNum, String)| (x.0, x.1@)) =~= before.map_values(
                |x: (RowNum, String)| (x.0, x.1@),
            ).push((row, h@)));
        },
        _ => {},
    }
    match (read_u8(a, "outlineLevel"), r) {
        (Some(l), Some(n)) => if l > 0 {
            let row: u32 = if n == 0 { u32::MAX } else { n - 1 };
            crate::outline::set_row_level(&mut m.row_outline_levels, row, l);
        },
        _ => {},
    }
}

fn push_merge(m: &mut SheetMeta, r: (RowNum, ColNum, RowNum, ColNum))
    ensures
        meta_view(*final(m)) == (MetaV { merge_ranges: meta_view(*old(m)).merge_ranges.push(r), ..meta_view(*old(m)) }),
{
    m.merge_ranges.push(r);
}

fn read_hyperlink(a: &[XmlAttr]) -> (res: ParsedHyperlink)
    ensures
        hyperlink_view(res) == hyperlink_of(attr_items(a@)),
{
    ParsedHyperlink {
        cell_ref: match get_attr(a, "ref") {
            Some(v) => v.clone(),
            None => String::new(),
        },
        rid: read_text(a, "r:id"),
        location: read_text(a, "location"),
        display: read_text(a, "display"),
        tooltip: read_text(a, "tooltip"),
    }
}

fn apply_page_setup(p: &mut PrintSettings, a: &[XmlAttr])
    ensures
        print_view(*final(p)) == page_setup(print_view(*old(p)), attr_items(a@)),
{
    p.paper_size = read_u8(a, "paperSize");
    p.scale = read_u16(a, "scale");
    match get_attr(a, "orientation") {
        Some(o) => {
            p.orientation = if str_eq(o.as_str(), "landscape") {
                Some(Orientation::Landscape)
            } else if str_eq(o.as_str(), "portrait") {
                Some(Orientation::Portrait)
            } else {
                None
            };
        },
        None => {},
    }
    p.fit_to_width = read_u16(a, "fitToWidth");
    p.fit_to_height = read_u16(a, "fitToHeight");
    p.black_and_white = is_true(a, "blackAndWhite");
    p.first_page_number = read_u16(a, "firstPageNumber");
}

struct SheetReader {
    phase: u8,
    cells: Vec<RawCell>,
    meta: SheetMeta,
    fit_to_page: bool,
    cell_pos: Option<(RowNum, ColNum)>,
    cell_type: Option<String>,
    cell_style: usize,
    in_v: bool,
    in_f: bool,
    v_text: String,
    f_text: String,
    ps: PrintSettings,
    has_ps: bool,
    in_hf: bool,
    in_odd_header: bool,
    in_odd_footer: bool,
    header_text: String,
    footer_text: String,
    in_row_breaks: bool,
    in_col_breaks: bool,
}

/// Every formula's cached value among the cells is a plain value.
pub open spec fn cells_flat(v: Seq<RawCell>) -> bool {
    forall|j: int| 0 <= j < v.len() ==> cell_flat(#[trigger] v[j].value)
}

impl SheetReader {
    closed spec fn scan(&self) -> SheetScan {
        SheetScan {
            phase: self.phase,
            cells: raw_cells(self.cells@),
            meta: meta_view(self.meta),
            fit_to_page: self.fit_to_page,
            cell_pos: self.cell_pos,
            cell_type: opt_text(self.cell_type),
            cell_style: self.cell_style,
            in_v: self.in_v,
            in_f: self.in_f,
            v_text: self.v_text@,
            f_text: self.f_text@,
            ps: print_view(self.ps),
            has_ps: self.has_ps,
            in_hf: self.in_hf,
            in_odd_header: self.in_odd_header,
            in_odd_footer: self.in_odd_footer,
            header_text: self.header_text@,
            footer_text: self.footer_text@,
            in_row_breaks: self.in_row_breaks,
            in_col_breaks: self.in_col_breaks,
        }
    }

    fn new() -> (res: Self)
        ensures
            res.scan() == sheet_scan_start(),
            cells_flat(res.cells@),
    {
        let res = SheetReader {
            phase: 0,
            cells: Vec::new(),
            meta: new_meta(),
            fit_to_page: false,
            cell_pos: None,
            cell_type: None,
            cell_style: 0,
            in_v: false,
            in_f: false,
            v_text: String::new(),
            f_text: String::new(),
            ps: new_print(),
            has_ps: false,
            in_hf: false,
            in_odd_header: false,
            in_odd_footer: false,
            header_text: String::new(),
            footer_text: String::new(),
            in_row_breaks: false,
            in_col_breaks: false,
        };
        assert(raw_cells(res.cells@) =~= Seq::<RawCellV>::empty());
        res
    }

    fn pre_start(&mut self, local: &str, a: &[XmlAttr])
        ensures
            final(self).scan() == pre_start(old(self).scan(), local@, attr_items(a@)),
            final(self).cells@ == old(self).cells@,
    {
        if str_eq(local, "col") {
            apply_col(&mut self.meta, a);
        } else if str_eq(local, "pane") {
            self.meta.freeze_row = match read_u32(a, "ySplit") {
                Some(v) => v,
                None => 0,
            };
            self.meta.freeze_col = match read_u16(a, "xSplit") {
                Some(v) => v,
                None => 0,
            };
        } else if str_eq(local, "mergeCell") {
            match read_merge(a) {
                Some(r) => push_merge(&mut self.meta, r),
                None => {},
            }
        } else if str_eq(local, "pageSetUpPr") {
            self.fit_to_page = is_true(a, "fitToPage");
        } else if str_eq(local, "sheetProtection") {
            self.meta.protection = Some(read_protection(a));
        } else if str_eq(local, "sheetData") {
            self.phase = 1;
        }
    }

    fn data_start(&mut self, local: &str, a: &[XmlAttr])
        ensures
            final(self).scan() == data_start(old(self).scan(), local@, attr_items(a@)),
            final(self).cells@ == old(self).cells@,
    {
        if str_eq(local, "row") {
            apply_row(&mut self.meta, a);
        } else if str_eq(local, "c") {
            self.cell_pos = read_cell_pos(a);
            self.cell_type = read_text(a, "t");
            self.cell_style = read_cell_style(a);
            self.v_text = String::new();
            self.f_text = String::new();
        } else if str_eq(local, "v") {
            self.in_v = true;
            self.v_text = String::new();
        } else if str_eq(local, "f") {
            self.in_f = true;
            self.f_text = String::new();
        }
    }

    #[verifier::rlimit(60)]
    fn cell_end(&mut self, sst: &SharedStringTable, styles: &ParsedStyles)
        requires
            cells_flat(old(self).cells@),
        ensures
            final(self).scan() == data_cell_end(old(self).scan(), sst.strings(), styles@),
            cells_flat(final(self).cells@),
    {
        match self.cell_pos {
            Some((row, col)) => {
                let value = resolve_cell_value(
                    &self.cell_type,
                    self.v_text.as_str(),
                    self.f_text.as_str(),
                    self.cell_style,
                    sst,
                    styles,
                );
                proof {
                    reveal_strlit("");
                }
                if !value.is_empty() || !str_eq(self.f_text.as_str(), "") {
                    proof {
                        if self.f_text@.len() == 0 {
                            assert(self.f_text@ =~= ""@);
                        }
                    }
                    let c = RawCell { row, col, value, xf_index: self.cell_style as u32 };
                    let ghost cv = raw_cell_view(c);
                    let ghost before = self.cells@;
                    self.cells.push(c);
                    assert(raw_cells(self.cells@) =~= raw_cells(before).push(cv));
                    assert forall|j: int| 0 <= j < self.cells@.len() implies cell_flat(
                        #[trigger] self.cells@[j].value,
                    ) by {
                        if j < before.len() {
                            assert(self.cells@[j] == before[j]);
                        }
                    }
                } else {
                    proof {
                        if self.f_text@.len() != 0 {
                            assert(self.f_text@ != ""@);
                        }
                    }
                }
            },
            None => {},
        }
        self.cell_pos = None;
        self.cell_type = None;
    }

    fn page_break(&mut self, a: &[XmlAttr])
        ensures
            final(self).scan() == page_break(old(self).scan(), attr_items(a@)),
            final(self).cells@ == old(self).cells@,
    {
        let id = match get_attr(a, "id") {
            Some(v) => parse_unsigned(v.as_str(), u32::MAX as u64),
            None => None,
        };
        match id {
            Some(i) => {
                if self.in_row_breaks {
                    let r: u32 = if i == 0 { u32::MAX } else { (i - 1) as u32 };
                    self.ps.row_breaks.push(r);
                } else if self.in_col_breaks {
                    let c: u64 = if i == 0 { 0 } else { i - 1 };
                    self.ps.col_breaks.push(c as u16);
                }
            },
            None => {},
        }
    }

    fn post_meta(&mut self, local: &str, a: &[XmlAttr])
        requires
            is_meta_tag(local@),
        ensures
            final(self).scan() == post_meta(old(self).scan(), local@, attr_items(a@)),
            final(self).cells@ == old(self).cells@,
    {
        if str_eq(local, "mergeCell") {
            match read_merge(a) {
                Some(r) => push_merge(&mut self.meta, r),
                None => {},
            }
        } else if str_eq(local, "drawing") {
            self.meta.drawing_rid = read_text(a, "r:id");
        } else if str_eq(local, "legacyDrawing") {
            self.meta.legacy_drawing_rid = read_text(a, "r:id");
        } else if str_eq(local, "sheetProtection") {
            self.meta.protection = Some(read_protection(a));
        } else {
            let h = read_hyperlink(a);
            proof {
                reveal_strlit("");
            }
            if !str_eq(h.cell_ref.as_str(), "") {
                assert(h.cell_ref@.len() > 0) by {
                    if h.cell_ref@.len() == 0 {
                        assert(h.cell_ref@ =~= ""@);
                    }
                }
                let ghost hv = hyperlink_view(h);
                let ghost before = self.meta.hyperlinks@;
                self.meta.hyperlinks.push(h);
                assert(self.meta.hyperlinks@.map_values(|x: ParsedHyperlink| hyperlink_view(x)) =~= before.map_values(
                    |x: ParsedHyperlink| hyperlink_view(x),
                ).push(hv));
            } else {
                assert(h.cell_ref@.len() == 0);
            }
        }
    }

    fn post_print(&mut self, local: &str, a: &[XmlAttr])
        ensures
            final(self).scan() == post_print(old(self).scan(), local@, attr_items(a@)),
            final(self).cells@ == old(self).cells@,
    {
        if str_eq(local, "pageMargins") {
            self.has_ps = true;
            self.ps.margin_top = read_text(a, "top");
            self.ps.margin_bottom = read_text(a, "bottom");
            self.ps.margin_left = read_text(a, "left");
            self.ps.margin_right = read_text(a, "right");
            self.ps.margin_header = read_text(a, "header");
            self.ps.margin_footer = read_text(a, "footer");
        } else if str_eq(local, "pageSetup") {
            self.has_ps = true;
            apply_page_setup(&mut self.ps, a);
        } else if str_eq(local, "headerFooter") {
            self.in_hf = true;
            self.has_ps = true;
        } else if str_eq(local, "oddHeader") && self.in_hf {
            self.in_odd_header = true;
            self.header_text = String::new();
        } else if str_eq(local, "oddFooter") && self.in_hf {
            self.in_odd_footer = true;
            self.footer_text = String::new();
        } else if str_eq(local, "rowBreaks") {
            self.in_row_breaks = true;
            self.has_ps = true;
        } else if str_eq(local, "colBreaks") {
            self.in_col_breaks = true;
            self.has_ps = true;
        } else if str_eq(local, "brk") {
            self.page_break(a);
        }
    }

    fn post_start(&mut self, local: &str, a: &[XmlAttr])
        ensures
            final(self).scan() == post_start(old(self).scan(), local@, attr_items(a@)),
            final(self).cells@ == old(self).cells@,
    {
        if str_eq(local, "mergeCell") || str_eq(local, "drawing") || str_eq(local, "legacyDrawing")
            || str_eq(local, "sheetProtection") || str_eq(local, "hyperlink") {
            self.post_meta(local, a);
        } else {
            self.post_print(local, a);
        }
    }

    fn post_end(&mut self, local: &str)
        ensures
            final(self).scan() == post_end(old(self).scan(), local@),
            final(self).cells@ == old(self).cells@,
    {
        proof {
            reveal_strlit("");
        }
        if str_eq(local, "oddHeader") {
            self.in_odd_header = false;
            if !str_eq(self.header_text.as_str(), "") {
                assert(self.header_text@.len() > 0) by {
                    if self.header_text@.len() == 0 {
                        assert(self.header_text@ =~= ""@);
                    }
                }
                self.ps.header = Some(self.header_text.clone());
            }
        } else if str_eq(local, "oddFooter") {
            self.in_odd_footer = false;
            if !str_eq(self.footer_text.as_str(), "") {
                assert(self.footer_text@.len() > 0) by {
                    if self.footer_text@.len() == 0 {
                        assert(self.footer_text@ =~= ""@);
                    }
                }
                self.ps.footer = Some(self.footer_text.clone());
            }
        } else if str_eq(local, "headerFooter") {
            self.in_hf = false;
        } else if str_eq(local, "rowBreaks") {
            self.in_row_breaks = false;
        } else if str_eq(local, "colBreaks") {
            self.in_col_breaks = false;
        }
    }

    fn step(&mut self, ev: &XmlEvent, sst: &SharedStringTable, styles: &ParsedStyles)
        requires
            cells_flat(old(self).cells@),
        ensures
            final(self).scan() == sheet_step(old(self).scan(), ev@, sst.strings(), styles@),
            cells_flat(final(self).cells@),
    {
        if self.phase == 0 {
            match ev {
                XmlEvent::Start { name, attrs } => {
                    let local = local_name(name.as_str());
                    self.pre_start(local.as_str(), attrs.as_slice());
                },
                _ => {},
            }
        } else if self.phase == 1 {
            match ev {
                XmlEvent::Start { name, attrs } => {
                    let local = local_name(name.as_str());
                    self.data_start(local.as_str(), attrs.as_slice());
                },
                XmlEvent::Text(t) => {
                    if self.in_v {
                        push_str(&mut self.v_text, t.as_str());
                    } else if self.in_f {
                        push_str(&mut self.f_text, t.as_str());
                    }
                },
                XmlEvent::End { name } => {
                    let local = local_name(name.as_str());
                    let l = local.as_str();
                    if str_eq(l, "v") {
                        self.in_v = false;
                    } else if str_eq(l, "f") {
                        self.in_f = false;
                    } else if str_eq(l, "c") {
                        self.cell_end(sst, styles);
                    } else if str_eq(l, "sheetData") {
                        self.phase = 2;
                    }
                },
                _ => {},
            }
        } else {
            match ev {
                XmlEvent::Start { name, attrs } => {
                    let local = local_name(name.as_str());
                    self.post_start(local.as_str(), attrs.as_slice());
                },
                XmlEvent::Text(t) => {
                    if self.in_odd_header {
                        push_str(&mut self.header_text, t.as_str());
                    } else if self.in_odd_footer {
                        push_str(&mut self.footer_text, t.as_str());
                    }
                },
                XmlEvent::End { name } => {
                    let local = local_name(name.as_str());
                    self.post_end(local.as_str());
                },
                _ => {},
            }
        }
    }

    fn finish(self) -> (res: (Vec<RawCell>, SheetMeta))
        ensures
            (raw_cells(res.0@), meta_view(res.1)) == sheet_finish(self.scan()),
            res.0@ == self.cells@,
    {
        let mut meta = self.meta;
        if self.phase != 0 && (self.has_ps || self.fit_to_page) {
            let mut ps = self.ps;
            ps.fit_to_page = self.fit_to_page;
            meta.print_settings = Some(ps);
        }
        (self.cells, meta)
    }
}

/// Read cells and metadata from sheet XML in one pass.
pub fn read_sheet_full(data: &[u8], sst: &SharedStringTable, styles: &ParsedStyles) -> (res: Result<
    (Vec<RawCell>, SheetMeta),
    Error,
>)
    ensures
        match res {
            Ok((cells, meta)) => spec_read_sheet(data@, sst.strings(), styles@) == Some(
                (raw_cells(cells@), meta_view(meta)),
            ) && cells_flat(cells@),
            Err(e) => spec_read_sheet(data@, sst.strings(), styles@) is None && e is Xml,
        },
{
    let scan = scan_xml(data);
    if !scan.complete {
        return Err(Error::Xml(to_string("malformed sheet part")));
    }
    let ghost items = xml_items(scan.events@);
    let mut st = SheetReader::new();
    let mut i: usize = 0;
    while i < scan.events.len()
        invariant
            0 <= i <= scan.events.len(),
            items == xml_items(scan.events@),
            cells_flat(st.cells@),
            st.scan() == sheet_run(items.take(i as int), sst.strings(), styles@),
        decreases scan.events.len() - i,
    {
        assert(items.take(i + 1).drop_last() =~= items.take(i as int));
        assert(items.take(i + 1).last() == scan.events@[i as int]@);
        st.step(&scan.events[i], sst, styles);
        i += 1;
    }
    assert(items.take(scan.events.len() as int) =~= items);
    Ok(st.finish())
}

/// Read only the cells of a sheet part.
pub fn read_sheet_cells(data: &[u8], sst: &SharedStringTable, styles: &ParsedStyles) -> (res: Result<
    Vec<RawCell>,
    Error,
>)
    ensures
        match res {
            Ok(cells) => match spec_read_sheet(data@, sst.strings(), styles@) {
                Some((c, _)) => c == raw_cells(cells@),
                None => false,
            },
            Err(e) => spec_read_sheet(data@, sst.strings(), styles@) is None && e is Xml,
        },
{
    match read_sheet_full(data, sst, styles) {
        Ok((cells, _)) => Ok(cells),
        Err(e) => Err(e),
    }
}

} // verus!

verus! {

fn clone_opt_text(o: &Option<String>) -> (res: Option<String>)
    ensures
        res == *o,
{
    match o {
        Some(s) => Some(s.clone()),
        None => None,
    }
}

fn clone_u32s(v: &Vec<RowNum>) -> (res: Vec<RowNum>)
    ensures
        res@ == v@,
{
    let mut res: Vec<RowNum> = Vec::new();
    let mut i: usize = 0;
    while i < v.len()
        invariant
            0 <= i <= v.len(),
            res@ == v@.take(i as int),
        decreases v.len() - i,
    {
        res.push(v[i]);
        assert(res@ =~= v@.take(i + 1));
        i += 1;
    }
    assert(v@.take(v.len() as int) =~= v@);
    res
}

fn clone_u16s(v: &Vec<ColNum>) -> (res: Vec<ColNum>)
    ensures
        res@ == v@,
{
    let mut res: Vec<ColNum> = Vec::new();
    let mut i: usize = 0;
    while i < v.len()
        invariant
            0 <= i <= v.len(),
            res@ == v@.take(i as int),
        decreases v.len() - i,
    {
        res.push(v[i]);
        assert(res@ =~= v@.take(i + 1));
        i += 1;
    }
    assert(v@.take(v.len() as int) =~= v@);
    res
}

fn clone_ranges(v: &Vec<(String, String, Option<String>)>) -> (res: Vec<(String, String, Option<String>)>)
    ensures
        res@ == v@,
{
    let mut res: Vec<(String, String, Option<String>)> = Vec::new();
    let mut i: usize = 0;
    while i < v.len()
        invariant
            0 <= i <= v.len(),
            res@ == v@.take(i as int),
        decreases v.len() - i,
    {
        let r = &v[i];
        res.push((r.0.clone(), r.1.clone(), clone_opt_text(&r.2)));
        assert(res@ =~= v@.take(i + 1));
        i += 1;
    }
    assert(v@.take(v.len() as int) =~= v@);
    res
}

impl PrintSettings {
    /// A copy of these settings.
    pub fn duplicate(&self) -> (res: PrintSettings)
        ensures
            print_view(res) == print_view(*self),
    {
        let res = PrintSettings {
            paper_size: self.paper_size,
            orientation: self.orientation,
            fit_to_page: self.fit_to_page,
            fit_to_width: self.fit_to_width,
            fit_to_height: self.fit_to_height,
            scale: self.scale,
            margin_top: clone_opt_text(&self.margin_top),
            margin_bottom: clone_opt_text(&self.margin_bottom),
            margin_left: clone_opt_text(&self.margin_left),
            margin_right: clone_opt_text(&self.margin_right),
            margin_header: clone_opt_text(&self.margin_header),
            margin_footer: clone_opt_text(&self.margin_footer),
            header: clone_opt_text(&self.header),
            footer: clone_opt_text(&self.footer),
            row_breaks: clone_u32s(&self.row_breaks),
            col_breaks: clone_u16s(&self.col_breaks),
            print_area: self.print_area,
            repeat_rows: self.repeat_rows,
            repeat_cols: self.repeat_cols,
            print_gridlines: self.print_gridlines,
            print_headings: self.print_headings,
            center_horizontally: self.center_horizontally,
            center_vertically: self.center_vertically,
            black_and_white: self.black_and_white,
            first_page_number: self.first_page_number,
            protected_ranges: clone_ranges(&self.protected_ranges),
        };
        assert(print_view(res).protected_ranges =~= print_view(*self).protected_ranges);
        res
    }
}

} // verus!
