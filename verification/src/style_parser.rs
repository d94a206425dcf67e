//! The style table of a workbook part as it was read (`xl/styles.xml`), and the small readers
//! for its attribute values.

use vstd::prelude::*;

use crate::format::{BorderStyle, Pattern, Underline};
use crate::text::{str_eq, to_string};

verus! {

/// Font record parsed from `<font>` elements in styles XML.
#[derive(Debug)]
pub struct ParsedFont {
    pub bold: bool,
    pub italic: bool,
    pub underline: Underline,
    pub strikethrough: bool,
    /// Size in hundredths of a point.
    pub size_x100: u32,
    pub name: String,
    pub color: Option<[u8; 3]>,
}

impl Default for ParsedFont {
    /// Calibri 11, no decoration, no color.
    fn default() -> (res: Self)
        ensures
            !res.bold && !res.italic && res.underline == Underline::NoUnderline && !res.strikethrough,
            res.size_x100 == 1100 && res.name@ == "Calibri"@ && res.color is None,
    {
        ParsedFont {
            bold: false,
            italic: false,
            underline: Underline::NoUnderline,
            strikethrough: false,
            size_x100: 1100,
            name: to_string("Calibri"),
            color: None,
        }
    }
}

/// Fill record parsed from `<fill>` elements in styles XML.
#[derive(Debug, Clone, Copy)]
pub struct ParsedFill {
    pub pattern: Pattern,
    pub fg_color: Option<[u8; 3]>,
    pub bg_color: Option<[u8; 3]>,
}

impl Default for ParsedFill {
    /// No pattern and no colors.
    fn default() -> (res: Self)
        ensures
            res == (ParsedFill { pattern: Pattern::NoFill, fg_color: None, bg_color: None }),
    {
        ParsedFill { pattern: Pattern::NoFill, fg_color: None, bg_color: None }
    }
}

/// Border side parsed from individual `<left>`, `<right>`, `<top>`, `<bottom>` elements.
#[derive(Debug, Clone, Copy)]
pub struct ParsedBorderSide {
    pub style: BorderStyle,
    pub color: Option<[u8; 3]>,
}

impl Default for ParsedBorderSide {
    /// No line and no color.
    fn default() -> (res: Self)
        ensures
            res == (ParsedBorderSide { style: BorderStyle::NoBorder, color: None }),
    {
        ParsedBorderSide { style: BorderStyle::NoBorder, color: None }
    }
}

/// Border record parsed from `<border>` elements in styles XML.
#[derive(Debug, Clone, Copy, Default)]
pub struct ParsedBorder {
    pub left: ParsedBorderSide,
    pub right: ParsedBorderSide,
    pub top: ParsedBorderSide,
    pub bottom: ParsedBorderSide,
    pub diagonal: ParsedBorderSide,
}

/// Alignment record parsed from `<alignment>` elements inside `<xf>`.
#[derive(Debug, Clone, Copy, Default)]
pub struct ParsedAlignment {
    pub horizontal: u8,
    pub vertical: u8,
    pub wrap_text: bool,
    pub shrink_to_fit: bool,
    pub indent: u8,
    pub rotation: i16,
}

/// Full xf record: references into fonts, fills, borders plus alignment and number format.
#[derive(Debug, Clone, Copy, Default)]
pub struct XfRecord {
    pub font_id: usize,
    pub fill_id: usize,
    pub border_id: usize,
    pub num_fmt_id: u16,
    pub alignment: ParsedAlignment,
}

/// Differential formatting record parsed from `<dxf>` elements.
#[derive(Debug, Default)]
pub struct DxfRecord {
    pub font: Option<ParsedFont>,
    pub fill: Option<ParsedFill>,
    pub border: Option<ParsedBorder>,
    pub num_fmt: Option<(u16, String)>,
}

/// Every table of a style part.
pub struct ParsedStyles {
    pub num_formats: Vec<(u16, String)>,
    pub xf_num_fmt_ids: Vec<u16>,
    pub fonts: Vec<ParsedFont>,
    pub fills: Vec<ParsedFill>,
    pub borders: Vec<ParsedBorder>,
    pub xf_records: Vec<XfRecord>,
    pub dxf_records: Vec<DxfRecord>,
}

impl Default for ParsedStyles {
    /// Empty tables, with a single number-format id 0 for the default xf.
    fn default() -> (res: Self)
        ensures
            res.num_formats@.len() == 0,
            res.xf_num_fmt_ids@ == seq![0u16],
            res.fonts@.len() == 0 && res.fills@.len() == 0 && res.borders@.len() == 0,
            res.xf_records@.len() == 0 && res.dxf_records@.len() == 0,
    {
        let mut ids = Vec::new();
        ids.push(0u16);
        let res = ParsedStyles {
            num_formats: Vec::new(),
            xf_num_fmt_ids: ids,
            fonts: Vec::new(),
            fills: Vec::new(),
            borders: Vec::new(),
            xf_records: Vec::new(),
            dxf_records: Vec::new(),
        };
        assert(res.xf_num_fmt_ids@ =~= seq![0u16]);
        res
    }
}

/// The mathematical form of a [`ParsedFont`].
pub ghost struct FontV {
    pub bold: bool,
    pub italic: bool,
    pub underline: Underline,
    pub strikethrough: bool,
    pub size_x100: u32,
    pub name: Seq<char>,
    pub color: Option<[u8; 3]>,
}

impl View for ParsedFont {
    type V = FontV;

    open spec fn view(&self) -> FontV {
        FontV {
            bold: self.bold,
            italic: self.italic,
            underline: self.underline,
            strikethrough: self.strikethrough,
            size_x100: self.size_x100,
            name: self.name@,
            color: self.color,
        }
    }
}

/// The mathematical form of a [`DxfRecord`].
pub ghost struct DxfV {
    pub font: Option<FontV>,
    pub fill: Option<ParsedFill>,
    pub border: Option<ParsedBorder>,
    pub num_fmt: Option<(u16, Seq<char>)>,
}

impl View for DxfRecord {
    type V = DxfV;

    open spec fn view(&self) -> DxfV {
        DxfV {
            font: match self.font {
                Some(f) => Some(f@),
                None => None,
            },
            fill: self.fill,
            border: self.border,
            num_fmt: match self.num_fmt {
                Some(n) => Some((n.0, n.1@)),
                None => None,
            },
        }
    }
}

/// The mathematical form of [`ParsedStyles`].
pub ghost struct StylesV {
    pub num_formats: Seq<(u16, Seq<char>)>,
    pub xf_num_fmt_ids: Seq<u16>,
    pub fonts: Seq<FontV>,
    pub fills: Seq<ParsedFill>,
    pub borders: Seq<ParsedBorder>,
    pub xf_records: Seq<XfRecord>,
    pub dxf_records: Seq<DxfV>,
}

impl View for ParsedStyles {
    type V = StylesV;

    open spec fn view(&self) -> StylesV {
        StylesV {
            num_formats: self.num_formats@.map_values(|n: (u16, String)| (n.0, n.1@)),
            xf_num_fmt_ids: self.xf_num_fmt_ids@,
            fonts: self.fonts@.map_values(|f: ParsedFont| f@),
            fills: self.fills@,
            borders: self.borders@,
            xf_records: self.xf_records@,
            dxf_records: self.dxf_records@.map_values(|d: DxfRecord| d@),
        }
    }
}

/// The format code of a built-in number format id (ECMA-376 Part 1, §18.8.30).
pub open spec fn spec_builtin_num_format(id: u16) -> Option<Seq<char>> {
    if id == 0 {
        Some("General"@)
    } else if id == 1 {
        Some("0"@)
    } else if id == 2 {
        Some("0.00"@)
    } else if id == 3 {
        Some("#,##0"@)
    } else if id == 4 {
        Some("#,##0.00"@)
    } else if id == 9 {
        Some("0%"@)
    } else if id == 10 {
        Some("0.00%"@)
    } else if id == 11 {
        Some("0.00E+00"@)
    } else if id == 12 {
        Some("# ?/?"@)
    } else if id == 13 {
        Some("# ??/??"@)
    } else if id == 14 {
        Some("mm-dd-yy"@)
    } else if id == 15 {
        Some("d-mmm-yy"@)
    } else if id == 16 {
        Some("d-mmm"@)
    } else if id == 17 {
        Some("mmm-yy"@)
    } else if id == 18 {
        Some("h:mm AM/PM"@)
    } else if id == 19 {
        Some("h:mm:ss AM/PM"@)
    } else if id == 20 {
        Some("h:mm"@)
    } else if id == 21 {
        Some("h:mm:ss"@)
    } else if id == 22 {
        Some("m/d/yy h:mm"@)
    } else if id == 37 {
        Some("#,##0 ;(#,##0)"@)
    } else if id == 38 {
        Some("#,##0 ;[Red](#,##0)"@)
    } else if id == 39 {
        Some("#,##0.00;(#,##0.00)"@)
    } else if id == 40 {
        Some("#,##0.00;[Red](#,##0.00)"@)
    } else if id == 45 {
        Some("mm:ss"@)
    } else if id == 46 {
        Some("[h]:mm:ss"@)
    } else if id == 47 {
        Some("mmss.0"@)
    } else if id == 48 {
        Some("##0.0E+0"@)
    } else if id == 49 {
        Some("@"@)
    } else {
        None
    }
}

/// Map built-in number format IDs to their format code strings.
pub fn builtin_num_format(id: u16) -> (res: Option<&'static str>)
    ensures
        match res {
            Some(s) => spec_builtin_num_format(id) == Some(s@),
            None => spec_builtin_num_format(id) is None,
        },
{
    match id {
        0 => Some("General"),
        1 => Some("0"),
        2 => Some("0.00"),
        3 => Some("#,##0"),
        4 => Some("#,##0.00"),
        9 => Some("0%"),
        10 => Some("0.00%"),
        11 => Some("0.00E+00"),
        12 => Some("# ?/?"),
        13 => Some("# ??/??"),
        14 => Some("mm-dd-yy"),
        15 => Some("d-mmm-yy"),
        16 => Some("d-mmm"),
        17 => Some("mmm-yy"),
        18 => Some("h:mm AM/PM"),
        19 => Some("h:mm:ss AM/PM"),
        20 => Some("h:mm"),
        21 => Some("h:mm:ss"),
        22 => Some("m/d/yy h:mm"),
        37 => Some("#,##0 ;(#,##0)"),
        38 => Some("#,##0 ;[Red](#,##0)"),
        39 => Some("#,##0.00;(#,##0.00)"),
        40 => Some("#,##0.00;[Red](#,##0.00)"),
        45 => Some("mm:ss"),
        46 => Some("[h]:mm:ss"),
        47 => Some("mmss.0"),
        48 => Some("##0.0E+0"),
        49 => Some("@"),
        _ => None,
    }
}

/// The fill pattern a `patternType` value names (no fill for anything unknown).
pub open spec fn spec_parse_pattern_type(s: Seq<char>) -> Pattern {
    if s == "solid"@ {
        Pattern::Solid
    } else if s == "mediumGray"@ {
        Pattern::MediumGray
    } else if s == "darkGray"@ {
        Pattern::DarkGray
    } else if s == "lightGray"@ {
        Pattern::LightGray
    } else if s == "darkHorizontal"@ {
        Pattern::DarkHorizontal
    } else if s == "darkVertical"@ {
        Pattern::DarkVertical
    } else if s == "darkDown"@ {
        Pattern::DarkDown
    } else if s == "darkUp"@ {
        Pattern::DarkUp
    } else if s == "darkGrid"@ {
        Pattern::DarkGrid
    } else if s == "darkTrellis"@ {
        Pattern::DarkTrellis
    } else if s == "lightHorizontal"@ {
        Pattern::LightHorizontal
    } else if s == "lightVertical"@ {
        Pattern::LightVertical
    } else if s == "lightDown"@ {
        Pattern::LightDown
    } else if s == "lightUp"@ {
        Pattern::LightUp
    } else if s == "lightGrid"@ {
        Pattern::LightGrid
    } else if s == "lightTrellis"@ {
        Pattern::LightTrellis
    } else if s == "gray125"@ {
        Pattern::Gray125
    } else {
        Pattern::NoFill
    }
}

/// Map a pattern type string to the `Pattern` enum.
pub fn parse_pattern_type(s: &str) -> (res: Pattern)
    ensures
        res == spec_parse_pattern_type(s@),
{
    if str_eq(s, "solid") {
        Pattern::Solid
    } else if str_eq(s, "mediumGray") {
        Pattern::MediumGray
    } else if str_eq(s, "darkGray") {
        Pattern::DarkGray
    } else if str_eq(s, "lightGray") {
        Pattern::LightGray
    } else if str_eq(s, "darkHorizontal") {
        Pattern::DarkHorizontal
    } else if str_eq(s, "darkVertical") {
        Pattern::DarkVertical
    } else if str_eq(s, "darkDown") {
        Pattern::DarkDown
    } else if str_eq(s, "darkUp") {
        Pattern::DarkUp
    } else if str_eq(s, "darkGrid") {
        Pattern::DarkGrid
    } else if str_eq(s, "darkTrellis") {
        Pattern::DarkTrellis
    } else if str_eq(s, "lightHorizontal") {
        Pattern::LightHorizontal
    } else if str_eq(s, "lightVertical") {
        Pattern::LightVertical
    } else if str_eq(s, "lightDown") {
        Pattern::LightDown
    } else if str_eq(s, "lightUp") {
        Pattern::LightUp
    } else if str_eq(s, "lightGrid") {
        Pattern::LightGrid
    } else if str_eq(s, "lightTrellis") {
        Pattern::LightTrellis
    } else if str_eq(s, "gray125") {
        Pattern::Gray125
    } else {
        Pattern::NoFill
    }
}

/// The border style a `style` value names (no border for anything unknown).
pub open spec fn spec_parse_border_style(s: Seq<char>) -> BorderStyle {
    if s == "thin"@ {
        BorderStyle::Thin
    } else if s == "medium"@ {
        BorderStyle::Medium
    } else if s == "thick"@ {
        BorderStyle::Thick
    } else if s == "dashed"@ {
        BorderStyle::Dashed
    } else if s == "dotted"@ {
        BorderStyle::Dotted
    } else if s == "double"@ {
        BorderStyle::Double
    } else {
        BorderStyle::NoBorder
    }
}

/// Map a border style string to the `BorderStyle` enum.
pub fn parse_border_style(s: &str) -> (res: BorderStyle)
    ensures
        res == spec_parse_border_style(s@),
{
    if str_eq(s, "thin") {
        BorderStyle::Thin
    } else if str_eq(s, "medium") {
        BorderStyle::Medium
    } else if str_eq(s, "thick") {
        BorderStyle::Thick
    } else if str_eq(s, "dashed") {
        BorderStyle::Dashed
    } else if str_eq(s, "dotted") {
        BorderStyle::Dotted
    } else if str_eq(s, "double") {
        BorderStyle::Double
    } else {
        BorderStyle::NoBorder
    }
}

/// The number a `horizontal` alignment value stands for (0 = general).
pub open spec fn spec_parse_h_align(s: Seq<char>) -> u8 {
    if s == "left"@ {
        1
    } else if s == "center"@ {
        2
    } else if s == "right"@ {
        3
    } else if s == "fill"@ {
        4
    } else if s == "justify"@ {
        5
    } else if s == "centerContinuous"@ {
        6
    } else if s == "distributed"@ {
        7
    } else {
        0
    }
}

/// Map horizontal alignment string to numeric value.
pub fn parse_h_align(s: &str) -> (res: u8)
    ensures
        res == spec_parse_h_align(s@),
{
    if str_eq(s, "left") {
        1
    } else if str_eq(s, "center") {
        2
    } else if str_eq(s, "right") {
        3
    } else if str_eq(s, "fill") {
        4
    } else if str_eq(s, "justify") {
        5
    } else if str_eq(s, "centerContinuous") {
        6
    } else if str_eq(s, "distributed") {
        7
    } else {
        0
    }
}

/// The number a `vertical` alignment value stands for (0 = unset).
pub open spec fn spec_parse_v_align(s: Seq<char>) -> u8 {
    if s == "top"@ {
        1
    } else if s == "center"@ {
        2
    } else if s == "bottom"@ {
        3
    } else if s == "justify"@ {
        4
    } else if s == "distributed"@ {
        5
    } else {
        0
    }
}

/// Map vertical alignment string to numeric value.
pub fn parse_v_align(s: &str) -> (res: u8)
    ensures
        res == spec_parse_v_align(s@),
{
    if str_eq(s, "top") {
        1
    } else if str_eq(s, "center") {
        2
    } else if str_eq(s, "bottom") {
        3
    } else if str_eq(s, "justify") {
        4
    } else if str_eq(s, "distributed") {
        5
    } else {
        0
    }
}

} // verus!
