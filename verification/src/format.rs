//! Cell formats, as the style registry reads them.

use vstd::prelude::*;

use crate::text::to_string;

verus! {

/// Fill patterns, numbered as `styles.xml` stores them.
#[derive(Debug, Clone, Copy, PartialEq, Eq, Structural)]
pub enum Pattern {
    NoFill,
    Solid,
    MediumGray,
    DarkGray,
    LightGray,
    DarkHorizontal,
    DarkVertical,
    DarkDown,
    DarkUp,
    DarkGrid,
    DarkTrellis,
    LightHorizontal,
    LightVertical,
    LightDown,
    LightUp,
    LightGrid,
    LightTrellis,
    Gray125,
}

/// The number of a fill pattern.
pub open spec fn pattern_code(p: Pattern) -> u8 {
    match p {
        Pattern::NoFill => 0,
        Pattern::Solid => 1,
        Pattern::MediumGray => 2,
        Pattern::DarkGray => 3,
        Pattern::LightGray => 4,
        Pattern::DarkHorizontal => 5,
        Pattern::DarkVertical => 6,
        Pattern::DarkDown => 7,
        Pattern::DarkUp => 8,
        Pattern::DarkGrid => 9,
        Pattern::DarkTrellis => 10,
        Pattern::LightHorizontal => 11,
        Pattern::LightVertical => 12,
        Pattern::LightDown => 13,
        Pattern::LightUp => 14,
        Pattern::LightGrid => 15,
        Pattern::LightTrellis => 16,
        Pattern::Gray125 => 17,
    }
}

impl Pattern {
    /// The number of this pattern.
    pub fn code(&self) -> (res: u8)
        ensures
            res == pattern_code(*self),
    {
        match self {
            Pattern::NoFill => 0,
            Pattern::Solid => 1,
            Pattern::MediumGray => 2,
            Pattern::DarkGray => 3,
            Pattern::LightGray => 4,
            Pattern::DarkHorizontal => 5,
            Pattern::DarkVertical => 6,
            Pattern::DarkDown => 7,
            Pattern::DarkUp => 8,
            Pattern::DarkGrid => 9,
            Pattern::DarkTrellis => 10,
            Pattern::LightHorizontal => 11,
            Pattern::LightVertical => 12,
            Pattern::LightDown => 13,
            Pattern::LightUp => 14,
            Pattern::LightGrid => 15,
            Pattern::LightTrellis => 16,
            Pattern::Gray125 => 17,
        }
    }
}

/// Border line styles.
#[derive(Debug, Clone, Copy, PartialEq, Eq, Structural)]
pub enum BorderStyle {
    NoBorder,
    Thin,
    Medium,
    Dashed,
    Dotted,
    Thick,
    Double,
}

/// The number of a border style.
pub open spec fn border_code(b: BorderStyle) -> u8 {
    match b {
        BorderStyle::NoBorder => 0,
        BorderStyle::Thin => 1,
        BorderStyle::Medium => 2,
        BorderStyle::Dashed => 3,
        BorderStyle::Dotted => 4,
        BorderStyle::Thick => 5,
        BorderStyle::Double => 6,
    }
}

impl BorderStyle {
    /// The number of this border style.
    pub fn code(&self) -> (res: u8)
        ensures
            res == border_code(*self),
    {
        match self {
            BorderStyle::NoBorder => 0,
            BorderStyle::Thin => 1,
            BorderStyle::Medium => 2,
            BorderStyle::Dashed => 3,
            BorderStyle::Dotted => 4,
            BorderStyle::Thick => 5,
            BorderStyle::Double => 6,
        }
    }
}

/// Underline styles.
#[derive(Debug, Clone, Copy, PartialEq, Eq, Structural)]
pub enum Underline {
    NoUnderline,
    Single,
    Double,
}

/// The number of an underline style.
pub open spec fn underline_code(u: Underline) -> u8 {
    match u {
        Underline::NoUnderline => 0,
        Underline::Single => 1,
        Underline::Double => 2,
    }
}

impl Underline {
    /// The number of this underline style.
    pub fn code(&self) -> (res: u8)
        ensures
            res == underline_code(*self),
    {
        match self {
            Underline::NoUnderline => 0,
            Underline::Single => 1,
            Underline::Double => 2,
        }
    }
}

/// A cell format, with its sizes, tints and angles held as the scaled integers the style
/// registry deduplicates by (points × 100, tint × 10000, degrees × 100, stop position × 1000).
pub struct Format {
    pub bold: bool,
    pub italic: bool,
    pub underline: Underline,
    pub strikethrough: bool,
    /// Font size in hundredths of a point.
    pub font_size_x100: u32,
    pub font_name: String,
    pub font_color: Option<[u8; 3]>,
    /// Theme color: (theme index, tint × 10000).
    pub theme_color: Option<(u8, i64)>,
    pub shadow: bool,
    pub outline: bool,
    pub emboss: bool,
    pub engrave: bool,
    /// Gradient fill: (angle × 100, stops as (position × 1000, color)).
    pub gradient: Option<(i64, Vec<(u32, [u8; 3])>)>,
    pub bg_color: Option<[u8; 3]>,
    pub fg_color: Option<[u8; 3]>,
    pub pattern: Pattern,
    pub border_top: BorderStyle,
    pub border_bottom: BorderStyle,
    pub border_left: BorderStyle,
    pub border_right: BorderStyle,
    pub border_color: Option<[u8; 3]>,
    pub border_top_color: Option<[u8; 3]>,
    pub border_bottom_color: Option<[u8; 3]>,
    pub border_left_color: Option<[u8; 3]>,
    pub border_right_color: Option<[u8; 3]>,
    pub diagonal_border: BorderStyle,
    /// 0 = none, 1 = up, 2 = down, 3 = both.
    pub diagonal_type: u8,
    pub h_align: u8,
    pub v_align: u8,
    pub wrap_text: bool,
    pub shrink: bool,
    pub indent: u8,
    pub rotation: i16,
    pub num_format: String,
    pub cell_style: Option<String>,
    pub locked: Option<bool>,
    pub formula_hidden: bool,
    pub quote_prefix: bool,
}

impl Format {
    /// The default format: Calibri 11, no fill, no borders, general number format.
    pub fn new() -> (res: Self)
        ensures
            res.is_default(),
    {
        Format {
            bold: false,
            italic: false,
            underline: Underline::NoUnderline,
            strikethrough: false,
            font_size_x100: 1100,
            font_name: to_string("Calibri"),
            font_color: None,
            theme_color: None,
            shadow: false,
            outline: false,
            emboss: false,
            engrave: false,
            gradient: None,
            bg_color: None,
            fg_color: None,
            pattern: Pattern::NoFill,
            border_top: BorderStyle::NoBorder,
            border_bottom: BorderStyle::NoBorder,
            border_left: BorderStyle::NoBorder,
            border_right: BorderStyle::NoBorder,
            border_color: None,
            border_top_color: None,
            border_bottom_color: None,
            border_left_color: None,
            border_right_color: None,
            diagonal_border: BorderStyle::NoBorder,
            diagonal_type: 0,
            h_align: 0,
            v_align: 0,
            wrap_text: false,
            shrink: false,
            indent: 0,
            rotation: 0,
            num_format: String::new(),
            cell_style: None,
            locked: None,
            formula_hidden: false,
            quote_prefix: false,
        }
    }

    /// This is the format `new` makes.
    pub open spec fn is_default(&self) -> bool {
        self.is_plain() && self.num_format@.len() == 0
    }

    /// Every setting but the number format is the one `new` makes.
    pub open spec fn is_plain(&self) -> bool {
        &&& !self.bold && !self.italic && self.underline == Underline::NoUnderline && !self.strikethrough
        &&& self.font_size_x100 == 1100 && self.font_name@ == "Calibri"@
        &&& self.font_color is None && self.theme_color is None
        &&& !self.shadow && !self.outline && !self.emboss && !self.engrave
        &&& self.gradient is None && self.bg_color is None && self.fg_color is None
        &&& self.pattern == Pattern::NoFill
        &&& self.border_top == BorderStyle::NoBorder && self.border_bottom == BorderStyle::NoBorder
        &&& self.border_left == BorderStyle::NoBorder && self.border_right == BorderStyle::NoBorder
        &&& self.border_color is None && self.border_top_color is None
        &&& self.border_bottom_color is None && self.border_left_color is None
        &&& self.border_right_color is None
        &&& self.diagonal_border == BorderStyle::NoBorder && self.diagonal_type == 0
        &&& self.h_align == 0 && self.v_align == 0 && !self.wrap_text && !self.shrink
        &&& self.indent == 0 && self.rotation == 0
        &&& self.cell_style is None && self.locked is None
        &&& !self.formula_hidden && !self.quote_prefix
    }

    /// This format with bold text.
    pub fn bold(self) -> (res: Self)
        ensures
            res == (Format { bold: true, ..self }),
    {
        Format { bold: true, ..self }
    }

    /// This format with italic text.
    pub fn italic(self) -> (res: Self)
        ensures
            res == (Format { italic: true, ..self }),
    {
        Format { italic: true, ..self }
    }

    /// Whether any alignment setting differs from the default.
    pub open spec fn spec_has_alignment(&self) -> bool {
        self.h_align != 0 || self.v_align != 0 || self.wrap_text || self.shrink || self.indent != 0
            || self.rotation != 0
    }

    /// Whether any alignment setting differs from the default.
    pub fn has_alignment(&self) -> (res: bool)
        ensures
            res == self.spec_has_alignment(),
    {
        self.h_align != 0 || self.v_align != 0 || self.wrap_text || self.shrink || self.indent != 0
            || self.rotation != 0
    }
}

} // verus!

verus! {

fn clone_stops(v: &Vec<(u32, [u8; 3])>) -> (res: Vec<(u32, [u8; 3])>)
    ensures
        res@ == v@,
{
    let mut res: Vec<(u32, [u8; 3])> = Vec::new();
    let mut i: usize = 0;
    while i < v.len()
        invariant
            0 <= i <= v.len(),
            res@ == v@.take(i as int),
        decreases v.len() - i,
    {
        res.push(v[i]);
        assert(res@ =~= v@.take(i + 1));
        i += 1;
    }
    assert(v@.take(v.len() as int) =~= v@);
    res
}

/// A format's gradient, its stops taken by their view.
pub open spec fn gradient_of(f: Format) -> Option<(i64, Seq<(u32, [u8; 3])>)> {
    match f.gradient {
        Some((angle, stops)) => Some((angle, stops@)),
        None => None,
    }
}

/// Two formats set every property alike.
pub open spec fn same_format(a: Format, b: Format) -> bool {
    &&& a.bold == b.bold
    &&& a.italic == b.italic
    &&& a.underline == b.underline
    &&& a.strikethrough == b.strikethrough
    &&& a.font_size_x100 == b.font_size_x100
    &&& a.font_name == b.font_name
    &&& a.font_color == b.font_color
    &&& a.theme_color == b.theme_color
    &&& a.shadow == b.shadow
    &&& a.outline == b.outline
    &&& a.emboss == b.emboss
    &&& a.engrave == b.engrave
    &&& gradient_of(a) == gradient_of(b)
    &&& a.bg_color == b.bg_color
    &&& a.fg_color == b.fg_color
    &&& a.pattern == b.pattern
    &&& a.border_top == b.border_top
    &&& a.border_bottom == b.border_bottom
    &&& a.border_left == b.border_left
    &&& a.border_right == b.border_right
    &&& a.border_color == b.border_color
    &&& a.border_top_color == b.border_top_color
    &&& a.border_bottom_color == b.border_bottom_color
    &&& a.border_left_color == b.border_left_color
    &&& a.border_right_color == b.border_right_color
    &&& a.diagonal_border == b.diagonal_border
    &&& a.diagonal_type == b.diagonal_type
    &&& a.h_align == b.h_align
    &&& a.v_align == b.v_align
    &&& a.wrap_text == b.wrap_text
    &&& a.shrink == b.shrink
    &&& a.indent == b.indent
    &&& a.rotation == b.rotation
    &&& a.num_format == b.num_format
    &&& a.cell_style == b.cell_style
    &&& a.locked == b.locked
    &&& a.formula_hidden == b.formula_hidden
    &&& a.quote_prefix == b.quote_prefix
}

impl Format {
    /// A copy of this format.
    pub fn duplicate(&self) -> (res: Format)
        ensures
            same_format(res, *self),
    {
        let gradient = clone_gradient(&self.gradient);
        let cell_style = clone_opt_string(&self.cell_style);
        let res = Format {
            bold: self.bold,
            italic: self.italic,
            underline: self.underline,
            strikethrough: self.strikethrough,
            font_size_x100: self.font_size_x100,
            font_name: self.font_name.clone(),
            font_color: self.font_color,
            theme_color: self.theme_color,
            shadow: self.shadow,
            outline: self.outline,
            emboss: self.emboss,
            engrave: self.engrave,
            gradient,
            bg_color: self.bg_color,
            fg_color: self.fg_color,
            pattern: self.pattern,
            border_top: self.border_top,
            border_bottom: self.border_bottom,
            border_left: self.border_left,
            border_right: self.border_right,
            border_color: self.border_color,
            border_top_color: self.border_top_color,
            border_bottom_color: self.border_bottom_color,
            border_left_color: self.border_left_color,
            border_right_color: self.border_right_color,
            diagonal_border: self.diagonal_border,
            diagonal_type: self.diagonal_type,
            h_align: self.h_align,
            v_align: self.v_align,
            wrap_text: self.wrap_text,
            shrink: self.shrink,
            indent: self.indent,
            rotation: self.rotation,
            num_format: self.num_format.clone(),
            cell_style,
            locked: self.locked,
            formula_hidden: self.formula_hidden,
            quote_prefix: self.quote_prefix,
        };

        res
    }
}

fn clone_gradient(g: &Option<(i64, Vec<(u32, [u8; 3])>)>) -> (res: Option<(i64, Vec<(u32, [u8; 3])>)>)
    ensures
        match (res, *g) {
            (Some(a), Some(b)) => a.0 == b.0 && a.1@ == b.1@,
            (None, None) => true,
            _ => false,
        },
{
    match g {
        Some((angle, stops)) => Some((*angle, clone_stops(stops))),
        None => None,
    }
}

fn clone_opt_string(o: &Option<String>) -> (res: Option<String>)
    ensures
        res == *o,
{
    match o {
        Some(s) => Some(s.clone()),
        None => None,
    }
}

} // verus!
