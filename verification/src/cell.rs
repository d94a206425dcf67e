//! Cell values as a sheet part stores them, and how a `<c>` element's parts resolve into one.

use vstd::prelude::*;
use vstd::utf8::encode_utf8;

use crate::shared_strings::SharedStringTable;
use crate::style_parser::{ParsedStyles, StylesV};
use crate::style_registry::{lemma_builtin_date_ids, num_format_views, spec_is_date_format, StyleRegistry};
use crate::text::{str_eq, to_string};
use crate::utility::{atoi_parse_u32, atoi_u32};

verus! {

/// The value of a cell as read from a sheet part.
///
/// A number is kept as the text the part wrote: reading that text as a floating-point value is
/// left to the caller, who also learns whether the cell's number format shows dates.
#[derive(Debug)]
pub enum CellValue {
    Empty,
    String(String),
    /// The text of a number cell, and whether the cell's number format is a date format.
    Numeric { text: String, date: bool },
    Bool(bool),
    Error(String),
    /// A formula with the value last computed for it.
    Formula { formula: String, cached_value: Box<CellValue> },
}

/// The mathematical form of a value that is not a formula.
pub ghost enum ValueV {
    Empty,
    Str(Seq<char>),
    Numeric(Seq<char>, bool),
    Bool(bool),
    Error(Seq<char>),
}

/// The mathematical form of a cell value: its formula, if any, and the value shown.
pub ghost struct CellV {
    pub formula: Option<Seq<char>>,
    pub value: ValueV,
}

/// The value a non-formula cell value stands for (a formula stands for none of them).
pub open spec fn value_view(c: CellValue) -> ValueV {
    match c {
        CellValue::Empty => ValueV::Empty,
        CellValue::String(s) => ValueV::Str(s@),
        CellValue::Numeric { text, date } => ValueV::Numeric(text@, date),
        CellValue::Bool(b) => ValueV::Bool(b),
        CellValue::Error(e) => ValueV::Error(e@),
        CellValue::Formula { .. } => ValueV::Empty,
    }
}

/// A cell value read as its formula and shown value; a formula's cached value is never itself
/// a formula.
pub open spec fn cell_view(c: CellValue) -> CellV {
    match c {
        CellValue::Formula { formula, cached_value } => CellV {
            formula: Some(formula@),
            value: value_view(*cached_value),
        },
        _ => CellV { formula: None, value: value_view(c) },
    }
}

/// A formula's cached value is a plain value.
pub open spec fn cell_flat(c: CellValue) -> bool {
    match c {
        CellValue::Formula { cached_value, .. } => !(*cached_value is Formula),
        _ => true,
    }
}

impl CellValue {
    /// Whether the cell holds nothing.
    pub fn is_empty(&self) -> (res: bool)
        ensures
            res == (*self is Empty),
    {
        match self {
            CellValue::Empty => true,
            _ => false,
        }
    }
}

/// The number-format id of an xf index, 0 when the index is out of range.
pub open spec fn xf_num_fmt_id(styles: StylesV, style_idx: usize) -> u16 {
    if style_idx < styles.xf_num_fmt_ids.len() {
        styles.xf_num_fmt_ids[style_idx as int]
    } else {
        0
    }
}

/// The value a cell's type attribute and `<v>` text give, before its formula is considered: a
/// shared-string index (`s`), a boolean (`b`), an error (`e`), inline text (`str`, `inlineStr`),
/// or otherwise nothing for empty text and a number for any other text.
pub open spec fn spec_base_value(
    cell_type: Option<Seq<char>>,
    v: Seq<char>,
    style_idx: usize,
    strings: Seq<Seq<char>>,
    styles: StylesV,
) -> ValueV {
    if cell_type == Some("s"@) {
        let idx: u32 = match atoi_u32(encode_utf8(v)) {
            Some(n) => n,
            None => 0,
        };
        if (idx as int) < strings.len() {
            ValueV::Str(strings[idx as int])
        } else {
            ValueV::Empty
        }
    } else if cell_type == Some("b"@) {
        ValueV::Bool(v == "1"@)
    } else if cell_type == Some("e"@) {
        ValueV::Error(v)
    } else if cell_type == Some("str"@) || cell_type == Some("inlineStr"@) {
        ValueV::Str(v)
    } else if v.len() == 0 {
        ValueV::Empty
    } else {
        ValueV::Numeric(v, spec_is_date_format(xf_num_fmt_id(styles, style_idx), styles.num_formats))
    }
}

/// The value a cell resolves to: its base value, under its formula when it has one.
pub open spec fn spec_resolve_cell(
    cell_type: Option<Seq<char>>,
    v: Seq<char>,
    f: Seq<char>,
    style_idx: usize,
    strings: Seq<Seq<char>>,
    styles: StylesV,
) -> CellV {
    CellV {
        formula: if f.len() > 0 { Some(f) } else { None },
        value: spec_base_value(cell_type, v, style_idx, strings, styles),
    }
}

proof fn lemma_text_typed_cells_literals()
    ensures
        "str"@ != "s"@ && "str"@ != "b"@ && "str"@ != "e"@,
        "inlineStr"@ != "s"@ && "inlineStr"@ != "b"@ && "inlineStr"@ != "e"@,
{
    reveal_strlit("str");
    reveal_strlit("inlineStr");
    reveal_strlit("s");
    reveal_strlit("b");
    reveal_strlit("e");
    assert("str"@.len() != "s"@.len());
    assert("str"@.len() != "b"@.len());
    assert("str"@.len() != "e"@.len());
    assert("inlineStr"@.len() != "s"@.len());
    assert("inlineStr"@.len() != "b"@.len());
    assert("inlineStr"@.len() != "e"@.len());
}

/// A cell typed `str` (the string result of a formula) or `inlineStr` holds its `<v>` text as a
/// string, whatever that text is and whatever its formula, style and the shared strings are.
pub proof fn lemma_text_typed_cells(
    t: Seq<char>,
    v: Seq<char>,
    f: Seq<char>,
    style_idx: usize,
    strings: Seq<Seq<char>>,
    styles: StylesV,
)
    requires
        t == "str"@ || t == "inlineStr"@,
    ensures
        spec_resolve_cell(Some(t), v, f, style_idx, strings, styles).value == ValueV::Str(v),
        spec_resolve_cell(Some(t), v, f, style_idx, strings, styles).formula == if f.len() > 0 {
            Some(f)
        } else {
            None
        },
{
    lemma_text_typed_cells_literals();
}

/// What each cell type resolves to, whatever the cell's formula: `b` is a boolean, true exactly
/// for the text `1`; `e` is the error named by its text; `s` is the shared string its text
/// indexes (nothing when the index is past the table); an untyped or `n` cell is empty when its
/// text is, else a number kept as its text, which is a date whenever its xf's number format is
/// a built-in date or time format.
pub proof fn lemma_cell_types(
    v: Seq<char>,
    f: Seq<char>,
    style_idx: usize,
    strings: Seq<Seq<char>>,
    styles: StylesV,
)
    ensures
        spec_resolve_cell(Some("b"@), v, f, style_idx, strings, styles).value == ValueV::Bool(v == "1"@),
        spec_resolve_cell(Some("e"@), v, f, style_idx, strings, styles).value == ValueV::Error(v),
        spec_resolve_cell(Some("s"@), v, f, style_idx, strings, styles).value == ({
            let n: int = match atoi_u32(encode_utf8(v)) {
                Some(n) => n as int,
                None => 0,
            };
            if n < strings.len() {
                ValueV::Str(strings[n])
            } else {
                ValueV::Empty
            }
        }),
        v.len() == 0 ==> spec_resolve_cell(None, v, f, style_idx, strings, styles).value == ValueV::Empty,
        v.len() == 0 ==> spec_resolve_cell(Some("n"@), v, f, style_idx, strings, styles).value
            == ValueV::Empty,
        v.len() > 0 ==> (spec_resolve_cell(None, v, f, style_idx, strings, styles).value matches ValueV::Numeric(
            t,
            _,
        ) && t == v),
        v.len() > 0 ==> spec_resolve_cell(Some("n"@), v, f, style_idx, strings, styles).value
            == spec_resolve_cell(None, v, f, style_idx, strings, styles).value,
        v.len() > 0 && style_idx < styles.xf_num_fmt_ids.len() && ({
            let id = styles.xf_num_fmt_ids[style_idx as int];
            (14 <= id <= 22) || (27 <= id <= 36) || (45 <= id <= 47) || (50 <= id <= 58) || (71 <= id <= 81)
        }) ==> spec_resolve_cell(None, v, f, style_idx, strings, styles).value == ValueV::Numeric(v, true),
{
    reveal_strlit("s");
    reveal_strlit("b");
    reveal_strlit("e");
    reveal_strlit("n");
    reveal_strlit("str");
    reveal_strlit("inlineStr");
    assert("e"@ != "b"@) by {
        assert("e"@[0] != "b"@[0]);
    }
    assert("e"@ != "s"@) by {
        assert("e"@[0] != "s"@[0]);
    }
    assert("b"@ != "s"@) by {
        assert("b"@[0] != "s"@[0]);
    }
    assert("n"@ != "s"@) by {
        assert("n"@[0] != "s"@[0]);
    }
    assert("n"@ != "b"@) by {
        assert("n"@[0] != "b"@[0]);
    }
    assert("n"@ != "e"@) by {
        assert("n"@[0] != "e"@[0]);
    }
    assert("n"@.len() != "str"@.len());
    assert("n"@.len() != "inlineStr"@.len());
    let id = xf_num_fmt_id(styles, style_idx);
    if (14 <= id <= 22) || (27 <= id <= 36) || (45 <= id <= 47) || (50 <= id <= 58) || (71 <= id <= 81) {
        lemma_builtin_date_ids(id, styles.num_formats);
    }
}

fn is_text(s: &Option<String>, t: &str) -> (res: bool)
    ensures
        res == (match s { Some(x) => Some(x@), None => None::<Seq<char>> } == Some(t@)),
{
    match s {
        Some(x) => str_eq(x.as_str(), t),
        None => false,
    }
}

/// Resolve a cell's value from its type attribute, its `<v>` and `<f>` text and its xf index.
pub fn resolve_cell_value(
    cell_type: &Option<String>,
    v: &str,
    f: &str,
    style_idx: usize,
    sst: &SharedStringTable,
    styles: &ParsedStyles,
) -> (res: CellValue)
    ensures
        cell_view(res) == spec_resolve_cell(
            match cell_type { Some(t) => Some(t@), None => None },
            v@,
            f@,
            style_idx,
            sst.strings(),
            styles@,
        ),
        cell_flat(res),
        (res is Empty) <==> (f@.len() == 0 && spec_base_value(
            match cell_type { Some(t) => Some(t@), None => None },
            v@,
            style_idx,
            sst.strings(),
            styles@,
        ) is Empty),
        cell_type matches Some(t) && (t@ == "str"@ || t@ == "inlineStr"@) ==> cell_view(res).value
            == ValueV::Str(v@),
{
    proof {
        lemma_text_typed_cells_literals();
    }
    let base = if is_text(cell_type, "s") {
        let idx: u32 = match atoi_parse_u32(v.as_bytes()) {
            Some(n) => n,
            None => 0,
        };
        match sst.get(idx) {
            Some(s) => CellValue::String(to_string(s)),
            None => CellValue::Empty,
        }
    } else if is_text(cell_type, "b") {
        CellValue::Bool(str_eq(v, "1"))
    } else if is_text(cell_type, "e") {
        CellValue::Error(to_string(v))
    } else if is_text(cell_type, "str") || is_text(cell_type, "inlineStr") {
        CellValue::String(to_string(v))
    } else if str_eq(v, "") {
        proof {
            reveal_strlit("");
        }
        CellValue::Empty
    } else {
        proof {
            reveal_strlit("");
            if v@.len() == 0 {
                assert(v@ =~= ""@);
            }
        }
        let id: u16 = if style_idx < styles.xf_num_fmt_ids.len() {
            styles.xf_num_fmt_ids[style_idx]
        } else {
            0
        };
        let date = StyleRegistry::is_date_format(id, styles.num_formats.as_slice());
        CellValue::Numeric { text: to_string(v), date }
    };
    if !str_eq(f, "") {
        proof {
            reveal_strlit("");
            if f@.len() == 0 {
                assert(f@ =~= ""@);
            }
        }
        CellValue::Formula { formula: to_string(f), cached_value: Box::new(base) }
    } else {
        proof {
            reveal_strlit("");
        }
        base
    }
}

} // verus!
