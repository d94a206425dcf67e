//! A worksheet held in memory: its cells with their style indices, the formats waiting to be
//! registered for them, and its layout, view, print and feature settings.
//!
//! All coordinates are 0-based: row 0 is the first row, column 0 is column A.

use vstd::prelude::*;
use vstd::utf8::encode_utf8;

use crate::cell::{CellV, CellValue, ValueV, cell_flat, cell_view};
use crate::error::Error;
use crate::format::{same_format, Format};
use crate::protection::{sheet_name_error_message, valid_sheet_name, validate_sheet_name};
use crate::text::{decimal_digits, push_char, push_decimal, push_str, to_string};
use crate::utility::{col_letters, col_to_letter, ColNum, RowNum};
use crate::conditional::{CfRule, StoredCf};
use crate::protection::{hash_password, hex4, pw_hash, SheetProtection};
use crate::sheet_reader::{empty_print, print_view, PrintSettings, PrintV};
use crate::sparklines::Sparkline;
use crate::validation::{validation_view, DataValidation, ValidationV};
use crate::worksheet::{Comment, Hyperlink, SheetVisibility};

verus! {

broadcast use vstd::std_specs::btree::group_btree_axioms, vstd::laws_cmp::group_laws_cmp;

/// What a worksheet keeps in a cell. Numbers and date-times are kept as the text of their
/// value (a date-time as its serial number).
#[derive(Debug)]
pub enum CellType {
    Empty,
    Number(String),
    /// An index into the shared-string table.
    SharedString(u32),
    InlineString(String),
    Bool(bool),
    /// A formula and the text of its cached numeric result, if any.
    Formula { text: String, cached_number: Option<String> },
    /// An array formula and the range it fills.
    ArrayFormula { text: String, range: String },
    /// A dynamic-array formula and the cell it spills from.
    DynamicFormula { text: String, range: String },
    DateTime(String),
    Error(String),
}

/// The mathematical form of a [`CellType`].
pub ghost enum CellTypeV {
    Empty,
    Number(Seq<char>),
    SharedString(u32),
    InlineString(Seq<char>),
    Bool(bool),
    Formula(Seq<char>, Option<Seq<char>>),
    ArrayFormula(Seq<char>, Seq<char>),
    DynamicFormula(Seq<char>, Seq<char>),
    DateTime(Seq<char>),
    Error(Seq<char>),
}

/// The view of a cell's content.
pub open spec fn cell_type_view(c: CellType) -> CellTypeV {
    match c {
        CellType::Empty => CellTypeV::Empty,
        CellType::Number(n) => CellTypeV::Number(n@),
        CellType::SharedString(i) => CellTypeV::SharedString(i),
        CellType::InlineString(s) => CellTypeV::InlineString(s@),
        CellType::Bool(b) => CellTypeV::Bool(b),
        CellType::Formula { text, cached_number } => CellTypeV::Formula(
            text@,
            match cached_number {
                Some(n) => Some(n@),
                None => None,
            },
        ),
        CellType::ArrayFormula { text, range } => CellTypeV::ArrayFormula(text@, range@),
        CellType::DynamicFormula { text, range } => CellTypeV::DynamicFormula(text@, range@),
        CellType::DateTime(s) => CellTypeV::DateTime(s@),
        CellType::Error(e) => CellTypeV::Error(e@),
    }
}

/// The cells of a sheet by position: each one's content and style index.
pub open spec fn cells_view(m: Map<(RowNum, ColNum), (CellType, u32)>) -> Map<(RowNum, ColNum), (CellTypeV, u32)> {
    m.map_values(|e: (CellType, u32)| (cell_type_view(e.0), e.1))
}

/// The value reading a cell gives for its content: a shared string reads as empty (its text is
/// in the shared-string table), a date-time as a number shown as a date, and an array or
/// dynamic formula as a formula with no cached value.
pub open spec fn shown_value(c: CellTypeV) -> CellV {
    match c {
        CellTypeV::Empty => CellV { formula: None, value: ValueV::Empty },
        CellTypeV::Number(n) => CellV { formula: None, value: ValueV::Numeric(n, false) },
        CellTypeV::SharedString(_) => CellV { formula: None, value: ValueV::Empty },
        CellTypeV::InlineString(s) => CellV { formula: None, value: ValueV::Str(s) },
        CellTypeV::Bool(b) => CellV { formula: None, value: ValueV::Bool(b) },
        CellTypeV::Formula(t, cached) => CellV {
            formula: Some(t),
            value: match cached {
                Some(n) => ValueV::Numeric(n, false),
                None => ValueV::Empty,
            },
        },
        CellTypeV::ArrayFormula(t, _) => CellV { formula: Some(t), value: ValueV::Empty },
        CellTypeV::DynamicFormula(t, _) => CellV { formula: Some(t), value: ValueV::Empty },
        CellTypeV::DateTime(s) => CellV { formula: None, value: ValueV::Numeric(s, true) },
        CellTypeV::Error(e) => CellV { formula: None, value: ValueV::Error(e) },
    }
}

/// What reading the cell at `pos` gives: its content's value, or empty where there is no cell.
pub open spec fn read_value(cells: Map<(RowNum, ColNum), (CellTypeV, u32)>, pos: (RowNum, ColNum)) -> CellV {
    if cells.contains_key(pos) {
        shown_value(cells[pos].0)
    } else {
        CellV { formula: None, value: ValueV::Empty }
    }
}

/// `new` keeps what `old` kept with `f` stored at `k`.
pub open spec fn format_stored<K>(old: Map<K, Format>, new: Map<K, Format>, k: K, f: Format) -> bool {
    &&& new.dom() == old.dom().insert(k)
    &&& same_format(new[k], f)
    &&& forall|j: K| j != k && old.contains_key(j) ==> new[j] == old[j]
}

/// A formula's text without its leading `=`.
pub open spec fn formula_text(f: Seq<char>) -> Seq<char> {
    if f.len() > 0 && f[0] == '=' {
        f.drop_first()
    } else {
        f
    }
}

/// The A1 form of a cell.
pub open spec fn cell_a1(row: RowNum, col: ColNum) -> Seq<char> {
    col_letters(col as nat + 1) + decimal_digits(row as nat + 1)
}

/// The A1 form of a range of cells.
pub open spec fn range_a1(r1: RowNum, c1: ColNum, r2: RowNum, c2: ColNum) -> Seq<char> {
    cell_a1(r1, c1) + ":"@ + cell_a1(r2, c2)
}

/// `r` is the smallest range, as (first row, first column, last row, last column), holding
/// every position of `d`.
pub open spec fn is_bounding_range(d: Set<(RowNum, ColNum)>, r: (RowNum, ColNum, RowNum, ColNum)) -> bool {
    &&& forall|k: (RowNum, ColNum)| d.contains(k) ==> r.0 <= k.0 <= r.2 && r.1 <= k.1 <= r.3
    &&& exists|k: (RowNum, ColNum)| d.contains(k) && k.0 == r.0
    &&& exists|k: (RowNum, ColNum)| d.contains(k) && k.1 == r.1
    &&& exists|k: (RowNum, ColNum)| d.contains(k) && k.0 == r.2
    &&& exists|k: (RowNum, ColNum)| d.contains(k) && k.1 == r.3
}

/// A worksheet. Its cells map each position to the content and style index written there;
/// formats set on cells wait in `pending_formats` and `range_formats` until the workbook
/// registers them.
pub struct Worksheet {
    pub name: String,
    pub cells: std::collections::BTreeMap<(RowNum, ColNum), (CellType, u32)>,
    pub pending_formats: std::collections::BTreeMap<(RowNum, ColNum), Format>,
    pub range_formats: Vec<(RowNum, ColNum, RowNum, ColNum, Format)>,
    pub merge_ranges: Vec<(RowNum, ColNum, RowNum, ColNum)>,
    /// Column widths, each as the text of its value in characters.
    pub col_widths: std::collections::BTreeMap<ColNum, String>,
    /// Row heights, each as the text of its value in points.
    pub row_heights: std::collections::BTreeMap<RowNum, String>,
    pub freeze_row: RowNum,
    pub freeze_col: ColNum,
    pub dirty: bool,
    pub conditional_formats: Vec<StoredCf>,
    pub validations: Vec<DataValidation>,
    pub sparklines: Vec<Sparkline>,
    pub protection: Option<SheetProtection>,
    pub print_settings: Option<PrintSettings>,
    pub hidden_rows: std::collections::BTreeSet<RowNum>,
    pub hidden_cols: std::collections::BTreeSet<ColNum>,
    pub autofilter: Option<(RowNum, ColNum, RowNum, ColNum)>,
    pub hyperlinks: Vec<Hyperlink>,
    pub comments: Vec<Comment>,
    pub row_outline_levels: std::collections::BTreeMap<RowNum, u8>,
    pub col_outline_levels: std::collections::BTreeMap<ColNum, u8>,
    pub zoom: Option<u16>,
    pub show_gridlines: bool,
    pub show_headings: bool,
    pub right_to_left: bool,
    pub tab_color: Option<[u8; 3]>,
    pub visibility: SheetVisibility,
    pub selection: Option<(RowNum, ColNum)>,
    pub top_left_cell: Option<(RowNum, ColNum)>,
    /// The default row height, as the text of its value in points.
    pub default_row_height: Option<String>,
    pub col_formats: std::collections::BTreeMap<ColNum, Format>,
    pub row_formats: std::collections::BTreeMap<RowNum, Format>,
    /// Error kinds to ignore, each with the range it is ignored in.
    pub ignored_errors: Vec<(String, String)>,
    /// Filter values for columns of the autofilter.
    pub autofilter_columns: Vec<(ColNum, Vec<String>)>,
}

fn strip_equals(formula: &str) -> (res: String)
    ensures
        res@ == formula_text(formula@),
{
    let cs = crate::text::chars_of(formula);
    if cs.len() > 0 && cs[0] == '=' {
        let rest = crate::utility::sub_chars(&cs, 1, cs.len());
        assert(rest@ =~= formula@.drop_first());
        crate::text::string_from_chars(&rest)
    } else {
        to_string(formula)
    }
}

impl Worksheet {
    /// An empty worksheet with the given name.
    pub fn new(name: &str) -> (res: Self)
        ensures
            res.name@ == name@,
            res.cells@ == Map::<(RowNum, ColNum), (CellType, u32)>::empty(),
            res.pending_formats@ == Map::<(RowNum, ColNum), Format>::empty(),
            res.range_formats@.len() == 0,
            res.merge_ranges@.len() == 0,
            res.col_widths@ == Map::<ColNum, String>::empty(),
            res.row_heights@ == Map::<RowNum, String>::empty(),
            res.freeze_row == 0,
            res.freeze_col == 0,
            !res.dirty,
            res.conditional_formats@.len() == 0,
            res.validations@.len() == 0,
            res.sparklines@.len() == 0,
            res.protection is None,
            res.print_settings is None,
            res.hidden_rows@ == Set::<RowNum>::empty(),
            res.hidden_cols@ == Set::<ColNum>::empty(),
            res.autofilter is None,
            res.hyperlinks@.len() == 0,
            res.comments@.len() == 0,
            res.row_outline_levels@ == Map::<RowNum, u8>::empty(),
            res.col_outline_levels@ == Map::<ColNum, u8>::empty(),
            res.zoom is None,
            res.show_gridlines,
            res.show_headings,
            !res.right_to_left,
            res.tab_color is None,
            res.visibility == SheetVisibility::Visible,
            res.selection is None,
            res.top_left_cell is None,
            res.default_row_height is None,
            res.col_formats@ == Map::<ColNum, Format>::empty(),
            res.row_formats@ == Map::<RowNum, Format>::empty(),
            res.ignored_errors@.len() == 0,
            res.autofilter_columns@.len() == 0,
    {
        Worksheet {
            name: to_string(name),
            cells: std::collections::BTreeMap::new(),
            pending_formats: std::collections::BTreeMap::new(),
            range_formats: Vec::new(),
            merge_ranges: Vec::new(),
            col_widths: std::collections::BTreeMap::new(),
            row_heights: std::collections::BTreeMap::new(),
            freeze_row: 0,
            freeze_col: 0,
            dirty: false,
            conditional_formats: Vec::new(),
            validations: Vec::new(),
            sparklines: Vec::new(),
            protection: None,
            print_settings: None,
            hidden_rows: std::collections::BTreeSet::new(),
            hidden_cols: std::collections::BTreeSet::new(),
            autofilter: None,
            hyperlinks: Vec::new(),
            comments: Vec::new(),
            row_outline_levels: std::collections::BTreeMap::new(),
            col_outline_levels: std::collections::BTreeMap::new(),
            zoom: None,
            show_gridlines: true,
            show_headings: true,
            right_to_left: false,
            tab_color: None,
            visibility: SheetVisibility::Visible,
            selection: None,
            top_left_cell: None,
            default_row_height: None,
            col_formats: std::collections::BTreeMap::new(),
            row_formats: std::collections::BTreeMap::new(),
            ignored_errors: Vec::new(),
            autofilter_columns: Vec::new(),
        }
    }

    /// The sheet's name.
    pub fn name(&self) -> (res: &str)
        ensures
            res@ == self.name@,
    {
        self.name.as_str()
    }

    /// Renames the sheet; a name Excel refuses is an error and leaves the sheet as it was.
    pub fn set_name(&mut self, name: &str) -> (res: Result<(), Error>)
        ensures
            res is Ok <==> valid_sheet_name(name@),
            res matches Err(e) ==> (e matches Error::InvalidData(m) && m@ == sheet_name_error_message(name@)),
            res is Ok ==> final(self).name@ == name@ && *final(self) == (Worksheet { name: final(self).name, ..*old(self) }),
            res is Err ==> *final(self) == *old(self),
    {
        match validate_sheet_name(name) {
            Ok(()) => {
                self.name = to_string(name);
                Ok(())
            },
            Err(e) => Err(e),
        }
    }

    /// Puts `cell` at `(row, col)` with the default style, and `fmt` in wait for it when given.
    fn put_cell(&mut self, row: RowNum, col: ColNum, cell: CellType, fmt: Option<&Format>)
        ensures
            cells_view(final(self).cells@) == cells_view(old(self).cells@).insert((row, col), (cell_type_view(cell), 0)),
            match fmt {
                Some(f) => format_stored(old(self).pending_formats@, final(self).pending_formats@, (row, col), *f),
                None => final(self).pending_formats@ == old(self).pending_formats@,
            },
            fmt is None ==> final(self).pending_formats == old(self).pending_formats,
            *final(self) == (Worksheet { cells: final(self).cells, pending_formats: final(self).pending_formats, ..*old(self) }),
    {
        let ghost before = cells_view(self.cells@);
        let ghost cv = cell_type_view(cell);
        self.cells.insert((row, col), (cell, 0));
        assert(cells_view(self.cells@) =~= before.insert((row, col), (cv, 0)));
        match fmt {
            Some(f) => {
                let ghost pf = self.pending_formats@;
                self.pending_formats.insert((row, col), f.duplicate());
                assert(self.pending_formats@.dom() =~= pf.dom().insert((row, col)));
            },
            None => {},
        }
    }

    /// Writes a number, given as the text of its value, with `fmt` in wait for the cell.
    pub fn write_number_internal(&mut self, row: RowNum, col: ColNum, n: &str, fmt: Option<&Format>) -> (res: Result<(), Error>)
        ensures
            res is Ok,
            cells_view(final(self).cells@) == cells_view(old(self).cells@).insert((row, col), (CellTypeV::Number(n@), 0)),
            match fmt {
                Some(f) => format_stored(old(self).pending_formats@, final(self).pending_formats@, (row, col), *f),
                None => final(self).pending_formats == old(self).pending_formats,
            },
            *final(self) == (Worksheet { cells: final(self).cells, pending_formats: final(self).pending_formats, ..*old(self) }),
    {
        self.put_cell(row, col, CellType::Number(to_string(n)), fmt);
        Ok(())
    }

    /// Writes a string inline, with `fmt` in wait for the cell.
    pub fn write_string_internal(&mut self, row: RowNum, col: ColNum, s: &str, fmt: Option<&Format>) -> (res: Result<(), Error>)
        ensures
            res is Ok,
            cells_view(final(self).cells@) == cells_view(old(self).cells@).insert((row, col), (CellTypeV::InlineString(s@), 0)),
            match fmt {
                Some(f) => format_stored(old(self).pending_formats@, final(self).pending_formats@, (row, col), *f),
                None => final(self).pending_formats == old(self).pending_formats,
            },
            *final(self) == (Worksheet { cells: final(self).cells, pending_formats: final(self).pending_formats, ..*old(self) }),
    {
        self.put_cell(row, col, CellType::InlineString(to_string(s)), fmt);
        Ok(())
    }

    /// Writes a boolean, with `fmt` in wait for the cell.
    pub fn write_bool_internal(&mut self, row: RowNum, col: ColNum, b: bool, fmt: Option<&Format>) -> (res: Result<(), Error>)
        ensures
            res is Ok,
            cells_view(final(self).cells@) == cells_view(old(self).cells@).insert((row, col), (CellTypeV::Bool(b), 0)),
            match fmt {
                Some(f) => format_stored(old(self).pending_formats@, final(self).pending_formats@, (row, col), *f),
                None => final(self).pending_formats == old(self).pending_formats,
            },
            *final(self) == (Worksheet { cells: final(self).cells, pending_formats: final(self).pending_formats, ..*old(self) }),
    {
        self.put_cell(row, col, CellType::Bool(b), fmt);
        Ok(())
    }

    /// Writes a date-time, given as the text of its serial number, with `fmt` in wait for the
    /// cell.
    pub fn write_datetime_internal(&mut self, row: RowNum, col: ColNum, serial: &str, fmt: Option<&Format>) -> (res:
        Result<(), Error>)
        ensures
            res is Ok,
            cells_view(final(self).cells@) == cells_view(old(self).cells@).insert((row, col), (CellTypeV::DateTime(serial@), 0)),
            match fmt {
                Some(f) => format_stored(old(self).pending_formats@, final(self).pending_formats@, (row, col), *f),
                None => final(self).pending_formats == old(self).pending_formats,
            },
            *final(self) == (Worksheet { cells: final(self).cells, pending_formats: final(self).pending_formats, ..*old(self) }),
    {
        self.put_cell(row, col, CellType::DateTime(to_string(serial)), fmt);
        Ok(())
    }

    /// Writes a string at `(row, col)`, with `fmt` in wait for the cell when given.
    pub fn write_string(&mut self, row: RowNum, col: ColNum, s: &str, fmt: Option<&Format>) -> (res: Result<(), Error>)
        ensures
            res is Ok,
            cells_view(final(self).cells@) == cells_view(old(self).cells@).insert((row, col), (CellTypeV::InlineString(s@), 0)),
            match fmt {
                Some(f) => format_stored(old(self).pending_formats@, final(self).pending_formats@, (row, col), *f),
                None => final(self).pending_formats == old(self).pending_formats,
            },
            *final(self) == (Worksheet {
                cells: final(self).cells,
                pending_formats: final(self).pending_formats,
                dirty: true,
                ..*old(self)
            }),
    {
        self.dirty = true;
        self.write_string_internal(row, col, s, fmt)
    }

    /// Writes a number, given as the text of its value, at `(row, col)`, with `fmt` in wait
    /// for the cell when given.
    pub fn write_number(&mut self, row: RowNum, col: ColNum, n: &str, fmt: Option<&Format>) -> (res: Result<(), Error>)
        ensures
            res is Ok,
            cells_view(final(self).cells@) == cells_view(old(self).cells@).insert((row, col), (CellTypeV::Number(n@), 0)),
            match fmt {
                Some(f) => format_stored(old(self).pending_formats@, final(self).pending_formats@, (row, col), *f),
                None => final(self).pending_formats == old(self).pending_formats,
            },
            *final(self) == (Worksheet {
                cells: final(self).cells,
                pending_formats: final(self).pending_formats,
                dirty: true,
                ..*old(self)
            }),
    {
        self.dirty = true;
        self.write_number_internal(row, col, n, fmt)
    }

    /// Writes a boolean at `(row, col)`, with `fmt` in wait for the cell when given.
    pub fn write_boolean(&mut self, row: RowNum, col: ColNum, b: bool, fmt: Option<&Format>) -> (res: Result<(), Error>)
        ensures
            res is Ok,
            cells_view(final(self).cells@) == cells_view(old(self).cells@).insert((row, col), (CellTypeV::Bool(b), 0)),
            match fmt {
                Some(f) => format_stored(old(self).pending_formats@, final(self).pending_formats@, (row, col), *f),
                None => final(self).pending_formats == old(self).pending_formats,
            },
            *final(self) == (Worksheet {
                cells: final(self).cells,
                pending_formats: final(self).pending_formats,
                dirty: true,
                ..*old(self)
            }),
    {
        self.dirty = true;
        self.write_bool_internal(row, col, b, fmt)
    }

    /// Writes a date-time, given as the text of its serial number, at `(row, col)`, with `fmt`
    /// in wait for the cell when given.
    pub fn write_datetime(&mut self, row: RowNum, col: ColNum, serial: &str, fmt: Option<&Format>) -> (res: Result<
        (),
        Error,
    >)
        ensures
            res is Ok,
            cells_view(final(self).cells@) == cells_view(old(self).cells@).insert((row, col), (CellTypeV::DateTime(serial@), 0)),
            match fmt {
                Some(f) => format_stored(old(self).pending_formats@, final(self).pending_formats@, (row, col), *f),
                None => final(self).pending_formats == old(self).pending_formats,
            },
            *final(self) == (Worksheet {
                cells: final(self).cells,
                pending_formats: final(self).pending_formats,
                dirty: true,
                ..*old(self)
            }),
    {
        self.dirty = true;
        self.write_datetime_internal(row, col, serial, fmt)
    }

    /// Writes a formula (a leading `=` dropped) with no cached result.
    pub fn write_formula(&mut self, row: RowNum, col: ColNum, formula: &str) -> (res: Result<(), Error>)
        ensures
            res is Ok,
            cells_view(final(self).cells@) == cells_view(old(self).cells@).insert(
                (row, col),
                (CellTypeV::Formula(formula_text(formula@), None), 0),
            ),
            *final(self) == (Worksheet { cells: final(self).cells, dirty: true, ..*old(self) }),
    {
        self.dirty = true;
        let text = strip_equals(formula);
        self.put_cell(row, col, CellType::Formula { text, cached_number: None }, None);
        Ok(())
    }

    /// Writes a formula (a leading `=` dropped) with the text of its cached numeric result.
    pub fn write_formula_with_result(&mut self, row: RowNum, col: ColNum, formula: &str, result: &str) -> (res:
        Result<(), Error>)
        ensures
            res is Ok,
            cells_view(final(self).cells@) == cells_view(old(self).cells@).insert(
                (row, col),
                (CellTypeV::Formula(formula_text(formula@), Some(result@)), 0),
            ),
            *final(self) == (Worksheet { cells: final(self).cells, dirty: true, ..*old(self) }),
    {
        self.dirty = true;
        let text = strip_equals(formula);
        self.put_cell(row, col, CellType::Formula { text, cached_number: Some(to_string(result)) }, None);
        Ok(())
    }

    /// Writes an array formula (a leading `=` dropped) filling `r1:c1` to `r2:c2`, kept at its
    /// top-left cell with the range in A1 form.
    pub fn write_array_formula(&mut self, r1: RowNum, c1: ColNum, r2: RowNum, c2: ColNum, formula: &str) -> (res:
        Result<(), Error>)
        requires
            r1 < u32::MAX,
            r2 < u32::MAX,
        ensures
            res is Ok,
            cells_view(final(self).cells@) == cells_view(old(self).cells@).insert(
                (r1, c1),
                (CellTypeV::ArrayFormula(formula_text(formula@), range_a1(r1, c1, r2, c2)), 0),
            ),
            *final(self) == (Worksheet { cells: final(self).cells, dirty: true, ..*old(self) }),
    {
        proof {
            reveal_strlit(":");
        }
        self.dirty = true;
        let text = strip_equals(formula);
        let mut range = col_to_letter(c1);
        push_decimal(&mut range, (r1 + 1) as u64);
        assert(range@ =~= cell_a1(r1, c1));
        push_char(&mut range, ':');
        let last = col_to_letter(c2);
        push_str(&mut range, last.as_str());
        push_decimal(&mut range, (r2 + 1) as u64);
        assert(range@ =~= range_a1(r1, c1, r2, c2));
        self.put_cell(r1, c1, CellType::ArrayFormula { text, range }, None);
        Ok(())
    }

    /// Writes a dynamic-array formula (a leading `=` dropped) that spills from `(row, col)`.
    pub fn write_dynamic_formula(&mut self, row: RowNum, col: ColNum, formula: &str) -> (res: Result<(), Error>)
        requires
            row < u32::MAX,
        ensures
            res is Ok,
            cells_view(final(self).cells@) == cells_view(old(self).cells@).insert(
                (row, col),
                (CellTypeV::DynamicFormula(formula_text(formula@), cell_a1(row, col)), 0),
            ),
            *final(self) == (Worksheet { cells: final(self).cells, dirty: true, ..*old(self) }),
    {
        self.dirty = true;
        let text = strip_equals(formula);
        let mut range = col_to_letter(col);
        push_decimal(&mut range, (row + 1) as u64);
        assert(range@ =~= cell_a1(row, col));
        self.put_cell(row, col, CellType::DynamicFormula { text, range }, None);
        Ok(())
    }

    /// Writes an empty cell with `format` in wait for it.
    pub fn write_blank(&mut self, row: RowNum, col: ColNum, format: &Format) -> (res: Result<(), Error>)
        ensures
            res is Ok,
            cells_view(final(self).cells@) == cells_view(old(self).cells@).insert((row, col), (CellTypeV::Empty, 0)),
            format_stored(old(self).pending_formats@, final(self).pending_formats@, (row, col), *format),
            *final(self) == (Worksheet {
                cells: final(self).cells,
                pending_formats: final(self).pending_formats,
                dirty: true,
                ..*old(self)
            }),
    {
        self.dirty = true;
        self.put_cell(row, col, CellType::Empty, Some(format));
        Ok(())
    }

    /// Removes the cell at `(row, col)` and any format waiting for it.
    pub fn clear_cell(&mut self, row: RowNum, col: ColNum) -> (res: &mut Self)
        ensures
            cells_view(res.cells@) == cells_view(old(self).cells@).remove((row, col)),
            res.pending_formats@ == old(self).pending_formats@.remove((row, col)),
            *res == (Worksheet { cells: res.cells, pending_formats: res.pending_formats, dirty: true, ..*old(self) }),
            *final(self) == *final(res),
    {
        self.dirty = true;
        let ghost before = cells_view(self.cells@);
        self.cells.remove(&(row, col));
        assert(cells_view(self.cells@) =~= before.remove((row, col)));
        self.pending_formats.remove(&(row, col));
        self
    }

    /// The positions of the sheet's cells.
    fn cell_positions(&self) -> (res: Vec<(RowNum, ColNum)>)
        ensures
            res@.to_set() == self.cells@.dom(),
    {
        let mut v: Vec<(RowNum, ColNum)> = Vec::new();
        for k in it: self.cells.keys()
            invariant
                v@ == it.seq().take(it.index()).unref(),
                it.seq().unref().to_set() == self.cells@.dom(),
                it.index() == it.seq().len() ==> v@.to_set() == self.cells@.dom(),
        {
            v.push(*k);
            assert(v@ =~= it.seq().take(it.index() + 1).unref());
            assert(it.index() + 1 == it.seq().len() ==> it.seq().take(it.index() + 1) =~= it.seq());
        }
        v
    }

    /// The smallest range that holds every cell of the sheet, as (first row, first column,
    /// last row, last column); none for a sheet without cells.
    pub fn used_range(&self) -> (res: Option<(RowNum, ColNum, RowNum, ColNum)>)
        ensures
            match res {
                Some(r) => is_bounding_range(self.cells@.dom(), r),
                None => self.cells@.dom() == Set::<(RowNum, ColNum)>::empty(),
            },
    {
        let ps = self.cell_positions();
        let ghost d = self.cells@.dom();
        if ps.len() == 0 {
            assert(d =~= Set::<(RowNum, ColNum)>::empty()) by {
                assert forall|k: (RowNum, ColNum)| !d.contains(k) by {
                    if d.contains(k) {
                        assert(ps@.to_set().contains(k));
                    }
                }
            }
            return None;
        }
        let mut min_r = ps[0].0;
        let mut max_r = ps[0].0;
        let mut min_c = ps[0].1;
        let mut max_c = ps[0].1;
        let mut i: usize = 1;
        while i < ps.len()
            invariant
                1 <= i <= ps.len(),
                forall|j: int| 0 <= j < i ==> min_r <= #[trigger] ps@[j].0 <= max_r && min_c <= ps@[j].1 <= max_c,
                exists|j: int| 0 <= j < i && #[trigger] ps@[j].0 == min_r,
                exists|j: int| 0 <= j < i && #[trigger] ps@[j].0 == max_r,
                exists|j: int| 0 <= j < i && #[trigger] ps@[j].1 == min_c,
                exists|j: int| 0 <= j < i && #[trigger] ps@[j].1 == max_c,
            decreases ps.len() - i,
        {
            let (r, c) = ps[i];
            if r < min_r {
                min_r = r;
            }
            if r > max_r {
                max_r = r;
            }
            if c < min_c {
                min_c = c;
            }
            if c > max_c {
                max_c = c;
            }
            i += 1;
        }
        let res = (min_r, min_c, max_r, max_c);
        assert forall|k: (RowNum, ColNum)| d.contains(k) implies res.0 <= k.0 <= res.2 && res.1 <= k.1 <= res.3 by {
            assert(ps@.to_set().contains(k));
            let j = choose|j: int| 0 <= j < ps@.len() && ps@[j] == k;
            assert(min_r <= ps@[j].0);
        }
        proof {
            let j0 = choose|j: int| 0 <= j < ps@.len() && #[trigger] ps@[j].0 == min_r;
            let j1 = choose|j: int| 0 <= j < ps@.len() && #[trigger] ps@[j].1 == min_c;
            let j2 = choose|j: int| 0 <= j < ps@.len() && #[trigger] ps@[j].0 == max_r;
            let j3 = choose|j: int| 0 <= j < ps@.len() && #[trigger] ps@[j].1 == max_c;
            assert(ps@.to_set().contains(ps@[j0]) && ps@.to_set().contains(ps@[j1]));
            assert(ps@.to_set().contains(ps@[j2]) && ps@.to_set().contains(ps@[j3]));
        }
        Some(res)
    }

    /// What the cell at `(row, col)` holds; empty where nothing was written.
    pub fn read_cell(&self, row: RowNum, col: ColNum) -> (res: CellValue)
        ensures
            cell_view(res) == read_value(cells_view(self.cells@), (row, col)),
            cell_flat(res),
    {
        match self.cells.get(&(row, col)) {
            Some(entry) => value_of(&entry.0),
            None => CellValue::Empty,
        }
    }
}

/// Text values taken by their view.
pub open spec fn text_map<K>(m: Map<K, String>) -> Map<K, Seq<char>> {
    m.map_values(|t: String| t@)
}

/// The print settings a sheet has, or the empty ones when it has none.
pub open spec fn print_base(p: Option<PrintSettings>) -> PrintV {
    match p {
        Some(ps) => print_view(ps),
        None => empty_print(),
    }
}

/// `v` clamped to the range 10 to 400.
pub open spec fn clamp_percent(v: u16) -> u16 {
    if v < 10 {
        10
    } else if v > 400 {
        400
    } else {
        v
    }
}

/// The index of the first comment on `(row, col)`, or -1.
pub open spec fn first_comment(cs: Seq<Comment>, row: RowNum, col: ColNum) -> int
    decreases cs.len(),
{
    if cs.len() == 0 {
        -1
    } else {
        let prev = first_comment(cs.drop_last(), row, col);
        if prev >= 0 {
            prev
        } else if cs.last().row == row && cs.last().col == col {
            cs.len() - 1
        } else {
            -1
        }
    }
}

proof fn lemma_first_comment(cs: Seq<Comment>, row: RowNum, col: ColNum)
    ensures
        -1 <= first_comment(cs, row, col) < cs.len(),
        first_comment(cs, row, col) >= 0 ==> cs[first_comment(cs, row, col)].row == row && cs[first_comment(
            cs,
            row,
            col,
        )].col == col,
        forall|j: int|
            0 <= j < cs.len() && (first_comment(cs, row, col) < 0 || j < first_comment(cs, row, col)) ==> !(
            (#[trigger] cs[j]).row == row && cs[j].col == col),
    decreases cs.len(),
{
    if cs.len() > 0 {
        lemma_first_comment(cs.drop_last(), row, col);
        assert forall|j: int| 0 <= j < cs.len() - 1 implies #[trigger] cs[j] == cs.drop_last()[j] by {}
    }
}

fn copy_u32s(v: &[RowNum]) -> (res: Vec<RowNum>)
    ensures
        res@ == v@,
{
    let mut res: Vec<RowNum> = Vec::new();
    let mut i: usize = 0;
    while i < v.len()
        invariant
            0 <= i <= v.len(),
            res@ == v@.take(i as int),
        decreases v.len() - i,
    {
        res.push(v[i]);
        assert(res@ =~= v@.take(i + 1));
        i += 1;
    }
    assert(v@.take(v.len() as int) =~= v@);
    res
}

fn copy_u16s(v: &[ColNum]) -> (res: Vec<ColNum>)
    ensures
        res@ == v@,
{
    let mut res: Vec<ColNum> = Vec::new();
    let mut i: usize = 0;
    while i < v.len()
        invariant
            0 <= i <= v.len(),
            res@ == v@.take(i as int),
        decreases v.len() - i,
    {
        res.push(v[i]);
        assert(res@ =~= v@.take(i + 1));
        i += 1;
    }
    assert(v@.take(v.len() as int) =~= v@);
    res
}

fn clamp_to_percent(v: u16) -> (res: u16)
    ensures
        res == clamp_percent(v),
{
    if v < 10 {
        10
    } else if v > 400 {
        400
    } else {
        v
    }
}

impl Worksheet {
    /// Whether the sheet is shown, hidden or very hidden.
    pub fn visibility(&self) -> (res: SheetVisibility)
        ensures
            res == self.visibility,
    {
        self.visibility
    }

    /// Whether the sheet is hidden (but not very hidden).
    pub fn is_hidden(&self) -> (res: bool)
        ensures
            res == (self.visibility == SheetVisibility::Hidden),
    {
        self.visibility == SheetVisibility::Hidden
    }

    /// Whether the sheet is very hidden.
    pub fn is_very_hidden(&self) -> (res: bool)
        ensures
            res == (self.visibility == SheetVisibility::VeryHidden),
    {
        self.visibility == SheetVisibility::VeryHidden
    }

    /// The merged ranges, in the order they were added.
    pub fn merge_ranges(&self) -> (res: &[(RowNum, ColNum, RowNum, ColNum)])
        ensures
            res@ == self.merge_ranges@,
    {
        self.merge_ranges.as_slice()
    }

    /// The width set for a column, as its text.
    pub fn column_width(&self, col: ColNum) -> (res: Option<&str>)
        ensures
            match res {
                Some(w) => self.col_widths@.contains_key(col) && w@ == self.col_widths@[col]@,
                None => !self.col_widths@.contains_key(col),
            },
    {
        match self.col_widths.get(&col) {
            Some(w) => Some(w.as_str()),
            None => None,
        }
    }

    /// The height set for a row, as its text.
    pub fn row_height(&self, row: RowNum) -> (res: Option<&str>)
        ensures
            match res {
                Some(h) => self.row_heights@.contains_key(row) && h@ == self.row_heights@[row]@,
                None => !self.row_heights@.contains_key(row),
            },
    {
        match self.row_heights.get(&row) {
            Some(h) => Some(h.as_str()),
            None => None,
        }
    }

    /// The comments, in the order they were added.
    pub fn comments(&self) -> (res: &[Comment])
        ensures
            res@ == self.comments@,
    {
        self.comments.as_slice()
    }

    /// The conditional formats, in the order they were added.
    pub fn conditional_formats(&self) -> (res: &[StoredCf])
        ensures
            res@ == self.conditional_formats@,
    {
        self.conditional_formats.as_slice()
    }

    /// The data validations, in the order they were added.
    pub fn validations(&self) -> (res: &[DataValidation])
        ensures
            res@ == self.validations@,
    {
        self.validations.as_slice()
    }

    /// The sparklines, in the order they were added.
    pub fn sparklines(&self) -> (res: &[Sparkline])
        ensures
            res@ == self.sparklines@,
    {
        self.sparklines.as_slice()
    }

    /// The hyperlinks, in the order they were added.
    pub fn hyperlinks(&self) -> (res: &[Hyperlink])
        ensures
            res@ == self.hyperlinks@,
    {
        self.hyperlinks.as_slice()
    }

    /// The print settings, if any were set.
    pub fn print_settings(&self) -> (res: Option<&PrintSettings>)
        ensures
            match res {
                Some(p) => self.print_settings == Some(*p),
                None => self.print_settings is None,
            },
    {
        match &self.print_settings {
            Some(p) => Some(p),
            None => None,
        }
    }

    /// The sheet protection, if the sheet is protected.
    pub fn protection(&self) -> (res: Option<&SheetProtection>)
        ensures
            match res {
                Some(p) => self.protection == Some(*p),
                None => self.protection is None,
            },
    {
        match &self.protection {
            Some(p) => Some(p),
            None => None,
        }
    }

    /// The outline level of each grouped row.
    pub fn row_outline_levels(&self) -> (res: &std::collections::BTreeMap<RowNum, u8>)
        ensures
            res@ == self.row_outline_levels@,
    {
        &self.row_outline_levels
    }

    /// The outline level of each grouped column.
    pub fn col_outline_levels(&self) -> (res: &std::collections::BTreeMap<ColNum, u8>)
        ensures
            res@ == self.col_outline_levels@,
    {
        &self.col_outline_levels
    }

    /// The author and text of the first comment on `(row, col)`.
    pub fn get_comment(&self, row: RowNum, col: ColNum) -> (res: Option<(&str, &str)>)
        ensures
            match res {
                Some((author, text)) => {
                    let k = first_comment(self.comments@, row, col);
                    k >= 0 && author@ == self.comments@[k].author@ && text@ == self.comments@[k].text@
                },
                None => first_comment(self.comments@, row, col) < 0,
            },
    {
        proof {
            lemma_first_comment(self.comments@, row, col);
        }
        let mut i: usize = 0;
        while i < self.comments.len()
            invariant
                0 <= i <= self.comments@.len(),
                forall|j: int| 0 <= j < i ==> !((#[trigger] self.comments@[j]).row == row && self.comments@[j].col == col),
            decreases self.comments.len() - i,
        {
            let c = &self.comments[i];
            if c.row == row && c.col == col {
                proof {
                    lemma_first_comment(self.comments@, row, col);
                    let k = first_comment(self.comments@, row, col);
                    assert(self.comments@[i as int].row == row && self.comments@[i as int].col == col);
                    if k >= 0 && k < i {
                        assert(self.comments@[k].row == row && self.comments@[k].col == col);
                    }
                }
                return Some((c.author.as_str(), c.text.as_str()));
            }
            i += 1;
        }
        proof {
            lemma_first_comment(self.comments@, row, col);
            let k = first_comment(self.comments@, row, col);
            if k >= 0 {
                assert(self.comments@[k].row == row && self.comments@[k].col == col);
            }
        }
        None
    }

    /// Puts `format` in wait for the cell at `(row, col)`.
    pub fn set_cell_format(&mut self, row: RowNum, col: ColNum, format: &Format) -> (res: Result<(), Error>)
        ensures
            res is Ok,
            format_stored(old(self).pending_formats@, final(self).pending_formats@, (row, col), *format),
            *final(self) == (Worksheet { pending_formats: final(self).pending_formats, dirty: true, ..*old(self) }),
    {
        let ghost pf = self.pending_formats@;
        self.pending_formats.insert((row, col), format.duplicate());
        assert(self.pending_formats@.dom() =~= pf.dom().insert((row, col)));
        self.dirty = true;
        Ok(())
    }

    /// Puts `format` in wait for the cells of `r1:c1` to `r2:c2` that have content.
    pub fn set_range_format(&mut self, r1: RowNum, c1: ColNum, r2: RowNum, c2: ColNum, format: &Format) -> (res:
        Result<(), Error>)
        ensures
            res is Ok,
            final(self).range_formats@.len() == old(self).range_formats@.len() + 1,
            final(self).range_formats@.drop_last() == old(self).range_formats@,
            ({
                let last = final(self).range_formats@.last();
                (last.0, last.1, last.2, last.3) == (r1, c1, r2, c2) && same_format(last.4, *format)
            }),
            *final(self) == (Worksheet { range_formats: final(self).range_formats, dirty: true, ..*old(self) }),
    {
        self.range_formats.push((r1, c1, r2, c2, format.duplicate()));
        self.dirty = true;
        assert(self.range_formats@.drop_last() =~= old(self).range_formats@);
        Ok(())
    }

    /// Merges `r1:c1` to `r2:c2` and writes `text` in its top-left cell with `format` in wait
    /// for it.
    pub fn merge_range(&mut self, r1: RowNum, c1: ColNum, r2: RowNum, c2: ColNum, text: &str, format: &Format) -> (res:
        Result<(), Error>)
        ensures
            res is Ok,
            final(self).merge_ranges@ == old(self).merge_ranges@.push((r1, c1, r2, c2)),
            cells_view(final(self).cells@) == cells_view(old(self).cells@).insert((r1, c1), (CellTypeV::InlineString(text@), 0)),
            format_stored(old(self).pending_formats@, final(self).pending_formats@, (r1, c1), *format),
            *final(self) == (Worksheet {
                merge_ranges: final(self).merge_ranges,
                cells: final(self).cells,
                pending_formats: final(self).pending_formats,
                dirty: true,
                ..*old(self)
            }),
    {
        self.dirty = true;
        self.merge_ranges.push((r1, c1, r2, c2));
        self.write_string(r1, c1, text, Some(format))
    }

    /// Sets a column's width, given as the text of its value in characters.
    pub fn set_column_width(&mut self, col: ColNum, width: &str) -> (res: Result<(), Error>)
        ensures
            res is Ok,
            text_map(final(self).col_widths@) == text_map(old(self).col_widths@).insert(col, width@),
            *final(self) == (Worksheet { col_widths: final(self).col_widths, dirty: true, ..*old(self) }),
    {
        let ghost before = text_map(self.col_widths@);
        self.col_widths.insert(col, to_string(width));
        assert(text_map(self.col_widths@) =~= before.insert(col, width@));
        self.dirty = true;
        Ok(())
    }

    /// Sets a row's height, given as the text of its value in points.
    pub fn set_row_height(&mut self, row: RowNum, height: &str) -> (res: Result<(), Error>)
        ensures
            res is Ok,
            text_map(final(self).row_heights@) == text_map(old(self).row_heights@).insert(row, height@),
            *final(self) == (Worksheet { row_heights: final(self).row_heights, dirty: true, ..*old(self) }),
    {
        let ghost before = text_map(self.row_heights@);
        self.row_heights.insert(row, to_string(height));
        assert(text_map(self.row_heights@) =~= before.insert(row, height@));
        self.dirty = true;
        Ok(())
    }

    /// Freezes the rows above `row` and the columns left of `col`.
    pub fn set_freeze_panes(&mut self, row: RowNum, col: ColNum) -> (res: Result<(), Error>)
        ensures
            res is Ok,
            *final(self) == (Worksheet { freeze_row: row, freeze_col: col, dirty: true, ..*old(self) }),
    {
        self.freeze_row = row;
        self.freeze_col = col;
        self.dirty = true;
        Ok(())
    }

    /// Replaces the print settings with a copy of `settings`.
    pub fn set_print_settings(&mut self, settings: &PrintSettings) -> (res: &mut Self)
        ensures
            res.print_settings matches Some(p) && print_view(p) == print_view(*settings),
            *res == (Worksheet { print_settings: res.print_settings, dirty: true, ..*old(self) }),
            *final(self) == *final(res),
    {
        self.print_settings = Some(settings.duplicate());
        self.dirty = true;
        self
    }

    /// Takes the print settings out for a change, the empty ones when none are set.
    fn take_print(&mut self) -> (res: PrintSettings)
        ensures
            print_view(res) == print_base(old(self).print_settings),
            *final(self) == (Worksheet { print_settings: None, ..*old(self) }),
    {
        match self.print_settings.take() {
            Some(p) => p,
            None => PrintSettings::new(),
        }
    }

    /// Sets the manual page breaks: before each row of `row_breaks` and each column of
    /// `col_breaks`.
    pub fn set_page_breaks(&mut self, row_breaks: &[RowNum], col_breaks: &[ColNum]) -> (res: &mut Self)
        ensures
            res.print_settings matches Some(p) && print_view(p) == (PrintV {
                row_breaks: row_breaks@,
                col_breaks: col_breaks@,
                ..print_base(old(self).print_settings)
            }),
            *res == (Worksheet { print_settings: res.print_settings, dirty: true, ..*old(self) }),
            *final(self) == *final(res),
    {
        let mut ps = self.take_print();
        ps.row_breaks = copy_u32s(row_breaks);
        ps.col_breaks = copy_u16s(col_breaks);
        self.print_settings = Some(ps);
        self.dirty = true;
        self
    }

    /// Sets the range to print.
    pub fn set_print_area(&mut self, r1: RowNum, c1: ColNum, r2: RowNum, c2: ColNum) -> (res: &mut Self)
        ensures
            res.print_settings matches Some(p) && print_view(p) == (PrintV {
                print_area: Some((r1, c1, r2, c2)),
                ..print_base(old(self).print_settings)
            }),
            *res == (Worksheet { print_settings: res.print_settings, dirty: true, ..*old(self) }),
            *final(self) == *final(res),
    {
        let mut ps = self.take_print();
        ps.print_area = Some((r1, c1, r2, c2));
        self.print_settings = Some(ps);
        self.dirty = true;
        self
    }

    /// Sets the rows repeated at the top of each printed page.
    pub fn set_repeat_rows(&mut self, first: RowNum, last: RowNum) -> (res: &mut Self)
        ensures
            res.print_settings matches Some(p) && print_view(p) == (PrintV {
                repeat_rows: Some((first, last)),
                ..print_base(old(self).print_settings)
            }),
            *res == (Worksheet { print_settings: res.print_settings, dirty: true, ..*old(self) }),
            *final(self) == *final(res),
    {
        let mut ps = self.take_print();
        ps.repeat_rows = Some((first, last));
        self.print_settings = Some(ps);
        self.dirty = true;
        self
    }

    /// Sets the columns repeated at the left of each printed page.
    pub fn set_repeat_columns(&mut self, first: ColNum, last: ColNum) -> (res: &mut Self)
        ensures
            res.print_settings matches Some(p) && print_view(p) == (PrintV {
                repeat_cols: Some((first, last)),
                ..print_base(old(self).print_settings)
            }),
            *res == (Worksheet { print_settings: res.print_settings, dirty: true, ..*old(self) }),
            *final(self) == *final(res),
    {
        let mut ps = self.take_print();
        ps.repeat_cols = Some((first, last));
        self.print_settings = Some(ps);
        self.dirty = true;
        self
    }

    /// Sets the print scale in percent, clamped to 10 to 400.
    pub fn set_print_scale(&mut self, percent: u16) -> (res: &mut Self)
        ensures
            res.print_settings matches Some(p) && print_view(p) == (PrintV {
                scale: Some(clamp_percent(percent)),
                ..print_base(old(self).print_settings)
            }),
            *res == (Worksheet { print_settings: res.print_settings, dirty: true, ..*old(self) }),
            *final(self) == *final(res),
    {
        let mut ps = self.take_print();
        ps.scale = Some(clamp_to_percent(percent));
        self.print_settings = Some(ps);
        self.dirty = true;
        self
    }

    /// Hides or shows a row.
    pub fn set_row_hidden(&mut self, row: RowNum, hidden: bool) -> (res: &mut Self)
        ensures
            res.hidden_rows@ == if hidden {
                old(self).hidden_rows@.insert(row)
            } else {
                old(self).hidden_rows@.remove(row)
            },
            *res == (Worksheet { hidden_rows: res.hidden_rows, dirty: true, ..*old(self) }),
            *final(self) == *final(res),
    {
        if hidden {
            self.hidden_rows.insert(row);
        } else {
            self.hidden_rows.remove(&row);
        }
        self.dirty = true;
        self
    }

    /// Hides or shows a column.
    pub fn set_column_hidden(&mut self, col: ColNum, hidden: bool) -> (res: &mut Self)
        ensures
            res.hidden_cols@ == if hidden {
                old(self).hidden_cols@.insert(col)
            } else {
                old(self).hidden_cols@.remove(col)
            },
            *res == (Worksheet { hidden_cols: res.hidden_cols, dirty: true, ..*old(self) }),
            *final(self) == *final(res),
    {
        if hidden {
            self.hidden_cols.insert(col);
        } else {
            self.hidden_cols.remove(&col);
        }
        self.dirty = true;
        self
    }

    /// Sets the autofilter range.
    pub fn set_autofilter(&mut self, r1: RowNum, c1: ColNum, r2: RowNum, c2: ColNum) -> (res: &mut Self)
        ensures
            *res == (Worksheet { autofilter: Some((r1, c1, r2, c2)), dirty: true, ..*old(self) }),
            *final(self) == *final(res),
    {
        self.autofilter = Some((r1, c1, r2, c2));
        self.dirty = true;
        self
    }

    /// Puts the rows `start` to `end` (inclusive) at outline level `level`.
    pub fn group_rows(&mut self, start: RowNum, end: RowNum, level: u8) -> (res: &mut Self)
        ensures
            res.row_outline_levels@ == old(self).row_outline_levels@.union_prefer_right(
                Map::new(|r: RowNum| start <= r <= end, |r: RowNum| level),
            ),
            *res == (Worksheet { row_outline_levels: res.row_outline_levels, dirty: true, ..*old(self) }),
            *final(self) == *final(res),
    {
        let ghost orig = *self;
        let mut r: u64 = start as u64;
        while r <= end as u64
            invariant
                start <= r,
                r <= if start <= end {
                    end as u64 + 1
                } else {
                    start as int
                },
                self.row_outline_levels@ == orig.row_outline_levels@.union_prefer_right(
                    Map::new(|x: RowNum| start <= x < r, |x: RowNum| level),
                ),
                *self == (Worksheet { row_outline_levels: self.row_outline_levels, ..orig }),
            decreases end as u64 + 2 - r,
        {
            let ghost before = self.row_outline_levels@;
            self.row_outline_levels.insert(r as RowNum, level);
            assert(self.row_outline_levels@ =~= orig.row_outline_levels@.union_prefer_right(
                Map::new(|x: RowNum| start <= x < r + 1, |x: RowNum| level),
            ));
            r += 1;
        }
        assert(self.row_outline_levels@ =~= orig.row_outline_levels@.union_prefer_right(
            Map::new(|x: RowNum| start <= x <= end, |x: RowNum| level),
        ));
        self.dirty = true;
        self
    }

    /// Puts the columns `start` to `end` (inclusive) at outline level `level`.
    pub fn group_columns(&mut self, start: ColNum, end: ColNum, level: u8) -> (res: &mut Self)
        ensures
            res.col_outline_levels@ == old(self).col_outline_levels@.union_prefer_right(
                Map::new(|c: ColNum| start <= c <= end, |c: ColNum| level),
            ),
            *res == (Worksheet { col_outline_levels: res.col_outline_levels, dirty: true, ..*old(self) }),
            *final(self) == *final(res),
    {
        let ghost orig = *self;
        let mut c: u32 = start as u32;
        while c <= end as u32
            invariant
                start <= c,
                c <= if start <= end {
                    end as u32 + 1
                } else {
                    start as int
                },
                self.col_outline_levels@ == orig.col_outline_levels@.union_prefer_right(
                    Map::new(|x: ColNum| start <= x < c, |x: ColNum| level),
                ),
                *self == (Worksheet { col_outline_levels: self.col_outline_levels, ..orig }),
            decreases end as u32 + 2 - c,
        {
            self.col_outline_levels.insert(c as ColNum, level);
            assert(self.col_outline_levels@ =~= orig.col_outline_levels@.union_prefer_right(
                Map::new(|x: ColNum| start <= x < c + 1, |x: ColNum| level),
            ));
            c += 1;
        }
        assert(self.col_outline_levels@ =~= orig.col_outline_levels@.union_prefer_right(
            Map::new(|x: ColNum| start <= x <= end, |x: ColNum| level),
        ));
        self.dirty = true;
        self
    }
}

/// `p` is the default protection with the password hash `hash`.
pub open spec fn protected_with_hash(p: SheetProtection, hash: Seq<char>) -> bool {
    &&& p == (SheetProtection { password_hash: p.password_hash, ..SheetProtection::spec_default() })
    &&& p.password_hash matches Some(h) && h@ == hash
}

/// `c` is a comment by `author` with `text` on `(row, col)`.
pub open spec fn comment_is(c: Comment, row: RowNum, col: ColNum, text: Seq<char>, author: Seq<char>) -> bool {
    c.row == row && c.col == col && c.text@ == text && c.author@ == author
}

/// `h` is a link on `(row, col)` to `url`, to `location` in the workbook when given, with no
/// tooltip.
pub open spec fn link_is(h: Hyperlink, row: RowNum, col: ColNum, url: Seq<char>, location: Option<Seq<char>>) -> bool {
    &&& h.row == row && h.col == col && h.url@ == url && h.tooltip is None
    &&& match (h.location, location) {
        (Some(a), Some(b)) => a@ == b,
        (None, None) => true,
        _ => false,
    }
}

/// The text a link shows: its text, or its URL when the text is empty.
pub open spec fn link_text(url: Seq<char>, text: Seq<char>) -> Seq<char> {
    if text.len() == 0 {
        url
    } else {
        text
    }
}

/// The texts of a run of strings.
pub open spec fn string_views(v: Seq<String>) -> Seq<Seq<char>> {
    v.map_values(|t: String| t@)
}

/// The texts of a run of string slices.
pub open spec fn str_views(v: Seq<&str>) -> Seq<Seq<char>> {
    v.map_values(|t: &str| t@)
}

fn copy_strs(values: &[&str]) -> (res: Vec<String>)
    ensures
        string_views(res@) == str_views(values@),
{
    let mut res: Vec<String> = Vec::new();
    let mut i: usize = 0;
    while i < values.len()
        invariant
            0 <= i <= values.len(),
            res@.len() == i,
            string_views(res@) == str_views(values@.take(i as int)),
        decreases values.len() - i,
    {
        let t = to_string(values[i]);
        let ghost prev = res@;
        res.push(t);
        assert forall|j: int| 0 <= j < i + 1 implies #[trigger] string_views(res@)[j] == str_views(
            values@.take(i + 1),
        )[j] by {
            if j < i {
                assert(res@[j] == prev[j]);
                assert(string_views(prev)[j] == str_views(values@.take(i as int))[j]);
            }
        }
        assert(string_views(res@) =~= str_views(values@.take(i + 1)));
        i += 1;
    }
    assert(values@.take(values.len() as int) =~= values@);
    res
}

impl Worksheet {
    /// Sets the zoom in percent, clamped to 10 to 400.
    pub fn set_zoom(&mut self, percent: u16) -> (res: &mut Self)
        ensures
            *res == (Worksheet { zoom: Some(clamp_percent(percent)), ..*old(self) }),
            *final(self) == *final(res),
    {
        self.zoom = Some(clamp_to_percent(percent));
        self
    }

    /// Hides the gridlines.
    pub fn hide_gridlines(&mut self) -> (res: &mut Self)
        ensures
            *res == (Worksheet { show_gridlines: false, ..*old(self) }),
            *final(self) == *final(res),
    {
        self.show_gridlines = false;
        self
    }

    /// Hides the row and column headings.
    pub fn hide_headings(&mut self) -> (res: &mut Self)
        ensures
            *res == (Worksheet { show_headings: false, ..*old(self) }),
            *final(self) == *final(res),
    {
        self.show_headings = false;
        self
    }

    /// Lays the sheet out right to left.
    pub fn set_right_to_left(&mut self) -> (res: &mut Self)
        ensures
            *res == (Worksheet { right_to_left: true, ..*old(self) }),
            *final(self) == *final(res),
    {
        self.right_to_left = true;
        self
    }

    /// Sets the color of the sheet's tab.
    pub fn set_tab_color(&mut self, rgb: [u8; 3]) -> (res: &mut Self)
        ensures
            *res == (Worksheet { tab_color: Some(rgb), ..*old(self) }),
            *final(self) == *final(res),
    {
        self.tab_color = Some(rgb);
        self
    }

    /// Sets the default row height, given as the text of its value in points.
    pub fn set_default_row_height(&mut self, height: &str) -> (res: &mut Self)
        ensures
            res.default_row_height matches Some(h) && h@ == height@,
            *res == (Worksheet { default_row_height: res.default_row_height, dirty: true, ..*old(self) }),
            *final(self) == *final(res),
    {
        self.default_row_height = Some(to_string(height));
        self.dirty = true;
        self
    }

    /// Sets the format of a whole column.
    pub fn set_column_format(&mut self, col: ColNum, format: &Format) -> (res: &mut Self)
        ensures
            format_stored(old(self).col_formats@, res.col_formats@, col, *format),
            *res == (Worksheet { col_formats: res.col_formats, dirty: true, ..*old(self) }),
            *final(self) == *final(res),
    {
        let ghost before = self.col_formats@;
        self.col_formats.insert(col, format.duplicate());
        assert(self.col_formats@.dom() =~= before.dom().insert(col));
        self.dirty = true;
        self
    }

    /// Sets the format of a whole row.
    pub fn set_row_format(&mut self, row: RowNum, format: &Format) -> (res: &mut Self)
        ensures
            format_stored(old(self).row_formats@, res.row_formats@, row, *format),
            *res == (Worksheet { row_formats: res.row_formats, dirty: true, ..*old(self) }),
            *final(self) == *final(res),
    {
        let ghost before = self.row_formats@;
        self.row_formats.insert(row, format.duplicate());
        assert(self.row_formats@.dom() =~= before.dom().insert(row));
        self.dirty = true;
        self
    }

    /// Hides the sheet.
    pub fn set_hidden(&mut self) -> (res: &mut Self)
        ensures
            *res == (Worksheet { visibility: SheetVisibility::Hidden, ..*old(self) }),
            *final(self) == *final(res),
    {
        self.visibility = SheetVisibility::Hidden;
        self
    }

    /// Makes the sheet very hidden (shown again only by a program).
    pub fn set_very_hidden(&mut self) -> (res: &mut Self)
        ensures
            *res == (Worksheet { visibility: SheetVisibility::VeryHidden, ..*old(self) }),
            *final(self) == *final(res),
    {
        self.visibility = SheetVisibility::VeryHidden;
        self
    }

    /// Sets the selected cell.
    pub fn set_selection(&mut self, row: RowNum, col: ColNum) -> (res: &mut Self)
        ensures
            *res == (Worksheet { selection: Some((row, col)), ..*old(self) }),
            *final(self) == *final(res),
    {
        self.selection = Some((row, col));
        self
    }

    /// Sets the cell shown at the top left of the window.
    pub fn set_top_left_cell(&mut self, row: RowNum, col: ColNum) -> (res: &mut Self)
        ensures
            *res == (Worksheet { top_left_cell: Some((row, col)), ..*old(self) }),
            *final(self) == *final(res),
    {
        self.top_left_cell = Some((row, col));
        self
    }

    /// Ignores an error kind (such as `numberStoredAsText`) in a range.
    pub fn ignore_error(&mut self, error_type: &str, range: &str) -> (res: &mut Self)
        ensures
            res.ignored_errors@.len() == old(self).ignored_errors@.len() + 1,
            res.ignored_errors@.drop_last() == old(self).ignored_errors@,
            res.ignored_errors@.last().0@ == error_type@,
            res.ignored_errors@.last().1@ == range@,
            *res == (Worksheet { ignored_errors: res.ignored_errors, dirty: true, ..*old(self) }),
            *final(self) == *final(res),
    {
        self.ignored_errors.push((to_string(error_type), to_string(range)));
        assert(self.ignored_errors@.drop_last() =~= old(self).ignored_errors@);
        self.dirty = true;
        self
    }

    /// Filters a column of the autofilter to the given values.
    pub fn filter_column(&mut self, col: ColNum, values: &[&str]) -> (res: &mut Self)
        ensures
            res.autofilter_columns@.len() == old(self).autofilter_columns@.len() + 1,
            res.autofilter_columns@.drop_last() == old(self).autofilter_columns@,
            res.autofilter_columns@.last().0 == col,
            string_views(res.autofilter_columns@.last().1@) == str_views(values@),
            *res == (Worksheet { autofilter_columns: res.autofilter_columns, dirty: true, ..*old(self) }),
            *final(self) == *final(res),
    {
        self.autofilter_columns.push((col, copy_strs(values)));
        assert(self.autofilter_columns@.drop_last() =~= old(self).autofilter_columns@);
        self.dirty = true;
        self
    }

    /// Sets the width of the columns `first` to `last` (inclusive), given as the text of its
    /// value in characters.
    pub fn set_column_range_width(&mut self, first: ColNum, last: ColNum, width: &str) -> (res: &mut Self)
        ensures
            text_map(res.col_widths@) == text_map(old(self).col_widths@).union_prefer_right(
                Map::new(|c: ColNum| first <= c <= last, |c: ColNum| width@),
            ),
            *res == (Worksheet { col_widths: res.col_widths, dirty: true, ..*old(self) }),
            *final(self) == *final(res),
    {
        let ghost orig = *self;
        let mut c: u32 = first as u32;
        while c <= last as u32
            invariant
                first <= c,
                c <= if first <= last {
                    last as u32 + 1
                } else {
                    first as int
                },
                text_map(self.col_widths@) == text_map(orig.col_widths@).union_prefer_right(
                    Map::new(|x: ColNum| first <= x < c, |x: ColNum| width@),
                ),
                *self == (Worksheet { col_widths: self.col_widths, ..orig }),
            decreases last as u32 + 2 - c,
        {
            let ghost before = text_map(self.col_widths@);
            self.col_widths.insert(c as ColNum, to_string(width));
            assert(text_map(self.col_widths@) =~= before.insert(c as ColNum, width@));
            assert(text_map(self.col_widths@) =~= text_map(orig.col_widths@).union_prefer_right(
                Map::new(|x: ColNum| first <= x < c + 1, |x: ColNum| width@),
            ));
            c += 1;
        }
        assert(text_map(self.col_widths@) =~= text_map(orig.col_widths@).union_prefer_right(
            Map::new(|x: ColNum| first <= x <= last, |x: ColNum| width@),
        ));
        self.dirty = true;
        self
    }

    /// Hides the columns `first` to `last` (inclusive).
    pub fn set_column_range_hidden(&mut self, first: ColNum, last: ColNum) -> (res: &mut Self)
        ensures
            res.hidden_cols@ == old(self).hidden_cols@.union(Set::new(|c: ColNum| first <= c <= last)),
            *res == (Worksheet { hidden_cols: res.hidden_cols, dirty: true, ..*old(self) }),
            *final(self) == *final(res),
    {
        let ghost orig = *self;
        let mut c: u32 = first as u32;
        while c <= last as u32
            invariant
                first <= c,
                c <= if first <= last {
                    last as u32 + 1
                } else {
                    first as int
                },
                self.hidden_cols@ == orig.hidden_cols@.union(Set::new(|x: ColNum| first <= x < c)),
                *self == (Worksheet { hidden_cols: self.hidden_cols, ..orig }),
            decreases last as u32 + 2 - c,
        {
            self.hidden_cols.insert(c as ColNum);
            assert(self.hidden_cols@ =~= orig.hidden_cols@.union(Set::new(|x: ColNum| first <= x < c + 1)));
            c += 1;
        }
        assert(self.hidden_cols@ =~= orig.hidden_cols@.union(Set::new(|x: ColNum| first <= x <= last)));
        self.dirty = true;
        self
    }

    /// Adds a conditional format over `r1:c1` to `r2:c2` (its differential format is assigned
    /// when the workbook is saved).
    pub fn add_conditional_format(&mut self, r1: RowNum, c1: ColNum, r2: RowNum, c2: ColNum, rule: CfRule) -> (res:
        Result<(), Error>)
        ensures
            res is Ok,
            final(self).conditional_formats@ == old(self).conditional_formats@.push(
                StoredCf { range: (r1, c1, r2, c2), rule, dxf_id: None },
            ),
            *final(self) == (Worksheet {
                conditional_formats: final(self).conditional_formats,
                dirty: true,
                ..*old(self)
            }),
    {
        self.conditional_formats.push(StoredCf { range: (r1, c1, r2, c2), rule, dxf_id: None });
        self.dirty = true;
        Ok(())
    }

    /// Adds a copy of a data validation, placed over `r1:c1` to `r2:c2`.
    pub fn add_data_validation(&mut self, r1: RowNum, c1: ColNum, r2: RowNum, c2: ColNum, dv: &DataValidation) -> (res:
        Result<(), Error>)
        ensures
            res is Ok,
            final(self).validations@.len() == old(self).validations@.len() + 1,
            final(self).validations@.drop_last() == old(self).validations@,
            validation_view(final(self).validations@.last()) == (ValidationV {
                range: (r1, c1, r2, c2),
                ..validation_view(*dv)
            }),
            *final(self) == (Worksheet { validations: final(self).validations, dirty: true, ..*old(self) }),
    {
        let mut v = dv.duplicate();
        v.first_row = r1;
        v.first_col = c1;
        v.last_row = r2;
        v.last_col = c2;
        self.validations.push(v);
        assert(self.validations@.drop_last() =~= old(self).validations@);
        self.dirty = true;
        Ok(())
    }

    /// Adds a copy of a sparkline, placed at `(row, col)`.
    pub fn add_sparkline(&mut self, row: RowNum, col: ColNum, sparkline: &Sparkline) -> (res: Result<(), Error>)
        ensures
            res is Ok,
            final(self).sparklines@ == old(self).sparklines@.push(Sparkline { row, col, ..*sparkline }),
            *final(self) == (Worksheet { sparklines: final(self).sparklines, dirty: true, ..*old(self) }),
    {
        let mut sp = sparkline.duplicate();
        sp.row = row;
        sp.col = col;
        self.sparklines.push(sp);
        self.dirty = true;
        Ok(())
    }

    /// Protects the sheet with the default settings and no password.
    pub fn protect(&mut self) -> (res: &mut Self)
        ensures
            res.protection == Some(SheetProtection::spec_default()),
            *res == (Worksheet { protection: res.protection, dirty: true, ..*old(self) }),
            *final(self) == *final(res),
    {
        self.protection = Some(SheetProtection::default());
        self.dirty = true;
        self
    }

    /// Protects the sheet with the default settings and the legacy hash of `password`.
    pub fn protect_with_password(&mut self, password: &str) -> (res: &mut Self)
        ensures
            res.protection matches Some(p) && protected_with_hash(p, hex4(pw_hash(encode_utf8(password@)))),
            *res == (Worksheet { protection: res.protection, dirty: true, ..*old(self) }),
            *final(self) == *final(res),
    {
        let mut prot = SheetProtection::default();
        prot.password_hash = Some(hash_password(password));
        self.protection = Some(prot);
        self.dirty = true;
        self
    }

    /// Lets a named range be edited while the sheet is protected.
    pub fn unprotect_range(&mut self, name: &str, range: &str) -> (res: &mut Self)
        ensures
            res.print_settings matches Some(p) && print_view(p) == (PrintV {
                protected_ranges: print_base(old(self).print_settings).protected_ranges.push((name@, range@, None)),
                ..print_base(old(self).print_settings)
            }),
            *res == (Worksheet { print_settings: res.print_settings, dirty: true, ..*old(self) }),
            *final(self) == *final(res),
    {
        let mut ps = self.take_print();
        let ghost before = print_view(ps);
        ps.protected_ranges.push((to_string(name), to_string(range), None));
        assert(print_view(ps).protected_ranges =~= before.protected_ranges.push((name@, range@, None)));
        self.print_settings = Some(ps);
        self.dirty = true;
        self
    }

    /// Lets a named range be edited with a password while the sheet is protected.
    pub fn unprotect_range_with_password(&mut self, name: &str, range: &str, password: &str) -> (res: &mut Self)
        ensures
            res.print_settings matches Some(p) && print_view(p) == (PrintV {
                protected_ranges: print_base(old(self).print_settings).protected_ranges.push(
                    (name@, range@, Some(hex4(pw_hash(encode_utf8(password@))))),
                ),
                ..print_base(old(self).print_settings)
            }),
            *res == (Worksheet { print_settings: res.print_settings, dirty: true, ..*old(self) }),
            *final(self) == *final(res),
    {
        let mut ps = self.take_print();
        let ghost before = print_view(ps);
        let hash = hash_password(password);
        let ghost h = hash@;
        ps.protected_ranges.push((to_string(name), to_string(range), Some(hash)));
        assert(print_view(ps).protected_ranges =~= before.protected_ranges.push((name@, range@, Some(h))));
        self.print_settings = Some(ps);
        self.dirty = true;
        self
    }

    /// Writes a link to `url` at `(row, col)`, showing `text` (the URL when `text` is empty).
    pub fn write_url(&mut self, row: RowNum, col: ColNum, url: &str, text: &str) -> (res: Result<(), Error>)
        ensures
            res is Ok,
            cells_view(final(self).cells@) == cells_view(old(self).cells@).insert(
                (row, col),
                (CellTypeV::InlineString(link_text(url@, text@)), 0),
            ),
            final(self).hyperlinks@.len() == old(self).hyperlinks@.len() + 1,
            final(self).hyperlinks@.drop_last() == old(self).hyperlinks@,
            link_is(final(self).hyperlinks@.last(), row, col, url@, None),
            *final(self) == (Worksheet {
                cells: final(self).cells,
                hyperlinks: final(self).hyperlinks,
                dirty: true,
                ..*old(self)
            }),
    {
        self.dirty = true;
        let shown = if text.unicode_len() == 0 {
            url
        } else {
            text
        };
        let _ = self.write_string_internal(row, col, shown, None);
        self.hyperlinks.push(Hyperlink { row, col, url: to_string(url), location: None, tooltip: None });
        assert(self.hyperlinks@.drop_last() =~= old(self).hyperlinks@);
        Ok(())
    }

    /// Writes a link to `location` in the workbook at `(row, col)`, showing `text`.
    pub fn write_internal_link(&mut self, row: RowNum, col: ColNum, location: &str, text: &str) -> (res: Result<
        (),
        Error,
    >)
        ensures
            res is Ok,
            cells_view(final(self).cells@) == cells_view(old(self).cells@).insert(
                (row, col),
                (CellTypeV::InlineString(text@), 0),
            ),
            final(self).hyperlinks@.len() == old(self).hyperlinks@.len() + 1,
            final(self).hyperlinks@.drop_last() == old(self).hyperlinks@,
            link_is(final(self).hyperlinks@.last(), row, col, Seq::empty(), Some(location@)),
            *final(self) == (Worksheet {
                cells: final(self).cells,
                hyperlinks: final(self).hyperlinks,
                dirty: true,
                ..*old(self)
            }),
    {
        self.dirty = true;
        let _ = self.write_string_internal(row, col, text, None);
        self.hyperlinks.push(
            Hyperlink { row, col, url: String::new(), location: Some(to_string(location)), tooltip: None },
        );
        assert(self.hyperlinks@.drop_last() =~= old(self).hyperlinks@);
        Ok(())
    }

    /// Adds a comment on `(row, col)` by the author `Author`.
    pub fn add_comment(&mut self, row: RowNum, col: ColNum, text: &str) -> (res: &mut Self)
        ensures
            res.comments@.len() == old(self).comments@.len() + 1,
            res.comments@.drop_last() == old(self).comments@,
            comment_is(res.comments@.last(), row, col, text@, "Author"@),
            *res == (Worksheet { comments: res.comments, dirty: true, ..*old(self) }),
            *final(self) == *final(res),
    {
        self.comments.push(Comment { row, col, text: to_string(text), author: to_string("Author") });
        assert(self.comments@.drop_last() =~= old(self).comments@);
        self.dirty = true;
        self
    }

    /// Adds a comment on `(row, col)` by `author`.
    pub fn add_comment_with_author(&mut self, row: RowNum, col: ColNum, text: &str, author: &str) -> (res: &mut Self)
        ensures
            res.comments@.len() == old(self).comments@.len() + 1,
            res.comments@.drop_last() == old(self).comments@,
            comment_is(res.comments@.last(), row, col, text@, author@),
            *res == (Worksheet { comments: res.comments, dirty: true, ..*old(self) }),
            *final(self) == *final(res),
    {
        self.comments.push(Comment { row, col, text: to_string(text), author: to_string(author) });
        assert(self.comments@.drop_last() =~= old(self).comments@);
        self.dirty = true;
        self
    }
}

/// Reading a cell gives what was last written there, and writing a cell leaves every other
/// cell reading as it did.
pub proof fn lemma_read_after_write(
    cells: Map<(RowNum, ColNum), (CellTypeV, u32)>,
    pos: (RowNum, ColNum),
    content: CellTypeV,
    xf: u32,
    other: (RowNum, ColNum),
)
    ensures
        read_value(cells.insert(pos, (content, xf)), pos) == shown_value(content),
        other != pos ==> read_value(cells.insert(pos, (content, xf)), other) == read_value(cells, other),
{
}

/// A string, number, boolean or formula written to a cell reads back as itself.
pub proof fn lemma_written_values_read_back(
    cells: Map<(RowNum, ColNum), (CellTypeV, u32)>,
    pos: (RowNum, ColNum),
    s: Seq<char>,
    b: bool,
)
    ensures
        read_value(cells.insert(pos, (CellTypeV::InlineString(s), 0)), pos) == (CellV {
            formula: None,
            value: ValueV::Str(s),
        }),
        read_value(cells.insert(pos, (CellTypeV::Number(s), 0)), pos) == (CellV {
            formula: None,
            value: ValueV::Numeric(s, false),
        }),
        read_value(cells.insert(pos, (CellTypeV::Bool(b), 0)), pos) == (CellV { formula: None, value: ValueV::Bool(b) }),
        read_value(cells.insert(pos, (CellTypeV::Formula(formula_text(s), None), 0)), pos) == (CellV {
            formula: Some(formula_text(s)),
            value: ValueV::Empty,
        }),
{
}

/// A later write to a cell replaces an earlier one.
pub proof fn lemma_last_write_wins(
    cells: Map<(RowNum, ColNum), (CellTypeV, u32)>,
    pos: (RowNum, ColNum),
    first: (CellTypeV, u32),
    second: (CellTypeV, u32),
)
    ensures
        cells.insert(pos, first).insert(pos, second) == cells.insert(pos, second),
{
    assert(cells.insert(pos, first).insert(pos, second) =~= cells.insert(pos, second));
}

/// A cleared cell reads as empty, and clearing leaves every other cell reading as it did.
pub proof fn lemma_read_after_clear(
    cells: Map<(RowNum, ColNum), (CellTypeV, u32)>,
    pos: (RowNum, ColNum),
    other: (RowNum, ColNum),
)
    ensures
        read_value(cells.remove(pos), pos) == (CellV { formula: None, value: ValueV::Empty }),
        other != pos ==> read_value(cells.remove(pos), other) == read_value(cells, other),
{
}

/// The used range of a sheet holds every cell written to it.
pub proof fn lemma_used_range_holds_written(
    d: Set<(RowNum, ColNum)>,
    pos: (RowNum, ColNum),
    r: (RowNum, ColNum, RowNum, ColNum),
)
    requires
        is_bounding_range(d.insert(pos), r),
    ensures
        r.0 <= pos.0 <= r.2 && r.1 <= pos.1 <= r.3,
{
    assert(d.insert(pos).contains(pos));
}

/// Zoom and print scale always lie between 10 and 400 percent, and a value in that range is
/// kept as it is.
pub proof fn lemma_percent_range(v: u16)
    ensures
        10 <= clamp_percent(v) <= 400,
        10 <= v <= 400 ==> clamp_percent(v) == v,
{
}

/// Hiding a row that was shown and showing it again leaves the hidden rows as they were.
pub proof fn lemma_hide_then_show(hidden: Set<RowNum>, row: RowNum)
    requires
        !hidden.contains(row),
    ensures
        hidden.insert(row).remove(row) == hidden,
{
    assert(hidden.insert(row).remove(row) =~= hidden);
}

/// How many characters wide a cell's content is taken to be when columns are fitted: the
/// UTF-8 length of its text (a formula's at most 20), 8 for a shared string, 5 for a boolean,
/// 10 for a date-time, none for an empty cell.
pub open spec fn display_len(c: CellTypeV) -> nat {
    match c {
        CellTypeV::Empty => 0,
        CellTypeV::Number(n) => encode_utf8(n).len(),
        CellTypeV::SharedString(_) => 8,
        CellTypeV::InlineString(t) => encode_utf8(t).len(),
        CellTypeV::Bool(_) => 5,
        CellTypeV::Formula(t, _) => min_nat(encode_utf8(t).len(), 20),
        CellTypeV::ArrayFormula(t, _) => min_nat(encode_utf8(t).len(), 20),
        CellTypeV::DynamicFormula(t, _) => min_nat(encode_utf8(t).len(), 20),
        CellTypeV::DateTime(_) => 10,
        CellTypeV::Error(e) => encode_utf8(e).len(),
    }
}

/// The smaller of two numbers.
pub open spec fn min_nat(a: nat, b: nat) -> nat {
    if a < b {
        a
    } else {
        b
    }
}

/// `m` gives each column that has a cell the widest display length among its cells.
pub open spec fn widest_by_column(m: Map<ColNum, usize>, cells: Map<(RowNum, ColNum), (CellTypeV, u32)>) -> bool {
    &&& forall|c: ColNum| m.contains_key(c) <==> exists|k: (RowNum, ColNum)| cells.contains_key(k) && k.1 == c
    &&& forall|k: (RowNum, ColNum)|
        cells.contains_key(k) ==> m.contains_key(k.1) && display_len(#[trigger] cells[k].0) <= m[k.1]
    &&& forall|c: ColNum|
        m.contains_key(c) ==> exists|k: (RowNum, ColNum)|
            cells.contains_key(k) && k.1 == c && display_len(#[trigger] cells[k].0) == m[c]
}

fn text_len(t: &String) -> (res: usize)
    ensures
        res == encode_utf8(t@).len(),
{
    t.as_str().as_bytes().len()
}

fn display_len_of(c: &CellType) -> (res: usize)
    ensures
        res == display_len(cell_type_view(*c)),
{
    match c {
        CellType::Empty => 0,
        CellType::Number(n) => text_len(n),
        CellType::SharedString(_) => 8,
        CellType::InlineString(t) => text_len(t),
        CellType::Bool(_) => 5,
        CellType::Formula { text, .. } => {
            let n = text_len(text);
            if n < 20 {
                n
            } else {
                20
            }
        },
        CellType::ArrayFormula { text, .. } => {
            let n = text_len(text);
            if n < 20 {
                n
            } else {
                20
            }
        },
        CellType::DynamicFormula { text, .. } => {
            let n = text_len(text);
            if n < 20 {
                n
            } else {
                20
            }
        },
        CellType::DateTime(_) => 10,
        CellType::Error(e) => text_len(e),
    }
}

impl Worksheet {
    /// For each column that has a cell, the widest display length among its cells: what
    /// fitting the columns to their content sizes each column by.
    pub fn autofit_lengths(&self) -> (res: std::collections::BTreeMap<ColNum, usize>)
        ensures
            widest_by_column(res@, cells_view(self.cells@)),
    {
        let ps = self.cell_positions();
        let ghost cv = cells_view(self.cells@);
        let mut m: std::collections::BTreeMap<ColNum, usize> = std::collections::BTreeMap::new();
        let mut i: usize = 0;
        while i < ps.len()
            invariant
                0 <= i <= ps.len(),
                cv == cells_view(self.cells@),
                ps@.to_set() == self.cells@.dom(),
                forall|c: ColNum| m@.contains_key(c) <==> exists|j: int| 0 <= j < i && (#[trigger] ps@[j]).1 == c,
                forall|j: int|
                    0 <= j < i ==> m@.contains_key((#[trigger] ps@[j]).1) && display_len(cv[ps@[j]].0) <= m@[ps@[j].1],
                forall|c: ColNum|
                    m@.contains_key(c) ==> exists|j: int|
                        0 <= j < i && (#[trigger] ps@[j]).1 == c && display_len(cv[ps@[j]].0) == m@[c],
            decreases ps.len() - i,
        {
            let pos = ps[i];
            assert(ps@.to_set().contains(pos));
            let entry = self.cells.get(&pos);
            let len = match entry {
                Some(e) => display_len_of(&e.0),
                None => 0,
            };
            assert(self.cells@.contains_key(pos));
            assert(len == display_len(cv[pos].0));
            let ghost before = m@;
            let current = match m.get(&pos.1) {
                Some(w) => Some(*w),
                None => None,
            };
            match current {
                Some(w) => {
                    if len > w {
                        m.insert(pos.1, len);
                    }
                },
                None => {
                    m.insert(pos.1, len);
                },
            }
            assert forall|c: ColNum| m@.contains_key(c) implies exists|j: int|
                0 <= j < i + 1 && (#[trigger] ps@[j]).1 == c && display_len(cv[ps@[j]].0) == m@[c] by {
                if c == pos.1 && (current is None || len > current->0) {
                    assert(ps@[i as int].1 == c);
                } else {
                    assert(before.contains_key(c));
                    let j = choose|j: int| 0 <= j < i && (#[trigger] ps@[j]).1 == c && display_len(cv[ps@[j]].0) == before[c];
                    assert(ps@[j].1 == c);
                }
            }
            assert forall|c: ColNum| m@.contains_key(c) <==> exists|j: int| 0 <= j < i + 1 && (#[trigger] ps@[j]).1 == c by {
                if m@.contains_key(c) && c != pos.1 {
                    assert(before.contains_key(c));
                    let j = choose|j: int| 0 <= j < i && (#[trigger] ps@[j]).1 == c;
                    assert(0 <= j < i + 1 && ps@[j].1 == c);
                }
                if m@.contains_key(c) && c == pos.1 {
                    assert(ps@[i as int].1 == c);
                }
                if exists|j: int| 0 <= j < i + 1 && (#[trigger] ps@[j]).1 == c {
                    let j = choose|j: int| 0 <= j < i + 1 && (#[trigger] ps@[j]).1 == c;
                    if j < i {
                        assert(before.contains_key(c));
                    }
                }
            }
            i += 1;
        }
        assert forall|c: ColNum| m@.contains_key(c) implies exists|k: (RowNum, ColNum)|
            cv.contains_key(k) && k.1 == c && display_len(#[trigger] cv[k].0) == m@[c] by {
            let j = choose|j: int| 0 <= j < ps@.len() && (#[trigger] ps@[j]).1 == c && display_len(cv[ps@[j]].0) == m@[c];
            assert(ps@.to_set().contains(ps@[j]));
        }
        assert forall|k: (RowNum, ColNum)| cv.contains_key(k) implies m@.contains_key(k.1) && display_len(
            #[trigger] cv[k].0,
        ) <= m@[k.1] by {
            assert(ps@.to_set().contains(k));
            let j = choose|j: int| 0 <= j < ps@.len() && ps@[j] == k;
            assert(m@.contains_key(ps@[j].1));
        }
        assert forall|c: ColNum| m@.contains_key(c) <==> exists|k: (RowNum, ColNum)| cv.contains_key(k) && k.1 == c by {
            if m@.contains_key(c) {
                let j = choose|j: int| 0 <= j < ps@.len() && (#[trigger] ps@[j]).1 == c;
                assert(ps@.to_set().contains(ps@[j]));
                assert(cv.contains_key(ps@[j]));
            }
            if exists|k: (RowNum, ColNum)| cv.contains_key(k) && k.1 == c {
                let k = choose|k: (RowNum, ColNum)| cv.contains_key(k) && k.1 == c;
                assert(ps@.to_set().contains(k));
                let j = choose|j: int| 0 <= j < ps@.len() && ps@[j] == k;
                assert(m@.contains_key(ps@[j].1));
            }
        }
        m
    }
}

/// The value a cell's content reads as.
fn value_of(c: &CellType) -> (res: CellValue)
    ensures
        cell_view(res) == shown_value(cell_type_view(*c)),
        cell_flat(res),
{
    match c {
        CellType::Empty => CellValue::Empty,
        CellType::Number(n) => CellValue::Numeric { text: to_string(n.as_str()), date: false },
        CellType::SharedString(_) => CellValue::Empty,
        CellType::InlineString(s) => CellValue::String(to_string(s.as_str())),
        CellType::Bool(b) => CellValue::Bool(*b),
        CellType::Formula { text, cached_number } => CellValue::Formula {
            formula: to_string(text.as_str()),
            cached_value: Box::new(
                match cached_number {
                    Some(n) => CellValue::Numeric { text: to_string(n.as_str()), date: false },
                    None => CellValue::Empty,
                },
            ),
        },
        CellType::DateTime(s) => CellValue::Numeric { text: to_string(s.as_str()), date: true },
        CellType::Error(e) => CellValue::Error(to_string(e.as_str())),
        CellType::ArrayFormula { text, .. } => CellValue::Formula {
            formula: to_string(text.as_str()),
            cached_value: Box::new(CellValue::Empty),
        },
        CellType::DynamicFormula { text, .. } => CellValue::Formula {
            formula: to_string(text.as_str()),
            cached_value: Box::new(CellValue::Empty),
        },
    }
}

} // verus!
