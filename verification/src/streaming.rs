//! Writing a workbook row by row: each row goes into its sheet's XML as soon as it is written,
//! so no cell is kept in memory and the rows of a sheet must come in ascending order.

use vstd::prelude::*;
use vstd::utf8::encode_utf8;

use crate::error::Error;
use crate::format::Format;
use crate::properties::{app_xml_text, core_xml_text, empty_props, write_app_xml, write_core_xml, DocProperties, PropsView};
use crate::shared_strings::{last_index_of, SharedStringTable};
use crate::style_registry::{
    format_border, format_fill, format_font, initial_registry, register_needs_id, spec_intern,
    spec_register_format, RegistryView, StyleRegistry,
};
use crate::text::{decimal_digits, push_decimal, push_str, to_string};
use crate::utility::{col_letters, col_to_letter};
use crate::package_xml::{
    ct_override, fixed_parts, numbered, numbered_part, part_name, props_parts, put_default, put_numbered, put_override, types_head,
    workbook_ct, worksheet_ct,
};
use crate::writer::{empty_markup, end_markup, pair_views, start_markup, text_markup, xml_declaration, XmlWriter};

verus! {

/// A value written to a cell in streaming mode. Numbers and date serials come as the decimal
/// text they are written with.
pub enum StreamCell {
    Number(String),
    SharedString(u32),
    Bool(bool),
    Formula { text: String, cached: Option<String> },
    DateTime(String),
}

/// The mathematical form of a [`StreamCell`].
pub ghost enum CellV {
    Number(Seq<char>),
    SharedString(u32),
    Bool(bool),
    Formula { text: Seq<char>, cached: Option<Seq<char>> },
    DateTime(Seq<char>),
}

impl View for StreamCell {
    type V = CellV;

    open spec fn view(&self) -> CellV {
        match self {
            StreamCell::Number(t) => CellV::Number(t@),
            StreamCell::SharedString(i) => CellV::SharedString(*i),
            StreamCell::Bool(b) => CellV::Bool(*b),
            StreamCell::Formula { text, cached } => CellV::Formula {
                text: text@,
                cached: match cached {
                    Some(n) => Some(n@),
                    None => None,
                },
            },
            StreamCell::DateTime(t) => CellV::DateTime(t@),
        }
    }
}

/// The mathematical form of a sheet being streamed.
pub ghost struct SheetView {
    pub name: Seq<char>,
    /// The sheet's XML so far.
    pub xml: Seq<char>,
    pub last_row: Option<u32>,
    pub row_open: bool,
    pub header_written: bool,
    /// Column widths: the 0-based column and the width's text.
    pub col_widths: Seq<(u16, Seq<char>)>,
    pub merges: Seq<(u32, u16, u32, u16)>,
}

/// A sheet that nothing has been written to yet.
pub open spec fn fresh_sheet(name: Seq<char>) -> SheetView {
    SheetView {
        name,
        xml: Seq::empty(),
        last_row: None,
        row_open: false,
        header_written: false,
        col_widths: Seq::empty(),
        merges: Seq::empty(),
    }
}

/// The `A1`-style reference of a 0-based cell.
pub open spec fn cell_ref_text(row: u32, col: u16) -> Seq<char> {
    col_letters(col as nat + 1) + decimal_digits(row as nat + 1)
}

/// The style attribute of a cell: none for the default style 0.
pub open spec fn style_attr(xf: u32) -> Seq<(Seq<char>, Seq<char>)> {
    if xf > 0 {
        seq![("s"@, decimal_digits(xf as nat))]
    } else {
        Seq::empty()
    }
}

/// The `<c>` element of a cell.
pub open spec fn cell_markup(row: u32, col: u16, cell: CellV, xf: u32) -> Seq<char> {
    let r = seq![("r"@, cell_ref_text(row, col))];
    let no = Seq::<(Seq<char>, Seq<char>)>::empty();
    match cell {
        CellV::Number(t) => start_markup("c"@, r + style_attr(xf)) + text_markup("v"@, no, t) + end_markup(
            "c"@,
        ),
        CellV::SharedString(i) => start_markup("c"@, r + seq![("t"@, "s"@)] + style_attr(xf)) + text_markup(
            "v"@,
            no,
            decimal_digits(i as nat),
        ) + end_markup("c"@),
        CellV::Bool(b) => start_markup("c"@, r + seq![("t"@, "b"@)] + style_attr(xf)) + text_markup(
            "v"@,
            no,
            if b {
                "1"@
            } else {
                "0"@
            },
        ) + end_markup("c"@),
        CellV::Formula { text, cached } => start_markup("c"@, r + style_attr(xf)) + text_markup(
            "f"@,
            no,
            text,
        ) + match cached {
            Some(n) => text_markup("v"@, no, n),
            None => Seq::empty(),
        } + end_markup("c"@),
        CellV::DateTime(t) => start_markup("c"@, r + style_attr(xf)) + text_markup("v"@, no, t)
            + end_markup("c"@),
    }
}

/// The namespaces of a worksheet's root element.
pub open spec fn worksheet_ns() -> Seq<(Seq<char>, Seq<char>)> {
    seq![
        ("xmlns"@, "http://schemas.openxmlformats.org/spreadsheetml/2006/main"@),
        ("xmlns:r"@, "http://schemas.openxmlformats.org/officeDocument/2006/relationships"@),
    ]
}

/// The `<col>` element that gives one column its width.
pub open spec fn col_entry(col: u16, width: Seq<char>) -> Seq<char> {
    let c = decimal_digits(col as nat + 1);
    empty_markup("col"@, seq![("min"@, c), ("max"@, c), ("width"@, width), ("customWidth"@, "1"@)])
}

/// The `<col>` elements of a list of widths, in order.
pub open spec fn col_entries(w: Seq<(u16, Seq<char>)>) -> Seq<char>
    decreases w.len(),
{
    if w.len() == 0 {
        Seq::empty()
    } else {
        col_entries(w.drop_last()) + col_entry(w.last().0, w.last().1)
    }
}

/// What a sheet's XML starts with: declaration, root, the column widths when there are any,
/// and the opening of the cell data.
pub open spec fn sheet_header(w: Seq<(u16, Seq<char>)>) -> Seq<char> {
    xml_declaration() + start_markup("worksheet"@, worksheet_ns()) + (if w.len() > 0 {
        start_markup("cols"@, Seq::empty()) + col_entries(w) + end_markup("cols"@)
    } else {
        Seq::empty()
    }) + start_markup("sheetData"@, Seq::empty())
}

/// Writing the header if it has not been written.
pub open spec fn spec_ensure_header(v: SheetView) -> SheetView {
    if v.header_written {
        v
    } else {
        SheetView { xml: v.xml + sheet_header(v.col_widths), header_written: true, ..v }
    }
}

/// Whether a row comes before the last row written, which streaming refuses.
pub open spec fn row_out_of_order(v: SheetView, row: u32) -> bool {
    match v.last_row {
        Some(l) => row < l,
        None => false,
    }
}

/// The opening tag of a row (0-based number).
pub open spec fn row_open_markup(row: u32) -> Seq<char> {
    "<row r=\""@ + decimal_digits(row as nat + 1) + "\">"@
}

/// Moving to `row` (not before the last row): the open row is closed when `row` is another
/// row, and `row` is opened unless it is the open one.
pub open spec fn spec_open_row(v: SheetView, row: u32) -> SheetView {
    let other = match v.last_row {
        Some(l) => l != row,
        None => true,
    };
    let closes = v.last_row is Some && other;
    let xml1 = if closes {
        v.xml + "</row>"@
    } else {
        v.xml
    };
    let open1 = if closes {
        false
    } else {
        v.row_open
    };
    if !open1 || other {
        SheetView { xml: xml1 + row_open_markup(row), row_open: true, last_row: Some(row), ..v }
    } else {
        SheetView { xml: xml1, row_open: open1, ..v }
    }
}

/// The message of the error for a row written after a later one.
pub open spec fn row_order_message(row: u32, last: u32) -> Seq<char> {
    "Streaming mode requires ascending row order: got row "@ + decimal_digits(row as nat) + " after row "@
        + decimal_digits(last as nat)
}

/// The reference of a merged range.
pub open spec fn merge_ref(m: (u32, u16, u32, u16)) -> Seq<char> {
    cell_ref_text(m.0, m.1) + ":"@ + cell_ref_text(m.2, m.3)
}

/// The `<mergeCell>` elements of a list of ranges, in order.
pub open spec fn merge_entries(m: Seq<(u32, u16, u32, u16)>) -> Seq<char>
    decreases m.len(),
{
    if m.len() == 0 {
        Seq::empty()
    } else {
        merge_entries(m.drop_last()) + empty_markup("mergeCell"@, seq![("ref"@, merge_ref(m.last()))])
    }
}

/// The `<mergeCells>` element, present when there are merged ranges.
pub open spec fn merges_markup(m: Seq<(u32, u16, u32, u16)>) -> Seq<char> {
    if m.len() > 0 {
        start_markup("mergeCells"@, seq![("count"@, decimal_digits(m.len()))]) + merge_entries(m) + end_markup(
            "mergeCells"@,
        )
    } else {
        Seq::empty()
    }
}

/// Closing a sheet: the header if none was written, the open row, the cell data, the merged
/// ranges and the root.
pub open spec fn spec_finalize(v: SheetView) -> SheetView {
    let v1 = spec_ensure_header(v);
    SheetView {
        xml: v1.xml + (if v1.row_open {
            "</row>"@
        } else {
            Seq::empty()
        }) + "</sheetData>"@ + merges_markup(v1.merges) + "</worksheet>"@,
        ..v1
    }
}

/// Rows of merged ranges whose numbers can be written one-based.
pub open spec fn merges_fit(m: Seq<(u32, u16, u32, u16)>) -> bool {
    forall|k: int| 0 <= k < m.len() ==> #[trigger] m[k].0 < u32::MAX && m[k].2 < u32::MAX
}

struct StreamingSheet {
    name: String,
    xml: XmlWriter,
    last_row: Option<u32>,
    row_open: bool,
    header_written: bool,
    col_widths: Vec<(u16, String)>,
    merge_ranges: Vec<(u32, u16, u32, u16)>,
}

/// The views of a list of column widths.
pub open spec fn width_views(w: Seq<(u16, String)>) -> Seq<(u16, Seq<char>)> {
    w.map_values(|p: (u16, String)| (p.0, p.1@))
}

impl View for StreamingSheet {
    type V = SheetView;

    closed spec fn view(&self) -> SheetView {
        SheetView {
            name: self.name@,
            xml: self.xml@,
            last_row: self.last_row,
            row_open: self.row_open,
            header_written: self.header_written,
            col_widths: width_views(self.col_widths@),
            merges: self.merge_ranges@,
        }
    }
}

fn decimal_text(n: u64) -> (res: String)
    ensures
        res@ == decimal_digits(n as nat),
{
    let mut s = String::new();
    push_decimal(&mut s, n);
    assert(s@ =~= decimal_digits(n as nat));
    s
}

impl StreamingSheet {
    fn new(name: &str) -> (res: Self)
        ensures
            res@ == fresh_sheet(name@),
    {
        let res = StreamingSheet {
            name: to_string(name),
            xml: XmlWriter::new(),
            last_row: None,
            row_open: false,
            header_written: false,
            col_widths: Vec::new(),
            merge_ranges: Vec::new(),
        };
        assert(res@.col_widths =~= Seq::<(u16, Seq<char>)>::empty());
        res
    }

    fn ensure_header(&mut self)
        ensures
            final(self)@ == spec_ensure_header(old(self)@),
    {
        if self.header_written {
            return;
        }
        let ghost widths = self@.col_widths;
        let mut w = XmlWriter::new();
        w.declaration();
        let ns = [
            ("xmlns", "http://schemas.openxmlformats.org/spreadsheetml/2006/main"),
            ("xmlns:r", "http://schemas.openxmlformats.org/officeDocument/2006/relationships"),
        ];
        w.start_tag("worksheet", &ns);
        assert(pair_views(ns@) =~= worksheet_ns());
        let no: [(&str, &str); 0] = [];
        assert(pair_views(no@) =~= Seq::<(Seq<char>, Seq<char>)>::empty());
        let ghost after_root = w@;
        if self.col_widths.len() > 0 {
            w.start_tag("cols", &no);
            let ghost before = w@;
            let mut i: usize = 0;
            while i < self.col_widths.len()
                invariant
                    0 <= i <= self.col_widths.len(),
                    widths == width_views(self.col_widths@),
                    w@ == before + col_entries(widths.take(i as int)),
                decreases self.col_widths.len() - i,
            {
                let col = self.col_widths[i].0;
                let c = decimal_text(col as u64 + 1);
                let width = self.col_widths[i].1.as_str();
                assert(widths[i as int] == (col, width@));
                assert(widths.take(i + 1).drop_last() =~= widths.take(i as int));
                let attrs = [("min", c.as_str()), ("max", c.as_str()), ("width", width), ("customWidth", "1")];
                w.empty_tag("col", &attrs);
                assert(pair_views(attrs@) =~= seq![
                    ("min"@, c@),
                    ("max"@, c@),
                    ("width"@, width@),
                    ("customWidth"@, "1"@),
                ]);
                i += 1;
                assert(w@ =~= before + col_entries(widths.take(i as int)));
            }
            assert(widths.take(widths.len() as int) =~= widths);
            w.end_tag("cols");
        }
        w.start_tag("sheetData", &no);
        assert(w@ =~= sheet_header(widths));
        self.xml.append(w);
        self.header_written = true;
    }

    fn ensure_row(&mut self, row: u32) -> (res: Result<(), Error>)
        ensures
            res is Err <==> row_out_of_order(old(self)@, row),
            res is Err ==> final(self)@ == old(self)@,
            res matches Err(e) ==> (e matches Error::InvalidData(m) && m@ == row_order_message(
                row,
                old(self)@.last_row->0,
            )),
            res is Ok ==> final(self)@ == spec_open_row(old(self)@, row),
    {
        let other = match self.last_row {
            Some(last) => {
                if row < last {
                    let mut m = to_string("Streaming mode requires ascending row order: got row ");
                    push_decimal(&mut m, row as u64);
                    push_str(&mut m, " after row ");
                    push_decimal(&mut m, last as u64);
                    return Err(Error::InvalidData(m));
                }
                if row != last {
                    self.xml.raw("</row>");
                    self.row_open = false;
                }
                row != last
            },
            None => true,
        };
        if !self.row_open || other {
            self.xml.raw("<row r=\"");
            let r = decimal_text(row as u64 + 1);
            self.xml.raw(r.as_str());
            self.xml.raw("\">");
            self.row_open = true;
            self.last_row = Some(row);
        }
        assert(self@.xml =~= spec_open_row(old(self)@, row).xml);
        Ok(())
    }

    fn write_cell_xml(&mut self, row: u32, col: u16, cell: &StreamCell, xf: u32)
        ensures
            final(self)@ == (SheetView { xml: old(self)@.xml + cell_markup(row, col, cell@, xf), ..old(self)@ }),
    {
        let mut ref_str = col_to_letter(col);
        push_decimal(&mut ref_str, row as u64 + 1);
        assert(ref_str@ =~= cell_ref_text(row, col));
        let xf_s = decimal_text(xf as u64);
        let r = ref_str.as_str();
        let xs = xf_s.as_str();
        let no: [(&str, &str); 0] = [];
        assert(pair_views(no@) =~= Seq::<(Seq<char>, Seq<char>)>::empty());
        let ghost rv = seq![("r"@, cell_ref_text(row, col))];
        let mut w = XmlWriter::new();
        match cell {
            StreamCell::Number(t) | StreamCell::DateTime(t) => {
                self.open_cell(&mut w, r, None, xf, xs);
                w.text_element("v", &no, t.as_str());
                w.end_tag("c");
            },
            StreamCell::SharedString(idx) => {
                self.open_cell(&mut w, r, Some("s"), xf, xs);
                let v = decimal_text(*idx as u64);
                w.text_element("v", &no, v.as_str());
                w.end_tag("c");
            },
            StreamCell::Bool(b) => {
                self.open_cell(&mut w, r, Some("b"), xf, xs);
                let v = if *b { "1" } else { "0" };
                w.text_element("v", &no, v);
                w.end_tag("c");
            },
            StreamCell::Formula { text, cached } => {
                self.open_cell(&mut w, r, None, xf, xs);
                w.text_element("f", &no, text.as_str());
                match cached {
                    Some(n) => {
                        w.text_element("v", &no, n.as_str());
                    },
                    None => {},
                }
                w.end_tag("c");
            },
        }
        assert(w@ =~= cell_markup(row, col, cell@, xf));
        self.xml.append(w);
    }

    /// The opening `<c>` tag: reference, type when given, style when not the default.
    fn open_cell(&self, w: &mut XmlWriter, r: &str, t: Option<&str>, xf: u32, xs: &str)
        requires
            xs@ == decimal_digits(xf as nat),
        ensures
            final(w)@ == old(w)@ + start_markup(
                "c"@,
                seq![("r"@, r@)] + match t {
                    Some(tv) => seq![("t"@, tv@)],
                    None => Seq::empty(),
                } + style_attr(xf),
            ),
    {
        match t {
            Some(tv) => {
                if xf > 0 {
                    let a = [("r", r), ("t", tv), ("s", xs)];
                    w.start_tag("c", &a);
                    assert(pair_views(a@) =~= seq![("r"@, r@)] + seq![("t"@, tv@)] + style_attr(xf));
                } else {
                    let a = [("r", r), ("t", tv)];
                    w.start_tag("c", &a);
                    assert(pair_views(a@) =~= seq![("r"@, r@)] + seq![("t"@, tv@)] + style_attr(xf));
                }
            },
            None => {
                if xf > 0 {
                    let a = [("r", r), ("s", xs)];
                    w.start_tag("c", &a);
                    assert(pair_views(a@) =~= seq![("r"@, r@)] + Seq::empty() + style_attr(xf));
                } else {
                    let a = [("r", r)];
                    w.start_tag("c", &a);
                    assert(pair_views(a@) =~= seq![("r"@, r@)] + Seq::empty() + style_attr(xf));
                }
            },
        }
    }

    fn finalize(&mut self)
        ensures
            final(self)@ == spec_finalize(old(self)@),
    {
        self.ensure_header();
        let ghost v1 = self@;
        if self.row_open {
            self.xml.raw("</row>");
        }
        self.xml.raw("</sheetData>");
        let ghost before_merges = self@.xml;
        if self.merge_ranges.len() > 0 {
            let mut w = XmlWriter::new();
            let count = decimal_text(self.merge_ranges.len() as u64);
            let ca = [("count", count.as_str())];
            w.start_tag("mergeCells", &ca);
            assert(pair_views(ca@) =~= seq![("count"@, decimal_digits(self@.merges.len()))]);
            let ghost start = w@;
            let ghost m = self@.merges;
            let mut i: usize = 0;
            while i < self.merge_ranges.len()
                invariant
                    0 <= i <= self.merge_ranges.len(),
                    m == self.merge_ranges@,
                    w@ == start + merge_entries(m.take(i as int)),
                decreases self.merge_ranges.len() - i,
            {
                let (r1, c1, r2, c2) = self.merge_ranges[i];
                let mut rs = col_to_letter(c1);
                push_decimal(&mut rs, r1 as u64 + 1);
                push_str(&mut rs, ":");
                let tail = col_to_letter(c2);
                push_str(&mut rs, tail.as_str());
                push_decimal(&mut rs, r2 as u64 + 1);
                assert(rs@ =~= merge_ref(m[i as int]));
                let ra = [("ref", rs.as_str())];
                w.empty_tag("mergeCell", &ra);
                assert(pair_views(ra@) =~= seq![("ref"@, merge_ref(m[i as int]))]);
                assert(m.take(i + 1).drop_last() =~= m.take(i as int));
                i += 1;
                assert(w@ =~= start + merge_entries(m.take(i as int)));
            }
            assert(m.take(m.len() as int) =~= m);
            w.end_tag("mergeCells");
            self.xml.append(w);
        }
        self.xml.raw("</worksheet>");
        assert(self@.xml =~= spec_finalize(old(self)@).xml);
    }
}

/// The content-type table of a streamed workbook.
pub open spec fn streaming_content_types_text(sheet_count: nat, has_props: bool) -> Seq<char> {
    types_head() + ct_override("/xl/workbook.xml"@, workbook_ct(false)) + numbered(
        "/xl/worksheets/sheet"@,
        ".xml"@,
        worksheet_ct(),
        sheet_count,
    ) + fixed_parts() + (if has_props {
        props_parts()
    } else {
        Seq::empty()
    }) + end_markup("Types"@)
}

/// Writes `[Content_Types].xml` for a streamed workbook with `sheet_count` sheets, with the
/// document-properties parts when `has_props`.
pub fn write_streaming_content_types(sheet_count: usize, has_props: bool) -> (res: Vec<u8>)
    ensures
        res@ == encode_utf8(streaming_content_types_text(sheet_count as nat, has_props)),
{
    let mut w = XmlWriter::new();
    w.declaration();
    let ns = [("xmlns", "http://schemas.openxmlformats.org/package/2006/content-types")];
    w.start_tag("Types", &ns);
    assert(pair_views(ns@) =~= seq![("xmlns"@, "http://schemas.openxmlformats.org/package/2006/content-types"@)]);
    put_default(&mut w, "rels", "application/vnd.openxmlformats-package.relationships+xml");
    put_default(&mut w, "xml", "application/xml");
    assert(w@ =~= types_head());
    let ghost head = w@;
    put_override(&mut w, "/xl/workbook.xml", "application/vnd.openxmlformats-officedocument.spreadsheetml.sheet.main+xml");
    let ghost with_wb = w@;
    put_numbered(
        &mut w,
        "/xl/worksheets/sheet",
        ".xml",
        "application/vnd.openxmlformats-officedocument.spreadsheetml.worksheet+xml",
        sheet_count,
    );
    let ghost with_sheets = w@;
    put_override(&mut w, "/xl/styles.xml", "application/vnd.openxmlformats-officedocument.spreadsheetml.styles+xml");
    put_override(&mut w, "/xl/theme/theme1.xml", "application/vnd.openxmlformats-officedocument.theme+xml");
    put_override(
        &mut w,
        "/xl/sharedStrings.xml",
        "application/vnd.openxmlformats-officedocument.spreadsheetml.sharedStrings+xml",
    );
    assert(w@ =~= with_sheets + fixed_parts());
    let ghost with_fixed = w@;
    if has_props {
        put_override(&mut w, "/docProps/core.xml", "application/vnd.openxmlformats-package.core-properties+xml");
        put_override(&mut w, "/docProps/app.xml", "application/vnd.openxmlformats-officedocument.extended-properties+xml");
        assert(w@ =~= with_fixed + props_parts());
    }
    w.end_tag("Types");
    assert(w@ =~= streaming_content_types_text(sheet_count as nat, has_props));
    w.into_bytes()
}

/// The `<sheet>` entries of a streamed workbook, numbered from 1 in order.
pub open spec fn sheet_entries_of(names: Seq<Seq<char>>) -> Seq<char>
    decreases names.len(),
{
    if names.len() == 0 {
        Seq::empty()
    } else {
        let n = decimal_digits(names.len());
        sheet_entries_of(names.drop_last()) + empty_markup(
            "sheet"@,
            seq![("name"@, names.last()), ("sheetId"@, n), ("r:id"@, "rId"@ + n)],
        )
    }
}

/// The `xl/workbook.xml` of a streamed workbook with sheets of the given names.
pub open spec fn streaming_workbook_text(names: Seq<Seq<char>>) -> Seq<char> {
    xml_declaration() + start_markup("workbook"@, worksheet_ns()) + start_markup("sheets"@, Seq::empty())
        + sheet_entries_of(names) + end_markup("sheets"@) + end_markup("workbook"@)
}

/// The names of a list of sheets.
pub open spec fn sheet_names(sheets: Seq<SheetView>) -> Seq<Seq<char>> {
    sheets.map_values(|v: SheetView| v.name)
}

fn write_streaming_workbook(sheets: &Vec<StreamingSheet>) -> (res: Vec<u8>)
    ensures
        res@ == encode_utf8(streaming_workbook_text(sheet_names(sheets@.map_values(|s: StreamingSheet| s@)))),
{
    let ghost names = sheet_names(sheets@.map_values(|s: StreamingSheet| s@));
    let mut w = XmlWriter::new();
    w.declaration();
    let ns = [
        ("xmlns", "http://schemas.openxmlformats.org/spreadsheetml/2006/main"),
        ("xmlns:r", "http://schemas.openxmlformats.org/officeDocument/2006/relationships"),
    ];
    w.start_tag("workbook", &ns);
    assert(pair_views(ns@) =~= worksheet_ns());
    let no: [(&str, &str); 0] = [];
    assert(pair_views(no@) =~= Seq::<(Seq<char>, Seq<char>)>::empty());
    w.start_tag("sheets", &no);
    let ghost start = w@;
    let mut i: usize = 0;
    while i < sheets.len()
        invariant
            0 <= i <= sheets.len(),
            names == sheet_names(sheets@.map_values(|s: StreamingSheet| s@)),
            names.len() == sheets.len(),
            w@ == start + sheet_entries_of(names.take(i as int)),
        decreases sheets.len() - i,
    {
        let id = decimal_text(i as u64 + 1);
        let mut rid = to_string("rId");
        push_str(&mut rid, id.as_str());
        let name = sheets[i].name.as_str();
        assert(names[i as int] == name@);
        let attrs = [("name", name), ("sheetId", id.as_str()), ("r:id", rid.as_str())];
        w.empty_tag("sheet", &attrs);
        assert(names.take(i + 1).drop_last() =~= names.take(i as int));
        assert(names.take(i + 1).len() == i + 1);
        assert(pair_views(attrs@) =~= seq![
            ("name"@, names.take(i + 1).last()),
            ("sheetId"@, decimal_digits(names.take(i + 1).len())),
            ("r:id"@, "rId"@ + decimal_digits(names.take(i + 1).len())),
        ]);
        i += 1;
        assert(w@ =~= start + sheet_entries_of(names.take(i as int)));
    }
    assert(names.take(names.len() as int) =~= names);
    w.end_tag("sheets");
    w.end_tag("workbook");
    assert(w@ =~= streaming_workbook_text(names));
    w.into_bytes()
}

/// Writing one cell to a sheet: the header if none was written, then, unless the row comes
/// before the last row written, the move to the row and the cell itself.
pub open spec fn spec_put_cell(v: SheetView, row: u32, col: u16, cell: CellV, xf: u32) -> SheetView {
    let v1 = spec_ensure_header(v);
    if row_out_of_order(v1, row) {
        v1
    } else {
        let v2 = spec_open_row(v1, row);
        SheetView { xml: v2.xml + cell_markup(row, col, cell, xf), ..v2 }
    }
}

/// The mathematical form of a [`StreamingWorkbook`].
pub ghost struct StreamingView {
    pub sheets: Seq<SheetView>,
    /// The shared strings and how often each was used.
    pub strings: Seq<Seq<char>>,
    pub counts: Seq<u32>,
    pub styles: RegistryView,
    pub properties: PropsView,
    /// The sheet that writes go to.
    pub current: usize,
}

/// A new streaming workbook: one empty sheet `Sheet1`, no strings, the default styles.
pub open spec fn fresh_workbook() -> StreamingView {
    StreamingView {
        sheets: seq![fresh_sheet("Sheet1"@)],
        strings: Seq::empty(),
        counts: Seq::empty(),
        styles: initial_registry(),
        properties: empty_props(),
        current: 0,
    }
}

/// Interning `s` in the shared strings: its index, and the table after.
pub open spec fn with_string(v: StreamingView, s: Seq<char>) -> (StreamingView, u32) {
    let k = last_index_of(v.strings, s);
    if k >= 0 {
        (StreamingView { counts: v.counts.update(k, (v.counts[k] + 1) as u32), ..v }, k as u32)
    } else {
        (StreamingView { strings: v.strings.push(s), counts: v.counts.push(1), ..v }, v.strings.len() as u32)
    }
}

/// Whether `s` can be interned without a count or index passing `u32::MAX`.
pub open spec fn string_room(v: StreamingView, s: Seq<char>) -> bool {
    &&& v.strings.len() < u32::MAX
    &&& last_index_of(v.strings, s) >= 0 ==> v.counts[last_index_of(v.strings, s)] < u32::MAX
}

/// The style index of an optional format (0 without one), and the registry after registering it.
pub open spec fn with_format(v: StreamingView, fmt: Option<Format>) -> (StreamingView, u32) {
    match fmt {
        Some(f) => {
            let (r, xf) = spec_register_format(v.styles, f);
            (StreamingView { styles: r, ..v }, xf)
        },
        None => (v, 0),
    }
}

/// Whether registering an optional format cannot run out of custom number-format ids.
pub open spec fn format_room(v: StreamingView, fmt: Option<Format>) -> bool {
    match fmt {
        Some(f) => register_needs_id(
            RegistryView {
                fonts: spec_intern(v.styles.fonts, format_font(f)).0,
                fills: spec_intern(v.styles.fills, format_fill(f)).0,
                borders: spec_intern(v.styles.borders, format_border(f)).0,
                ..v.styles
            },
            f,
        ) ==> v.styles.next_custom_num_fmt_id < u16::MAX,
        None => true,
    }
}

/// Writing a cell to the current sheet.
pub open spec fn cell_written(v: StreamingView, row: u32, col: u16, cell: CellV, xf: u32) -> StreamingView {
    StreamingView {
        sheets: v.sheets.update(v.current as int, spec_put_cell(v.sheets[v.current as int], row, col, cell, xf)),
        ..v
    }
}

/// Whether a write to `row` of the current sheet is refused: it comes before the last row
/// written there.
pub open spec fn write_refused(v: StreamingView, row: u32) -> bool {
    row_out_of_order(v.sheets[v.current as int], row)
}

/// The error of a refused write, for `row` on the current sheet.
pub open spec fn is_order_error(v: StreamingView, row: u32, e: Error) -> bool {
    e matches Error::InvalidData(m) && m@ == row_order_message(row, v.sheets[v.current as int].last_row->0)
}

/// Whether a title or an author is set, which is when the document-properties parts are written.
pub open spec fn has_props(p: PropsView) -> bool {
    p.title is Some || p.author is Some
}

/// The sheets' parts, numbered from 1.
pub open spec fn sheet_parts(sheets: Seq<SheetView>) -> Seq<(Seq<char>, Seq<u8>)> {
    Seq::new(
        sheets.len(),
        |i: int| (part_name("xl/worksheets/sheet"@, (i + 1) as nat, ".xml"@), encode_utf8(sheets[i].xml)),
    )
}

/// The parts of a streamed package, each with its path, once every sheet is closed: content
/// types, workbook, sheets, and the document properties when a title or an author is set.
pub open spec fn streaming_parts(v: StreamingView) -> Seq<(Seq<char>, Seq<u8>)> {
    let sheets = v.sheets.map_values(|s: SheetView| spec_finalize(s));
    let hp = has_props(v.properties);
    seq![
        ("[Content_Types].xml"@, encode_utf8(streaming_content_types_text(sheets.len(), hp))),
        ("xl/workbook.xml"@, encode_utf8(streaming_workbook_text(sheet_names(sheets)))),
    ] + sheet_parts(sheets) + if hp {
        seq![
            ("docProps/core.xml"@, encode_utf8(core_xml_text(v.properties))),
            ("docProps/app.xml"@, encode_utf8(app_xml_text(v.properties))),
        ]
    } else {
        Seq::empty()
    }
}

/// The views of a list of parts.
pub open spec fn part_views(parts: Seq<(String, Vec<u8>)>) -> Seq<(Seq<char>, Seq<u8>)> {
    parts.map_values(|p: (String, Vec<u8>)| (p.0@, p.1@))
}

/// Rows of a sheet must come in ascending order: after a cell of `row` is written to the
/// current sheet, a write there to an earlier row is refused, and one to the same row or a
/// later row is not.
pub proof fn lemma_rows_ascending(v: StreamingView, row: u32, col: u16, cell: CellV, xf: u32, next: u32)
    requires
        v.current < v.sheets.len(),
        !write_refused(v, row),
    ensures
        write_refused(cell_written(v, row, col, cell, xf), next) <==> next < row,
{
}

/// A refused write adds no cell: the sheet only gets its header, if that was still due, and
/// every other sheet, the shared strings and the styles stay as they were.
pub proof fn lemma_refused_write_adds_nothing(v: StreamingView, row: u32, col: u16, cell: CellV, xf: u32)
    requires
        v.current < v.sheets.len(),
        write_refused(v, row),
    ensures
        cell_written(v, row, col, cell, xf) == (StreamingView {
            sheets: v.sheets.update(v.current as int, spec_ensure_header(v.sheets[v.current as int])),
            ..v
        }),
{
}

/// A workbook that writes rows in streaming mode for minimal memory use. The rows of a sheet
/// must be written in ascending order.
pub struct StreamingWorkbook {
    sheets: Vec<StreamingSheet>,
    sst: SharedStringTable,
    styles: StyleRegistry,
    properties: DocProperties,
    current_sheet: usize,
}

impl View for StreamingWorkbook {
    type V = StreamingView;

    closed spec fn view(&self) -> StreamingView {
        StreamingView {
            sheets: self.sheets@.map_values(|s: StreamingSheet| s@),
            strings: self.sst.strings(),
            counts: self.sst.counts(),
            styles: self.styles@,
            properties: self.properties@,
            current: self.current_sheet,
        }
    }
}

impl StreamingWorkbook {
    /// The workbook's internal consistency.
    pub closed spec fn wf(&self) -> bool {
        self.sst.wf()
    }

    /// A workbook with one empty sheet named `Sheet1`.
    pub fn new() -> (res: Self)
        ensures
            res.wf(),
            res@ == fresh_workbook(),
    {
        let mut sheets: Vec<StreamingSheet> = Vec::new();
        sheets.push(StreamingSheet::new("Sheet1"));
        let res = StreamingWorkbook {
            sheets,
            sst: SharedStringTable::new(),
            styles: StyleRegistry::new(),
            properties: DocProperties::new(),
            current_sheet: 0,
        };
        assert(res@.sheets =~= fresh_workbook().sheets);
        res
    }

    /// Adds a sheet and makes it the current one; returns its index.
    pub fn add_worksheet(&mut self, name: &str) -> (res: usize)
        requires
            old(self).wf(),
        ensures
            final(self).wf(),
            res == old(self)@.sheets.len(),
            final(self)@ == (StreamingView {
                sheets: old(self)@.sheets.push(fresh_sheet(name@)),
                current: res,
                ..old(self)@
            }),
    {
        let idx = self.sheets.len();
        self.sheets.push(StreamingSheet::new(name));
        self.current_sheet = idx;
        assert(self@.sheets =~= old(self)@.sheets.push(fresh_sheet(name@)));
        idx
    }

    /// How many sheets the workbook has.
    pub fn sheet_count(&self) -> (res: usize)
        ensures
            res == self@.sheets.len(),
    {
        self.sheets.len()
    }

    /// The index of the sheet that writes go to.
    pub fn current_sheet(&self) -> (res: usize)
        ensures
            res == self@.current,
    {
        self.current_sheet
    }

    /// Makes sheet `idx` the one that writes go to.
    pub fn set_current_sheet(&mut self, idx: usize)
        requires
            old(self).wf(),
        ensures
            final(self).wf(),
            final(self)@ == (StreamingView { current: idx, ..old(self)@ }),
    {
        self.current_sheet = idx;
    }

    /// Gives a column of the current sheet a width, written with the text `width` (the width
    /// with two decimals). Widths take effect on a sheet whose first cell is not written yet.
    pub fn set_column_width(&mut self, col: u16, width: &str)
        requires
            old(self).wf(),
            old(self)@.current < old(self)@.sheets.len(),
            col < u16::MAX,
        ensures
            final(self).wf(),
            final(self)@ == (StreamingView {
                sheets: old(self)@.sheets.update(
                    old(self)@.current as int,
                    SheetView {
                        col_widths: old(self)@.sheets[old(self)@.current as int].col_widths.push((col, width@)),
                        ..old(self)@.sheets[old(self)@.current as int]
                    },
                ),
                ..old(self)@
            }),
    {
        let cur = self.current_sheet;
        let sheet = &mut self.sheets[cur];
        let ghost before = sheet.col_widths@;
        sheet.col_widths.push((col, to_string(width)));
        assert(width_views(sheet.col_widths@) =~= width_views(before).push((col, width@)));
        assert(self@.sheets =~= old(self)@.sheets.update(
            cur as int,
            SheetView {
                col_widths: old(self)@.sheets[cur as int].col_widths.push((col, width@)),
                ..old(self)@.sheets[cur as int]
            },
        ));
    }

    /// Records a merged range on the current sheet (0-based, inclusive corners).
    pub fn merge_range(&mut self, r1: u32, c1: u16, r2: u32, c2: u16)
        requires
            old(self).wf(),
            old(self)@.current < old(self)@.sheets.len(),
            r1 < u32::MAX,
            r2 < u32::MAX,
        ensures
            final(self).wf(),
            final(self)@ == (StreamingView {
                sheets: old(self)@.sheets.update(
                    old(self)@.current as int,
                    SheetView {
                        merges: old(self)@.sheets[old(self)@.current as int].merges.push((r1, c1, r2, c2)),
                        ..old(self)@.sheets[old(self)@.current as int]
                    },
                ),
                ..old(self)@
            }),
    {
        let cur = self.current_sheet;
        let sheet = &mut self.sheets[cur];
        sheet.merge_ranges.push((r1, c1, r2, c2));
        assert(self@.sheets =~= old(self)@.sheets.update(
            cur as int,
            SheetView {
                merges: old(self)@.sheets[cur as int].merges.push((r1, c1, r2, c2)),
                ..old(self)@.sheets[cur as int]
            },
        ));
    }

    /// Writes a cell to the current sheet: the header when this is the sheet's first cell, the
    /// move to the row, and the cell. A row before the last row written is refused, and only
    /// the header (if it was due) has then been written.
    fn put_cell(&mut self, row: u32, col: u16, cell: &StreamCell, xf: u32) -> (res: Result<(), Error>)
        requires
            old(self).wf(),
            old(self)@.current < old(self)@.sheets.len(),
        ensures
            final(self).wf(),
            final(self)@ == cell_written(old(self)@, row, col, cell@, xf),
            res is Err <==> write_refused(old(self)@, row),
            res matches Err(e) ==> is_order_error(old(self)@, row, e),
    {
        let cur = self.current_sheet;
        let sheet = &mut self.sheets[cur];
        sheet.ensure_header();
        let r = sheet.ensure_row(row);
        match r {
            Ok(()) => {
                sheet.write_cell_xml(row, col, cell, xf);
            },
            Err(e) => {
                assert(self@.sheets =~= cell_written(old(self)@, row, col, cell@, xf).sheets);
                return Err(e);
            },
        }
        assert(self@.sheets =~= cell_written(old(self)@, row, col, cell@, xf).sheets);
        Ok(())
    }

    fn write_string_fmt(&mut self, row: u32, col: u16, s: &str, fmt: Option<&Format>) -> (res: Result<(), Error>)
        requires
            old(self).wf(),
            old(self)@.current < old(self)@.sheets.len(),
            string_room(old(self)@, s@),
            format_room(old(self)@, match fmt { Some(f) => Some(*f), None => None }),
        ensures
            final(self).wf(),
            ({
                let (v1, idx) = with_string(old(self)@, s@);
                let (v2, xf) = with_format(v1, match fmt { Some(f) => Some(*f), None => None });
                final(self)@ == cell_written(v2, row, col, CellV::SharedString(idx), xf)
            }),
            res is Err <==> write_refused(old(self)@, row),
            res matches Err(e) ==> is_order_error(old(self)@, row, e),
    {
        let idx = self.sst.intern(s);
        let xf = match fmt {
            Some(f) => self.styles.register_format(f),
            None => 0,
        };
        proof {
            let (v1, i) = with_string(old(self)@, s@);
            let (v2, x) = with_format(v1, match fmt { Some(f) => Some(*f), None => None });
            assert(i == idx);
            assert(x == xf);
            assert(self@.strings == v2.strings);
            assert(self@.counts =~= v2.counts);
        }
        self.put_cell(row, col, &StreamCell::SharedString(idx), xf)
    }

    /// Writes a string (through the shared strings) to a cell of the current sheet.
    pub fn write_string(&mut self, row: u32, col: u16, s: &str) -> (res: Result<(), Error>)
        requires
            old(self).wf(),
            old(self)@.current < old(self)@.sheets.len(),
            string_room(old(self)@, s@),
        ensures
            final(self).wf(),
            ({
                let (v1, idx) = with_string(old(self)@, s@);
                final(self)@ == cell_written(v1, row, col, CellV::SharedString(idx), 0)
            }),
            res is Err <==> write_refused(old(self)@, row),
            res matches Err(e) ==> is_order_error(old(self)@, row, e),
    {
        self.write_string_fmt(row, col, s, None)
    }

    /// Writes a string with a format to a cell of the current sheet.
    pub fn write_string_with_format(&mut self, row: u32, col: u16, s: &str, fmt: &Format) -> (res: Result<
        (),
        Error,
    >)
        requires
            old(self).wf(),
            old(self)@.current < old(self)@.sheets.len(),
            string_room(old(self)@, s@),
            format_room(old(self)@, Some(*fmt)),
        ensures
            final(self).wf(),
            ({
                let (v1, idx) = with_string(old(self)@, s@);
                let (v2, xf) = with_format(v1, Some(*fmt));
                final(self)@ == cell_written(v2, row, col, CellV::SharedString(idx), xf)
            }),
            res is Err <==> write_refused(old(self)@, row),
            res matches Err(e) ==> is_order_error(old(self)@, row, e),
    {
        self.write_string_fmt(row, col, s, Some(fmt))
    }

    fn write_number_fmt(&mut self, row: u32, col: u16, n: &str, fmt: Option<&Format>) -> (res: Result<(), Error>)
        requires
            old(self).wf(),
            old(self)@.current < old(self)@.sheets.len(),
            format_room(old(self)@, match fmt { Some(f) => Some(*f), None => None }),
        ensures
            final(self).wf(),
            ({
                let (v1, xf) = with_format(old(self)@, match fmt { Some(f) => Some(*f), None => None });
                final(self)@ == cell_written(v1, row, col, CellV::Number(n@), xf)
            }),
            res is Err <==> write_refused(old(self)@, row),
            res matches Err(e) ==> is_order_error(old(self)@, row, e),
    {
        let xf = match fmt {
            Some(f) => self.styles.register_format(f),
            None => 0,
        };
        self.put_cell(row, col, &StreamCell::Number(to_string(n)), xf)
    }

    /// Writes a number, given as the decimal text it is written with, to a cell of the
    /// current sheet.
    pub fn write_number(&mut self, row: u32, col: u16, n: &str) -> (res: Result<(), Error>)
        requires
            old(self).wf(),
            old(self)@.current < old(self)@.sheets.len(),
        ensures
            final(self).wf(),
            final(self)@ == cell_written(old(self)@, row, col, CellV::Number(n@), 0),
            res is Err <==> write_refused(old(self)@, row),
            res matches Err(e) ==> is_order_error(old(self)@, row, e),
    {
        self.write_number_fmt(row, col, n, None)
    }

    /// Writes a number with a format to a cell of the current sheet.
    pub fn write_number_with_format(&mut self, row: u32, col: u16, n: &str, fmt: &Format) -> (res: Result<
        (),
        Error,
    >)
        requires
            old(self).wf(),
            old(self)@.current < old(self)@.sheets.len(),
            format_room(old(self)@, Some(*fmt)),
        ensures
            final(self).wf(),
            ({
                let (v1, xf) = with_format(old(self)@, Some(*fmt));
                final(self)@ == cell_written(v1, row, col, CellV::Number(n@), xf)
            }),
            res is Err <==> write_refused(old(self)@, row),
            res matches Err(e) ==> is_order_error(old(self)@, row, e),
    {
        self.write_number_fmt(row, col, n, Some(fmt))
    }

    /// Writes a boolean to a cell of the current sheet.
    pub fn write_boolean(&mut self, row: u32, col: u16, b: bool) -> (res: Result<(), Error>)
        requires
            old(self).wf(),
            old(self)@.current < old(self)@.sheets.len(),
        ensures
            final(self).wf(),
            final(self)@ == cell_written(old(self)@, row, col, CellV::Bool(b), 0),
            res is Err <==> write_refused(old(self)@, row),
            res matches Err(e) ==> is_order_error(old(self)@, row, e),
    {
        self.put_cell(row, col, &StreamCell::Bool(b), 0)
    }

    /// Writes a formula, without a cached value, to a cell of the current sheet.
    pub fn write_formula(&mut self, row: u32, col: u16, formula: &str) -> (res: Result<(), Error>)
        requires
            old(self).wf(),
            old(self)@.current < old(self)@.sheets.len(),
        ensures
            final(self).wf(),
            final(self)@ == cell_written(
                old(self)@,
                row,
                col,
                CellV::Formula { text: formula@, cached: None },
                0,
            ),
            res is Err <==> write_refused(old(self)@, row),
            res matches Err(e) ==> is_order_error(old(self)@, row, e),
    {
        self.put_cell(row, col, &StreamCell::Formula { text: to_string(formula), cached: None }, 0)
    }

    /// Closes every sheet and gives the parts of the package that this library writes, each
    /// with its path in the package.
    pub fn save_parts(&mut self) -> (res: Vec<(String, Vec<u8>)>)
        requires
            old(self).wf(),
        ensures
            final(self).wf(),
            final(self)@ == (StreamingView {
                sheets: old(self)@.sheets.map_values(|s: SheetView| spec_finalize(s)),
                ..old(self)@
            }),
            part_views(res@) == streaming_parts(old(self)@),
    {
        let ghost fin = old(self)@.sheets.map_values(|s: SheetView| spec_finalize(s));
        assert(self@.sheets =~= fin.take(0) + old(self)@.sheets.skip(0));
        let mut i: usize = 0;
        while i < self.sheets.len()
            invariant
                0 <= i <= self.sheets.len(),
                self.sheets.len() == old(self).sheets.len(),
                self.wf(),
                fin == old(self)@.sheets.map_values(|s: SheetView| spec_finalize(s)),
                self@ == (StreamingView {
                    sheets: fin.take(i as int) + old(self)@.sheets.skip(i as int),
                    ..old(self)@
                }),
            decreases self.sheets.len() - i,
        {
            let ghost before = self@.sheets;
            assert(before[i as int] == old(self)@.sheets[i as int]);
            self.sheets[i].finalize();
            assert(self@.sheets =~= before.update(i as int, spec_finalize(before[i as int])));
            assert(self@.sheets =~= fin.take(i + 1) + old(self)@.sheets.skip(i + 1));
            i += 1;
        }
        assert(self@.sheets =~= fin);
        let sheet_count = self.sheets.len();
        let hp = self.properties.title.is_some() || self.properties.author.is_some();
        let mut parts: Vec<(String, Vec<u8>)> = Vec::new();
        parts.push((to_string("[Content_Types].xml"), write_streaming_content_types(sheet_count, hp)));
        parts.push((to_string("xl/workbook.xml"), write_streaming_workbook(&self.sheets)));
        let ghost head = part_views(parts@);
        let mut k: usize = 0;
        while k < self.sheets.len()
            invariant
                0 <= k <= self.sheets.len(),
                self@.sheets == fin,
                fin.len() == self.sheets.len(),
                part_views(parts@) == head + sheet_parts(fin).take(k as int),
            decreases self.sheets.len() - k,
        {
            let path = numbered_part("xl/worksheets/sheet", k as u64 + 1, ".xml");
            let bytes = self.sheets[k].xml.to_bytes();
            assert(self@.sheets[k as int].xml == self.sheets[k as int].xml@);
            assert(sheet_parts(fin)[k as int] == (path@, bytes@));
            let ghost pv = part_views(parts@);
            parts.push((path, bytes));
            assert(part_views(parts@) =~= pv.push(sheet_parts(fin)[k as int]));
            assert(sheet_parts(fin).take(k + 1) =~= sheet_parts(fin).take(k as int).push(sheet_parts(fin)[k as int]));
            assert(part_views(parts@) =~= head + sheet_parts(fin).take(k + 1));
            k += 1;
        }
        assert(sheet_parts(fin).take(fin.len() as int) =~= sheet_parts(fin));
        let ghost mid = part_views(parts@);
        if hp {
            parts.push((to_string("docProps/core.xml"), write_core_xml(&self.properties)));
            parts.push((to_string("docProps/app.xml"), write_app_xml(&self.properties)));
            assert(part_views(parts@) =~= mid + seq![
                ("docProps/core.xml"@, encode_utf8(core_xml_text(old(self)@.properties))),
                ("docProps/app.xml"@, encode_utf8(app_xml_text(old(self)@.properties))),
            ]);
        } else {
            assert(part_views(parts@) =~= mid + Seq::<(Seq<char>, Seq<u8>)>::empty());
        }
        assert(part_views(parts@) =~= streaming_parts(old(self)@));
        parts
    }

    /// Replaces the document properties.
    pub fn set_properties(&mut self, props: DocProperties)
        requires
            old(self).wf(),
        ensures
            final(self).wf(),
            final(self)@ == (StreamingView { properties: props@, ..old(self)@ }),
    {
        self.properties = props;
    }
}

} // verus!
