//! Reading a sheet part row by row: only `<sheetData>` is read, and each row keeps the cells that
//! hold something.

use vstd::prelude::*;
use vstd::utf8::encode_utf8;

use crate::cell::{cell_flat, cell_view, resolve_cell_value, spec_resolve_cell, CellV, CellValue, ValueV};
use crate::error::Error;
use crate::rels::{parse_rels, rel_views, Rel};
use crate::shared_strings::SharedStringTable;
use crate::style_parser::{ParsedStyles, StylesV};
use crate::text::{push_str, str_eq, to_string};
use crate::utility::{
    atoi_parse_u32, atoi_u32, cell_attr_col_fits, parse_cell_attr_checked, spec_parse_cell_attr,
    ColNum, RowNum,
};
use crate::xlsx_reader::{workbook_given, SheetInfo, SheetInfoV};
use crate::xml::{attr_items, attr_value, get_attr, local_name, local_part, scan_xml, xml_events, xml_items, XmlAttr, XmlEvent, XmlItem};

verus! {

/// A single cell within a streaming row.
#[derive(Debug)]
pub struct StreamingCell {
    pub col: ColNum,
    pub value: CellValue,
    pub xf_index: u32,
}

/// A row yielded by the streaming reader.
#[derive(Debug)]
pub struct StreamingRow {
    pub row_index: RowNum,
    pub cells: Vec<StreamingCell>,
}

/// Sheet metadata discovered during open.
#[derive(Debug, Clone)]
pub struct StreamingSheetInfo {
    pub name: String,
    pub path: String,
}

/// The mathematical form of a [`StreamingCell`].
pub ghost struct CellEntryV {
    pub col: ColNum,
    pub value: CellV,
    pub xf_index: u32,
}

/// The mathematical form of a [`StreamingRow`].
pub ghost struct RowV {
    pub row_index: RowNum,
    pub cells: Seq<CellEntryV>,
}

/// The view of a streaming cell.
pub open spec fn cell_entry_view(c: StreamingCell) -> CellEntryV {
    CellEntryV { col: c.col, value: cell_view(c.value), xf_index: c.xf_index }
}

/// The views of a run of streaming cells.
pub open spec fn cell_entries(v: Seq<StreamingCell>) -> Seq<CellEntryV> {
    v.map_values(|c: StreamingCell| cell_entry_view(c))
}

/// The view of a streaming row.
pub open spec fn row_view(r: StreamingRow) -> RowV {
    RowV { row_index: r.row_index, cells: cell_entries(r.cells@) }
}

/// The views of a run of rows.
pub open spec fn row_views(v: Seq<StreamingRow>) -> Seq<RowV> {
    v.map_values(|r: StreamingRow| row_view(r))
}

/// Every formula's cached value in the rows is a plain value.
pub open spec fn rows_flat(v: Seq<StreamingRow>) -> bool {
    forall|i: int, j: int|
        0 <= i < v.len() && 0 <= j < v[i].cells@.len() ==> cell_flat(#[trigger] v[i].cells@[j].value)
}

/// Where the reader stands in a sheet part.
pub ghost struct RowScan {
    /// `<sheetData>` has been opened.
    pub found: bool,
    /// `</sheetData>` has been read: nothing after it counts.
    pub done: bool,
    pub rows: Seq<RowV>,
    pub cur_row: Option<RowNum>,
    pub cells: Seq<CellEntryV>,
    pub cell_pos: Option<(RowNum, ColNum)>,
    pub cell_type: Option<Seq<char>>,
    pub cell_style: u32,
    pub in_v: bool,
    pub in_f: bool,
    pub v_text: Seq<char>,
    pub f_text: Seq<char>,
}

/// The state before the first event.
pub open spec fn row_scan_start() -> RowScan {
    RowScan {
        found: false,
        done: false,
        rows: Seq::empty(),
        cur_row: None,
        cells: Seq::empty(),
        cell_pos: None,
        cell_type: None,
        cell_style: 0,
        in_v: false,
        in_f: false,
        v_text: Seq::empty(),
        f_text: Seq::empty(),
    }
}

/// The row being read is closed: it is kept when it has a number and cells, and the reader has
/// no current row. Cells read without a row number stay for the next row.
pub open spec fn flush_row(st: RowScan) -> RowScan {
    match st.cur_row {
        Some(r) => if st.cells.len() > 0 {
            RowScan {
                rows: st.rows.push(RowV { row_index: r, cells: st.cells }),
                cells: Seq::empty(),
                cur_row: None,
                ..st
            }
        } else {
            RowScan { cur_row: None, ..st }
        },
        None => st,
    }
}

/// The 0-based row an `r` attribute of a `<row>` gives (row 0 wraps to the largest row).
pub open spec fn row_number_of(attrs: Seq<(Seq<char>, Seq<char>)>) -> Option<RowNum> {
    match attr_value(attrs, "r"@) {
        Some(v) => match atoi_u32(encode_utf8(v)) {
            Some(n) => Some(if n == 0 { u32::MAX } else { (n - 1) as u32 }),
            None => None,
        },
        None => None,
    }
}

/// The position an `r` attribute of a `<c>` gives.
pub open spec fn cell_pos_of(attrs: Seq<(Seq<char>, Seq<char>)>) -> Option<(RowNum, ColNum)> {
    match attr_value(attrs, "r"@) {
        Some(v) => if cell_attr_col_fits(encode_utf8(v)) {
            spec_parse_cell_attr(encode_utf8(v))
        } else {
            None
        },
        None => None,
    }
}

/// The xf index an `s` attribute of a `<c>` gives (0 when absent or unreadable).
pub open spec fn cell_style_of(attrs: Seq<(Seq<char>, Seq<char>)>) -> u32 {
    match attr_value(attrs, "s"@) {
        Some(v) => match atoi_u32(encode_utf8(v)) {
            Some(n) => n,
            None => 0,
        },
        None => 0,
    }
}

/// A start tag inside `<sheetData>`.
pub open spec fn rows_start(st: RowScan, local: Seq<char>, attrs: Seq<(Seq<char>, Seq<char>)>) -> RowScan {
    if local == "row"@ {
        RowScan { cur_row: row_number_of(attrs), ..flush_row(st) }
    } else if local == "c"@ {
        RowScan {
            cell_pos: cell_pos_of(attrs),
            cell_type: attr_value(attrs, "t"@),
            cell_style: cell_style_of(attrs),
            v_text: Seq::empty(),
            f_text: Seq::empty(),
            ..st
        }
    } else if local == "v"@ {
        RowScan { in_v: true, v_text: Seq::empty(), ..st }
    } else if local == "f"@ {
        RowScan { in_f: true, f_text: Seq::empty(), ..st }
    } else {
        st
    }
}

/// The end of a `<c>`: a cell with a position is kept when it holds something, and gives the
/// row its number when the row had none.
pub open spec fn cell_end(st: RowScan, strings: Seq<Seq<char>>, styles: StylesV) -> RowScan {
    let st1 = match st.cell_pos {
        Some((row, col)) => {
            let cv = spec_resolve_cell(st.cell_type, st.v_text, st.f_text, st.cell_style as usize, strings, styles);
            let kept = !(cv.formula is None && cv.value is Empty);
            RowScan {
                cells: if kept {
                    st.cells.push(CellEntryV { col, value: cv, xf_index: st.cell_style })
                } else {
                    st.cells
                },
                cur_row: if st.cur_row is None { Some(row) } else { st.cur_row },
                ..st
            }
        },
        None => st,
    };
    RowScan { cell_pos: None, cell_type: None, ..st1 }
}

/// An end tag inside `<sheetData>`.
pub open spec fn rows_end(st: RowScan, local: Seq<char>, strings: Seq<Seq<char>>, styles: StylesV) -> RowScan {
    if local == "v"@ {
        RowScan { in_v: false, ..st }
    } else if local == "f"@ {
        RowScan { in_f: false, ..st }
    } else if local == "c"@ {
        cell_end(st, strings, styles)
    } else if local == "row"@ {
        flush_row(st)
    } else if local == "sheetData"@ {
        RowScan { done: true, ..st }
    } else {
        st
    }
}

/// How one event moves the reader.
pub open spec fn rows_step(st: RowScan, ev: XmlItem, strings: Seq<Seq<char>>, styles: StylesV) -> RowScan {
    if st.done {
        st
    } else if !st.found {
        match ev {
            XmlItem::Start { name, .. } => if local_part(name) == "sheetData"@ {
                RowScan { found: true, ..st }
            } else {
                st
            },
            _ => st,
        }
    } else {
        match ev {
            XmlItem::Start { name, attrs } => rows_start(st, local_part(name), attrs),
            XmlItem::Text(t) => if st.in_v {
                RowScan { v_text: st.v_text + t, ..st }
            } else if st.in_f {
                RowScan { f_text: st.f_text + t, ..st }
            } else {
                st
            },
            XmlItem::End { name } => rows_end(st, local_part(name), strings, styles),
            _ => st,
        }
    }
}

/// The reader's state after a run of events.
pub open spec fn rows_run(items: Seq<XmlItem>, strings: Seq<Seq<char>>, styles: StylesV) -> RowScan
    decreases items.len(),
{
    if items.len() == 0 {
        row_scan_start()
    } else {
        rows_step(rows_run(items.drop_last(), strings, styles), items.last(), strings, styles)
    }
}

/// The rows once reading has stopped: the last row is kept when it has a number and cells.
pub open spec fn rows_finish(st: RowScan) -> Seq<RowV> {
    match st.cur_row {
        Some(r) => if st.cells.len() > 0 {
            st.rows.push(RowV { row_index: r, cells: st.cells })
        } else {
            st.rows
        },
        None => st.rows,
    }
}

/// What `parse_sheet_rows_sax` gives: the rows of `<sheetData>`, each with the cells that hold a
/// value or a formula; nothing when the XML breaks before `</sheetData>` (or before the end,
/// when the part has no `<sheetData>`).
pub open spec fn spec_sheet_rows(data: Seq<u8>, strings: Seq<Seq<char>>, styles: StylesV) -> Option<Seq<RowV>> {
    let st = rows_run(xml_events(data).0, strings, styles);
    if xml_events(data).1 || st.done {
        Some(rows_finish(st))
    } else {
        None
    }
}

fn row_number(attrs: &[XmlAttr]) -> (res: Option<RowNum>)
    ensures
        res == row_number_of(attr_items(attrs@)),
{
    match get_attr(attrs, "r") {
        Some(v) => match atoi_parse_u32(v.as_str().as_bytes()) {
            Some(n) => Some(if n == 0 { u32::MAX } else { n - 1 }),
            None => None,
        },
        None => None,
    }
}

fn cell_pos(attrs: &[XmlAttr]) -> (res: Option<(RowNum, ColNum)>)
    ensures
        res == cell_pos_of(attr_items(attrs@)),
{
    match get_attr(attrs, "r") {
        Some(v) => parse_cell_attr_checked(v.as_str().as_bytes()),
        None => None,
    }
}

fn cell_style(attrs: &[XmlAttr]) -> (res: u32)
    ensures
        res == cell_style_of(attr_items(attrs@)),
{
    match get_attr(attrs, "s") {
        Some(v) => match atoi_parse_u32(v.as_str().as_bytes()) {
            Some(n) => n,
            None => 0,
        },
        None => 0,
    }
}

fn opt_text(o: Option<&String>) -> (res: Option<String>)
    ensures
        match res { Some(t) => Some(t@), None => None::<Seq<char>> } == match o {
            Some(t) => Some(t@),
            None => None::<Seq<char>>,
        },
{
    match o {
        Some(t) => Some(t.clone()),
        None => None,
    }
}

struct RowReader {
    found: bool,
    done: bool,
    rows: Vec<StreamingRow>,
    cur_row: Option<RowNum>,
    cells: Vec<StreamingCell>,
    cell_pos: Option<(RowNum, ColNum)>,
    cell_type: Option<String>,
    cell_style: u32,
    in_v: bool,
    in_f: bool,
    v_text: String,
    f_text: String,
}

impl RowReader {
    closed spec fn scan(&self) -> RowScan {
        RowScan {
            found: self.found,
            done: self.done,
            rows: row_views(self.rows@),
            cur_row: self.cur_row,
            cells: cell_entries(self.cells@),
            cell_pos: self.cell_pos,
            cell_type: match self.cell_type {
                Some(t) => Some(t@),
                None => None,
            },
            cell_style: self.cell_style,
            in_v: self.in_v,
            in_f: self.in_f,
            v_text: self.v_text@,
            f_text: self.f_text@,
        }
    }

    closed spec fn flat(&self) -> bool {
        &&& rows_flat(self.rows@)
        &&& forall|j: int| 0 <= j < self.cells@.len() ==> cell_flat(#[trigger] self.cells@[j].value)
    }

    fn new() -> (res: Self)
        ensures
            res.scan() == row_scan_start(),
            res.flat(),
    {
        let res = RowReader {
            found: false,
            done: false,
            rows: Vec::new(),
            cur_row: None,
            cells: Vec::new(),
            cell_pos: None,
            cell_type: None,
            cell_style: 0,
            in_v: false,
            in_f: false,
            v_text: String::new(),
            f_text: String::new(),
        };
        assert(row_views(res.rows@) =~= Seq::<RowV>::empty());
        assert(cell_entries(res.cells@) =~= Seq::<CellEntryV>::empty());
        res
    }

    fn flush(&mut self)
        requires
            old(self).flat(),
        ensures
            final(self).scan() == flush_row(old(self).scan()),
            final(self).flat(),
    {
        match self.cur_row {
            Some(r) => {
                if self.cells.len() > 0 {
                    let mut taken: Vec<StreamingCell> = Vec::new();
                    std::mem::swap(&mut taken, &mut self.cells);
                    let row = StreamingRow { row_index: r, cells: taken };
                    let ghost rv = row_view(row);
                    let ghost before = self.rows@;
                    self.rows.push(row);
                    assert(row_views(self.rows@) =~= row_views(before).push(rv));
                    assert(cell_entries(self.cells@) =~= Seq::<CellEntryV>::empty());
                    assert(rows_flat(self.rows@)) by {
                        assert forall|i: int, j: int|
                            0 <= i < self.rows@.len() && 0 <= j < self.rows@[i].cells@.len() implies cell_flat(
                            #[trigger] self.rows@[i].cells@[j].value,
                        ) by {
                            if i < before.len() {
                                assert(self.rows@[i] == before[i]);
                            }
                        }
                    }
                }
                self.cur_row = None;
            },
            None => {},
        }
    }

    fn cell_end(&mut self, sst: &SharedStringTable, styles: &ParsedStyles)
        requires
            old(self).flat(),
        ensures
            final(self).scan() == cell_end(old(self).scan(), sst.strings(), styles@),
            final(self).flat(),
    {
        match self.cell_pos {
            Some((row, col)) => {
                let value = resolve_cell_value(
                    &self.cell_type,
                    self.v_text.as_str(),
                    self.f_text.as_str(),
                    self.cell_style as usize,
                    sst,
                    styles,
                );
                proof {
                    reveal_strlit("");
                }
                if !value.is_empty() || !str_eq(self.f_text.as_str(), "") {
                    proof {
                        if self.f_text@.len() == 0 {
                            assert(self.f_text@ =~= ""@);
                        }
                    }
                    let c = StreamingCell { col, value, xf_index: self.cell_style };
                    let ghost cv = cell_entry_view(c);
                    let ghost before = self.cells@;
                    self.cells.push(c);
                    assert(cell_entries(self.cells@) =~= cell_entries(before).push(cv));
                    assert forall|j: int| 0 <= j < self.cells@.len() implies cell_flat(
                        #[trigger] self.cells@[j].value,
                    ) by {
                        if j < before.len() {
                            assert(self.cells@[j] == before[j]);
                        }
                    }
                } else {
                    proof {
                        if self.f_text@.len() != 0 {
                            assert(self.f_text@ != ""@);
                        }
                    }
                }
                if self.cur_row.is_none() {
                    self.cur_row = Some(row);
                }
            },
            None => {},
        }
        self.cell_pos = None;
        self.cell_type = None;
    }

    fn step(&mut self, ev: &XmlEvent, sst: &SharedStringTable, styles: &ParsedStyles)
        requires
            old(self).flat(),
        ensures
            final(self).scan() == rows_step(old(self).scan(), ev@, sst.strings(), styles@),
            final(self).flat(),
    {
        if self.done {
            return;
        }
        if !self.found {
            match ev {
                XmlEvent::Start { name, .. } => {
                    let local = local_name(name.as_str());
                    if str_eq(local.as_str(), "sheetData") {
                        self.found = true;
                    }
                },
                _ => {},
            }
            return;
        }
        match ev {
            XmlEvent::Start { name, attrs } => {
                let local = local_name(name.as_str());
                let l = local.as_str();
                if str_eq(l, "row") {
                    self.flush();
                    self.cur_row = row_number(attrs.as_slice());
                } else if str_eq(l, "c") {
                    self.cell_pos = cell_pos(attrs.as_slice());
                    self.cell_type = opt_text(get_attr(attrs.as_slice(), "t"));
                    self.cell_style = cell_style(attrs.as_slice());
                    self.v_text = String::new();
                    self.f_text = String::new();
                } else if str_eq(l, "v") {
                    self.in_v = true;
                    self.v_text = String::new();
                } else if str_eq(l, "f") {
                    self.in_f = true;
                    self.f_text = String::new();
                }
            },
            XmlEvent::Text(t) => {
                if self.in_v {
                    push_str(&mut self.v_text, t.as_str());
                } else if self.in_f {
                    push_str(&mut self.f_text, t.as_str());
                }
            },
            XmlEvent::End { name } => {
                let local = local_name(name.as_str());
                let l = local.as_str();
                if str_eq(l, "v") {
                    self.in_v = false;
                } else if str_eq(l, "f") {
                    self.in_f = false;
                } else if str_eq(l, "c") {
                    self.cell_end(sst, styles);
                } else if str_eq(l, "row") {
                    self.flush();
                } else if str_eq(l, "sheetData") {
                    self.done = true;
                }
            },
            _ => {},
        }
    }

    fn finish(self) -> (res: Vec<StreamingRow>)
        requires
            self.flat(),
        ensures
            row_views(res@) == rows_finish(self.scan()),
            rows_flat(res@),
    {
        let mut rows = self.rows;
        match self.cur_row {
            Some(r) => {
                if self.cells.len() > 0 {
                    let row = StreamingRow { row_index: r, cells: self.cells };
                    let ghost rv = row_view(row);
                    let ghost before = rows@;
                    rows.push(row);
                    assert(row_views(rows@) =~= row_views(before).push(rv));
                    assert forall|i: int, j: int|
                        0 <= i < rows@.len() && 0 <= j < rows@[i].cells@.len() implies cell_flat(
                        #[trigger] rows@[i].cells@[j].value,
                    ) by {
                        if i < before.len() {
                            assert(rows@[i] == before[i]);
                        }
                    }
                }
            },
            None => {},
        }
        rows
    }
}

/// Parse sheet XML into rows, reading only the `<sheetData>` section.
pub fn parse_sheet_rows_sax(data: &[u8], sst: &SharedStringTable, styles: &ParsedStyles) -> (res: Result<
    Vec<StreamingRow>,
    Error,
>)
    ensures
        match res {
            Ok(rows) => spec_sheet_rows(data@, sst.strings(), styles@) == Some(row_views(rows@)) && rows_flat(rows@),
            Err(e) => spec_sheet_rows(data@, sst.strings(), styles@) is None && e is Xml,
        },
{
    let scan = scan_xml(data);
    let ghost items = xml_items(scan.events@);
    let mut st = RowReader::new();
    let mut i: usize = 0;
    while i < scan.events.len()
        invariant
            0 <= i <= scan.events.len(),
            items == xml_items(scan.events@),
            st.flat(),
            st.scan() == rows_run(items.take(i as int), sst.strings(), styles@),
        decreases scan.events.len() - i,
    {
        assert(items.take(i + 1).drop_last() =~= items.take(i as int));
        assert(items.take(i + 1).last() == scan.events@[i as int]@);
        st.step(&scan.events[i], sst, styles);
        i += 1;
    }
    assert(items.take(scan.events.len() as int) =~= items);
    if !scan.complete && !st.done {
        return Err(Error::Xml(to_string("malformed sheet part")));
    }
    Ok(st.finish())
}

/// The rows of a sheet, handed out one at a time.
pub struct SheetRows {
    rows: Vec<StreamingRow>,
    pos: usize,
}

impl SheetRows {
    #[verifier::type_invariant]
    spec fn position_in_range(&self) -> bool {
        self.pos <= self.rows.len()
    }

    /// The rows not yet handed out.
    pub closed spec fn remaining(&self) -> Seq<RowV> {
        row_views(self.rows@).skip(self.pos as int)
    }

    /// All rows, handed out or not.
    pub closed spec fn all_rows(&self) -> Seq<RowV> {
        row_views(self.rows@)
    }

    /// Get the next row, or None if exhausted.
    pub fn next_row(&mut self) -> (res: Option<&StreamingRow>)
        ensures
            final(self).all_rows() == old(self).all_rows(),
            res is Some <==> old(self).remaining().len() > 0,
            res matches Some(r) ==> row_view(*r) == old(self).remaining()[0],
            res is Some ==> final(self).remaining() == old(self).remaining().drop_first(),
            res is None ==> final(self).remaining() == old(self).remaining(),
            final(self).remaining() == rows_after_calls(old(self).remaining(), 1),
            (match res {
                Some(r) => Some(row_view(*r)),
                None => None,
            }) == nth_call_result(old(self).remaining(), 0),
    {
        proof {
            use_type_invariant(&*self);
        }
        if self.pos < self.rows.len() {
            let p = self.pos;
            self.pos = p + 1;
            assert(row_views(self.rows@).skip(p + 1) =~= row_views(self.rows@).skip(p as int).drop_first());
            assert(row_views(self.rows@).skip(p as int)[0] == row_view(self.rows@[p as int]));
            Some(&self.rows[p])
        } else {
            None
        }
    }

    /// Consume and return all rows.
    pub fn into_rows(self) -> (res: Vec<StreamingRow>)
        ensures
            row_views(res@) == self.all_rows(),
    {
        self.rows
    }

    /// Number of rows parsed.
    pub fn row_count(&self) -> (res: usize)
        ensures
            res == self.all_rows().len(),
    {
        self.rows.len()
    }
}

/// The rows not yet handed out after `k` calls of [`SheetRows::next_row`], from `rem`: each
/// call takes the first row while there is one and changes nothing once none is left.
pub open spec fn rows_after_calls(rem: Seq<RowV>, k: nat) -> Seq<RowV>
    decreases k,
{
    if k == 0 {
        rem
    } else {
        let r = rows_after_calls(rem, (k - 1) as nat);
        if r.len() > 0 {
            r.drop_first()
        } else {
            r
        }
    }
}

/// What the call numbered `k` (from 0) of [`SheetRows::next_row`] gives, from rows `rem`.
pub open spec fn nth_call_result(rem: Seq<RowV>, k: nat) -> Option<RowV> {
    let r = rows_after_calls(rem, k);
    if r.len() > 0 {
        Some(r[0])
    } else {
        None
    }
}

/// Successive calls of `next_row` hand the rows out in order, one per call, and once they are
/// exhausted every further call gives nothing: call `k` gives row `k` while `k` is below the
/// number of rows, and `None` from there on.
pub proof fn lemma_next_row_in_order(rem: Seq<RowV>, k: nat)
    ensures
        rows_after_calls(rem, k) == rem.skip(if k <= rem.len() { k as int } else { rem.len() as int }),
        k < rem.len() ==> nth_call_result(rem, k) == Some(rem[k as int]),
        k >= rem.len() ==> nth_call_result(rem, k) is None,
    decreases k,
{
    if k > 0 {
        lemma_next_row_in_order(rem, (k - 1) as nat);
        let r = rows_after_calls(rem, (k - 1) as nat);
        if k - 1 < rem.len() {
            assert(r.drop_first() =~= rem.skip(k as int));
        } else {
            assert(r.len() == 0);
        }
    } else {
        assert(rem.skip(0) =~= rem);
    }
}

/// The rows of a sheet part, ready to be handed out from the first.
pub fn sheet_rows_from_xml(data: &[u8], sst: &SharedStringTable, styles: &ParsedStyles) -> (res: Result<
    SheetRows,
    Error,
>)
    ensures
        match res {
            Ok(r) => spec_sheet_rows(data@, sst.strings(), styles@) == Some(r.all_rows()) && r.remaining()
                == r.all_rows(),
            Err(e) => spec_sheet_rows(data@, sst.strings(), styles@) is None && e is Xml,
        },
{
    let rows = parse_sheet_rows_sax(data, sst, styles)?;
    let res = SheetRows { rows, pos: 0 };
    assert(res.remaining() =~= res.all_rows());
    Ok(res)
}

/// The sheets a workbook lists, with the package path of each, given its relationships part and
/// its workbook part (each when present). Fails when a present part is not well-formed XML.
pub fn parse_sheet_list(workbook_rels: Option<&[u8]>, workbook: Option<&[u8]>) -> (res: Result<
    Vec<StreamingSheetInfo>,
    Error,
>)
    ensures
        match res {
            Ok(v) => crate::xlsx_reader::parts_read(
                match workbook_rels { Some(r) => Some(r@), None => None },
                match workbook { Some(w) => Some(w@), None => None },
                None,
                None,
            ) && v@.map_values(|s: StreamingSheetInfo| (s.name@, s.path@)) == workbook_given(
                match workbook_rels { Some(r) => Some(r@), None => None },
                match workbook { Some(w) => Some(w@), None => None },
            ).sheets.map_values(|s: SheetInfoV| (s.name, s.path)),
            Err(e) => e is Xml && !crate::xlsx_reader::parts_read(
                match workbook_rels { Some(r) => Some(r@), None => None },
                match workbook { Some(w) => Some(w@), None => None },
                None,
                None,
            ),
        },
{
    let data = crate::xlsx_reader::read_xlsx_parts(workbook_rels, workbook, None, None, None)?;
    let mut out: Vec<StreamingSheetInfo> = Vec::new();
    let ghost target = data.sheets@.map_values(|s: SheetInfo| s@).map_values(|s: SheetInfoV| (s.name, s.path));
    let mut i: usize = 0;
    while i < data.sheets.len()
        invariant
            0 <= i <= data.sheets.len(),
            target == data.sheets@.map_values(|s: SheetInfo| s@).map_values(|s: SheetInfoV| (s.name, s.path)),
            out@.map_values(|s: StreamingSheetInfo| (s.name@, s.path@)) == target.take(i as int),
        decreases data.sheets.len() - i,
    {
        let info = StreamingSheetInfo { name: data.sheets[i].name.clone(), path: data.sheets[i].path.clone() };
        assert(target[i as int] == (data.sheets@[i as int].name@, data.sheets@[i as int].path@));
        assert(info.name@ == data.sheets@[i as int].name@ && info.path@ == data.sheets@[i as int].path@);
        let ghost before = out@;
        out.push(info);
        assert(out@.map_values(|s: StreamingSheetInfo| (s.name@, s.path@)) =~= before.map_values(
            |s: StreamingSheetInfo| (s.name@, s.path@),
        ).push((info.name@, info.path@)));
        assert(out@.map_values(|s: StreamingSheetInfo| (s.name@, s.path@)) =~= target.take(i + 1));
        i += 1;
    }
    assert(target.take(data.sheets.len() as int) =~= target);
    Ok(out)
}

} // verus!
