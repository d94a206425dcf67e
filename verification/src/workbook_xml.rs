//! Writing `xl/workbook.xml`: protection, the active tab, the sheet list, the defined names
//! (with the print areas and print titles of the sheets), the calculation settings and the pivot
//! caches.

use vstd::prelude::*;
use vstd::utf8::encode_utf8;

use crate::package_xml::sheet_namespaces;
use crate::protection::WorkbookProtection;
use crate::text::{ascii_case_eq, eq_ignore_ascii_case};
use crate::sheet_reader::{print_view, PrintSettings, PrintV};
use crate::text::{decimal_digits, push_decimal, push_str, to_string};
use crate::utility::{col_letters, col_to_letter};
use crate::workbook::{CalcMode, DefinedName, DefinedNameScope};
use crate::worksheet::SheetVisibility;
use crate::writer::{empty_markup, end_markup, pair_views, start_markup, text_markup, xml_declaration, XmlWriter};

verus! {

/// What writing `xl/workbook.xml` reads of one sheet.
pub struct SheetEntry {
    pub name: String,
    pub visibility: SheetVisibility,
    pub print_settings: Option<PrintSettings>,
    /// How many pivot tables the sheet holds.
    pub pivot_table_count: usize,
}

/// What writing `xl/workbook.xml` reads of a workbook.
pub struct WorkbookInfo {
    pub sheets: Vec<SheetEntry>,
    /// Workbook-wide names, used when there are no scoped names.
    pub defined_names: Vec<(String, String)>,
    pub scoped_defined_names: Vec<DefinedName>,
    pub workbook_protection: Option<WorkbookProtection>,
    pub calc_mode: Option<CalcMode>,
    pub active_sheet: Option<usize>,
    /// The paths of the parts carried through unchanged.
    pub passthrough_names: Vec<String>,
}

/// The mathematical form of a [`SheetEntry`].
pub ghost struct SheetEntryV {
    pub name: Seq<char>,
    pub visibility: SheetVisibility,
    pub print: Option<PrintV>,
    pub pivots: nat,
}

/// The view of a sheet entry.
pub open spec fn entry_view(e: SheetEntry) -> SheetEntryV {
    SheetEntryV {
        name: e.name@,
        visibility: e.visibility,
        print: match e.print_settings {
            Some(p) => Some(print_view(p)),
            None => None,
        },
        pivots: e.pivot_table_count as nat,
    }
}

/// The views of a list of sheet entries.
pub open spec fn entry_views(v: Seq<SheetEntry>) -> Seq<SheetEntryV> {
    v.map_values(|e: SheetEntry| entry_view(e))
}

/// `'name'!`, the sheet prefix of a reference.
pub open spec fn quoted_sheet(name: Seq<char>) -> Seq<char> {
    "'"@ + name + "'!"@
}

/// The formula of a print area (0-based corners).
pub open spec fn area_formula(name: Seq<char>, a: (u32, u16, u32, u16)) -> Seq<char> {
    quoted_sheet(name) + "$"@ + col_letters(a.1 as nat + 1) + "$"@ + decimal_digits(a.0 as nat + 1) + ":$"@
        + col_letters(a.3 as nat + 1) + "$"@ + decimal_digits(a.2 as nat + 1)
}

/// The formula of repeated rows (0-based).
pub open spec fn rows_formula(name: Seq<char>, r: (u32, u32)) -> Seq<char> {
    quoted_sheet(name) + "$"@ + decimal_digits(r.0 as nat + 1) + ":$"@ + decimal_digits(r.1 as nat + 1)
}

/// The formula of repeated columns (0-based).
pub open spec fn cols_formula(name: Seq<char>, c: (u16, u16)) -> Seq<char> {
    quoted_sheet(name) + "$"@ + col_letters(c.0 as nat + 1) + ":$"@ + col_letters(c.1 as nat + 1)
}

/// A defined name as written: name, formula, and the sheet it is local to.
pub type NameEntry = (Seq<char>, Seq<char>, Option<usize>);

/// The names a sheet's print settings add: its print area, then its print titles (columns
/// before rows when it has both).
pub open spec fn sheet_print_names(name: Seq<char>, i: usize, ps: PrintV) -> Seq<NameEntry> {
    (match ps.print_area {
        Some(a) => seq![("_xlnm.Print_Area"@, area_formula(name, a), Some(i))],
        None => Seq::empty(),
    }) + match ps.repeat_rows {
        Some(r) => match ps.repeat_cols {
            Some(c) => seq![("_xlnm.Print_Titles"@, cols_formula(name, c) + ","@ + rows_formula(name, r), Some(i))],
            None => seq![("_xlnm.Print_Titles"@, rows_formula(name, r), Some(i))],
        },
        None => match ps.repeat_cols {
            Some(c) => seq![("_xlnm.Print_Titles"@, cols_formula(name, c), Some(i))],
            None => Seq::empty(),
        },
    }
}

/// The names the sheets' print settings add, sheet by sheet.
pub open spec fn print_names(sheets: Seq<SheetEntryV>) -> Seq<NameEntry>
    decreases sheets.len(),
{
    if sheets.len() == 0 {
        Seq::empty()
    } else {
        print_names(sheets.drop_last()) + match sheets.last().print {
            Some(ps) => sheet_print_names(sheets.last().name, (sheets.len() - 1) as usize, ps),
            None => Seq::empty(),
        }
    }
}

/// The sheet a scoped name is local to.
pub open spec fn local_sheet(s: DefinedNameScope) -> Option<usize> {
    match s {
        DefinedNameScope::Workbook => None,
        DefinedNameScope::Sheet(i) => Some(i),
    }
}

/// The defined names written before those of the print settings: the scoped names when there
/// are any, else the workbook-wide names.
pub open spec fn base_names(scoped: Seq<DefinedName>, legacy: Seq<(String, String)>) -> Seq<NameEntry> {
    if scoped.len() > 0 {
        scoped.map_values(|d: DefinedName| (d.name@, d.formula@, local_sheet(d.scope)))
    } else {
        legacy.map_values(|p: (String, String)| (p.0@, p.1@, None::<usize>))
    }
}

/// The `<definedName>` elements of a list of names.
pub open spec fn name_elements(names: Seq<NameEntry>) -> Seq<char>
    decreases names.len(),
{
    if names.len() == 0 {
        Seq::empty()
    } else {
        let (n, f, local) = names.last();
        name_elements(names.drop_last()) + text_markup(
            "definedName"@,
            seq![("name"@, n)] + match local {
                Some(i) => seq![("localSheetId"@, decimal_digits(i as nat))],
                None => Seq::empty(),
            },
            f,
        )
    }
}

/// The `<definedNames>` element, present when there are names.
pub open spec fn defined_names_markup(names: Seq<NameEntry>) -> Seq<char> {
    if names.len() > 0 {
        start_markup("definedNames"@, Seq::empty()) + name_elements(names) + end_markup("definedNames"@)
    } else {
        Seq::empty()
    }
}

/// The `<workbookProtection>` element, present when the workbook is protected.
pub open spec fn protection_markup(p: Option<Option<Seq<char>>>) -> Seq<char> {
    match p {
        Some(hash) => empty_markup(
            "workbookProtection"@,
            seq![("lockStructure"@, "1"@)] + match hash {
                Some(h) => seq![("workbookPassword"@, h)],
                None => Seq::empty(),
            },
        ),
        None => Seq::empty(),
    }
}

/// The `<bookViews>` element, present when an active sheet is set.
pub open spec fn book_views_markup(active: Option<usize>) -> Seq<char> {
    match active {
        Some(i) => start_markup("bookViews"@, Seq::empty()) + empty_markup(
            "workbookView"@,
            seq![("activeTab"@, decimal_digits(i as nat))],
        ) + end_markup("bookViews"@),
        None => Seq::empty(),
    }
}

/// The state attribute of a hidden sheet.
pub open spec fn state_attr(v: SheetVisibility) -> Seq<(Seq<char>, Seq<char>)> {
    match v {
        SheetVisibility::Visible => Seq::empty(),
        SheetVisibility::Hidden => seq![("state"@, "hidden"@)],
        SheetVisibility::VeryHidden => seq![("state"@, "veryHidden"@)],
    }
}

/// The `<sheet>` elements, numbered from 1.
pub open spec fn sheet_elements(sheets: Seq<SheetEntryV>) -> Seq<char>
    decreases sheets.len(),
{
    if sheets.len() == 0 {
        Seq::empty()
    } else {
        let n = decimal_digits(sheets.len());
        sheet_elements(sheets.drop_last()) + empty_markup(
            "sheet"@,
            seq![("name"@, sheets.last().name), ("sheetId"@, n), ("r:id"@, "rId"@ + n)] + state_attr(
                sheets.last().visibility,
            ),
        )
    }
}

/// The calculation settings.
pub open spec fn calc_markup(mode: Option<CalcMode>) -> Seq<char> {
    match mode {
        Some(m) => empty_markup(
            "calcPr"@,
            seq![
                ("calcMode"@, match m {
                    CalcMode::Auto => "auto"@,
                    CalcMode::Manual => "manual"@,
                    CalcMode::AutoNoTable => "autoNoTable"@,
                }),
                ("fullCalcOnLoad"@, "1"@),
            ],
        ),
        None => empty_markup("calcPr"@, seq![("calcId"@, "0"@), ("fullCalcOnLoad"@, "1"@)]),
    }
}

/// How many pivot tables the sheets hold together.
pub open spec fn total_pivots(sheets: Seq<SheetEntryV>) -> nat
    decreases sheets.len(),
{
    if sheets.len() == 0 {
        0
    } else {
        total_pivots(sheets.drop_last()) + sheets.last().pivots
    }
}

/// Whether a VBA project is among the parts carried through.
pub open spec fn has_vba_part(names: Seq<Seq<char>>) -> bool {
    exists|i: int| 0 <= i < names.len() && eq_ignore_ascii_case(#[trigger] names[i], "xl/vbaProject.bin"@)
}

/// The `<pivotCache>` elements for caches `0..n`: cache `i` has id `first + i` and the
/// relationship of that number.
pub open spec fn pivot_cache_elements(first: nat, n: nat) -> Seq<char>
    decreases n,
{
    if n == 0 {
        Seq::empty()
    } else {
        let id = decimal_digits((first + n - 1) as nat);
        pivot_cache_elements(first, (n - 1) as nat) + empty_markup(
            "pivotCache"@,
            seq![("cacheId"@, id), ("r:id"@, "rId"@ + id)],
        )
    }
}

/// The `<pivotCaches>` element, present when any sheet has pivot tables. The first cache id
/// follows the sheets' relationships and those of styles, theme and shared strings (and of the
/// VBA project when there is one).
pub open spec fn pivot_caches_markup(sheets: Seq<SheetEntryV>, vba: bool) -> Seq<char> {
    let n = total_pivots(sheets);
    if n > 0 {
        start_markup("pivotCaches"@, Seq::empty()) + pivot_cache_elements(
            sheets.len() + 4 + if vba {
                1nat
            } else {
                0nat
            },
            n,
        ) + end_markup("pivotCaches"@)
    } else {
        Seq::empty()
    }
}

/// The mathematical form of a [`WorkbookInfo`].
pub ghost struct WorkbookInfoV {
    pub sheets: Seq<SheetEntryV>,
    pub names: Seq<NameEntry>,
    pub protection: Option<Option<Seq<char>>>,
    pub calc_mode: Option<CalcMode>,
    pub active_sheet: Option<usize>,
    pub passthrough: Seq<Seq<char>>,
}

/// The view of a workbook's information; `names` are the defined names before the print
/// settings' names.
pub open spec fn info_view(w: WorkbookInfo) -> WorkbookInfoV {
    WorkbookInfoV {
        sheets: entry_views(w.sheets@),
        names: base_names(w.scoped_defined_names@, w.defined_names@),
        protection: match w.workbook_protection {
            Some(p) => Some(
                match p.password_hash {
                    Some(h) => Some(h@),
                    None => None,
                },
            ),
            None => None,
        },
        calc_mode: w.calc_mode,
        active_sheet: w.active_sheet,
        passthrough: w.passthrough_names@.map_values(|s: String| s@),
    }
}

/// The text of `xl/workbook.xml`.
pub open spec fn workbook_xml_text(v: WorkbookInfoV) -> Seq<char> {
    xml_declaration() + start_markup("workbook"@, sheet_namespaces()) + protection_markup(v.protection)
        + book_views_markup(v.active_sheet) + start_markup("sheets"@, Seq::empty()) + sheet_elements(v.sheets)
        + end_markup("sheets"@) + defined_names_markup(v.names + print_names(v.sheets)) + calc_markup(v.calc_mode)
        + pivot_caches_markup(v.sheets, has_vba_part(v.passthrough)) + end_markup("workbook"@)
}

/// Whether every row of the sheets' print areas and titles can be written one-based.
pub open spec fn print_rows_fit(sheets: Seq<SheetEntryV>) -> bool {
    forall|i: int|
        0 <= i < sheets.len() ==> match #[trigger] sheets[i].print {
            Some(ps) => (match ps.print_area {
                Some(a) => a.0 < u32::MAX && a.2 < u32::MAX,
                None => true,
            }) && (match ps.repeat_rows {
                Some(r) => r.0 < u32::MAX && r.1 < u32::MAX,
                None => true,
            }),
            None => true,
        }
}

/// The views of a list of name entries.
pub open spec fn name_views(v: Seq<(String, String, Option<usize>)>) -> Seq<NameEntry> {
    v.map_values(|e: (String, String, Option<usize>)| (e.0@, e.1@, e.2))
}

fn no_attrs() -> (res: [(&'static str, &'static str); 0])
    ensures
        pair_views(res@) == Seq::<(Seq<char>, Seq<char>)>::empty(),
{
    let no: [(&str, &str); 0] = [];
    assert(pair_views(no@) =~= Seq::<(Seq<char>, Seq<char>)>::empty());
    no
}

fn put_protection(w: &mut XmlWriter, p: &Option<WorkbookProtection>)
    ensures
        final(w)@ == old(w)@ + protection_markup(
            match *p {
                Some(q) => Some(
                    match q.password_hash {
                        Some(h) => Some(h@),
                        None => None,
                    },
                ),
                None => None,
            },
        ),
{
    match p {
        Some(prot) => match &prot.password_hash {
            Some(hash) => {
                let a = [("lockStructure", "1"), ("workbookPassword", hash.as_str())];
                w.empty_tag("workbookProtection", &a);
                assert(pair_views(a@) =~= seq![("lockStructure"@, "1"@)] + seq![("workbookPassword"@, hash@)]);
            },
            None => {
                let a = [("lockStructure", "1")];
                w.empty_tag("workbookProtection", &a);
                assert(pair_views(a@) =~= seq![("lockStructure"@, "1"@)] + Seq::empty());
            },
        },
        None => {
            assert(old(w)@ + Seq::<char>::empty() =~= old(w)@);
        },
    }
}

fn decimal_string(n: u64) -> (res: String)
    ensures
        res@ == decimal_digits(n as nat),
{
    let mut s = String::new();
    push_decimal(&mut s, n);
    assert(s@ =~= decimal_digits(n as nat));
    s
}

fn put_book_views(w: &mut XmlWriter, active: Option<usize>)
    ensures
        final(w)@ == old(w)@ + book_views_markup(active),
{
    match active {
        Some(idx) => {
            let no = no_attrs();
            w.start_tag("bookViews", &no);
            let t = decimal_string(idx as u64);
            let a = [("activeTab", t.as_str())];
            w.empty_tag("workbookView", &a);
            assert(pair_views(a@) =~= seq![("activeTab"@, decimal_digits(idx as nat))]);
            w.end_tag("bookViews");
            assert(w@ =~= old(w)@ + book_views_markup(active));
        },
        None => {
            assert(old(w)@ + Seq::<char>::empty() =~= old(w)@);
        },
    }
}

fn put_sheets(w: &mut XmlWriter, sheets: &Vec<SheetEntry>)
    ensures
        final(w)@ == old(w)@ + start_markup("sheets"@, Seq::empty()) + sheet_elements(entry_views(sheets@))
            + end_markup("sheets"@),
{
    let ghost ev = entry_views(sheets@);
    let no = no_attrs();
    w.start_tag("sheets", &no);
    let ghost start = w@;
    let mut i: usize = 0;
    while i < sheets.len()
        invariant
            0 <= i <= sheets.len(),
            ev == entry_views(sheets@),
            w@ == start + sheet_elements(ev.take(i as int)),
        decreases sheets.len() - i,
    {
        let e = &sheets[i];
        assert(ev[i as int] == entry_view(*e));
        let id = decimal_string(i as u64 + 1);
        let mut rid = to_string("rId");
        push_str(&mut rid, id.as_str());
        let ghost base = seq![("name"@, e.name@), ("sheetId"@, id@), ("r:id"@, rid@)];
        match e.visibility {
            SheetVisibility::Hidden => {
                let a = [("name", e.name.as_str()), ("sheetId", id.as_str()), ("r:id", rid.as_str()), ("state", "hidden")];
                w.empty_tag("sheet", &a);
                assert(pair_views(a@) =~= base + state_attr(e.visibility));
            },
            SheetVisibility::VeryHidden => {
                let a = [
                    ("name", e.name.as_str()),
                    ("sheetId", id.as_str()),
                    ("r:id", rid.as_str()),
                    ("state", "veryHidden"),
                ];
                w.empty_tag("sheet", &a);
                assert(pair_views(a@) =~= base + state_attr(e.visibility));
            },
            SheetVisibility::Visible => {
                let a = [("name", e.name.as_str()), ("sheetId", id.as_str()), ("r:id", rid.as_str())];
                w.empty_tag("sheet", &a);
                assert(pair_views(a@) =~= base + state_attr(e.visibility));
            },
        }
        assert(ev.take(i + 1).drop_last() =~= ev.take(i as int));
        assert(ev.take(i + 1).last() == ev[i as int]);
        assert(ev.take(i + 1).len() == i + 1);
        i += 1;
        assert(w@ =~= start + sheet_elements(ev.take(i as int)));
    }
    assert(ev.take(sheets.len() as int) =~= ev);
    w.end_tag("sheets");
}

fn sheet_prefix(name: &str) -> (res: String)
    ensures
        res@ == quoted_sheet(name@),
{
    let mut s = to_string("'");
    push_str(&mut s, name);
    push_str(&mut s, "'!");
    s
}

fn area_formula_text(name: &str, a: (u32, u16, u32, u16)) -> (res: String)
    ensures
        res@ == area_formula(name@, a),
{
    let mut s = sheet_prefix(name);
    push_str(&mut s, "$");
    let c1 = col_to_letter(a.1);
    push_str(&mut s, c1.as_str());
    push_str(&mut s, "$");
    push_decimal(&mut s, a.0 as u64 + 1);
    push_str(&mut s, ":$");
    let c2 = col_to_letter(a.3);
    push_str(&mut s, c2.as_str());
    push_str(&mut s, "$");
    push_decimal(&mut s, a.2 as u64 + 1);
    assert(s@ =~= area_formula(name@, a));
    s
}

fn rows_formula_text(name: &str, r: (u32, u32)) -> (res: String)
    ensures
        res@ == rows_formula(name@, r),
{
    let mut s = sheet_prefix(name);
    push_str(&mut s, "$");
    push_decimal(&mut s, r.0 as u64 + 1);
    push_str(&mut s, ":$");
    push_decimal(&mut s, r.1 as u64 + 1);
    assert(s@ =~= rows_formula(name@, r));
    s
}

fn cols_formula_text(name: &str, c: (u16, u16)) -> (res: String)
    ensures
        res@ == cols_formula(name@, c),
{
    let mut s = sheet_prefix(name);
    push_str(&mut s, "$");
    let c1 = col_to_letter(c.0);
    push_str(&mut s, c1.as_str());
    push_str(&mut s, ":$");
    let c2 = col_to_letter(c.1);
    push_str(&mut s, c2.as_str());
    assert(s@ =~= cols_formula(name@, c));
    s
}

fn push_print_names(out: &mut Vec<(String, String, Option<usize>)>, name: &str, i: usize, ps: &PrintSettings)
    ensures
        name_views(final(out)@) == name_views(old(out)@) + sheet_print_names(name@, i, print_view(*ps)),
{
    let ghost start = name_views(out@);
    match ps.print_area {
        Some(a) => {
            let f = area_formula_text(name, a);
            out.push((to_string("_xlnm.Print_Area"), f, Some(i)));
        },
        None => {},
    }
    let ghost mid = name_views(out@);
    assert(mid =~= start + match print_view(*ps).print_area {
        Some(a) => seq![("_xlnm.Print_Area"@, area_formula(name@, a), Some(i))],
        None => Seq::<NameEntry>::empty(),
    });
    match ps.repeat_rows {
        Some(r) => {
            let row_part = rows_formula_text(name, r);
            match ps.repeat_cols {
                Some(c) => {
                    let mut f = cols_formula_text(name, c);
                    push_str(&mut f, ",");
                    push_str(&mut f, row_part.as_str());
                    out.push((to_string("_xlnm.Print_Titles"), f, Some(i)));
                },
                None => {
                    out.push((to_string("_xlnm.Print_Titles"), row_part, Some(i)));
                },
            }
        },
        None => match ps.repeat_cols {
            Some(c) => {
                let f = cols_formula_text(name, c);
                out.push((to_string("_xlnm.Print_Titles"), f, Some(i)));
            },
            None => {},
        },
    }
    assert(name_views(out@) =~= start + sheet_print_names(name@, i, print_view(*ps)));
}

fn collect_names(info: &WorkbookInfo) -> (res: Vec<(String, String, Option<usize>)>)
    ensures
        name_views(res@) == info_view(*info).names + print_names(info_view(*info).sheets),
{
    let mut out: Vec<(String, String, Option<usize>)> = Vec::new();
    let ghost scoped = info.scoped_defined_names@;
    let ghost legacy = info.defined_names@;
    if info.scoped_defined_names.len() > 0 {
        let mut k: usize = 0;
        while k < info.scoped_defined_names.len()
            invariant
                0 <= k <= info.scoped_defined_names.len(),
                scoped == info.scoped_defined_names@,
                name_views(out@) == scoped.map_values(
                    |d: DefinedName| (d.name@, d.formula@, local_sheet(d.scope)),
                ).take(k as int),
            decreases info.scoped_defined_names.len() - k,
        {
            let dn = &info.scoped_defined_names[k];
            let local = match dn.scope {
                DefinedNameScope::Workbook => None,
                DefinedNameScope::Sheet(idx) => Some(idx),
            };
            let ghost before = name_views(out@);
            out.push((to_string(dn.name.as_str()), to_string(dn.formula.as_str()), local));
            assert(name_views(out@) =~= before.push((dn.name@, dn.formula@, local_sheet(dn.scope))));
            assert(scoped.map_values(|d: DefinedName| (d.name@, d.formula@, local_sheet(d.scope))).take(k + 1)
                =~= scoped.map_values(|d: DefinedName| (d.name@, d.formula@, local_sheet(d.scope))).take(
                k as int,
            ).push((dn.name@, dn.formula@, local_sheet(dn.scope))));
            k += 1;
        }
        assert(scoped.map_values(|d: DefinedName| (d.name@, d.formula@, local_sheet(d.scope))).take(
            scoped.len() as int,
        ) =~= scoped.map_values(|d: DefinedName| (d.name@, d.formula@, local_sheet(d.scope))));
    } else {
        let mut k: usize = 0;
        while k < info.defined_names.len()
            invariant
                0 <= k <= info.defined_names.len(),
                legacy == info.defined_names@,
                name_views(out@) == legacy.map_values(|p: (String, String)| (p.0@, p.1@, None::<usize>)).take(
                    k as int,
                ),
            decreases info.defined_names.len() - k,
        {
            let (n, f) = &info.defined_names[k];
            let ghost before = name_views(out@);
            out.push((to_string(n.as_str()), to_string(f.as_str()), None));
            assert(name_views(out@) =~= before.push((n@, f@, None::<usize>)));
            assert(legacy.map_values(|p: (String, String)| (p.0@, p.1@, None::<usize>)).take(k + 1)
                =~= legacy.map_values(|p: (String, String)| (p.0@, p.1@, None::<usize>)).take(k as int).push(
                (n@, f@, None::<usize>),
            ));
            k += 1;
        }
        assert(legacy.map_values(|p: (String, String)| (p.0@, p.1@, None::<usize>)).take(legacy.len() as int)
            =~= legacy.map_values(|p: (String, String)| (p.0@, p.1@, None::<usize>)));
    }
    let ghost base = name_views(out@);
    let ghost ev = entry_views(info.sheets@);
    let mut i: usize = 0;
    while i < info.sheets.len()
        invariant
            0 <= i <= info.sheets.len(),
            ev == entry_views(info.sheets@),
            name_views(out@) == base + print_names(ev.take(i as int)),
        decreases info.sheets.len() - i,
    {
        let e = &info.sheets[i];
        assert(ev[i as int] == entry_view(*e));
        assert(ev.take(i + 1).drop_last() =~= ev.take(i as int));
        assert(ev.take(i + 1).last() == ev[i as int]);
        assert(ev.take(i + 1).len() == i + 1);
        let ghost before = name_views(out@);
        match &e.print_settings {
            Some(ps) => {
                push_print_names(&mut out, e.name.as_str(), i, ps);
            },
            None => {
                assert(before + Seq::<NameEntry>::empty() =~= before);
            },
        }
        i += 1;
        assert(name_views(out@) =~= base + print_names(ev.take(i as int)));
    }
    assert(ev.take(info.sheets.len() as int) =~= ev);
    out
}

fn put_defined_names(w: &mut XmlWriter, names: &Vec<(String, String, Option<usize>)>)
    ensures
        final(w)@ == old(w)@ + defined_names_markup(name_views(names@)),
{
    let ghost nv = name_views(names@);
    if names.len() == 0 {
        assert(old(w)@ + Seq::<char>::empty() =~= old(w)@);
        return;
    }
    let no = no_attrs();
    w.start_tag("definedNames", &no);
    let ghost start = w@;
    let mut i: usize = 0;
    while i < names.len()
        invariant
            0 <= i <= names.len(),
            nv == name_views(names@),
            w@ == start + name_elements(nv.take(i as int)),
        decreases names.len() - i,
    {
        let (n, f, local) = &names[i];
        assert(nv[i as int] == (n@, f@, *local));
        match local {
            Some(idx) => {
                let ids = decimal_string(*idx as u64);
                let a = [("name", n.as_str()), ("localSheetId", ids.as_str())];
                w.text_element("definedName", &a, f.as_str());
                assert(pair_views(a@) =~= seq![("name"@, n@)] + seq![("localSheetId"@, decimal_digits(*idx as nat))]);
            },
            None => {
                let a = [("name", n.as_str())];
                w.text_element("definedName", &a, f.as_str());
                assert(pair_views(a@) =~= seq![("name"@, n@)] + Seq::empty());
            },
        }
        assert(nv.take(i + 1).drop_last() =~= nv.take(i as int));
        assert(nv.take(i + 1).last() == nv[i as int]);
        i += 1;
        assert(w@ =~= start + name_elements(nv.take(i as int)));
    }
    assert(nv.take(names.len() as int) =~= nv);
    w.end_tag("definedNames");
}

fn put_calc(w: &mut XmlWriter, mode: Option<CalcMode>)
    ensures
        final(w)@ == old(w)@ + calc_markup(mode),
{
    match mode {
        Some(m) => {
            let v = match m {
                CalcMode::Auto => "auto",
                CalcMode::Manual => "manual",
                CalcMode::AutoNoTable => "autoNoTable",
            };
            let a = [("calcMode", v), ("fullCalcOnLoad", "1")];
            w.empty_tag("calcPr", &a);
            assert(pair_views(a@) =~= seq![
                ("calcMode"@, match m {
                    CalcMode::Auto => "auto"@,
                    CalcMode::Manual => "manual"@,
                    CalcMode::AutoNoTable => "autoNoTable"@,
                }),
                ("fullCalcOnLoad"@, "1"@),
            ]);
        },
        None => {
            let a = [("calcId", "0"), ("fullCalcOnLoad", "1")];
            w.empty_tag("calcPr", &a);
            assert(pair_views(a@) =~= seq![("calcId"@, "0"@), ("fullCalcOnLoad"@, "1"@)]);
        },
    }
}

fn count_pivots(sheets: &Vec<SheetEntry>) -> (res: usize)
    requires
        total_pivots(entry_views(sheets@)) <= usize::MAX,
    ensures
        res == total_pivots(entry_views(sheets@)),
{
    let ghost ev = entry_views(sheets@);
    let mut total: usize = 0;
    let mut i: usize = 0;
    while i < sheets.len()
        invariant
            0 <= i <= sheets.len(),
            ev == entry_views(sheets@),
            total_pivots(ev) <= usize::MAX,
            total == total_pivots(ev.take(i as int)),
        decreases sheets.len() - i,
    {
        assert(ev.take(i + 1).drop_last() =~= ev.take(i as int));
        assert(ev.take(i + 1).last() == ev[i as int]);
        proof {
            lemma_total_pivots_prefix(ev, i + 1);
        }
        total = total + sheets[i].pivot_table_count;
        i += 1;
    }
    assert(ev.take(sheets.len() as int) =~= ev);
    total
}

proof fn lemma_total_pivots_prefix(s: Seq<SheetEntryV>, k: int)
    requires
        0 <= k <= s.len(),
    ensures
        total_pivots(s.take(k)) <= total_pivots(s),
    decreases s.len() - k,
{
    if k < s.len() {
        lemma_total_pivots_prefix(s, k + 1);
        assert(s.take(k + 1).drop_last() =~= s.take(k));
    } else {
        assert(s.take(k) =~= s);
    }
}

fn has_vba(names: &Vec<String>) -> (res: bool)
    ensures
        res == has_vba_part(names@.map_values(|s: String| s@)),
{
    let ghost nv = names@.map_values(|s: String| s@);
    let mut i: usize = 0;
    while i < names.len()
        invariant
            0 <= i <= names.len(),
            nv == names@.map_values(|s: String| s@),
            forall|k: int| 0 <= k < i ==> !eq_ignore_ascii_case(#[trigger] nv[k], "xl/vbaProject.bin"@),
        decreases names.len() - i,
    {
        if ascii_case_eq(names[i].as_str(), "xl/vbaProject.bin") {
            assert(eq_ignore_ascii_case(nv[i as int], "xl/vbaProject.bin"@));
            return true;
        }
        i += 1;
    }
    false
}

fn put_pivot_caches(w: &mut XmlWriter, sheets: &Vec<SheetEntry>, passthrough: &Vec<String>)
    requires
        total_pivots(entry_views(sheets@)) + sheets@.len() + 5 <= usize::MAX,
    ensures
        final(w)@ == old(w)@ + pivot_caches_markup(
            entry_views(sheets@),
            has_vba_part(passthrough@.map_values(|s: String| s@)),
        ),
{
    let ghost ev = entry_views(sheets@);
    let count = count_pivots(sheets);
    if count == 0 {
        assert(old(w)@ + Seq::<char>::empty() =~= old(w)@);
        return;
    }
    let vba = has_vba(passthrough);
    let first: usize = sheets.len() + 4 + if vba { 1 } else { 0 };
    let no = no_attrs();
    w.start_tag("pivotCaches", &no);
    let ghost start = w@;
    let mut i: usize = 0;
    while i < count
        invariant
            0 <= i <= count,
            count + sheets@.len() + 5 <= usize::MAX,
            first == sheets@.len() + 4 + if vba { 1nat } else { 0nat },
            w@ == start + pivot_cache_elements(first as nat, i as nat),
        decreases count - i,
    {
        let id = decimal_string((first + i) as u64);
        let mut rid = to_string("rId");
        push_str(&mut rid, id.as_str());
        let a = [("cacheId", id.as_str()), ("r:id", rid.as_str())];
        w.empty_tag("pivotCache", &a);
        assert(pair_views(a@) =~= seq![("cacheId"@, id@), ("r:id"@, "rId"@ + id@)]);
        i += 1;
        assert(w@ =~= start + pivot_cache_elements(first as nat, i as nat));
    }
    w.end_tag("pivotCaches");
    assert(ev.len() == sheets@.len());
}

impl WorkbookInfo {
    /// Writes `xl/workbook.xml`: protection when set, the active tab when set, each sheet with
    /// its id, relationship and state, the defined names followed by each sheet's print area
    /// and print titles, the calculation settings, and a pivot cache per pivot table.
    pub fn write_workbook_xml(&self) -> (res: Vec<u8>)
        requires
            print_rows_fit(entry_views(self.sheets@)),
            total_pivots(entry_views(self.sheets@)) + self.sheets@.len() + 5 <= usize::MAX,
        ensures
            res@ == encode_utf8(workbook_xml_text(info_view(*self))),
    {
        let ghost v = info_view(*self);
        let mut w = XmlWriter::new();
        w.declaration();
        let ns = [
            ("xmlns", "http://schemas.openxmlformats.org/spreadsheetml/2006/main"),
            ("xmlns:r", "http://schemas.openxmlformats.org/officeDocument/2006/relationships"),
        ];
        w.start_tag("workbook", &ns);
        assert(pair_views(ns@) =~= sheet_namespaces());
        put_protection(&mut w, &self.workbook_protection);
        put_book_views(&mut w, self.active_sheet);
        put_sheets(&mut w, &self.sheets);
        let names = collect_names(self);
        put_defined_names(&mut w, &names);
        put_calc(&mut w, self.calc_mode);
        put_pivot_caches(&mut w, &self.sheets, &self.passthrough_names);
        w.end_tag("workbook");
        assert(w@ =~= workbook_xml_text(v));
        w.into_bytes()
    }
}

} // verus!
