//! Reading a workbook's top-level parts: the sheet list and defined names of `xl/workbook.xml`
//! (resolved through `xl/_rels/workbook.xml.rels`), the shared strings, the styles and the core
//! properties.

use vstd::prelude::*;

use crate::error::Error;
use crate::properties::{empty_props, parse_core_xml, spec_parse_core_xml, DocProperties, PropsView};
use crate::rels::{attr_or_empty, normalize_sheet_path, parse_rels, rel_views, spec_normalize_sheet_path, spec_parse_rels, Rel, RelView};
use crate::shared_strings::SharedStringTable;
use crate::sst_parser::{parse_sst, spec_parse_sst};
use crate::style_parser::{ParsedStyles, StylesV};
use crate::style_sheet::{parse_styles, spec_parse_styles};
use crate::numbers::{parse_unsigned, std_parse_unsigned};
use crate::text::{push_str, str_eq, to_string};
use crate::workbook::{DefinedName, DefinedNameScope};
use crate::xml::{attr_items, attr_value, get_attr, local_name, local_part, scan_xml, xml_events, xml_items, XmlAttr, XmlEvent, XmlItem};

verus! {

/// A sheet listed by the workbook part.
pub struct SheetInfo {
    pub name: String,
    pub path: String,
    /// 0 = visible, 1 = hidden, 2 = very hidden.
    pub visibility: u8,
}

/// The mathematical form of a [`SheetInfo`].
pub ghost struct SheetInfoV {
    pub name: Seq<char>,
    pub path: Seq<char>,
    pub visibility: u8,
}

impl View for SheetInfo {
    type V = SheetInfoV;

    open spec fn view(&self) -> SheetInfoV {
        SheetInfoV { name: self.name@, path: self.path@, visibility: self.visibility }
    }
}

/// The mathematical form of a [`DefinedName`].
pub ghost struct DefinedNameV {
    pub name: Seq<char>,
    pub formula: Seq<char>,
    pub scope: DefinedNameScope,
}

/// The view of a defined name.
pub open spec fn defined_name_view(d: DefinedName) -> DefinedNameV {
    DefinedNameV { name: d.name@, formula: d.formula@, scope: d.scope }
}

/// Everything read from a workbook's top-level parts.
pub struct XlsxData {
    pub sheets: Vec<SheetInfo>,
    pub sst: SharedStringTable,
    pub styles: ParsedStyles,
    pub is_1904: bool,
    pub defined_names: Vec<(String, String)>,
    pub scoped_defined_names: Vec<DefinedName>,
    pub properties: DocProperties,
}

/// The target of the last relationship with the given id (a map built from the relationships in
/// order keeps the last one).
pub open spec fn last_target(rels: Seq<RelView>, id: Seq<char>) -> Option<Seq<char>>
    decreases rels.len(),
{
    if rels.len() == 0 {
        None
    } else if rels.last().id == id {
        Some(rels.last().target)
    } else {
        last_target(rels.drop_last(), id)
    }
}

/// The visibility a `state` attribute gives.
pub open spec fn visibility_of(attrs: Seq<(Seq<char>, Seq<char>)>) -> u8 {
    match attr_value(attrs, "state"@) {
        Some(v) => if v == "hidden"@ {
            1
        } else if v == "veryHidden"@ {
            2
        } else {
            0
        },
        None => 0,
    }
}

/// Where the reader stands in a workbook part.
pub ghost struct WorkbookScan {
    pub sheets: Seq<SheetInfoV>,
    pub is_1904: bool,
    pub names: Seq<(Seq<char>, Seq<char>)>,
    pub scoped: Seq<DefinedNameV>,
    pub in_name: bool,
    pub name: Seq<char>,
    pub value: Seq<char>,
    pub local_sheet: Option<usize>,
}

/// The state before the first event.
pub open spec fn workbook_scan_start() -> WorkbookScan {
    WorkbookScan {
        sheets: Seq::empty(),
        is_1904: false,
        names: Seq::empty(),
        scoped: Seq::empty(),
        in_name: false,
        name: Seq::empty(),
        value: Seq::empty(),
        local_sheet: None,
    }
}

/// The sheet index a `localSheetId` attribute gives.
pub open spec fn local_sheet_of(attrs: Seq<(Seq<char>, Seq<char>)>) -> Option<usize> {
    match attr_value(attrs, "localSheetId"@) {
        Some(v) => match std_parse_unsigned(v, usize::MAX as int) {
            Some(n) => Some(n as usize),
            None => None,
        },
        None => None,
    }
}

/// A start tag in a workbook part, given the workbook's relationships.
pub open spec fn workbook_start(
    rels: Seq<RelView>,
    st: WorkbookScan,
    local: Seq<char>,
    attrs: Seq<(Seq<char>, Seq<char>)>,
) -> WorkbookScan {
    if local == "workbookPr"@ {
        match attr_value(attrs, "date1904"@) {
            Some(v) => WorkbookScan { is_1904: v == "1"@ || v == "true"@, ..st },
            None => st,
        }
    } else if local == "sheet"@ {
        match last_target(rels, attr_or_empty(attrs, "r:id"@)) {
            Some(t) => WorkbookScan {
                sheets: st.sheets.push(
                    SheetInfoV {
                        name: attr_or_empty(attrs, "name"@),
                        path: spec_normalize_sheet_path(t),
                        visibility: visibility_of(attrs),
                    },
                ),
                ..st
            },
            None => st,
        }
    } else if local == "definedName"@ {
        WorkbookScan {
            name: attr_or_empty(attrs, "name"@),
            local_sheet: local_sheet_of(attrs),
            value: Seq::empty(),
            in_name: true,
            ..st
        }
    } else {
        st
    }
}

/// The end of a `<definedName>`: the name is kept when it has one.
pub open spec fn workbook_name_end(st: WorkbookScan) -> WorkbookScan {
    let kept = if st.name.len() > 0 {
        WorkbookScan {
            names: st.names.push((st.name, st.value)),
            scoped: st.scoped.push(
                DefinedNameV {
                    name: st.name,
                    formula: st.value,
                    scope: match st.local_sheet {
                        Some(i) => DefinedNameScope::Sheet(i),
                        None => DefinedNameScope::Workbook,
                    },
                },
            ),
            ..st
        }
    } else {
        st
    };
    WorkbookScan { in_name: false, local_sheet: None, ..kept }
}

/// How one event moves the reader, given the workbook's relationships: a `<sheet>` whose
/// relationship exists adds a sheet, a `<definedName>` collects its text until it closes and is
/// then kept when it has a name, and `<workbookPr date1904>` sets the date system.
pub open spec fn workbook_step(rels: Seq<RelView>, st: WorkbookScan, ev: XmlItem) -> WorkbookScan {
    match ev {
        XmlItem::Start { name, attrs } => workbook_start(rels, st, local_part(name), attrs),
        XmlItem::Text(t) => if st.in_name {
            WorkbookScan { value: st.value + t, ..st }
        } else {
            st
        },
        XmlItem::End { name } => if local_part(name) == "definedName"@ {
            workbook_name_end(st)
        } else {
            st
        },
        _ => st,
    }
}

/// The reader's state after a run of events.
pub open spec fn workbook_run(rels: Seq<RelView>, items: Seq<XmlItem>) -> WorkbookScan
    decreases items.len(),
{
    if items.len() == 0 {
        workbook_scan_start()
    } else {
        workbook_step(rels, workbook_run(rels, items.drop_last()), items.last())
    }
}

/// The workbook relationships that a present part gives (none when absent).
pub open spec fn rels_given(rels: Option<Seq<u8>>) -> Seq<RelView> {
    match rels {
        Some(r) => match spec_parse_rels(r) {
            Some(v) => v,
            None => Seq::empty(),
        },
        None => Seq::empty(),
    }
}

/// What the workbook part gives (nothing read when it is absent).
pub open spec fn workbook_given(rels: Option<Seq<u8>>, wb: Option<Seq<u8>>) -> WorkbookScan {
    match wb {
        Some(w) => workbook_run(rels_given(rels), xml_events(w).0),
        None => workbook_scan_start(),
    }
}

/// Every part that is present reads without an XML error.
pub open spec fn parts_read(
    rels: Option<Seq<u8>>,
    wb: Option<Seq<u8>>,
    sst: Option<Seq<u8>>,
    styles: Option<Seq<u8>>,
) -> bool {
    &&& rels matches Some(r) ==> spec_parse_rels(r) is Some
    &&& wb matches Some(w) ==> xml_events(w).1
    &&& sst matches Some(s) ==> spec_parse_sst(s) is Some
    &&& styles matches Some(s) ==> spec_parse_styles(s) is Some
}

/// The style tables an absent style part leaves: empty, with the single number-format id 0.
pub open spec fn default_styles() -> StylesV {
    StylesV {
        num_formats: Seq::empty(),
        xf_num_fmt_ids: seq![0u16],
        fonts: Seq::empty(),
        fills: Seq::empty(),
        borders: Seq::empty(),
        xf_records: Seq::empty(),
        dxf_records: Seq::empty(),
    }
}

/// The target of the last relationship with the given id.
pub(crate) fn find_target<'a>(rels: &'a [Rel], id: &str) -> (res: Option<&'a String>)
    ensures
        match res {
            Some(t) => last_target(rel_views(rels@), id@) == Some(t@),
            None => last_target(rel_views(rels@), id@) is None,
        },
{
    let ghost v = rel_views(rels@);
    let mut i: usize = rels.len();
    assert(v.take(i as int) =~= v);
    while i > 0
        invariant
            i <= rels@.len(),
            v == rel_views(rels@),
            last_target(v, id@) == last_target(v.take(i as int), id@),
        decreases i,
    {
        let ghost pre = v.take(i as int);
        assert(pre.drop_last() =~= v.take(i - 1));
        assert(pre.last() == rels@[i - 1]@);
        if str_eq(rels[i - 1].id.as_str(), id) {
            return Some(&rels[i - 1].target);
        }
        i -= 1;
    }
    None
}

fn attr_text(attrs: &[XmlAttr], key: &str) -> (res: String)
    ensures
        res@ == attr_or_empty(attr_items(attrs@), key@),
{
    match get_attr(attrs, key) {
        Some(v) => v.clone(),
        None => String::new(),
    }
}

fn read_visibility(attrs: &[XmlAttr]) -> (res: u8)
    ensures
        res == visibility_of(attr_items(attrs@)),
{
    match get_attr(attrs, "state") {
        Some(v) => if str_eq(v.as_str(), "hidden") {
            1
        } else if str_eq(v.as_str(), "veryHidden") {
            2
        } else {
            0
        },
        None => 0,
    }
}

fn read_local_sheet(attrs: &[XmlAttr]) -> (res: Option<usize>)
    ensures
        res == local_sheet_of(attr_items(attrs@)),
{
    match get_attr(attrs, "localSheetId") {
        Some(v) => match parse_unsigned(v.as_str(), usize::MAX as u64) {
            Some(n) => Some(n as usize),
            None => None,
        },
        None => None,
    }
}

struct WorkbookReader {
    sheets: Vec<SheetInfo>,
    is_1904: bool,
    names: Vec<(String, String)>,
    scoped: Vec<DefinedName>,
    in_name: bool,
    name: String,
    value: String,
    local_sheet: Option<usize>,
}

impl View for WorkbookReader {
    type V = WorkbookScan;

    closed spec fn view(&self) -> WorkbookScan {
        WorkbookScan {
            sheets: self.sheets@.map_values(|s: SheetInfo| s@),
            is_1904: self.is_1904,
            names: self.names@.map_values(|p: (String, String)| (p.0@, p.1@)),
            scoped: self.scoped@.map_values(|d: DefinedName| defined_name_view(d)),
            in_name: self.in_name,
            name: self.name@,
            value: self.value@,
            local_sheet: self.local_sheet,
        }
    }
}

impl WorkbookReader {
    fn new() -> (res: Self)
        ensures
            res@ == workbook_scan_start(),
    {
        let res = WorkbookReader {
            sheets: Vec::new(),
            is_1904: false,
            names: Vec::new(),
            scoped: Vec::new(),
            in_name: false,
            name: String::new(),
            value: String::new(),
            local_sheet: None,
        };
        assert(res@.sheets =~= Seq::<SheetInfoV>::empty());
        assert(res@.names =~= Seq::<(Seq<char>, Seq<char>)>::empty());
        assert(res@.scoped =~= Seq::<DefinedNameV>::empty());
        res
    }

    fn start(&mut self, rels: &[Rel], local: &str, attrs: &[XmlAttr])
        ensures
            final(self)@ == workbook_start(rel_views(rels@), old(self)@, local@, attr_items(attrs@)),
    {
        if str_eq(local, "workbookPr") {
            match get_attr(attrs, "date1904") {
                Some(v) => {
                    self.is_1904 = str_eq(v.as_str(), "1") || str_eq(v.as_str(), "true");
                },
                None => {},
            }
        } else if str_eq(local, "sheet") {
            let rid = attr_text(attrs, "r:id");
            match find_target(rels, rid.as_str()) {
                Some(t) => {
                    let info = SheetInfo {
                        name: attr_text(attrs, "name"),
                        path: normalize_sheet_path(t.as_str()),
                        visibility: read_visibility(attrs),
                    };
                    let ghost before = self.sheets@;
                    let ghost iv = info@;
                    self.sheets.push(info);
                    assert(self.sheets@.map_values(|s: SheetInfo| s@) =~= before.map_values(
                        |s: SheetInfo| s@,
                    ).push(iv));
                },
                None => {},
            }
        } else if str_eq(local, "definedName") {
            self.name = attr_text(attrs, "name");
            self.local_sheet = read_local_sheet(attrs);
            self.value = String::new();
            self.in_name = true;
        }
    }

    fn name_end(&mut self)
        ensures
            final(self)@ == workbook_name_end(old(self)@),
    {
        proof {
            reveal_strlit("");
        }
        if !str_eq(self.name.as_str(), "") {
            assert(self.name@.len() > 0) by {
                if self.name@.len() == 0 {
                    assert(self.name@ =~= ""@);
                }
            }
            let ghost before_names = self.names@;
            let ghost before_scoped = self.scoped@;
            self.names.push((self.name.clone(), self.value.clone()));
            let scope = match self.local_sheet {
                Some(i) => DefinedNameScope::Sheet(i),
                None => DefinedNameScope::Workbook,
            };
            let d = DefinedName { name: self.name.clone(), formula: self.value.clone(), scope };
            let ghost dv = defined_name_view(d);
            self.scoped.push(d);
            assert(self.names@.map_values(|p: (String, String)| (p.0@, p.1@)) =~= before_names.map_values(
                |p: (String, String)| (p.0@, p.1@),
            ).push((self.name@, self.value@)));
            assert(self.scoped@.map_values(|d: DefinedName| defined_name_view(d)) =~= before_scoped.map_values(
                |d: DefinedName| defined_name_view(d),
            ).push(dv));
        } else {
            assert(self.name@.len() == 0);
        }
        self.in_name = false;
        self.local_sheet = None;
    }

    fn step(&mut self, rels: &[Rel], ev: &XmlEvent)
        ensures
            final(self)@ == workbook_step(rel_views(rels@), old(self)@, ev@),
    {
        match ev {
            XmlEvent::Start { name, attrs } => {
                let local = local_name(name.as_str());
                self.start(rels, local.as_str(), attrs.as_slice());
            },
            XmlEvent::Text(t) => {
                if self.in_name {
                    push_str(&mut self.value, t.as_str());
                }
            },
            XmlEvent::End { name } => {
                let local = local_name(name.as_str());
                if str_eq(local.as_str(), "definedName") {
                    self.name_end();
                }
            },
            _ => {},
        }
    }
}

/// Read the sheet list and defined names of a workbook part, given its relationships.
fn read_workbook_part(rels: &[Rel], data: &[u8]) -> (res: Result<WorkbookReader, Error>)
    ensures
        match res {
            Ok(r) => xml_events(data@).1 && r@ == workbook_run(rel_views(rels@), xml_events(data@).0),
            Err(e) => !xml_events(data@).1 && e is Xml,
        },
{
    let scan = scan_xml(data);
    if !scan.complete {
        return Err(Error::Xml(to_string("malformed workbook part")));
    }
    let ghost items = xml_items(scan.events@);
    let mut st = WorkbookReader::new();
    let mut i: usize = 0;
    while i < scan.events.len()
        invariant
            0 <= i <= scan.events.len(),
            items == xml_items(scan.events@),
            st@ == workbook_run(rel_views(rels@), items.take(i as int)),
        decreases scan.events.len() - i,
    {
        assert(items.take(i + 1).drop_last() =~= items.take(i as int));
        assert(items.take(i + 1).last() == scan.events@[i as int]@);
        st.step(rels, &scan.events[i]);
        i += 1;
    }
    assert(items.take(scan.events.len() as int) =~= items);
    Ok(st)
}

/// Read a workbook's top-level parts, each given when the package has it: the workbook
/// relationships, the workbook part, the shared strings, the styles and the core properties.
///
/// Sheets are listed when their relationship exists, with package paths; defined names are
/// listed both plainly and with their scope. An absent part reads as empty (no sheets, no
/// strings, default styles, no properties). Fails when a present part other than the core
/// properties is not well-formed XML.
pub fn read_xlsx_parts(
    workbook_rels: Option<&[u8]>,
    workbook: Option<&[u8]>,
    shared_strings: Option<&[u8]>,
    styles: Option<&[u8]>,
    core: Option<&[u8]>,
) -> (res: Result<XlsxData, Error>)
    ensures
        match res {
            Ok(d) => {
                let rels = match workbook_rels { Some(r) => Some(r@), None => None };
                let wb = match workbook { Some(w) => Some(w@), None => None };
                let scan = workbook_given(rels, wb);
                &&& parts_read(rels, wb, match shared_strings { Some(s) => Some(s@), None => None }, match styles { Some(s) => Some(s@), None => None })
                &&& d.sheets@.map_values(|s: SheetInfo| s@) == scan.sheets
                &&& d.is_1904 == scan.is_1904
                &&& d.defined_names@.map_values(|p: (String, String)| (p.0@, p.1@)) == scan.names
                &&& d.scoped_defined_names@.map_values(|n: DefinedName| defined_name_view(n)) == scan.scoped
                &&& d.sst.wf()
                &&& d.sst.counts() == Seq::new(d.sst.strings().len(), |i: int| 1u32)
                &&& match shared_strings {
                    Some(s) => spec_parse_sst(s@) == Some(d.sst.strings()),
                    None => d.sst.strings() == Seq::<Seq<char>>::empty(),
                }
                &&& match styles {
                    Some(s) => spec_parse_styles(s@) == Some(d.styles@),
                    None => d.styles@ == default_styles(),
                }
                &&& match core {
                    Some(c) => d.properties@ == spec_parse_core_xml(c@),
                    None => d.properties@ == empty_props(),
                }
            },
            Err(e) => e is Xml && !parts_read(
                match workbook_rels { Some(r) => Some(r@), None => None },
                match workbook { Some(w) => Some(w@), None => None },
                match shared_strings { Some(s) => Some(s@), None => None },
                match styles { Some(s) => Some(s@), None => None },
            ),
        },
{
    let rels: Vec<Rel> = match workbook_rels {
        Some(r) => parse_rels(r)?,
        None => Vec::new(),
    };
    assert(rel_views(rels@) == rels_given(match workbook_rels { Some(r) => Some(r@), None => None })) by {
        if workbook_rels is None {
            assert(rel_views(rels@) =~= Seq::<RelView>::empty());
        }
    }
    let wb = match workbook {
        Some(w) => read_workbook_part(rels.as_slice(), w)?,
        None => WorkbookReader::new(),
    };
    let sst = match shared_strings {
        Some(s) => parse_sst(s)?,
        None => SharedStringTable::new(),
    };
    proof {
        if shared_strings is None {
            assert(sst.counts() =~= Seq::new(sst.strings().len(), |i: int| 1u32));
        }
    }
    let parsed_styles = match styles {
        Some(s) => parse_styles(s)?,
        None => ParsedStyles::default(),
    };
    proof {
        if styles is None {
            assert(parsed_styles@.num_formats =~= Seq::<(u16, Seq<char>)>::empty());
            assert(parsed_styles@.fonts =~= Seq::<crate::style_parser::FontV>::empty());
            assert(parsed_styles@.dxf_records =~= Seq::<crate::style_parser::DxfV>::empty());
            assert(parsed_styles@.fills =~= Seq::<crate::style_parser::ParsedFill>::empty());
            assert(parsed_styles@.borders =~= Seq::<crate::style_parser::ParsedBorder>::empty());
            assert(parsed_styles@.xf_records =~= Seq::<crate::style_parser::XfRecord>::empty());
            assert(parsed_styles@ == default_styles());
        }
    }
    let properties = match core {
        Some(c) => parse_core_xml(c),
        None => DocProperties::new(),
    };
    Ok(XlsxData {
        sheets: wb.sheets,
        sst,
        styles: parsed_styles,
        is_1904: wb.is_1904,
        defined_names: wb.names,
        scoped_defined_names: wb.scoped,
        properties,
    })
}

} // verus!
