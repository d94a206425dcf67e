//! Tables: the built-in `TableStyleLight`/`Medium`/`Dark` style families, and reading a table
//! part (`xl/tables/tableN.xml`).

use vstd::prelude::*;

use crate::numbers::{parse_unsigned, std_parse_unsigned};
use crate::text::{chars_of, has_prefix, is_prefix, string_from_chars};
use crate::error::Error;
use crate::text::str_eq;
use crate::utility::{parse_range_ref, spec_parse_range_ref, sub_chars, ColNum, RowNum};
use crate::xml::{attr_items, attr_value, get_attr, local_name, local_part, scan_xml, xml_events, xml_items, XmlAttr, XmlEvent, XmlItem};

verus! {

/// A built-in table style: its family and its number within the family.
#[derive(Debug, Clone, Copy, PartialEq, Eq, Structural)]
pub enum TableStyle {
    Light(u8),
    Medium(u8),
    Dark(u8),
}

/// The number after `prefix` in `name`, read as `str::parse::<u8>` reads it.
pub open spec fn style_number(name: Seq<char>, prefix: Seq<char>) -> Option<u8> {
    match std_parse_unsigned(name.skip(prefix.len() as int), u8::MAX as int) {
        Some(n) => Some(n as u8),
        None => None,
    }
}

/// The table style a style name gives (`TableStyleMedium9` → `Medium(9)`): the family its prefix
/// names, with the number that follows; none for any other name or a number `u8` does not hold.
pub open spec fn spec_resolve_table_style(name: Seq<char>) -> Option<TableStyle> {
    if is_prefix("TableStyleLight"@, name) {
        match style_number(name, "TableStyleLight"@) {
            Some(n) => Some(TableStyle::Light(n)),
            None => None,
        }
    } else if is_prefix("TableStyleMedium"@, name) {
        match style_number(name, "TableStyleMedium"@) {
            Some(n) => Some(TableStyle::Medium(n)),
            None => None,
        }
    } else if is_prefix("TableStyleDark"@, name) {
        match style_number(name, "TableStyleDark"@) {
            Some(n) => Some(TableStyle::Dark(n)),
            None => None,
        }
    } else {
        None
    }
}

fn number_after(cs: &Vec<char>, prefix: &str) -> (res: Option<u8>)
    requires
        prefix@.len() <= cs@.len(),
    ensures
        res == style_number(cs@, prefix@),
{
    let plen = chars_of(prefix).len();
    let rest = sub_chars(cs.as_slice(), plen, cs.len());
    assert(rest@ =~= cs@.skip(prefix@.len() as int));
    let text = string_from_chars(&rest);
    match parse_unsigned(text.as_str(), 255) {
        Some(n) => Some(n as u8),
        None => None,
    }
}

/// Resolve a table style name string (e.g. "TableStyleMedium9") into a [`TableStyle`].
pub fn resolve_table_style(name: &str) -> (res: Option<TableStyle>)
    ensures
        res == spec_resolve_table_style(name@),
{
    let cs = chars_of(name);
    if has_prefix(&cs, "TableStyleLight") {
        match number_after(&cs, "TableStyleLight") {
            Some(n) => Some(TableStyle::Light(n)),
            None => None,
        }
    } else if has_prefix(&cs, "TableStyleMedium") {
        match number_after(&cs, "TableStyleMedium") {
            Some(n) => Some(TableStyle::Medium(n)),
            None => None,
        }
    } else if has_prefix(&cs, "TableStyleDark") {
        match number_after(&cs, "TableStyleDark") {
            Some(n) => Some(TableStyle::Dark(n)),
            None => None,
        }
    } else {
        None
    }
}

/// A column of a table part: its name, and its totals-row label and function when given.
#[derive(Debug, Clone)]
pub struct ParsedTableColumn {
    pub name: String,
    pub total_label: Option<String>,
    pub total_function: Option<String>,
}

/// What a table part sets. A field the part does not set is `None`.
#[derive(Debug, Clone)]
pub struct ParsedTable {
    pub name: Option<String>,
    /// The table's range (0-based, inclusive corners).
    pub range: Option<(RowNum, ColNum, RowNum, ColNum)>,
    /// Whether a totals row is shown.
    pub total_row: Option<bool>,
    /// Whether the part has an `<autoFilter>`.
    pub autofilter: bool,
    pub columns: Vec<ParsedTableColumn>,
    pub style: Option<TableStyle>,
}

/// The mathematical form of a [`ParsedTableColumn`].
pub ghost struct TableColumnV {
    pub name: Seq<char>,
    pub total_label: Option<Seq<char>>,
    pub total_function: Option<Seq<char>>,
}

/// The mathematical form of a [`ParsedTable`].
pub ghost struct TableV {
    pub name: Option<Seq<char>>,
    pub range: Option<(RowNum, ColNum, RowNum, ColNum)>,
    pub total_row: Option<bool>,
    pub autofilter: bool,
    pub columns: Seq<TableColumnV>,
    pub style: Option<TableStyle>,
}

/// The view of an optional text.
pub open spec fn opt_seq(o: Option<String>) -> Option<Seq<char>> {
    match o {
        Some(s) => Some(s@),
        None => None,
    }
}

/// The view of a table column.
pub open spec fn table_column_view(c: ParsedTableColumn) -> TableColumnV {
    TableColumnV { name: c.name@, total_label: opt_seq(c.total_label), total_function: opt_seq(c.total_function) }
}

/// The view of a parsed table.
pub open spec fn table_view(t: ParsedTable) -> TableV {
    TableV {
        name: opt_seq(t.name),
        range: t.range,
        total_row: t.total_row,
        autofilter: t.autofilter,
        columns: t.columns@.map_values(|c: ParsedTableColumn| table_column_view(c)),
        style: t.style,
    }
}

/// Nothing read yet.
pub open spec fn table_start() -> TableV {
    TableV { name: None, range: None, total_row: None, autofilter: false, columns: Seq::empty(), style: None }
}

/// The `<table>` element's attributes applied: its name, its range when it reads as one, and
/// whether a totals row is shown (`totalsRowShown` of `1`, or a `totalsRowCount` other than
/// `0`).
pub open spec fn table_attrs(t: TableV, a: Seq<(Seq<char>, Seq<char>)>) -> TableV {
    let t1 = match attr_value(a, "name"@) {
        Some(n) => TableV { name: Some(n), ..t },
        None => t,
    };
    let t2 = match attr_value(a, "ref"@) {
        Some(r) => match spec_parse_range_ref(r) {
            Some(rg) => TableV { range: Some(rg), ..t1 },
            None => t1,
        },
        None => t1,
    };
    let t3 = match attr_value(a, "totalsRowShown"@) {
        Some(v) => TableV { total_row: Some(v == "1"@), ..t2 },
        None => t2,
    };
    match attr_value(a, "totalsRowCount"@) {
        Some(v) => if v != "0"@ {
            TableV { total_row: Some(true), ..t3 }
        } else {
            t3
        },
        None => t3,
    }
}

/// Reading one event of a table part.
pub open spec fn table_step(t: TableV, ev: XmlItem) -> TableV {
    match ev {
        XmlItem::Start { name, attrs } => {
            let local = local_part(name);
            if local == "table"@ {
                table_attrs(t, attrs)
            } else if local == "autoFilter"@ {
                TableV { autofilter: true, ..t }
            } else if local == "tableColumn"@ {
                TableV {
                    columns: t.columns.push(
                        TableColumnV {
                            name: match attr_value(attrs, "name"@) {
                                Some(n) => n,
                                None => Seq::empty(),
                            },
                            total_label: attr_value(attrs, "totalsRowLabel"@),
                            total_function: attr_value(attrs, "totalsRowFunction"@),
                        },
                    ),
                    ..t
                }
            } else if local == "tableStyleInfo"@ {
                match attr_value(attrs, "name"@) {
                    Some(n) => match spec_resolve_table_style(n) {
                        Some(st) => TableV { style: Some(st), ..t },
                        None => t,
                    },
                    None => t,
                }
            } else {
                t
            }
        },
        _ => t,
    }
}

/// The table after a run of events.
pub open spec fn table_run(items: Seq<XmlItem>) -> TableV
    decreases items.len(),
{
    if items.len() == 0 {
        table_start()
    } else {
        table_step(table_run(items.drop_last()), items.last())
    }
}

/// What `read_table` reads from a table part (everything before the end of input or the first
/// XML error).
pub open spec fn spec_read_table(data: Seq<u8>) -> TableV {
    table_run(xml_events(data).0)
}

fn opt_attr(attrs: &[XmlAttr], key: &str) -> (res: Option<String>)
    ensures
        opt_seq(res) == attr_value(attr_items(attrs@), key@),
{
    match get_attr(attrs, key) {
        Some(v) => Some(crate::text::to_string(v.as_str())),
        None => None,
    }
}

fn apply_table_attrs(t: &mut ParsedTable, attrs: &[XmlAttr])
    ensures
        table_view(*final(t)) == table_attrs(table_view(*old(t)), attr_items(attrs@)),
{
    match get_attr(attrs, "name") {
        Some(n) => {
            t.name = Some(crate::text::to_string(n.as_str()));
        },
        None => {},
    }
    match get_attr(attrs, "ref") {
        Some(r) => match parse_range_ref(r.as_str()) {
            Ok(rg) => {
                t.range = Some(rg);
            },
            Err(_) => {},
        },
        None => {},
    }
    match get_attr(attrs, "totalsRowShown") {
        Some(v) => {
            t.total_row = Some(str_eq(v.as_str(), "1"));
        },
        None => {},
    }
    match get_attr(attrs, "totalsRowCount") {
        Some(v) => {
            if !str_eq(v.as_str(), "0") {
                t.total_row = Some(true);
            }
        },
        None => {},
    }
}

/// Read a table part (`xl/tables/tableN.xml`): its name, range, totals row, autofilter,
/// columns and style.
pub fn read_table(data: &[u8]) -> (res: Result<ParsedTable, Error>)
    ensures
        res matches Ok(t) && table_view(t) == spec_read_table(data@),
{
    let scan = scan_xml(data);
    let ghost items = xml_items(scan.events@);
    let mut t = ParsedTable {
        name: None,
        range: None,
        total_row: None,
        autofilter: false,
        columns: Vec::new(),
        style: None,
    };
    assert(table_view(t).columns =~= Seq::<TableColumnV>::empty());
    let mut i: usize = 0;
    while i < scan.events.len()
        invariant
            0 <= i <= scan.events.len(),
            items == xml_items(scan.events@),
            table_view(t) == table_run(items.take(i as int)),
        decreases scan.events.len() - i,
    {
        assert(items.take(i + 1).drop_last() =~= items.take(i as int));
        assert(items.take(i + 1).last() == scan.events@[i as int]@);
        match &scan.events[i] {
            XmlEvent::Start { name, attrs } => {
                let local = local_name(name.as_str());
                if str_eq(local.as_str(), "table") {
                    apply_table_attrs(&mut t, attrs.as_slice());
                } else if str_eq(local.as_str(), "autoFilter") {
                    t.autofilter = true;
                } else if str_eq(local.as_str(), "tableColumn") {
                    proof {
                        reveal_strlit("");
                    }
                    let col_name = match get_attr(attrs.as_slice(), "name") {
                        Some(n) => crate::text::to_string(n.as_str()),
                        None => String::new(),
                    };
                    let col = ParsedTableColumn {
                        name: col_name,
                        total_label: opt_attr(attrs.as_slice(), "totalsRowLabel"),
                        total_function: opt_attr(attrs.as_slice(), "totalsRowFunction"),
                    };
                    let ghost before = t.columns@;
                    t.columns.push(col);
                    assert(t.columns@.map_values(|c: ParsedTableColumn| table_column_view(c)) =~= before.map_values(
                        |c: ParsedTableColumn| table_column_view(c),
                    ).push(table_column_view(col)));
                } else if str_eq(local.as_str(), "tableStyleInfo") {
                    match get_attr(attrs.as_slice(), "name") {
                        Some(n) => match resolve_table_style(n.as_str()) {
                            Some(st) => {
                                t.style = Some(st);
                            },
                            None => {},
                        },
                        None => {},
                    }
                }
            },
            _ => {},
        }
        i += 1;
    }
    assert(items.take(scan.events.len() as int) =~= items);
    Ok(t)
}

} // verus!
