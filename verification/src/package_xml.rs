//! Package-level parts written for a workbook: the content-type table and small fixed parts.

use vstd::prelude::*;
use vstd::utf8::encode_utf8;

use crate::text::{decimal_digits, hex_digits, push_decimal, push_hex_padded, push_str, str_eq, to_string, zero_padded};
use crate::writer::{empty_markup, end_markup, pair_views, start_markup, xml_declaration, XmlWriter};

verus! {

/// `Default` entry of the content-type table.
pub open spec fn ct_default(ext: Seq<char>, ct: Seq<char>) -> Seq<char> {
    empty_markup("Default"@, seq![("Extension"@, ext), ("ContentType"@, ct)])
}

/// `Override` entry of the content-type table.
pub open spec fn ct_override(part: Seq<char>, ct: Seq<char>) -> Seq<char> {
    empty_markup("Override"@, seq![("PartName"@, part), ("ContentType"@, ct)])
}

/// A numbered part name: `prefix`, the number, `suffix`.
pub open spec fn part_name(prefix: Seq<char>, n: nat, suffix: Seq<char>) -> Seq<char> {
    prefix + decimal_digits(n) + suffix
}

/// Overrides for the parts numbered 1 to `n`.
pub open spec fn numbered(prefix: Seq<char>, suffix: Seq<char>, ct: Seq<char>, n: nat) -> Seq<char>
    decreases n,
{
    if n == 0 {
        Seq::empty()
    } else {
        numbered(prefix, suffix, ct, (n - 1) as nat) + ct_override(part_name(prefix, n, suffix), ct)
    }
}

/// Overrides for the parts numbered one more than each listed sheet index.
pub open spec fn listed(prefix: Seq<char>, suffix: Seq<char>, ct: Seq<char>, s: Seq<usize>) -> Seq<char>
    decreases s.len(),
{
    if s.len() == 0 {
        Seq::empty()
    } else {
        listed(prefix, suffix, ct, s.drop_last()) + ct_override(part_name(prefix, s.last() as nat + 1, suffix), ct)
    }
}

/// The extensions in the order they first occur, each once.
pub open spec fn first_seen(exts: Seq<Seq<char>>) -> Seq<Seq<char>>
    decreases exts.len(),
{
    if exts.len() == 0 {
        Seq::empty()
    } else {
        let d = first_seen(exts.drop_last());
        if d.contains(exts.last()) {
            d
        } else {
            d.push(exts.last())
        }
    }
}

/// The content type of an image extension: PNG for `png`, JPEG for anything else.
pub open spec fn image_type(ext: Seq<char>) -> Seq<char> {
    if ext == "png"@ {
        "image/png"@
    } else {
        "image/jpeg"@
    }
}

/// `Default` entries for image extensions.
pub open spec fn image_defaults(d: Seq<Seq<char>>) -> Seq<char>
    decreases d.len(),
{
    if d.len() == 0 {
        Seq::empty()
    } else {
        image_defaults(d.drop_last()) + ct_default(d.last(), image_type(d.last()))
    }
}

/// The three overrides of pivot table `i`: the table, its cache definition and its records.
pub open spec fn pivot_entry(i: nat) -> Seq<char> {
    ct_override(
        part_name("/xl/pivotTables/pivotTable"@, i, ".xml"@),
        "application/vnd.openxmlformats-officedocument.spreadsheetml.pivotTable+xml"@,
    ) + ct_override(
        part_name("/xl/pivotCache/pivotCacheDefinition"@, i, ".xml"@),
        "application/vnd.openxmlformats-officedocument.spreadsheetml.pivotCacheDefinition+xml"@,
    ) + ct_override(
        part_name("/xl/pivotCache/pivotCacheRecords"@, i, ".xml"@),
        "application/vnd.openxmlformats-officedocument.spreadsheetml.pivotCacheRecords+xml"@,
    )
}

/// The three overrides of ChartEx part `i`: the chart, its style and its colors.
pub open spec fn chartex_entry(i: nat) -> Seq<char> {
    ct_override(part_name("/xl/charts/chartEx"@, i, ".xml"@), "application/vnd.ms-office.chartEx+xml"@)
        + ct_override(part_name("/xl/charts/style"@, i, ".xml"@), "application/vnd.ms-office.chartstyle+xml"@)
        + ct_override(
        part_name("/xl/charts/colors"@, i, ".xml"@),
        "application/vnd.ms-office.chartcolorstyle+xml"@,
    )
}

/// Pivot overrides for pivot tables 1 to `n`.
pub open spec fn pivot_entries(n: nat) -> Seq<char>
    decreases n,
{
    if n == 0 {
        Seq::empty()
    } else {
        pivot_entries((n - 1) as nat) + pivot_entry(n)
    }
}

/// ChartEx overrides for ChartEx parts 1 to `n`.
pub open spec fn chartex_entries(n: nat) -> Seq<char>
    decreases n,
{
    if n == 0 {
        Seq::empty()
    } else {
        chartex_entries((n - 1) as nat) + chartex_entry(n)
    }
}

/// The worksheet content type.
pub open spec fn worksheet_ct() -> Seq<char> {
    "application/vnd.openxmlformats-officedocument.spreadsheetml.worksheet+xml"@
}

/// The main part of a workbook, macro-enabled or not.
pub open spec fn workbook_ct(macros: bool) -> Seq<char> {
    if macros {
        "application/vnd.ms-excel.sheet.macroEnabled.main+xml"@
    } else {
        "application/vnd.openxmlformats-officedocument.spreadsheetml.sheet.main+xml"@
    }
}

/// The overrides for the styles, theme and shared strings parts.
pub open spec fn fixed_parts() -> Seq<char> {
    ct_override("/xl/styles.xml"@, "application/vnd.openxmlformats-officedocument.spreadsheetml.styles+xml"@)
        + ct_override("/xl/theme/theme1.xml"@, "application/vnd.openxmlformats-officedocument.theme+xml"@)
        + ct_override(
        "/xl/sharedStrings.xml"@,
        "application/vnd.openxmlformats-officedocument.spreadsheetml.sharedStrings+xml"@,
    )
}

/// The overrides for the two document-properties parts.
pub open spec fn props_parts() -> Seq<char> {
    ct_override("/docProps/core.xml"@, "application/vnd.openxmlformats-package.core-properties+xml"@)
        + ct_override(
        "/docProps/app.xml"@,
        "application/vnd.openxmlformats-officedocument.extended-properties+xml"@,
    )
}

/// The opening of the content-type table: declaration, root and the two fixed defaults.
pub open spec fn types_head() -> Seq<char> {
    xml_declaration() + start_markup(
        "Types"@,
        seq![("xmlns"@, "http://schemas.openxmlformats.org/package/2006/content-types"@)],
    ) + ct_default("rels"@, "application/vnd.openxmlformats-package.relationships+xml"@) + ct_default(
        "xml"@,
        "application/xml"@,
    )
}

/// The defaults for VBA and images, then the workbook override.
pub open spec fn workbook_entries(image_exts: Seq<Seq<char>>, has_vba: bool, is_xlsm: bool) -> Seq<char> {
    (if has_vba {
        ct_default("bin"@, "application/vnd.ms-office.vbaProject"@)
    } else {
        Seq::empty()
    }) + image_defaults(first_seen(image_exts)) + ct_override("/xl/workbook.xml"@, workbook_ct(is_xlsm || has_vba))
}

/// The overrides for the sheets, the fixed parts and the drawings.
pub open spec fn sheet_entries(sheet_count: nat, drawings: Seq<usize>) -> Seq<char> {
    numbered("/xl/worksheets/sheet"@, ".xml"@, worksheet_ct(), sheet_count) + fixed_parts() + listed(
        "/xl/drawings/drawing"@,
        ".xml"@,
        "application/vnd.openxmlformats-officedocument.drawing+xml"@,
        drawings,
    )
}

/// The overrides for charts, tables and comments, and the VML default when any sheet has
/// comments.
pub open spec fn object_entries(chart_count: nat, table_count: nat, comments: Seq<usize>) -> Seq<char> {
    numbered(
        "/xl/charts/chart"@,
        ".xml"@,
        "application/vnd.openxmlformats-officedocument.drawingml.chart+xml"@,
        chart_count,
    ) + numbered(
        "/xl/tables/table"@,
        ".xml"@,
        "application/vnd.openxmlformats-officedocument.spreadsheetml.table+xml"@,
        table_count,
    ) + listed(
        "/xl/comments"@,
        ".xml"@,
        "application/vnd.openxmlformats-officedocument.spreadsheetml.comments+xml"@,
        comments,
    ) + (if comments.len() > 0 {
        ct_default("vml"@, "application/vnd.openxmlformats-officedocument.vmlDrawing"@)
    } else {
        Seq::empty()
    })
}

/// The document properties when present, the pivot and ChartEx overrides, and the closing tag.
pub open spec fn tail_entries(has_props: bool, pivot_count: nat, chartex_count: nat) -> Seq<char> {
    (if has_props { props_parts() } else { Seq::empty() }) + pivot_entries(pivot_count) + chartex_entries(
        chartex_count,
    ) + end_markup("Types"@)
}

/// The content-type table of a full workbook package.
pub open spec fn content_types_text(
    sheet_count: nat,
    has_props: bool,
    chart_count: nat,
    table_count: nat,
    drawings: Seq<usize>,
    image_exts: Seq<Seq<char>>,
    has_vba: bool,
    is_xlsm: bool,
    comments: Seq<usize>,
    pivot_count: nat,
    chartex_count: nat,
) -> Seq<char> {
    types_head() + workbook_entries(image_exts, has_vba, is_xlsm) + sheet_entries(sheet_count, drawings)
        + object_entries(chart_count, table_count, comments) + tail_entries(has_props, pivot_count, chartex_count)
}

pub(crate) fn put_default(w: &mut XmlWriter, ext: &str, ct: &str)
    ensures
        final(w)@ == old(w)@ + ct_default(ext@, ct@),
{
    let attrs = [("Extension", ext), ("ContentType", ct)];
    w.empty_tag("Default", &attrs);
    assert(pair_views(attrs@) =~= seq![("Extension"@, ext@), ("ContentType"@, ct@)]);
}

pub(crate) fn put_override(w: &mut XmlWriter, part: &str, ct: &str)
    ensures
        final(w)@ == old(w)@ + ct_override(part@, ct@),
{
    let attrs = [("PartName", part), ("ContentType", ct)];
    w.empty_tag("Override", &attrs);
    assert(pair_views(attrs@) =~= seq![("PartName"@, part@), ("ContentType"@, ct@)]);
}

pub(crate) fn numbered_part(prefix: &str, n: u64, suffix: &str) -> (res: String)
    ensures
        res@ == part_name(prefix@, n as nat, suffix@),
{
    let mut s = to_string(prefix);
    push_decimal(&mut s, n);
    push_str(&mut s, suffix);
    s
}

pub(crate) fn put_numbered(w: &mut XmlWriter, prefix: &str, suffix: &str, ct: &str, count: usize)
    ensures
        final(w)@ == old(w)@ + numbered(prefix@, suffix@, ct@, count as nat),
{
    let ghost start = w@;
    let mut i: usize = 0;
    while i < count
        invariant
            0 <= i <= count,
            w@ == start + numbered(prefix@, suffix@, ct@, i as nat),
        decreases count - i,
    {
        let part = numbered_part(prefix, i as u64 + 1, suffix);
        put_override(w, part.as_str(), ct);
        i += 1;
        assert(w@ =~= start + numbered(prefix@, suffix@, ct@, i as nat));
    }
}

fn put_listed(w: &mut XmlWriter, prefix: &str, suffix: &str, ct: &str, s: &[usize])
    requires
        forall|k: int| 0 <= k < s@.len() ==> #[trigger] s@[k] < usize::MAX,
    ensures
        final(w)@ == old(w)@ + listed(prefix@, suffix@, ct@, s@),
{
    let ghost start = w@;
    let mut i: usize = 0;
    while i < s.len()
        invariant
            0 <= i <= s.len(),
            forall|k: int| 0 <= k < s@.len() ==> #[trigger] s@[k] < usize::MAX,
            w@ == start + listed(prefix@, suffix@, ct@, s@.take(i as int)),
        decreases s.len() - i,
    {
        let part = numbered_part(prefix, s[i] as u64 + 1, suffix);
        put_override(w, part.as_str(), ct);
        assert(s@.take(i + 1).drop_last() =~= s@.take(i as int));
        i += 1;
        assert(w@ =~= start + listed(prefix@, suffix@, ct@, s@.take(i as int)));
    }
    assert(s@.take(s.len() as int) =~= s@);
}

fn contains_text(v: &Vec<&str>, t: &str) -> (res: bool)
    ensures
        res == v@.map_values(|x: &str| x@).contains(t@),
{
    let ghost views = v@.map_values(|x: &str| x@);
    let mut i: usize = 0;
    while i < v.len()
        invariant
            0 <= i <= v.len(),
            views == v@.map_values(|x: &str| x@),
            forall|k: int| 0 <= k < i ==> views[k] != t@,
        decreases v.len() - i,
    {
        if str_eq(v[i], t) {
            assert(views[i as int] == t@);
            return true;
        }
        i += 1;
    }
    false
}

fn put_images(w: &mut XmlWriter, exts: &[String])
    ensures
        final(w)@ == old(w)@ + image_defaults(first_seen(exts@.map_values(|e: String| e@))),
{
    let ghost start = w@;
    let ghost all = exts@.map_values(|e: String| e@);
    let mut seen: Vec<&str> = Vec::new();
    let mut i: usize = 0;
    while i < exts.len()
        invariant
            0 <= i <= exts.len(),
            all == exts@.map_values(|e: String| e@),
            seen@.map_values(|x: &str| x@) == first_seen(all.take(i as int)),
            w@ == start + image_defaults(first_seen(all.take(i as int))),
        decreases exts.len() - i,
    {
        let e = exts[i].as_str();
        assert(all.take(i + 1).drop_last() =~= all.take(i as int));
        assert(all.take(i + 1).last() == e@);
        let ghost d = first_seen(all.take(i as int));
        if !contains_text(&seen, e) {
            assert(first_seen(all.take(i + 1)) == d.push(e@));
            assert(d.push(e@).drop_last() =~= d);
            let ghost before = seen@;
            seen.push(e);
            assert(seen@.map_values(|x: &str| x@) =~= before.map_values(|x: &str| x@).push(e@));
            let ct = if str_eq(e, "png") { "image/png" } else { "image/jpeg" };
            proof {
                reveal_strlit("png");
            }
            put_default(w, e, ct);
        } else {
            assert(first_seen(all.take(i + 1)) == d);
        }
        i += 1;
    }
    assert(all.take(exts.len() as int) =~= all);
}

fn put_workbook_entries(w: &mut XmlWriter, image_extensions: &[String], has_vba: bool, is_xlsm: bool)
    ensures
        final(w)@ == old(w)@ + workbook_entries(
            image_extensions@.map_values(|e: String| e@),
            has_vba,
            is_xlsm,
        ),
{
    let ghost start = w@;
    if has_vba {
        put_default(w, "bin", "application/vnd.ms-office.vbaProject");
    }
    let ghost after_vba = w@;
    put_images(w, image_extensions);
    let ghost after_images = w@;
    let wb_ct = if is_xlsm || has_vba {
        "application/vnd.ms-excel.sheet.macroEnabled.main+xml"
    } else {
        "application/vnd.openxmlformats-officedocument.spreadsheetml.sheet.main+xml"
    };
    put_override(w, "/xl/workbook.xml", wb_ct);
    assert(w@ =~= start + workbook_entries(image_extensions@.map_values(|e: String| e@), has_vba, is_xlsm));
}

fn put_sheet_entries(w: &mut XmlWriter, sheet_count: usize, sheets_with_drawings: &[usize])
    requires
        forall|k: int| 0 <= k < sheets_with_drawings@.len() ==> #[trigger] sheets_with_drawings@[k] < usize::MAX,
    ensures
        final(w)@ == old(w)@ + sheet_entries(sheet_count as nat, sheets_with_drawings@),
{
    let ghost start = w@;
    put_numbered(
        w,
        "/xl/worksheets/sheet",
        ".xml",
        "application/vnd.openxmlformats-officedocument.spreadsheetml.worksheet+xml",
        sheet_count,
    );
    let ghost after_sheets = w@;
    put_override(w, "/xl/styles.xml", "application/vnd.openxmlformats-officedocument.spreadsheetml.styles+xml");
    put_override(w, "/xl/theme/theme1.xml", "application/vnd.openxmlformats-officedocument.theme+xml");
    put_override(
        w,
        "/xl/sharedStrings.xml",
        "application/vnd.openxmlformats-officedocument.spreadsheetml.sharedStrings+xml",
    );
    assert(w@ =~= after_sheets + fixed_parts());
    let ghost after_fixed = w@;
    put_listed(
        w,
        "/xl/drawings/drawing",
        ".xml",
        "application/vnd.openxmlformats-officedocument.drawing+xml",
        sheets_with_drawings,
    );
    assert(w@ =~= start + sheet_entries(sheet_count as nat, sheets_with_drawings@));
}

fn put_object_entries(w: &mut XmlWriter, chart_count: usize, table_count: usize, sheets_with_comments: &[usize])
    requires
        forall|k: int| 0 <= k < sheets_with_comments@.len() ==> #[trigger] sheets_with_comments@[k] < usize::MAX,
    ensures
        final(w)@ == old(w)@ + object_entries(chart_count as nat, table_count as nat, sheets_with_comments@),
{
    let ghost start = w@;
    put_numbered(
        w,
        "/xl/charts/chart",
        ".xml",
        "application/vnd.openxmlformats-officedocument.drawingml.chart+xml",
        chart_count,
    );
    let ghost after_charts = w@;
    put_numbered(
        w,
        "/xl/tables/table",
        ".xml",
        "application/vnd.openxmlformats-officedocument.spreadsheetml.table+xml",
        table_count,
    );
    let ghost after_tables = w@;
    put_listed(
        w,
        "/xl/comments",
        ".xml",
        "application/vnd.openxmlformats-officedocument.spreadsheetml.comments+xml",
        sheets_with_comments,
    );
    let ghost after_comments = w@;
    if sheets_with_comments.len() > 0 {
        put_default(w, "vml", "application/vnd.openxmlformats-officedocument.vmlDrawing");
    }
    assert(w@ =~= start + object_entries(chart_count as nat, table_count as nat, sheets_with_comments@));
}

fn put_pivots(w: &mut XmlWriter, pivot_count: usize)
    ensures
        final(w)@ == old(w)@ + pivot_entries(pivot_count as nat),
{
    let ghost start = w@;
    let mut i: usize = 0;
    while i < pivot_count
        invariant
            0 <= i <= pivot_count,
            w@ == start + pivot_entries(i as nat),
        decreases pivot_count - i,
    {
        let n = i as u64 + 1;
        let pt = numbered_part("/xl/pivotTables/pivotTable", n, ".xml");
        put_override(w, pt.as_str(), "application/vnd.openxmlformats-officedocument.spreadsheetml.pivotTable+xml");
        let cd = numbered_part("/xl/pivotCache/pivotCacheDefinition", n, ".xml");
        put_override(
            w,
            cd.as_str(),
            "application/vnd.openxmlformats-officedocument.spreadsheetml.pivotCacheDefinition+xml",
        );
        let cr = numbered_part("/xl/pivotCache/pivotCacheRecords", n, ".xml");
        put_override(
            w,
            cr.as_str(),
            "application/vnd.openxmlformats-officedocument.spreadsheetml.pivotCacheRecords+xml",
        );
        i += 1;
        assert(w@ =~= start + pivot_entries(i as nat));
    }
}

fn put_chartex(w: &mut XmlWriter, chartex_count: usize)
    ensures
        final(w)@ == old(w)@ + chartex_entries(chartex_count as nat),
{
    let ghost start = w@;
    let mut j: usize = 0;
    while j < chartex_count
        invariant
            0 <= j <= chartex_count,
            w@ == start + chartex_entries(j as nat),
        decreases chartex_count - j,
    {
        let n = j as u64 + 1;
        let ce = numbered_part("/xl/charts/chartEx", n, ".xml");
        put_override(w, ce.as_str(), "application/vnd.ms-office.chartEx+xml");
        let st = numbered_part("/xl/charts/style", n, ".xml");
        put_override(w, st.as_str(), "application/vnd.ms-office.chartstyle+xml");
        let co = numbered_part("/xl/charts/colors", n, ".xml");
        put_override(w, co.as_str(), "application/vnd.ms-office.chartcolorstyle+xml");
        j += 1;
        assert(w@ =~= start + chartex_entries(j as nat));
    }
}

fn put_tail_entries(w: &mut XmlWriter, has_props: bool, pivot_count: usize, chartex_count: usize)
    ensures
        final(w)@ == old(w)@ + tail_entries(has_props, pivot_count as nat, chartex_count as nat),
{
    let ghost start = w@;
    if has_props {
        put_override(w, "/docProps/core.xml", "application/vnd.openxmlformats-package.core-properties+xml");
        put_override(
            w,
            "/docProps/app.xml",
            "application/vnd.openxmlformats-officedocument.extended-properties+xml",
        );
    }
    put_pivots(w, pivot_count);
    put_chartex(w, chartex_count);
    w.end_tag("Types");
    assert(w@ =~= start + tail_entries(has_props, pivot_count as nat, chartex_count as nat));
}

/// Write `[Content_Types].xml` for a workbook package: the defaults (relationships, XML, VBA
/// when present, each image extension once), and an override for the workbook, each sheet, the
/// styles, theme and shared strings, each drawing, chart, table and comments part, the document
/// properties when present, and each pivot table and ChartEx part.
pub fn write_content_types_full(
    sheet_count: usize,
    has_props: bool,
    chart_count: usize,
    table_count: usize,
    sheets_with_drawings: &[usize],
    image_extensions: &[String],
    has_vba: bool,
    is_xlsm: bool,
    sheets_with_comments: &[usize],
    pivot_count: usize,
    chartex_count: usize,
) -> (res: Vec<u8>)
    requires
        forall|k: int| 0 <= k < sheets_with_drawings@.len() ==> #[trigger] sheets_with_drawings@[k] < usize::MAX,
        forall|k: int| 0 <= k < sheets_with_comments@.len() ==> #[trigger] sheets_with_comments@[k] < usize::MAX,
    ensures
        res@ == encode_utf8(
            content_types_text(
                sheet_count as nat,
                has_props,
                chart_count as nat,
                table_count as nat,
                sheets_with_drawings@,
                image_extensions@.map_values(|e: String| e@),
                has_vba,
                is_xlsm,
                sheets_with_comments@,
                pivot_count as nat,
                chartex_count as nat,
            ),
        ),
{
    let mut w = XmlWriter::new();
    w.declaration();
    let ns = [("xmlns", "http://schemas.openxmlformats.org/package/2006/content-types")];
    w.start_tag("Types", &ns);
    assert(pair_views(ns@) =~= seq![("xmlns"@, "http://schemas.openxmlformats.org/package/2006/content-types"@)]);
    put_default(&mut w, "rels", "application/vnd.openxmlformats-package.relationships+xml");
    put_default(&mut w, "xml", "application/xml");
    assert(w@ =~= types_head());
    put_workbook_entries(&mut w, image_extensions, has_vba, is_xlsm);
    put_sheet_entries(&mut w, sheet_count, sheets_with_drawings);
    put_object_entries(&mut w, chart_count, table_count, sheets_with_comments);
    put_tail_entries(&mut w, has_props, pivot_count, chartex_count);
    w.into_bytes()
}

} // verus!

verus! {

/// The namespaces of a sheet-like root element.
pub open spec fn sheet_namespaces() -> Seq<(Seq<char>, Seq<char>)> {
    seq![
        ("xmlns"@, "http://schemas.openxmlformats.org/spreadsheetml/2006/main"@),
        ("xmlns:r"@, "http://schemas.openxmlformats.org/officeDocument/2006/relationships"@),
    ]
}

/// The XML of a chartsheet: one unselected view and the drawing `rId1`.
pub open spec fn chartsheet_text() -> Seq<char> {
    xml_declaration() + start_markup("chartsheet"@, sheet_namespaces()) + start_markup("sheetViews"@, Seq::empty())
        + empty_markup("sheetView"@, seq![("tabSelected"@, "0"@), ("workbookViewId"@, "0"@)]) + end_markup(
        "sheetViews"@,
    ) + empty_markup("drawing"@, seq![("r:id"@, "rId1"@)]) + end_markup("chartsheet"@)
}

/// Writes the XML of a chartsheet, whose chart comes from the drawing `rId1`.
pub fn write_chartsheet_xml() -> (res: Vec<u8>)
    ensures
        res@ == encode_utf8(chartsheet_text()),
{
    let mut w = XmlWriter::new();
    w.declaration();
    let ns = [
        ("xmlns", "http://schemas.openxmlformats.org/spreadsheetml/2006/main"),
        ("xmlns:r", "http://schemas.openxmlformats.org/officeDocument/2006/relationships"),
    ];
    w.start_tag("chartsheet", &ns);
    assert(pair_views(ns@) =~= sheet_namespaces());
    let no: [(&str, &str); 0] = [];
    assert(pair_views(no@) =~= Seq::<(Seq<char>, Seq<char>)>::empty());
    w.start_tag("sheetViews", &no);
    let view = [("tabSelected", "0"), ("workbookViewId", "0")];
    w.empty_tag("sheetView", &view);
    assert(pair_views(view@) =~= seq![("tabSelected"@, "0"@), ("workbookViewId"@, "0"@)]);
    w.end_tag("sheetViews");
    let drawing = [("r:id", "rId1")];
    w.empty_tag("drawing", &drawing);
    assert(pair_views(drawing@) =~= seq![("r:id"@, "rId1"@)]);
    w.end_tag("chartsheet");
    assert(w@ =~= chartsheet_text());
    w.into_bytes()
}

/// The scheme colors `accent1` to `accent{n}`.
pub open spec fn accent_entries(n: nat) -> Seq<char>
    decreases n,
{
    if n == 0 {
        Seq::empty()
    } else {
        accent_entries((n - 1) as nat) + empty_markup("a:schemeClr"@, seq![("val"@, "accent"@ + decimal_digits(n))])
    }
}

/// A color variation with a luminance modulation.
pub open spec fn variation_mod(m: Seq<char>) -> Seq<char> {
    start_markup("cs:variation"@, Seq::empty()) + empty_markup("a:lumMod"@, seq![("val"@, m)]) + end_markup(
        "cs:variation"@,
    )
}

/// A color variation with a luminance modulation and offset.
pub open spec fn variation_mod_off(m: Seq<char>, o: Seq<char>) -> Seq<char> {
    start_markup("cs:variation"@, Seq::empty()) + empty_markup("a:lumMod"@, seq![("val"@, m)]) + empty_markup(
        "a:lumOff"@,
        seq![("val"@, o)],
    ) + end_markup("cs:variation"@)
}

/// The color-style part of a ChartEx chart: the six accent colors and their variations.
pub open spec fn chartex_colors_text() -> Seq<char> {
    xml_declaration() + start_markup(
        "cs:colorStyle"@,
        seq![
            ("xmlns:cs"@, "http://schemas.microsoft.com/office/drawing/2012/chartStyle"@),
            ("xmlns:a"@, "http://schemas.openxmlformats.org/drawingml/2006/main"@),
            ("meth"@, "cycle"@),
            ("id"@, "10"@),
        ],
    ) + accent_entries(6) + empty_markup("cs:variation"@, Seq::empty()) + variation_mod("60000"@)
        + variation_mod_off("80000"@, "20000"@) + variation_mod("80000"@) + variation_mod_off("60000"@, "40000"@)
        + variation_mod("50000"@) + variation_mod_off("70000"@, "30000"@) + end_markup("cs:colorStyle"@)
}

fn put_variation(w: &mut XmlWriter, m: &str, o: Option<&str>)
    ensures
        final(w)@ == old(w)@ + match o {
            Some(ov) => variation_mod_off(m@, ov@),
            None => variation_mod(m@),
        },
{
    let no: [(&str, &str); 0] = [];
    assert(pair_views(no@) =~= Seq::<(Seq<char>, Seq<char>)>::empty());
    w.start_tag("cs:variation", &no);
    let lm = [("val", m)];
    w.empty_tag("a:lumMod", &lm);
    assert(pair_views(lm@) =~= seq![("val"@, m@)]);
    match o {
        Some(ov) => {
            let lo = [("val", ov)];
            w.empty_tag("a:lumOff", &lo);
            assert(pair_views(lo@) =~= seq![("val"@, ov@)]);
        },
        None => {},
    }
    w.end_tag("cs:variation");
    assert(w@ =~= old(w)@ + match o {
        Some(ov) => variation_mod_off(m@, ov@),
        None => variation_mod(m@),
    });
}

/// Writes the color-style part of a ChartEx chart.
pub fn chartex_colors_xml() -> (res: Vec<u8>)
    ensures
        res@ == encode_utf8(chartex_colors_text()),
{
    let mut w = XmlWriter::new();
    w.declaration();
    let root = [
        ("xmlns:cs", "http://schemas.microsoft.com/office/drawing/2012/chartStyle"),
        ("xmlns:a", "http://schemas.openxmlformats.org/drawingml/2006/main"),
        ("meth", "cycle"),
        ("id", "10"),
    ];
    w.start_tag("cs:colorStyle", &root);
    assert(pair_views(root@) =~= seq![
        ("xmlns:cs"@, "http://schemas.microsoft.com/office/drawing/2012/chartStyle"@),
        ("xmlns:a"@, "http://schemas.openxmlformats.org/drawingml/2006/main"@),
        ("meth"@, "cycle"@),
        ("id"@, "10"@),
    ]);
    let ghost start = w@;
    let mut i: u64 = 1;
    while i <= 6
        invariant
            1 <= i <= 7,
            w@ == start + accent_entries((i - 1) as nat),
        decreases 7 - i,
    {
        let mut val = to_string("accent");
        push_decimal(&mut val, i);
        let a = [("val", val.as_str())];
        w.empty_tag("a:schemeClr", &a);
        assert(pair_views(a@) =~= seq![("val"@, "accent"@ + decimal_digits(i as nat))]);
        assert(w@ =~= start + accent_entries(i as nat));
        i += 1;
    }
    let no: [(&str, &str); 0] = [];
    assert(pair_views(no@) =~= Seq::<(Seq<char>, Seq<char>)>::empty());
    w.empty_tag("cs:variation", &no);
    put_variation(&mut w, "60000", None);
    put_variation(&mut w, "80000", Some("20000"));
    put_variation(&mut w, "80000", None);
    put_variation(&mut w, "60000", Some("40000"));
    put_variation(&mut w, "50000", None);
    put_variation(&mut w, "70000", Some("30000"));
    w.end_tag("cs:colorStyle");
    assert(w@ =~= chartex_colors_text());
    w.into_bytes()
}

/// The item-properties part of a custom XML part with schema `namespace`. Its item id is
/// `{CUSTOM-` and the byte length of the namespace in at least eight upper-case hexadecimal
/// digits, then `}`.
pub open spec fn custom_xml_item_props_text(namespace: Seq<char>) -> Seq<char> {
    xml_declaration() + start_markup(
        "ds:datastoreItem"@,
        seq![
            ("xmlns:ds"@, "http://schemas.openxmlformats.org/officeDocument/2006/customXml"@),
            ("ds:itemID"@, "{CUSTOM-"@ + zero_padded(hex_digits(encode_utf8(namespace).len()), 8) + "}"@),
        ],
    ) + start_markup("ds:schemaRefs"@, Seq::empty()) + empty_markup("ds:schemaRef"@, seq![("ds:uri"@, namespace)])
        + end_markup("ds:schemaRefs"@) + end_markup("ds:datastoreItem"@)
}

/// Writes the item-properties part of a custom XML part.
pub fn write_custom_xml_item_props(namespace: &str) -> (res: Vec<u8>)
    ensures
        res@ == encode_utf8(custom_xml_item_props_text(namespace@)),
{
    let mut w = XmlWriter::new();
    w.declaration();
    let mut id = to_string("{CUSTOM-");
    let n = namespace.as_bytes().len();
    assert(n as nat == encode_utf8(namespace@).len());
    push_hex_padded(&mut id, n as u64, 8);
    push_str(&mut id, "}");
    let root = [
        ("xmlns:ds", "http://schemas.openxmlformats.org/officeDocument/2006/customXml"),
        ("ds:itemID", id.as_str()),
    ];
    w.start_tag("ds:datastoreItem", &root);
    assert(pair_views(root@) =~= seq![
        ("xmlns:ds"@, "http://schemas.openxmlformats.org/officeDocument/2006/customXml"@),
        ("ds:itemID"@, "{CUSTOM-"@ + zero_padded(hex_digits(encode_utf8(namespace@).len()), 8) + "}"@),
    ]);
    let no: [(&str, &str); 0] = [];
    assert(pair_views(no@) =~= Seq::<(Seq<char>, Seq<char>)>::empty());
    w.start_tag("ds:schemaRefs", &no);
    let r = [("ds:uri", namespace)];
    w.empty_tag("ds:schemaRef", &r);
    assert(pair_views(r@) =~= seq![("ds:uri"@, namespace@)]);
    w.end_tag("ds:schemaRefs");
    w.end_tag("ds:datastoreItem");
    assert(w@ =~= custom_xml_item_props_text(namespace@));
    w.into_bytes()
}

} // verus!

verus! {

/// The connections part for one database connection.
pub open spec fn connections_text(id: nat, connection_string: Seq<char>, command: Seq<char>) -> Seq<char> {
    let n = decimal_digits(id);
    xml_declaration() + start_markup(
        "connections"@,
        seq![("xmlns"@, "http://schemas.openxmlformats.org/spreadsheetml/2006/main"@)],
    ) + start_markup("connection"@, seq![("id"@, n), ("name"@, "Connection"@ + n), ("type"@, "1"@)])
        + empty_markup("dbPr"@, seq![("connection"@, connection_string), ("command"@, command)]) + end_markup(
        "connection"@,
    ) + end_markup("connections"@)
}

/// Writes the connections part (`xl/connections.xml`) for connection `id`.
pub fn generate_connections_xml(id: usize, connection_string: &str, command: &str) -> (res: Vec<u8>)
    ensures
        res@ == encode_utf8(connections_text(id as nat, connection_string@, command@)),
{
    let mut w = XmlWriter::new();
    w.declaration();
    let ns = [("xmlns", "http://schemas.openxmlformats.org/spreadsheetml/2006/main")];
    w.start_tag("connections", &ns);
    assert(pair_views(ns@) =~= seq![("xmlns"@, "http://schemas.openxmlformats.org/spreadsheetml/2006/main"@)]);
    let mut id_s = String::new();
    push_decimal(&mut id_s, id as u64);
    let mut name = to_string("Connection");
    push_str(&mut name, id_s.as_str());
    let a = [("id", id_s.as_str()), ("name", name.as_str()), ("type", "1")];
    w.start_tag("connection", &a);
    assert(pair_views(a@) =~= seq![
        ("id"@, decimal_digits(id as nat)),
        ("name"@, "Connection"@ + decimal_digits(id as nat)),
        ("type"@, "1"@),
    ]);
    let d = [("connection", connection_string), ("command", command)];
    w.empty_tag("dbPr", &d);
    assert(pair_views(d@) =~= seq![("connection"@, connection_string@), ("command"@, command@)]);
    w.end_tag("connection");
    w.end_tag("connections");
    assert(w@ =~= connections_text(id as nat, connection_string@, command@));
    w.into_bytes()
}

/// The views of a list of carried-through parts.
pub open spec fn entry_texts(v: Seq<(String, Vec<u8>)>) -> Seq<(Seq<char>, Seq<u8>)> {
    v.map_values(|e: (String, Vec<u8>)| (e.0@, e.1@))
}

/// How many parts have the path `path`.
pub open spec fn count_path(v: Seq<(Seq<char>, Seq<u8>)>, path: Seq<char>) -> nat
    decreases v.len(),
{
    if v.len() == 0 {
        0
    } else {
        count_path(v.drop_last(), path) + if v.last().0 == path {
            1nat
        } else {
            0nat
        }
    }
}

/// The parts whose path is not `path`, in order.
pub open spec fn without_path(v: Seq<(Seq<char>, Seq<u8>)>, path: Seq<char>) -> Seq<(Seq<char>, Seq<u8>)>
    decreases v.len(),
{
    if v.len() == 0 {
        Seq::empty()
    } else if v.last().0 == path {
        without_path(v.drop_last(), path)
    } else {
        without_path(v.drop_last(), path).push(v.last())
    }
}

/// Adds a database connection: the connections part is replaced by one (at the end) for a
/// connection numbered one more than the connections parts there were.
pub fn add_connection(passthrough_entries: &mut Vec<(String, Vec<u8>)>, connection_string: &str, command: &str)
    requires
        count_path(entry_texts(old(passthrough_entries)@), "xl/connections.xml"@) < usize::MAX,
    ensures
        entry_texts(final(passthrough_entries)@) == without_path(
            entry_texts(old(passthrough_entries)@),
            "xl/connections.xml"@,
        ).push(
            (
                "xl/connections.xml"@,
                encode_utf8(
                    connections_text(
                        count_path(entry_texts(old(passthrough_entries)@), "xl/connections.xml"@) + 1,
                        connection_string@,
                        command@,
                    ),
                ),
            ),
        ),
{
    let ghost ev = entry_texts(passthrough_entries@);
    let mut count: usize = 0;
    let mut kept: Vec<(String, Vec<u8>)> = Vec::new();
    let mut i: usize = 0;
    while i < passthrough_entries.len()
        invariant
            0 <= i <= passthrough_entries.len(),
            ev == entry_texts(passthrough_entries@),
            count_path(ev, "xl/connections.xml"@) < usize::MAX,
            count == count_path(ev.take(i as int), "xl/connections.xml"@),
            entry_texts(kept@) == without_path(ev.take(i as int), "xl/connections.xml"@),
        decreases passthrough_entries.len() - i,
    {
        assert(ev.take(i + 1).drop_last() =~= ev.take(i as int));
        assert(ev.take(i + 1).last() == ev[i as int]);
        proof {
            lemma_count_path_prefix(ev, "xl/connections.xml"@, i + 1);
        }
        if str_eq(passthrough_entries[i].0.as_str(), "xl/connections.xml") {
            count = count + 1;
        } else {
            let ghost before = entry_texts(kept@);
            let name = to_string(passthrough_entries[i].0.as_str());
            let bytes = copy_bytes(&passthrough_entries[i].1);
            kept.push((name, bytes));
            assert(entry_texts(kept@) =~= before.push(ev[i as int]));
        }
        i += 1;
    }
    assert(ev.take(passthrough_entries.len() as int) =~= ev);
    let xml = generate_connections_xml(count + 1, connection_string, command);
    let ghost before = entry_texts(kept@);
    kept.push((to_string("xl/connections.xml"), xml));
    assert(entry_texts(kept@) =~= before.push(
        ("xl/connections.xml"@, encode_utf8(connections_text((count + 1) as nat, connection_string@, command@))),
    ));
    *passthrough_entries = kept;
}

fn copy_bytes(b: &Vec<u8>) -> (res: Vec<u8>)
    ensures
        res@ == b@,
{
    let mut out: Vec<u8> = Vec::new();
    let mut i: usize = 0;
    while i < b.len()
        invariant
            0 <= i <= b.len(),
            out@ == b@.take(i as int),
        decreases b.len() - i,
    {
        out.push(b[i]);
        assert(b@.take(i + 1) =~= b@.take(i as int).push(b[i as int]));
        i += 1;
    }
    assert(b@.take(b.len() as int) =~= b@);
    out
}

proof fn lemma_count_path_prefix(v: Seq<(Seq<char>, Seq<u8>)>, path: Seq<char>, k: int)
    requires
        0 <= k <= v.len(),
    ensures
        count_path(v.take(k), path) <= count_path(v, path),
    decreases v.len() - k,
{
    if k < v.len() {
        lemma_count_path_prefix(v, path, k + 1);
        assert(v.take(k + 1).drop_last() =~= v.take(k));
    } else {
        assert(v.take(k) =~= v);
    }
}

proof fn lemma_without_path_count(v: Seq<(Seq<char>, Seq<u8>)>, path: Seq<char>)
    ensures
        count_path(without_path(v, path), path) == 0,
    decreases v.len(),
{
    if v.len() > 0 {
        lemma_without_path_count(v.drop_last(), path);
        let w = without_path(v.drop_last(), path);
        if v.last().0 != path {
            assert(w.push(v.last()).drop_last() =~= w);
        }
    }
}

/// After a connection is added there is exactly one connections part, and it is the last part.
pub proof fn lemma_one_connections_part(v: Seq<(Seq<char>, Seq<u8>)>, bytes: Seq<u8>)
    ensures
        count_path(without_path(v, "xl/connections.xml"@).push(("xl/connections.xml"@, bytes)), "xl/connections.xml"@)
            == 1,
{
    let w = without_path(v, "xl/connections.xml"@);
    lemma_without_path_count(v, "xl/connections.xml"@);
    assert(w.push(("xl/connections.xml"@, bytes)).drop_last() =~= w);
}

} // verus!

verus! {

/// Adds a custom XML part with its namespace and content.
pub fn add_custom_xml(custom_xml_parts: &mut Vec<(String, Vec<u8>)>, namespace: &str, content: &[u8])
    ensures
        entry_texts(final(custom_xml_parts)@) == entry_texts(old(custom_xml_parts)@).push((namespace@, content@)),
{
    let ghost before = entry_texts(custom_xml_parts@);
    let mut data: Vec<u8> = Vec::new();
    let mut i: usize = 0;
    while i < content.len()
        invariant
            0 <= i <= content.len(),
            data@ == content@.take(i as int),
        decreases content.len() - i,
    {
        data.push(content[i]);
        assert(content@.take(i + 1) =~= content@.take(i as int).push(content@[i as int]));
        i += 1;
    }
    assert(content@.take(content.len() as int) =~= content@);
    custom_xml_parts.push((to_string(namespace), data));
    assert(entry_texts(custom_xml_parts@) =~= before.push((namespace@, content@)));
}

/// The content of the first part with namespace `ns`.
pub open spec fn first_content(v: Seq<(Seq<char>, Seq<u8>)>, ns: Seq<char>) -> Option<Seq<u8>>
    decreases v.len(),
{
    if v.len() == 0 {
        None
    } else if v[0].0 == ns {
        Some(v[0].1)
    } else {
        first_content(v.drop_first(), ns)
    }
}

proof fn lemma_first_content_at(v: Seq<(Seq<char>, Seq<u8>)>, ns: Seq<char>, i: int)
    requires
        0 <= i <= v.len(),
        forall|k: int| 0 <= k < i ==> #[trigger] v[k].0 != ns,
    ensures
        i < v.len() && v[i].0 == ns ==> first_content(v, ns) == Some(v[i].1),
        i == v.len() ==> first_content(v, ns) is None,
    decreases i,
{
    if i > 0 {
        let t = v.drop_first();
        assert forall|k: int| 0 <= k < i - 1 implies #[trigger] t[k].0 != ns by {
            assert(t[k] == v[k + 1]);
        }
        if i < v.len() {
            assert(t[i - 1] == v[i]);
        }
        lemma_first_content_at(t, ns, i - 1);
    }
}

/// The content of the first custom XML part with namespace `namespace`.
pub fn read_custom_xml<'a>(custom_xml_parts: &'a [(String, Vec<u8>)], namespace: &str) -> (res: Option<&'a [u8]>)
    ensures
        match res {
            Some(c) => first_content(entry_texts(custom_xml_parts@), namespace@) == Some(c@),
            None => first_content(entry_texts(custom_xml_parts@), namespace@) is None,
        },
{
    let ghost ev = entry_texts(custom_xml_parts@);
    let mut i: usize = 0;
    while i < custom_xml_parts.len()
        invariant
            0 <= i <= custom_xml_parts.len(),
            ev == entry_texts(custom_xml_parts@),
            forall|k: int| 0 <= k < i ==> #[trigger] ev[k].0 != namespace@,
        decreases custom_xml_parts.len() - i,
    {
        assert(ev[i as int] == (custom_xml_parts@[i as int].0@, custom_xml_parts@[i as int].1@));
        if str_eq(custom_xml_parts[i].0.as_str(), namespace) {
            proof {
                lemma_first_content_at(ev, namespace@, i as int);
            }
            return Some(custom_xml_parts[i].1.as_slice());
        }
        i += 1;
    }
    proof {
        lemma_first_content_at(ev, namespace@, i as int);
    }
    None
}

/// Reading a custom XML part gives back the content last added under its namespace, unless a
/// part with that namespace was there before (the first one is read).
pub proof fn lemma_read_after_add(v: Seq<(Seq<char>, Seq<u8>)>, ns: Seq<char>, content: Seq<u8>)
    ensures
        first_content(v.push((ns, content)), ns) == match first_content(v, ns) {
            Some(c) => Some(c),
            None => Some(content),
        },
    decreases v.len(),
{
    if v.len() > 0 {
        lemma_read_after_add(v.drop_first(), ns, content);
        assert(v.push((ns, content)).drop_first() =~= v.drop_first().push((ns, content)));
    } else {
        assert(v.push((ns, content)).drop_first() =~= Seq::<(Seq<char>, Seq<u8>)>::empty());
    }
}

} // verus!
