use zavora_xlsx::cell::{resolve_cell_value, CellValue};
use zavora_xlsx::shared_strings::SharedStringTable;
use zavora_xlsx::sheet_reader::read_sheet_full;
use zavora_xlsx::worksheet::Orientation;
use zavora_xlsx::sst_parser::parse_sst;
use zavora_xlsx::streaming_reader::{parse_sheet_list, parse_sheet_rows_sax, sheet_rows_from_xml};
use zavora_xlsx::style_parser::ParsedStyles;
use zavora_xlsx::style_sheet::parse_styles;
use zavora_xlsx::tables::{resolve_table_style, TableStyle};
use zavora_xlsx::workbook::{
    col_letter_to_num, extract_sheet_name, parse_col_range, parse_pivot_source, parse_row_range,
    DefinedNameScope,
};
use zavora_xlsx::xlsx_reader::read_xlsx_parts;

const RELS: &str = r#"<?xml version="1.0"?>
<Relationships xmlns="http://schemas.openxmlformats.org/package/2006/relationships">
<Relationship Id="rId1" Type="http://schemas.openxmlformats.org/officeDocument/2006/relationships/worksheet" Target="worksheets/sheet1.xml"/>
<Relationship Id="rId2" Type="http://schemas.openxmlformats.org/officeDocument/2006/relationships/worksheet" Target="/xl/worksheets/sheet2.xml"/>
</Relationships>"#;

const WORKBOOK: &str = r#"<?xml version="1.0"?>
<workbook xmlns="http://schemas.openxmlformats.org/spreadsheetml/2006/main" xmlns:r="http://schemas.openxmlformats.org/officeDocument/2006/relationships">
<workbookPr date1904="1"/>
<sheets>
<sheet name="Data" sheetId="1" r:id="rId1"/>
<sheet name="Hidden" sheetId="2" state="hidden" r:id="rId2"/>
<sheet name="Orphan" sheetId="3" r:id="rId9"/>
</sheets>
<definedNames>
<definedName name="_xlnm.Print_Titles" localSheetId="0">Data!$1:$2</definedName>
<definedName name="Tax">Data!$B$1</definedName>
<definedName name="">ignored</definedName>
</definedNames>
</workbook>"#;

const SST: &str = r#"<?xml version="1.0"?>
<sst xmlns="http://schemas.openxmlformats.org/spreadsheetml/2006/main" count="3" uniqueCount="3">
<si><t>alpha</t></si>
<si><r><t>be</t></r><r><t>ta</t></r><rPh><t>phonetic</t></rPh></si>
<si><t>alpha</t></si>
</sst>"#;

const SHEET: &str = r#"<?xml version="1.0"?>
<worksheet xmlns="http://schemas.openxmlformats.org/spreadsheetml/2006/main">
<sheetData>
<row r="1"><c r="A1" t="s"><v>0</v></c><c r="B1"><v>3.5</v></c><c r="C1" t="b"><v>1</v></c></row>
<row r="2"><c r="A2" s="1"><v>45000</v></c><c r="B2"><f>A2+1</f><v>45001</v></c><c r="C2"/></row>
<row r="4"><c r="D4" t="e"><v>#N/A</v></c><c r="E4" t="str"><v>hi</v></c></row>
</sheetData>
<mergeCells count="1"><mergeCell ref="A1:B1"/></mergeCells>
</worksheet>"#;

#[test]
fn shared_strings_part() {
    let t = parse_sst(SST.as_bytes()).unwrap();
    assert_eq!(t.len(), 3);
    assert_eq!(t.get(0), Some("alpha"));
    assert_eq!(t.get(1), Some("beta"));
    assert_eq!(t.get(2), Some("alpha"));
    assert_eq!(t.ref_count(1), 1);
    assert!(parse_sst(b"<sst><si><t>x</t></si").is_err());
    assert_eq!(parse_sst(b"<other/>").unwrap().len(), 0);
}

#[test]
fn workbook_parts_are_read() {
    let d = read_xlsx_parts(
        Some(RELS.as_bytes()),
        Some(WORKBOOK.as_bytes()),
        Some(SST.as_bytes()),
        None,
        None,
    )
    .unwrap();
    assert_eq!(d.sheets.len(), 2);
    assert_eq!(d.sheets[0].name, "Data");
    assert_eq!(d.sheets[0].path, "xl/worksheets/sheet1.xml");
    assert_eq!(d.sheets[0].visibility, 0);
    assert_eq!(d.sheets[1].path, "xl/worksheets/sheet2.xml");
    assert_eq!(d.sheets[1].visibility, 1);
    assert!(d.is_1904);
    assert_eq!(d.defined_names.len(), 2);
    assert_eq!(d.defined_names[0], ("_xlnm.Print_Titles".to_string(), "Data!$1:$2".to_string()));
    assert_eq!(d.scoped_defined_names[0].scope, DefinedNameScope::Sheet(0));
    assert_eq!(d.scoped_defined_names[1].scope, DefinedNameScope::Workbook);
    assert_eq!(d.sst.len(), 3);
    assert_eq!(d.styles.xf_num_fmt_ids, vec![0]);
    assert!(d.properties.title.is_none());
}

#[test]
fn workbook_parts_fail_on_broken_relationships() {
    assert!(read_xlsx_parts(Some(b"<Relationships><Rel"), None, None, None, None).is_err());
    let empty = read_xlsx_parts(None, None, None, None, None).unwrap();
    assert!(empty.sheets.is_empty());
}

#[test]
fn streaming_sheet_list() {
    let list = parse_sheet_list(Some(RELS.as_bytes()), Some(WORKBOOK.as_bytes())).unwrap();
    assert_eq!(list.len(), 2);
    assert_eq!(list[1].name, "Hidden");
    assert_eq!(list[1].path, "xl/worksheets/sheet2.xml");
}

#[test]
fn cell_values_resolve() {
    let mut sst = SharedStringTable::new();
    sst.push("shared");
    let styles = ParsedStyles::default();
    let s = resolve_cell_value(&Some("s".to_string()), "0", "", 0, &sst, &styles);
    assert!(matches!(s, CellValue::String(ref t) if t == "shared"));
    let missing = resolve_cell_value(&Some("s".to_string()), "7", "", 0, &sst, &styles);
    assert!(missing.is_empty());
    let b = resolve_cell_value(&Some("b".to_string()), "0", "", 0, &sst, &styles);
    assert!(matches!(b, CellValue::Bool(false)));
    let n = resolve_cell_value(&None, "12.5", "", 0, &sst, &styles);
    assert!(matches!(n, CellValue::Numeric { ref text, date: false } if text == "12.5"));
    let f = resolve_cell_value(&None, "", "SUM(A1)", 0, &sst, &styles);
    match f {
        CellValue::Formula { formula, cached_value } => {
            assert_eq!(formula, "SUM(A1)");
            assert!(cached_value.is_empty());
        }
        _ => panic!("expected a formula"),
    }
}

#[test]
fn sheet_rows_are_streamed() {
    let sst = parse_sst(SST.as_bytes()).unwrap();
    let styles = parse_styles(
        br#"<styleSheet><cellXfs><xf numFmtId="0"/><xf numFmtId="14"/></cellXfs></styleSheet>"#,
    )
    .unwrap();
    let rows = parse_sheet_rows_sax(SHEET.as_bytes(), &sst, &styles).unwrap();
    assert_eq!(rows.len(), 3);
    assert_eq!(rows[0].row_index, 0);
    assert_eq!(rows[0].cells.len(), 3);
    assert!(matches!(rows[0].cells[0].value, CellValue::String(ref t) if t == "alpha"));
    assert!(matches!(rows[0].cells[1].value, CellValue::Numeric { ref text, date: false } if text == "3.5"));
    assert!(matches!(rows[0].cells[2].value, CellValue::Bool(true)));
    assert_eq!(rows[1].cells.len(), 2);
    assert!(matches!(rows[1].cells[0].value, CellValue::Numeric { date: true, .. }));
    assert_eq!(rows[1].cells[0].xf_index, 1);
    assert!(matches!(rows[1].cells[1].value, CellValue::Formula { .. }));
    assert_eq!(rows[2].row_index, 3);
    assert_eq!(rows[2].cells[0].col, 3);
    assert!(matches!(rows[2].cells[0].value, CellValue::Error(ref e) if e == "#N/A"));
    let mut it = sheet_rows_from_xml(SHEET.as_bytes(), &sst, &styles).unwrap();
    assert_eq!(it.row_count(), 3);
    assert_eq!(it.next_row().unwrap().row_index, 0);
    assert_eq!(it.next_row().unwrap().row_index, 1);
    assert_eq!(it.next_row().unwrap().row_index, 3);
    assert!(it.next_row().is_none());
    assert!(it.next_row().is_none());
    assert_eq!(it.row_count(), 3);
    assert_eq!(it.into_rows().len(), 3);
}

#[test]
fn broken_xml_after_sheet_data_is_ignored() {
    let sst = SharedStringTable::new();
    let styles = ParsedStyles::default();
    let data = b"<worksheet><sheetData><row r=\"2\"><c r=\"A2\"><v>1</v></c></row></sheetData><broken";
    let rows = parse_sheet_rows_sax(data, &sst, &styles).unwrap();
    assert_eq!(rows.len(), 1);
    assert_eq!(rows[0].row_index, 1);
    assert!(parse_sheet_rows_sax(b"<worksheet><sheetData><row", &sst, &styles).is_err());
    assert!(parse_sheet_rows_sax(b"<worksheet/>", &sst, &styles).unwrap().is_empty());
}

#[test]
fn defined_name_references() {
    assert_eq!(extract_sheet_name("Sheet1!$1:$3"), Some("Sheet1".to_string()));
    assert_eq!(extract_sheet_name("'My Sheet'!$A:$B,Other!$1:$1"), Some("My Sheet".to_string()));
    assert_eq!(extract_sheet_name("$A$1"), None);
    assert_eq!(parse_row_range("$1:$3"), Some((0, 2)));
    assert_eq!(parse_row_range("1:0"), None);
    assert_eq!(parse_row_range("1:2:3"), None);
    assert_eq!(parse_row_range("A:B"), None);
    assert_eq!(parse_col_range("$A:$B"), Some((0, 1)));
    assert_eq!(parse_col_range("aa:AB"), Some((26, 27)));
    assert_eq!(parse_col_range("A1:B2"), None);
    assert_eq!(parse_col_range(":"), None);
    assert_eq!(col_letter_to_num("A"), Some(0));
    assert_eq!(col_letter_to_num("AA"), Some(26));
    assert_eq!(col_letter_to_num("CRXO"), Some(65534));
    assert_eq!(col_letter_to_num("CRXP"), None);
    assert_eq!(col_letter_to_num(""), None);
    assert_eq!(col_letter_to_num("A1"), None);
}

#[test]
fn pivot_sources() {
    assert_eq!(
        parse_pivot_source("Sheet1!$A$1:$E$100"),
        ("Sheet1".to_string(), "$A$1:$E$100".to_string())
    );
    assert_eq!(parse_pivot_source("'Q 1'!A1:B2"), ("Q 1".to_string(), "A1:B2".to_string()));
    assert_eq!(parse_pivot_source("A1:B2"), ("Sheet1".to_string(), "A1:B2".to_string()));
}

#[test]
fn table_styles() {
    assert_eq!(resolve_table_style("TableStyleMedium9"), Some(TableStyle::Medium(9)));
    assert_eq!(resolve_table_style("TableStyleLight1"), Some(TableStyle::Light(1)));
    assert_eq!(resolve_table_style("TableStyleDark11"), Some(TableStyle::Dark(11)));
    assert_eq!(resolve_table_style("TableStyleMedium"), None);
    assert_eq!(resolve_table_style("TableStyleLight256"), None);
    assert_eq!(resolve_table_style("PivotStyleLight1"), None);
}

const FULL_SHEET: &str = r#"<?xml version="1.0"?>
<worksheet xmlns="http://schemas.openxmlformats.org/spreadsheetml/2006/main" xmlns:r="http://schemas.openxmlformats.org/officeDocument/2006/relationships">
<sheetPr><pageSetUpPr fitToPage="1"/></sheetPr>
<sheetViews><sheetView workbookViewId="0"><pane xSplit="2" ySplit="3" topLeftCell="C4" state="frozen"/></sheetView></sheetViews>
<cols><col min="1" max="3" width="12.5" outlineLevel="1"/><col min="5" max="5" width="8"/></cols>
<sheetData>
<row r="1" ht="20.25" outlineLevel="2"><c r="A1" t="s"><v>1</v></c></row>
<row r="2"><c r="B2" s="3"><v>7</v></c></row>
</sheetData>
<sheetProtection sheet="1" formatCells="0" password="CC1A"/>
<mergeCells count="1"><mergeCell ref="A1:C1"/></mergeCells>
<hyperlinks><hyperlink ref="A1" r:id="rId1" tooltip="go"/><hyperlink r:id="rId2"/></hyperlinks>
<pageMargins left="0.7" right="0.7" top="0.75" bottom="0.75" header="0.3" footer="0.3"/>
<pageSetup paperSize="9" orientation="landscape" fitToWidth="1" fitToHeight="0"/>
<headerFooter><oddHeader>&amp;CTitle</oddHeader><oddFooter>Page</oddFooter></headerFooter>
<rowBreaks count="1"><brk id="10" max="16383" man="1"/></rowBreaks>
<colBreaks count="1"><brk id="0" man="1"/></colBreaks>
<drawing r:id="rId3"/>
<legacyDrawing r:id="rId4"/>
</worksheet>"#;

#[test]
fn full_sheet_is_read() {
    let sst = parse_sst(SST.as_bytes()).unwrap();
    let styles = ParsedStyles::default();
    let (cells, meta) = read_sheet_full(FULL_SHEET.as_bytes(), &sst, &styles).unwrap();
    assert_eq!(cells.len(), 2);
    assert_eq!((cells[0].row, cells[0].col), (0, 0));
    assert!(matches!(cells[0].value, CellValue::String(ref t) if t == "beta"));
    assert_eq!((cells[1].row, cells[1].col, cells[1].xf_index), (1, 1, 3));
    assert_eq!(meta.freeze_row, 3);
    assert_eq!(meta.freeze_col, 2);
    assert_eq!(meta.col_widths.len(), 4);
    assert_eq!(meta.col_widths[0], (0, "12.5".to_string()));
    assert_eq!(meta.col_widths[2], (2, "12.5".to_string()));
    assert_eq!(meta.col_widths[3], (4, "8".to_string()));
    assert_eq!(meta.col_outline_levels.len(), 3);
    assert_eq!(meta.col_outline_levels.get(&1), Some(&1));
    assert_eq!(meta.row_heights, vec![(0, "20.25".to_string())]);
    assert_eq!(meta.row_outline_levels.get(&0), Some(&2));
    assert_eq!(meta.merge_ranges, vec![(0, 0, 0, 2)]);
    assert_eq!(meta.hyperlinks.len(), 1);
    assert_eq!(meta.hyperlinks[0].cell_ref, "A1");
    assert_eq!(meta.hyperlinks[0].rid.as_deref(), Some("rId1"));
    assert_eq!(meta.hyperlinks[0].tooltip.as_deref(), Some("go"));
    assert_eq!(meta.drawing_rid.as_deref(), Some("rId3"));
    assert_eq!(meta.legacy_drawing_rid.as_deref(), Some("rId4"));
    let prot = meta.protection.unwrap();
    assert!(prot.sheet && !prot.objects && !prot.format_cells && prot.format_rows);
    assert_eq!(prot.password_hash(), Some("CC1A"));
    let ps = meta.print_settings.unwrap();
    assert!(ps.fit_to_page);
    assert_eq!(ps.paper_size, Some(9));
    assert_eq!(ps.orientation, Some(Orientation::Landscape));
    assert_eq!(ps.fit_to_width, Some(1));
    assert_eq!(ps.fit_to_height, Some(0));
    assert_eq!(ps.margin_top.as_deref(), Some("0.75"));
    assert_eq!(ps.margin_header.as_deref(), Some("0.3"));
    assert_eq!(ps.header.as_deref(), Some("CTitle"));
    assert_eq!(ps.footer.as_deref(), Some("Page"));
    assert_eq!(ps.row_breaks, vec![9]);
    assert_eq!(ps.col_breaks, vec![0]);
}

#[test]
fn sheet_without_sheet_data_keeps_no_print_settings() {
    let sst = SharedStringTable::new();
    let styles = ParsedStyles::default();
    let (cells, meta) = read_sheet_full(
        br#"<worksheet><sheetPr><pageSetUpPr fitToPage="1"/></sheetPr><mergeCell ref="B2:C3"/></worksheet>"#,
        &sst,
        &styles,
    )
    .unwrap();
    assert!(cells.is_empty());
    assert!(meta.print_settings.is_none());
    assert_eq!(meta.merge_ranges, vec![(1, 1, 2, 2)]);
    assert!(read_sheet_full(b"<worksheet><sheetData>", &sst, &styles).is_ok());
    assert!(read_sheet_full(b"<worksheet><sheetData></worksheet", &sst, &styles).is_err());
}
