use zavora_xlsx::error::Error;
use zavora_xlsx::format::Format;
use zavora_xlsx::properties::DocProperties;
use zavora_xlsx::streaming::{write_streaming_content_types, StreamingWorkbook};

const DECL: &str = "<?xml version=\"1.0\" encoding=\"UTF-8\" standalone=\"yes\"?>\n";
const WS_OPEN: &str = "<worksheet xmlns=\"http://schemas.openxmlformats.org/spreadsheetml/2006/main\" xmlns:r=\"http://schemas.openxmlformats.org/officeDocument/2006/relationships\">";

fn part(parts: &[(String, Vec<u8>)], path: &str) -> String {
    let found = parts.iter().find(|p| p.0 == path).expect("part present");
    String::from_utf8(found.1.clone()).unwrap()
}

#[test]
fn streaming_rows_in_order_build_the_sheet() {
    let mut wb = StreamingWorkbook::new();
    wb.write_string(0, 0, "hello").unwrap();
    wb.write_number(0, 1, "3.5").unwrap();
    wb.write_boolean(2, 0, true).unwrap();
    wb.write_formula(2, 1, "A1&\"<x>\"").unwrap();
    let parts = wb.save_parts();
    let sheet = part(&parts, "xl/worksheets/sheet1.xml");
    let expected = format!(
        "{DECL}{WS_OPEN}<sheetData><row r=\"1\"><c r=\"A1\" t=\"s\"><v>0</v></c><c r=\"B1\"><v>3.5</v></c></row><row r=\"3\"><c r=\"A3\" t=\"b\"><v>1</v></c><c r=\"B3\"><f>A1&amp;\"&lt;x&gt;\"</f></c></row></sheetData></worksheet>"
    );
    assert_eq!(sheet, expected);
}

#[test]
fn streaming_row_before_last_is_refused() {
    let mut wb = StreamingWorkbook::new();
    wb.write_boolean(5, 0, false).unwrap();
    let err = wb.write_boolean(2, 0, true).unwrap_err();
    match err {
        Error::InvalidData(m) => {
            assert_eq!(m, "Streaming mode requires ascending row order: got row 2 after row 5")
        }
        other => panic!("unexpected error {:?}", other),
    }
    // the same row and a later row are still accepted
    wb.write_boolean(5, 1, true).unwrap();
    wb.write_boolean(6, 0, true).unwrap();
    let parts = wb.save_parts();
    let sheet = part(&parts, "xl/worksheets/sheet1.xml");
    let expected = format!(
        "{DECL}{WS_OPEN}<sheetData><row r=\"6\"><c r=\"A6\" t=\"b\"><v>0</v></c><c r=\"B6\" t=\"b\"><v>1</v></c></row><row r=\"7\"><c r=\"A7\" t=\"b\"><v>1</v></c></row></sheetData></worksheet>"
    );
    assert_eq!(sheet, expected);
}

#[test]
fn streaming_refused_string_is_still_interned() {
    let mut wb = StreamingWorkbook::new();
    wb.write_string(3, 0, "a").unwrap();
    assert!(wb.write_string(1, 0, "b").is_err());
    wb.write_string(3, 1, "b").unwrap();
    let parts = wb.save_parts();
    let sheet = part(&parts, "xl/worksheets/sheet1.xml");
    assert!(sheet.contains("<c r=\"B4\" t=\"s\"><v>1</v></c>"));
}

#[test]
fn streaming_widths_merges_and_formats() {
    let mut wb = StreamingWorkbook::new();
    wb.set_column_width(1, "12.50");
    wb.merge_range(0, 0, 1, 2);
    let bold = Format::new().bold();
    wb.write_string_with_format(0, 0, "title", &bold).unwrap();
    wb.write_number_with_format(1, 27, "7", &bold).unwrap();
    let parts = wb.save_parts();
    let sheet = part(&parts, "xl/worksheets/sheet1.xml");
    let expected = format!(
        "{DECL}{WS_OPEN}<cols><col min=\"2\" max=\"2\" width=\"12.50\" customWidth=\"1\"/></cols><sheetData><row r=\"1\"><c r=\"A1\" t=\"s\" s=\"1\"><v>0</v></c></row><row r=\"2\"><c r=\"AB2\" s=\"1\"><v>7</v></c></row></sheetData><mergeCells count=\"1\"><mergeCell ref=\"A1:C2\"/></mergeCells></worksheet>"
    );
    assert_eq!(sheet, expected);
}

#[test]
fn streaming_empty_sheet_still_has_header() {
    let mut wb = StreamingWorkbook::new();
    let idx = wb.add_worksheet("Data");
    assert_eq!(idx, 1);
    wb.write_number(0, 0, "1").unwrap();
    let parts = wb.save_parts();
    let first = part(&parts, "xl/worksheets/sheet1.xml");
    assert_eq!(first, format!("{DECL}{WS_OPEN}<sheetData></sheetData></worksheet>"));
    let wbxml = part(&parts, "xl/workbook.xml");
    assert_eq!(
        wbxml,
        format!(
            "{DECL}<workbook xmlns=\"http://schemas.openxmlformats.org/spreadsheetml/2006/main\" xmlns:r=\"http://schemas.openxmlformats.org/officeDocument/2006/relationships\"><sheets><sheet name=\"Sheet1\" sheetId=\"1\" r:id=\"rId1\"/><sheet name=\"Data\" sheetId=\"2\" r:id=\"rId2\"/></sheets></workbook>"
        )
    );
    let paths: Vec<&str> = parts.iter().map(|p| p.0.as_str()).collect();
    assert_eq!(
        paths,
        vec!["[Content_Types].xml", "xl/workbook.xml", "xl/worksheets/sheet1.xml", "xl/worksheets/sheet2.xml"]
    );
}

#[test]
fn streaming_switching_sheets_keeps_each_row_order() {
    let mut wb = StreamingWorkbook::new();
    wb.add_worksheet("Second");
    wb.write_number(4, 0, "1").unwrap();
    wb.set_current_sheet(0);
    // sheet 1 has no rows yet, so an earlier row is fine there
    wb.write_number(0, 0, "2").unwrap();
    wb.set_current_sheet(1);
    assert!(wb.write_number(3, 0, "3").is_err());
}

#[test]
fn streaming_properties_add_their_parts() {
    let mut wb = StreamingWorkbook::new();
    wb.set_properties(DocProperties::new().title("Report"));
    let parts = wb.save_parts();
    let paths: Vec<&str> = parts.iter().map(|p| p.0.as_str()).collect();
    assert_eq!(
        paths,
        vec!["[Content_Types].xml", "xl/workbook.xml", "xl/worksheets/sheet1.xml", "docProps/core.xml", "docProps/app.xml"]
    );
    let ct = part(&parts, "[Content_Types].xml");
    assert!(ct.contains("<Override PartName=\"/docProps/core.xml\""));
}

#[test]
fn streaming_content_types_list_each_sheet() {
    let bytes = write_streaming_content_types(2, false);
    let text = String::from_utf8(bytes).unwrap();
    let expected = format!(
        "{DECL}<Types xmlns=\"http://schemas.openxmlformats.org/package/2006/content-types\"><Default Extension=\"rels\" ContentType=\"application/vnd.openxmlformats-package.relationships+xml\"/><Default Extension=\"xml\" ContentType=\"application/xml\"/><Override PartName=\"/xl/workbook.xml\" ContentType=\"application/vnd.openxmlformats-officedocument.spreadsheetml.sheet.main+xml\"/><Override PartName=\"/xl/worksheets/sheet1.xml\" ContentType=\"application/vnd.openxmlformats-officedocument.spreadsheetml.worksheet+xml\"/><Override PartName=\"/xl/worksheets/sheet2.xml\" ContentType=\"application/vnd.openxmlformats-officedocument.spreadsheetml.worksheet+xml\"/><Override PartName=\"/xl/styles.xml\" ContentType=\"application/vnd.openxmlformats-officedocument.spreadsheetml.styles+xml\"/><Override PartName=\"/xl/theme/theme1.xml\" ContentType=\"application/vnd.openxmlformats-officedocument.theme+xml\"/><Override PartName=\"/xl/sharedStrings.xml\" ContentType=\"application/vnd.openxmlformats-officedocument.spreadsheetml.sharedStrings+xml\"/></Types>"
    );
    assert_eq!(text, expected);
}
