use zavora_xlsx::protection::WorkbookProtection;
use zavora_xlsx::sheet_reader::PrintSettings;
use zavora_xlsx::workbook::{CalcMode, DefinedName, DefinedNameScope};
use zavora_xlsx::workbook_xml::{SheetEntry, WorkbookInfo};
use zavora_xlsx::worksheet::SheetVisibility;

const DECL: &str = "<?xml version=\"1.0\" encoding=\"UTF-8\" standalone=\"yes\"?>\n";
const ROOT: &str = "<workbook xmlns=\"http://schemas.openxmlformats.org/spreadsheetml/2006/main\" xmlns:r=\"http://schemas.openxmlformats.org/officeDocument/2006/relationships\">";

fn sheet(name: &str) -> SheetEntry {
    SheetEntry { name: name.to_string(), visibility: SheetVisibility::Visible, print_settings: None, pivot_table_count: 0 }
}

fn info(sheets: Vec<SheetEntry>) -> WorkbookInfo {
    WorkbookInfo {
        sheets,
        defined_names: Vec::new(),
        scoped_defined_names: Vec::new(),
        workbook_protection: None,
        calc_mode: None,
        active_sheet: None,
        passthrough_names: Vec::new(),
    }
}

#[test]
fn workbook_xml_minimal() {
    let text = String::from_utf8(info(vec![sheet("Sheet1")]).write_workbook_xml()).unwrap();
    assert_eq!(
        text,
        format!(
            "{DECL}{ROOT}<sheets><sheet name=\"Sheet1\" sheetId=\"1\" r:id=\"rId1\"/></sheets><calcPr calcId=\"0\" fullCalcOnLoad=\"1\"/></workbook>"
        )
    );
}

#[test]
fn workbook_xml_full() {
    let mut hidden = sheet("Hidden & Co");
    hidden.visibility = SheetVisibility::Hidden;
    let mut very = sheet("V");
    very.visibility = SheetVisibility::VeryHidden;
    let mut printed = sheet("P");
    let mut ps = PrintSettings::new();
    ps.print_area = Some((0, 0, 9, 2));
    ps.repeat_rows = Some((0, 1));
    ps.repeat_cols = Some((0, 0));
    printed.print_settings = Some(ps);
    printed.pivot_table_count = 2;
    let mut wb = info(vec![hidden, very, printed]);
    wb.workbook_protection = Some(WorkbookProtection::new(Some("CC1A".to_string())));
    wb.active_sheet = Some(2);
    wb.calc_mode = Some(CalcMode::Manual);
    wb.scoped_defined_names = vec![
        DefinedName { name: "Rate".to_string(), formula: "P!$A$1".to_string(), scope: DefinedNameScope::Workbook },
        DefinedName { name: "Local".to_string(), formula: "1<2".to_string(), scope: DefinedNameScope::Sheet(1) },
    ];
    wb.defined_names = vec![("Ignored".to_string(), "1".to_string())];
    wb.passthrough_names = vec!["XL/VBAPROJECT.BIN".to_string()];
    let text = String::from_utf8(wb.write_workbook_xml()).unwrap();
    let expected = format!(
        "{DECL}{ROOT}<workbookProtection lockStructure=\"1\" workbookPassword=\"CC1A\"/><bookViews><workbookView activeTab=\"2\"/></bookViews><sheets><sheet name=\"Hidden &amp; Co\" sheetId=\"1\" r:id=\"rId1\" state=\"hidden\"/><sheet name=\"V\" sheetId=\"2\" r:id=\"rId2\" state=\"veryHidden\"/><sheet name=\"P\" sheetId=\"3\" r:id=\"rId3\"/></sheets><definedNames><definedName name=\"Rate\">P!$A$1</definedName><definedName name=\"Local\" localSheetId=\"1\">1&lt;2</definedName><definedName name=\"_xlnm.Print_Area\" localSheetId=\"2\">'P'!$A$1:$C$10</definedName><definedName name=\"_xlnm.Print_Titles\" localSheetId=\"2\">'P'!$A:$A,'P'!$1:$2</definedName></definedNames><calcPr calcMode=\"manual\" fullCalcOnLoad=\"1\"/><pivotCaches><pivotCache cacheId=\"8\" r:id=\"rId8\"/><pivotCache cacheId=\"9\" r:id=\"rId9\"/></pivotCaches></workbook>"
    );
    assert_eq!(text, expected);
}

#[test]
fn workbook_xml_legacy_names_and_titles() {
    let mut s = sheet("S");
    let mut ps = PrintSettings::new();
    ps.repeat_cols = Some((1, 2));
    s.print_settings = Some(ps);
    let mut wb = info(vec![s]);
    wb.defined_names = vec![("Tax".to_string(), "S!$B$2".to_string())];
    wb.workbook_protection = Some(WorkbookProtection::new(None));
    let text = String::from_utf8(wb.write_workbook_xml()).unwrap();
    assert!(text.contains("<workbookProtection lockStructure=\"1\"/>"));
    assert!(text.contains(
        "<definedNames><definedName name=\"Tax\">S!$B$2</definedName><definedName name=\"_xlnm.Print_Titles\" localSheetId=\"0\">'S'!$B:$C</definedName></definedNames>"
    ));
    assert!(!text.contains("pivotCaches"));
}
