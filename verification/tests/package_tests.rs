use zavora_xlsx::package_xml::write_content_types_full;

const DECL: &str = "<?xml version=\"1.0\" encoding=\"UTF-8\" standalone=\"yes\"?>\n";

#[test]
fn content_types_minimal_package() {
    let bytes = write_content_types_full(1, false, 0, 0, &[], &[], false, false, &[], 0, 0);
    let text = String::from_utf8(bytes).unwrap();
    let expected = format!(
        "{DECL}<Types xmlns=\"http://schemas.openxmlformats.org/package/2006/content-types\"><Default Extension=\"rels\" ContentType=\"application/vnd.openxmlformats-package.relationships+xml\"/><Default Extension=\"xml\" ContentType=\"application/xml\"/><Override PartName=\"/xl/workbook.xml\" ContentType=\"application/vnd.openxmlformats-officedocument.spreadsheetml.sheet.main+xml\"/><Override PartName=\"/xl/worksheets/sheet1.xml\" ContentType=\"application/vnd.openxmlformats-officedocument.spreadsheetml.worksheet+xml\"/><Override PartName=\"/xl/styles.xml\" ContentType=\"application/vnd.openxmlformats-officedocument.spreadsheetml.styles+xml\"/><Override PartName=\"/xl/theme/theme1.xml\" ContentType=\"application/vnd.openxmlformats-officedocument.theme+xml\"/><Override PartName=\"/xl/sharedStrings.xml\" ContentType=\"application/vnd.openxmlformats-officedocument.spreadsheetml.sharedStrings+xml\"/></Types>"
    );
    assert_eq!(text, expected);
}

#[test]
fn content_types_images_once_each_in_first_order() {
    let exts = vec!["jpeg".to_string(), "png".to_string(), "jpeg".to_string()];
    let text = String::from_utf8(write_content_types_full(1, false, 0, 0, &[], &exts, false, false, &[], 0, 0)).unwrap();
    let jpeg = "<Default Extension=\"jpeg\" ContentType=\"image/jpeg\"/>";
    let png = "<Default Extension=\"png\" ContentType=\"image/png\"/>";
    assert_eq!(text.matches(jpeg).count(), 1);
    assert_eq!(text.matches(png).count(), 1);
    assert!(text.find(jpeg).unwrap() < text.find(png).unwrap());
}

#[test]
fn content_types_vba_makes_workbook_macro_enabled() {
    let text = String::from_utf8(write_content_types_full(1, false, 0, 0, &[], &[], true, false, &[], 0, 0)).unwrap();
    assert!(text.contains("<Default Extension=\"bin\" ContentType=\"application/vnd.ms-office.vbaProject\"/>"));
    assert!(text.contains(
        "<Override PartName=\"/xl/workbook.xml\" ContentType=\"application/vnd.ms-excel.sheet.macroEnabled.main+xml\"/>"
    ));
}

#[test]
fn content_types_numbered_and_listed_parts() {
    let text = String::from_utf8(write_content_types_full(2, true, 2, 1, &[1], &[], false, true, &[0, 1], 1, 1)).unwrap();
    for p in [
        "/xl/drawings/drawing2.xml",
        "/xl/charts/chart1.xml",
        "/xl/charts/chart2.xml",
        "/xl/tables/table1.xml",
        "/xl/comments1.xml",
        "/xl/comments2.xml",
        "/docProps/core.xml",
        "/docProps/app.xml",
        "/xl/pivotTables/pivotTable1.xml",
        "/xl/pivotCache/pivotCacheDefinition1.xml",
        "/xl/pivotCache/pivotCacheRecords1.xml",
        "/xl/charts/chartEx1.xml",
        "/xl/charts/style1.xml",
        "/xl/charts/colors1.xml",
    ] {
        assert!(text.contains(&format!("PartName=\"{p}\"")), "missing {p}");
    }
    assert!(!text.contains("drawing1.xml"));
    assert!(!text.contains("/xl/tables/table2.xml"));
    assert!(text.contains("<Default Extension=\"vml\""));
    assert!(text.contains("macroEnabled.main+xml"));
    assert!(text.ends_with("</Types>"));
}

#[test]
fn chartsheet_xml_points_at_its_drawing() {
    let text = String::from_utf8(zavora_xlsx::package_xml::write_chartsheet_xml()).unwrap();
    let expected = format!(
        "{DECL}<chartsheet xmlns=\"http://schemas.openxmlformats.org/spreadsheetml/2006/main\" xmlns:r=\"http://schemas.openxmlformats.org/officeDocument/2006/relationships\"><sheetViews><sheetView tabSelected=\"0\" workbookViewId=\"0\"/></sheetViews><drawing r:id=\"rId1\"/></chartsheet>"
    );
    assert_eq!(text, expected);
}

#[test]
fn chartex_colors_have_six_accents_and_variations() {
    let text = String::from_utf8(zavora_xlsx::package_xml::chartex_colors_xml()).unwrap();
    let expected = format!(
        "{DECL}<cs:colorStyle xmlns:cs=\"http://schemas.microsoft.com/office/drawing/2012/chartStyle\" xmlns:a=\"http://schemas.openxmlformats.org/drawingml/2006/main\" meth=\"cycle\" id=\"10\"><a:schemeClr val=\"accent1\"/><a:schemeClr val=\"accent2\"/><a:schemeClr val=\"accent3\"/><a:schemeClr val=\"accent4\"/><a:schemeClr val=\"accent5\"/><a:schemeClr val=\"accent6\"/><cs:variation/><cs:variation><a:lumMod val=\"60000\"/></cs:variation><cs:variation><a:lumMod val=\"80000\"/><a:lumOff val=\"20000\"/></cs:variation><cs:variation><a:lumMod val=\"80000\"/></cs:variation><cs:variation><a:lumMod val=\"60000\"/><a:lumOff val=\"40000\"/></cs:variation><cs:variation><a:lumMod val=\"50000\"/></cs:variation><cs:variation><a:lumMod val=\"70000\"/><a:lumOff val=\"30000\"/></cs:variation></cs:colorStyle>"
    );
    assert_eq!(text, expected);
}

#[test]
fn custom_xml_item_id_is_the_namespace_byte_length_in_hex() {
    let text = String::from_utf8(zavora_xlsx::package_xml::write_custom_xml_item_props("urn:x")).unwrap();
    let expected = format!(
        "{DECL}<ds:datastoreItem xmlns:ds=\"http://schemas.openxmlformats.org/officeDocument/2006/customXml\" ds:itemID=\"{{CUSTOM-00000005}}\"><ds:schemaRefs><ds:schemaRef ds:uri=\"urn:x\"/></ds:schemaRefs></ds:datastoreItem>"
    );
    assert_eq!(text, expected);
    let long = "n".repeat(300);
    let text = String::from_utf8(zavora_xlsx::package_xml::write_custom_xml_item_props(&long)).unwrap();
    assert!(text.contains("ds:itemID=\"{CUSTOM-0000012C}\""));
    // the length counts bytes: "é" is two
    let text = String::from_utf8(zavora_xlsx::package_xml::write_custom_xml_item_props("é&")).unwrap();
    assert!(text.contains("ds:itemID=\"{CUSTOM-00000003}\""));
    assert!(text.contains("ds:uri=\"é&amp;\""));
}

#[test]
fn connections_part_for_one_connection() {
    let text = String::from_utf8(zavora_xlsx::package_xml::generate_connections_xml(2, "DSN=x;", "SELECT 1")).unwrap();
    let expected = format!(
        "{DECL}<connections xmlns=\"http://schemas.openxmlformats.org/spreadsheetml/2006/main\"><connection id=\"2\" name=\"Connection2\" type=\"1\"><dbPr connection=\"DSN=x;\" command=\"SELECT 1\"/></connection></connections>"
    );
    assert_eq!(text, expected);
}

#[test]
fn add_connection_replaces_the_connections_part() {
    let mut entries: Vec<(String, Vec<u8>)> = vec![
        ("xl/vbaProject.bin".to_string(), vec![1, 2, 3]),
        ("xl/connections.xml".to_string(), b"old".to_vec()),
        ("customXml/item1.xml".to_string(), vec![9]),
    ];
    zavora_xlsx::package_xml::add_connection(&mut entries, "DSN=a", "q");
    let names: Vec<&str> = entries.iter().map(|e| e.0.as_str()).collect();
    assert_eq!(names, vec!["xl/vbaProject.bin", "customXml/item1.xml", "xl/connections.xml"]);
    assert_eq!(entries[0].1, vec![1, 2, 3]);
    let xml = String::from_utf8(entries[2].1.clone()).unwrap();
    assert!(xml.contains("<connection id=\"2\" name=\"Connection2\" type=\"1\">"));
    zavora_xlsx::package_xml::add_connection(&mut entries, "DSN=b", "r");
    assert_eq!(entries.iter().filter(|e| e.0 == "xl/connections.xml").count(), 1);
    let xml = String::from_utf8(entries[2].1.clone()).unwrap();
    assert!(xml.contains("connection=\"DSN=b\""));
    let mut fresh: Vec<(String, Vec<u8>)> = Vec::new();
    zavora_xlsx::package_xml::add_connection(&mut fresh, "DSN=c", "s");
    assert!(String::from_utf8(fresh[0].1.clone()).unwrap().contains("id=\"1\""));
}
