use zavora_xlsx::properties::{parse_custom_xml, write_custom_xml, CustomProperty, CustomPropertyValue};

const DECL: &str = "<?xml version=\"1.0\" encoding=\"UTF-8\" standalone=\"yes\"?>\n";

#[test]
fn custom_xml_is_written_with_ids_from_two() {
    let props = vec![
        CustomProperty::text("Owner", "A&B"),
        CustomProperty::integer("Count", -12),
        CustomProperty::bool("Final", true),
        CustomProperty::number("Ratio", "2.5"),
    ];
    let text = String::from_utf8(write_custom_xml(&props)).unwrap();
    let f = "fmtid=\"{D5CDD505-2E9C-101B-9397-08002B2CF9AE}\"";
    let expected = format!(
        "{DECL}<Properties xmlns=\"http://schemas.openxmlformats.org/officeDocument/2006/custom-properties\" xmlns:vt=\"http://schemas.openxmlformats.org/officeDocument/2006/docPropsVTypes\"><property {f} pid=\"2\" name=\"Owner\"><vt:lpwstr>A&amp;B</vt:lpwstr></property><property {f} pid=\"3\" name=\"Count\"><vt:i4>-12</vt:i4></property><property {f} pid=\"4\" name=\"Final\"><vt:bool>true</vt:bool></property><property {f} pid=\"5\" name=\"Ratio\"><vt:r8>2.5</vt:r8></property></Properties>"
    );
    assert_eq!(text, expected);
}

#[test]
fn custom_xml_reads_each_kind() {
    let xml = r#"<?xml version="1.0"?>
<Properties xmlns="x" xmlns:vt="y">
  <property fmtid="f" pid="2" name="Owner"><vt:lpwstr>A&amp;B</vt:lpwstr></property>
  <property fmtid="f" pid="3" name="Count"><vt:i4>-12</vt:i4></property>
  <property fmtid="f" pid="4" name="Bad"><vt:i4>twelve</vt:i4></property>
  <property fmtid="f" pid="5" name="Flag"><vt:bool>1</vt:bool></property>
  <property fmtid="f" pid="6" name="Off"><vt:bool>yes</vt:bool></property>
  <property fmtid="f" pid="7" name="When"><vt:filetime>2024-01-01T00:00:00Z</vt:filetime></property>
  <property fmtid="f" pid="8" name="Ratio"><vt:r8>2.5</vt:r8></property>
  <property fmtid="f" pid="9" name="Other"><vt:blob>zz</vt:blob></property>
</Properties>"#;
    let props = parse_custom_xml(xml.as_bytes());
    let got: Vec<(String, CustomPropertyValue)> = props.into_iter().map(|p| (p.name, p.value)).collect();
    assert_eq!(
        got,
        vec![
            ("Owner".to_string(), CustomPropertyValue::Text("A&B".to_string())),
            ("Count".to_string(), CustomPropertyValue::Integer(-12)),
            ("Bad".to_string(), CustomPropertyValue::Integer(0)),
            ("Flag".to_string(), CustomPropertyValue::Bool(true)),
            ("Off".to_string(), CustomPropertyValue::Bool(false)),
            ("When".to_string(), CustomPropertyValue::DateTime("2024-01-01T00:00:00Z".to_string())),
            ("Ratio".to_string(), CustomPropertyValue::Number("2.5".to_string())),
            ("Other".to_string(), CustomPropertyValue::Text("zz".to_string())),
        ]
    );
}

#[test]
fn custom_xml_written_then_read_gives_the_properties_back() {
    let props = vec![
        CustomProperty::text("Owner", "x < y"),
        CustomProperty::integer("Count", 7),
        CustomProperty::bool("Final", false),
    ];
    let back = parse_custom_xml(&write_custom_xml(&props));
    assert_eq!(back.len(), 3);
    for (a, b) in props.iter().zip(back.iter()) {
        assert_eq!(a.name, b.name);
        assert_eq!(a.value, b.value);
    }
}

#[test]
fn custom_xml_outside_property_is_ignored() {
    let xml = r#"<Properties><vt:lpwstr>stray</vt:lpwstr><property name="A"></property></Properties>"#;
    assert!(parse_custom_xml(xml.as_bytes()).is_empty());
}

#[test]
fn set_custom_property_replaces_by_name() {
    let mut props = vec![CustomProperty::text("A", "1"), CustomProperty::integer("B", 2), CustomProperty::text("A", "3")];
    zavora_xlsx::properties::set_custom_property(&mut props, "A", CustomPropertyValue::Bool(true));
    let got: Vec<(String, CustomPropertyValue)> = props.into_iter().map(|p| (p.name, p.value)).collect();
    assert_eq!(
        got,
        vec![("B".to_string(), CustomPropertyValue::Integer(2)), ("A".to_string(), CustomPropertyValue::Bool(true))]
    );
}

#[test]
fn custom_xml_read_gives_back_what_was_added() {
    let mut parts: Vec<(String, Vec<u8>)> = Vec::new();
    zavora_xlsx::package_xml::add_custom_xml(&mut parts, "urn:a", b"<a/>");
    zavora_xlsx::package_xml::add_custom_xml(&mut parts, "urn:b", b"<b/>");
    zavora_xlsx::package_xml::add_custom_xml(&mut parts, "urn:a", b"<second/>");
    assert_eq!(zavora_xlsx::package_xml::read_custom_xml(&parts, "urn:b"), Some(&b"<b/>"[..]));
    assert_eq!(zavora_xlsx::package_xml::read_custom_xml(&parts, "urn:a"), Some(&b"<a/>"[..]));
    assert_eq!(zavora_xlsx::package_xml::read_custom_xml(&parts, "urn:c"), None);
    assert_eq!(parts.len(), 3);
}
