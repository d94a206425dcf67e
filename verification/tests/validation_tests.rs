use zavora_xlsx::validation::{checked_data_validations, parse_data_validations, ErrorStyle, ValidationRule};

const SHEET: &str = r#"<?xml version="1.0"?>
<worksheet xmlns="http://schemas.openxmlformats.org/spreadsheetml/2006/main">
  <sheetData/>
  <dataValidations count="7">
    <dataValidation type="list" allowBlank="1" sqref="A1:A10" promptTitle="Pick" prompt="" errorStyle="warning">
      <formula1>"Red,Green,Blue"</formula1>
    </dataValidation>
    <dataValidation type="list" sqref="B2"><formula1>$D$1:$D$5</formula1></dataValidation>
    <dataValidation type="whole" operator="greaterThan" sqref="C1:C5 E1"><formula1>10</formula1></dataValidation>
    <dataValidation type="decimal" sqref="F1"><formula1>0.5</formula1><formula2>9.5</formula2></dataValidation>
    <dataValidation type="textLength" operator="equal" sqref="G1" errorStyle="information" error="Too long" errorTitle="Oops"><formula1>8</formula1></dataValidation>
    <dataValidation type="date" operator="lessThan" sqref="H1"><formula1>45000</formula1></dataValidation>
    <dataValidation type="custom" sqref="I1"><formula1>ISNUMBER(I1)&amp;TRUE</formula1></dataValidation>
    <dataValidation type="whole" sqref="not-a-ref"><formula1>1</formula1></dataValidation>
    <dataValidation type="any" sqref="J1"/>
    <dataValidation type="custom" sqref="K1"/>
  </dataValidations>
</worksheet>"#;

#[test]
fn data_validations_are_read() {
    let v = parse_data_validations(SHEET.as_bytes());
    assert_eq!(v.len(), 7);
    assert_eq!(
        v[0].rule,
        ValidationRule::List(vec!["Red".to_string(), "Green".to_string(), "Blue".to_string()])
    );
    assert_eq!((v[0].first_row, v[0].first_col, v[0].last_row, v[0].last_col), (0, 0, 9, 0));
    assert_eq!(v[0].input_title.as_deref(), Some("Pick"));
    assert_eq!(v[0].input_message, None);
    assert_eq!(v[0].error_style, ErrorStyle::Warning);
    assert_eq!(v[1].rule, ValidationRule::ListRange("$D$1:$D$5".to_string()));
    assert_eq!((v[1].first_row, v[1].first_col, v[1].last_row, v[1].last_col), (1, 1, 1, 1));
    assert_eq!(v[2].rule, ValidationRule::WholeNumber { min: Some(10), max: None });
    assert_eq!((v[2].first_row, v[2].last_row), (0, 4));
    assert_eq!(
        v[3].rule,
        ValidationRule::Decimal { min: Some("0.5".to_string()), max: Some("9.5".to_string()) }
    );
    assert_eq!(v[4].rule, ValidationRule::TextLength { min: Some(8), max: Some(8) });
    assert_eq!(v[4].error_style, ErrorStyle::Information);
    assert_eq!(v[4].error_message.as_deref(), Some("Too long"));
    assert_eq!(v[4].error_title.as_deref(), Some("Oops"));
    assert_eq!(v[5].rule, ValidationRule::DateRange { min: None, max: Some("45000".to_string()) });
    assert_eq!(v[6].rule, ValidationRule::Custom("ISNUMBER(I1)&TRUE".to_string()));
    assert_eq!(v[6].error_style, ErrorStyle::Stop);
}

#[test]
fn data_validations_checked_refuses_a_lone_quote_list() {
    let bad = r#"<worksheet><dataValidations><dataValidation type="list" sqref="A1"><formula1>"</formula1></dataValidation></dataValidations></worksheet>"#;
    assert!(checked_data_validations(bad.as_bytes()).is_none());
    let ok = checked_data_validations(SHEET.as_bytes()).unwrap();
    assert_eq!(ok.len(), 7);
}

#[test]
fn data_validation_cut_off_by_end_of_part_counts() {
    let cut = r#"<worksheet><dataValidations><dataValidation type="whole" sqref="A1"><formula1>5</formula1>"#;
    let v = parse_data_validations(cut.as_bytes());
    assert_eq!(v.len(), 1);
    assert_eq!(v[0].rule, ValidationRule::WholeNumber { min: Some(5), max: None });
    assert!(parse_data_validations(b"<worksheet/>").is_empty());
}
