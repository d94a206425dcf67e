use zavora_xlsx::utility::{
    col_from_letter, col_to_letter, parse_cell_attr, parse_cell_ref, parse_range_ref, to_a1,
};

#[test]
fn col_roundtrip() {
    assert_eq!(col_from_letter("A").unwrap(), 0);
    assert_eq!(col_from_letter("Z").unwrap(), 25);
    assert_eq!(col_from_letter("AA").unwrap(), 26);
    assert_eq!(col_from_letter("AZ").unwrap(), 51);
    assert_eq!(col_from_letter("XFD").unwrap(), 16383);
    for i in 0..=16383u16 {
        assert_eq!(col_from_letter(&col_to_letter(i)).unwrap(), i);
    }
}

#[test]
fn parse_a1() {
    assert_eq!(parse_cell_ref("A1").unwrap(), (0, 0));
    assert_eq!(parse_cell_ref("B3").unwrap(), (2, 1));
    assert_eq!(parse_cell_ref("$C$5").unwrap(), (4, 2));
    assert_eq!(parse_cell_ref("XFD1048576").unwrap(), (1_048_575, 16383));
}

#[test]
fn parse_a1_errors() {
    assert!(parse_cell_ref("").is_err());
    assert!(parse_cell_ref("A0").is_err());
    assert!(parse_cell_ref("123").is_err());
    assert!(parse_cell_ref("XFDA1").is_err()); // exceeds max col
}

#[test]
fn parse_range() {
    assert_eq!(parse_range_ref("A1:C3").unwrap(), (0, 0, 2, 2));
}

#[test]
fn to_a1_roundtrip() {
    assert_eq!(to_a1(0, 0), "A1");
    assert_eq!(to_a1(2, 1), "B3");
}

#[test]
fn parse_cell_attr_fast() {
    assert_eq!(parse_cell_attr(b"A1"), Some((0, 0)));
    assert_eq!(parse_cell_attr(b"C10"), Some((9, 2)));
    assert_eq!(parse_cell_attr(b""), None);
    assert_eq!(parse_cell_attr(b"123"), None);
}

#[test]
fn col_from_letter_lower_case_and_errors() {
    assert_eq!(col_from_letter("ab").unwrap(), 27);
    assert!(col_from_letter("").is_err());
    assert!(col_from_letter("A1").is_err());
    assert!(col_from_letter("XFE").is_err());
    assert!(col_from_letter("AAAAAAAAAAAA").is_err());
}

#[test]
fn col_to_letter_values() {
    assert_eq!(col_to_letter(0), "A");
    assert_eq!(col_to_letter(25), "Z");
    assert_eq!(col_to_letter(26), "AA");
    assert_eq!(col_to_letter(701), "ZZ");
    assert_eq!(col_to_letter(702), "AAA");
    assert_eq!(col_to_letter(16383), "XFD");
}

#[test]
fn parse_cell_ref_trims_and_rejects() {
    assert_eq!(parse_cell_ref("  b3 \t").unwrap(), (2, 1));
    assert!(parse_cell_ref("A1048577").is_err());
    assert!(parse_cell_ref("A1B").is_err());
    assert!(parse_cell_ref("A99999999999").is_err());
    assert_eq!(to_a1(1_048_575, 16383), "XFD1048576");
}

#[test]
fn parse_range_ref_needs_one_colon() {
    assert!(parse_range_ref("A1").is_err());
    assert!(parse_range_ref("A1:B2:C3").is_err());
    assert!(parse_range_ref("A1:B0").is_err());
    assert_eq!(parse_range_ref("$B$2:$D$10").unwrap(), (1, 1, 9, 3));
}

#[test]
fn parse_cell_attr_edges() {
    assert_eq!(parse_cell_attr(b"AB"), None);
    assert_eq!(parse_cell_attr(b"A0"), None);
    assert_eq!(parse_cell_attr(b"A1x"), None);
    assert_eq!(parse_cell_attr(b"xfd1048576"), Some((1_048_575, 16383)));
}

#[test]
fn cell_ref_error_messages() {
    fn msg(r: Result<(u32, u16), zavora_xlsx::error::Error>) -> String {
        r.unwrap_err().message().clone()
    }
    assert_eq!(msg(zavora_xlsx::utility::parse_cell_ref(" $AB ")), "no row in 'AB'");
    assert_eq!(msg(zavora_xlsx::utility::parse_cell_ref("12")), "no column in '12'");
    assert_eq!(msg(zavora_xlsx::utility::parse_cell_ref("A-1")), "invalid column char in 'A-'");
    assert_eq!(msg(zavora_xlsx::utility::parse_cell_ref("XFE1")), "column 'XFE' exceeds XFD");
    assert_eq!(msg(zavora_xlsx::utility::parse_cell_ref("A1B")), "bad row '1B'");
    assert_eq!(msg(zavora_xlsx::utility::parse_cell_ref("A0")), "row 0 out of range");
    assert_eq!(msg(zavora_xlsx::utility::parse_cell_ref("A1048577")), "row 1048577 out of range");
    let e = zavora_xlsx::utility::parse_range_ref("A1").unwrap_err();
    assert_eq!(e.message(), "expected ':' in 'A1'");
    let e = zavora_xlsx::utility::parse_range_ref("A1:B").unwrap_err();
    assert_eq!(e.message(), "no row in 'B'");
    let e = zavora_xlsx::utility::col_from_letter("").unwrap_err();
    assert_eq!(e.message(), "empty column");
}

#[test]
fn sheet_name_error_messages() {
    let m = |n: &str| zavora_xlsx::protection::validate_sheet_name(n).unwrap_err().message().clone();
    assert_eq!(m(""), "Sheet name cannot be empty");
    assert_eq!(m("a/b[c"), "Sheet name 'a/b[c' contains invalid character '/'");
    let long = "x".repeat(32);
    assert_eq!(m(&long), format!("Sheet name '{long}' exceeds 31 characters"));
    assert!(zavora_xlsx::protection::validate_sheet_name("Data 2024").is_ok());
}
