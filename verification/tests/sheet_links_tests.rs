use zavora_xlsx::sheet_links::{apply_print_titles, read_comments_for_worksheet, resolve_hyperlinks_for_worksheet};
use zavora_xlsx::sheet_reader::{ParsedHyperlink, PrintSettings};
use zavora_xlsx::workbook::{DefinedName, DefinedNameScope};
use zavora_xlsx::worksheet::{Comment, Hyperlink};

fn dn(name: &str, formula: &str, scope: DefinedNameScope) -> DefinedName {
    DefinedName { name: name.to_string(), formula: formula.to_string(), scope }
}

#[test]
fn print_titles_set_repeat_rows_and_columns() {
    let names = vec!["Data".to_string(), "My Sheet".to_string()];
    let mut settings: Vec<Option<PrintSettings>> = vec![None, None];
    let defined = vec![
        dn("_xlnm.Print_Titles", "'My Sheet'!$1:$3, 'My Sheet'!$A:$B", DefinedNameScope::Workbook),
        dn("_XLNM.print_titles", "Data!$2:$2", DefinedNameScope::Sheet(0)),
        dn("TaxRate", "Data!$1:$9", DefinedNameScope::Sheet(0)),
        dn("_xlnm.Print_Titles", "Data!$5:$6", DefinedNameScope::Sheet(7)),
        dn("_xlnm.Print_Titles", "Nowhere!$5:$6", DefinedNameScope::Workbook),
    ];
    apply_print_titles(&defined, &names, &mut settings);
    let first = settings[0].as_ref().unwrap();
    assert_eq!(first.repeat_rows, Some((1, 1)));
    assert_eq!(first.repeat_cols, None);
    let second = settings[1].as_ref().unwrap();
    assert_eq!(second.repeat_rows, Some((0, 2)));
    assert_eq!(second.repeat_cols, Some((0, 1)));
}

#[test]
fn print_titles_keep_other_settings() {
    let names = vec!["S".to_string()];
    let mut settings = vec![Some(PrintSettings::new().paper_size(9).header("H"))];
    let defined = vec![dn("_xlnm.Print_Titles", "S!$C:$D", DefinedNameScope::Workbook)];
    apply_print_titles(&defined, &names, &mut settings);
    let s = settings[0].as_ref().unwrap();
    assert_eq!(s.paper_size, Some(9));
    assert_eq!(s.header.as_deref(), Some("H"));
    assert_eq!(s.repeat_cols, Some((2, 3)));
    assert_eq!(s.repeat_rows, None);
}

#[test]
fn print_titles_unreadable_reference_still_creates_settings() {
    let names = vec!["S".to_string()];
    let mut settings: Vec<Option<PrintSettings>> = vec![None];
    let defined = vec![dn("_xlnm.Print_Titles", "S!junk", DefinedNameScope::Workbook)];
    apply_print_titles(&defined, &names, &mut settings);
    let s = settings[0].as_ref().unwrap();
    assert_eq!(s.repeat_rows, None);
    assert_eq!(s.repeat_cols, None);
}

fn link(cell: &str, rid: Option<&str>, location: Option<&str>) -> ParsedHyperlink {
    ParsedHyperlink {
        cell_ref: cell.to_string(),
        rid: rid.map(|s| s.to_string()),
        location: location.map(|s| s.to_string()),
        display: None,
        tooltip: Some("tip".to_string()),
    }
}

#[test]
fn hyperlinks_resolve_through_relationships() {
    let rels = br#"<?xml version="1.0"?>
<Relationships xmlns="http://schemas.openxmlformats.org/package/2006/relationships">
  <Relationship Id="rId1" Type="hyperlink" Target="https://example.com" TargetMode="External"/>
  <Relationship Id="rId1" Type="hyperlink" Target="https://later.example.com" TargetMode="External"/>
</Relationships>"#;
    let parsed = vec![
        link("B2", Some("rId1"), None),
        link("C3", None, Some("Sheet2!A1")),
        link("not a ref", Some("rId1"), None),
        link("D4", Some("rId9"), None),
    ];
    let mut links: Vec<Hyperlink> = Vec::new();
    resolve_hyperlinks_for_worksheet(&mut links, &parsed, Some(&rels[..]));
    assert_eq!(links.len(), 3);
    assert_eq!((links[0].row, links[0].col), (1, 1));
    assert_eq!(links[0].url, "https://later.example.com");
    assert_eq!(links[0].tooltip.as_deref(), Some("tip"));
    assert_eq!(links[1].url, "");
    assert_eq!(links[1].location.as_deref(), Some("Sheet2!A1"));
    assert_eq!((links[2].row, links[2].col), (3, 3));
    assert_eq!(links[2].url, "");
}

#[test]
fn hyperlinks_without_relationships_have_empty_urls() {
    let parsed = vec![link("A1", Some("rId1"), None)];
    let mut links: Vec<Hyperlink> = Vec::new();
    resolve_hyperlinks_for_worksheet(&mut links, &parsed, None);
    assert_eq!(links.len(), 1);
    assert_eq!(links[0].url, "");
    resolve_hyperlinks_for_worksheet(&mut links, &parsed, Some(b"<broken".as_slice()));
    assert_eq!(links.len(), 2);
}

#[test]
fn comments_replace_the_sheet_comments() {
    let xml = br#"<?xml version="1.0"?>
<comments xmlns="http://schemas.openxmlformats.org/spreadsheetml/2006/main">
  <authors><author>Ann</author></authors>
  <commentList>
    <comment ref="B3" authorId="0"><text><t>Hi</t></text></comment>
  </commentList>
</comments>"#;
    let mut comments = vec![Comment { row: 9, col: 9, text: "old".to_string(), author: "x".to_string() }];
    read_comments_for_worksheet(&mut comments, None);
    assert_eq!(comments.len(), 1);
    read_comments_for_worksheet(&mut comments, Some(&xml[..]));
    assert_eq!(comments.len(), 1);
    assert_eq!((comments[0].row, comments[0].col), (2, 1));
    assert_eq!(comments[0].text, "Hi");
    assert_eq!(comments[0].author, "Ann");
}
