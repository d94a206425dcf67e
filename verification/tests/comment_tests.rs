use zavora_xlsx::comments::parse_comments;
use zavora_xlsx::rels::find_comments_path_from_rels;

#[test]
fn test_parse_comments_basic() {
    let xml = br#"<?xml version="1.0" encoding="UTF-8" standalone="yes"?>
<comments xmlns="http://schemas.openxmlformats.org/spreadsheetml/2006/main">
  <authors>
    <author>Alice</author>
    <author>Bob</author>
  </authors>
  <commentList>
    <comment ref="A1" authorId="0">
      <text><r><t>Hello from Alice</t></r></text>
    </comment>
    <comment ref="B2" authorId="1">
      <text><r><t>Hello from Bob</t></r></text>
    </comment>
  </commentList>
</comments>"#;

    let comments = parse_comments(xml);
    assert_eq!(comments.len(), 2);

    assert_eq!(comments[0].row, 0);
    assert_eq!(comments[0].col, 0);
    assert_eq!(comments[0].text, "Hello from Alice");
    assert_eq!(comments[0].author, "Alice");

    assert_eq!(comments[1].row, 1);
    assert_eq!(comments[1].col, 1);
    assert_eq!(comments[1].text, "Hello from Bob");
    assert_eq!(comments[1].author, "Bob");
}

#[test]
fn test_parse_comments_plain_text() {
    let xml = br#"<?xml version="1.0" encoding="UTF-8" standalone="yes"?>
<comments xmlns="http://schemas.openxmlformats.org/spreadsheetml/2006/main">
  <authors><author>Test</author></authors>
  <commentList>
    <comment ref="C3" authorId="0">
      <text><t>Plain text comment</t></text>
    </comment>
  </commentList>
</comments>"#;

    let comments = parse_comments(xml);
    assert_eq!(comments.len(), 1);
    assert_eq!(comments[0].row, 2);
    assert_eq!(comments[0].col, 2);
    assert_eq!(comments[0].text, "Plain text comment");
    assert_eq!(comments[0].author, "Test");
}

#[test]
fn test_parse_comments_malformed_returns_empty() {
    let bad_xml = b"this is not xml at all";
    let comments = parse_comments(bad_xml);
    assert!(comments.is_empty());
}

#[test]
fn test_parse_comments_empty_file() {
    let xml = br#"<?xml version="1.0" encoding="UTF-8" standalone="yes"?>
<comments xmlns="http://schemas.openxmlformats.org/spreadsheetml/2006/main">
  <authors></authors>
  <commentList></commentList>
</comments>"#;

    let comments = parse_comments(xml);
    assert!(comments.is_empty());
}

#[test]
fn test_find_comments_path_from_rels() {
    let rels_xml = br#"<?xml version="1.0" encoding="UTF-8" standalone="yes"?>
<Relationships xmlns="http://schemas.openxmlformats.org/package/2006/relationships">
  <Relationship Id="rId1" Type="http://schemas.openxmlformats.org/officeDocument/2006/relationships/comments" Target="../comments1.xml"/>
  <Relationship Id="rId2" Type="http://schemas.openxmlformats.org/officeDocument/2006/relationships/vmlDrawing" Target="../drawings/vmlDrawing1.vml"/>
</Relationships>"#;

    let path = find_comments_path_from_rels(rels_xml);
    assert_eq!(path, Some("xl/comments1.xml".to_string()));
}

#[test]
fn test_find_comments_path_no_comments_rel() {
    let rels_xml = br#"<?xml version="1.0" encoding="UTF-8" standalone="yes"?>
<Relationships xmlns="http://schemas.openxmlformats.org/package/2006/relationships">
  <Relationship Id="rId1" Type="http://schemas.openxmlformats.org/officeDocument/2006/relationships/drawing" Target="../drawings/drawing1.xml"/>
</Relationships>"#;

    let path = find_comments_path_from_rels(rels_xml);
    assert!(path.is_none());
}

#[test]
fn test_parse_comments_multi_run_text() {
    let xml = br#"<?xml version="1.0" encoding="UTF-8" standalone="yes"?>
<comments xmlns="http://schemas.openxmlformats.org/spreadsheetml/2006/main">
  <authors><author>Author</author></authors>
  <commentList>
    <comment ref="A1" authorId="0">
      <text>
        <r><t>First part </t></r>
        <r><t>second part</t></r>
      </text>
    </comment>
  </commentList>
</comments>"#;

    let comments = parse_comments(xml);
    assert_eq!(comments.len(), 1);
    assert_eq!(comments[0].text, "First part second part");
}

#[test]
fn comment_with_unknown_author_and_bad_ref() {
    let xml = br#"<comments><authors><author>Only</author></authors><commentList>
<comment ref="D4" authorId="5"><text><t>a</t></text></comment>
<comment ref="nonsense" authorId="x"><text><t>b</t></text></comment>
</commentList></comments>"#;
    let comments = parse_comments(xml);
    assert_eq!(comments.len(), 2);
    assert_eq!(comments[0].author, "");
    assert_eq!((comments[0].row, comments[0].col), (3, 3));
    // An unreadable reference keeps the previous position; a bad authorId means author 0.
    assert_eq!((comments[1].row, comments[1].col), (3, 3));
    assert_eq!(comments[1].author, "Only");
}
