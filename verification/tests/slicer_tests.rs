use zavora_xlsx::slicers::{parse_slicers, parse_timelines, TimelineLevel};

#[test]
fn slicers_read_name_caption_source_and_style() {
    let xml = br#"<?xml version="1.0"?>
<slicers xmlns="http://schemas.microsoft.com/office/spreadsheetml/2009/9/main">
  <slicer name="Region 1" cache="Slicer_Sales_Region" caption="Region" rowHeight="241300"/>
  <slicer name="Other" cache="Cache2" caption="Cap" style="SlicerStyleDark2"/>
</slicers>"#;
    let s = parse_slicers(xml);
    assert_eq!(s.len(), 2);
    assert_eq!(s[0].name, "Region 1");
    assert_eq!(s[0].caption, "Region");
    assert_eq!(s[0].source_name, "Sales Region");
    assert_eq!(s[0].style, "SlicerStyleLight1");
    assert_eq!((s[0].row, s[0].col, s[0].width, s[0].height), (0, 0, 200, 300));
    assert!(s[0].pivot_cache_name.is_none() && s[0].table_id.is_none() && s[0].column_index.is_none());
    assert_eq!(s[1].source_name, "Cap");
    assert_eq!(s[1].style, "SlicerStyleDark2");
}

#[test]
fn slicers_of_broken_part_stop_at_the_error() {
    assert!(parse_slicers(b"not xml").is_empty());
}

#[test]
fn timelines_read_level() {
    let xml = br#"<timelines>
  <timeline name="T1" cache="NativeTimeline_Order_Date" caption="Order Date" level="0"/>
  <timeline name="T2" cache="X" caption="C" level="3"/>
  <timeline name="T3" cache="X" caption="C"/>
  <timeline name="T4" cache="X" caption="C" level="9"/>
  <timeline name="T5" cache="X" caption="C" level="1"/>
</timelines>"#;
    let t = parse_timelines(xml);
    assert_eq!(t.len(), 5);
    assert_eq!(t[0].source_name, "Order Date");
    assert_eq!(t[0].level, TimelineLevel::Years);
    assert_eq!(t[1].level, TimelineLevel::Days);
    assert_eq!(t[1].source_name, "C");
    assert_eq!(t[2].level, TimelineLevel::Months);
    assert_eq!(t[3].level, TimelineLevel::Months);
    assert_eq!(t[4].level, TimelineLevel::Quarters);
}

#[test]
fn table_part_is_read() {
    let xml = br#"<?xml version="1.0"?>
<table xmlns="http://schemas.openxmlformats.org/spreadsheetml/2006/main" id="1" name="Table1" displayName="Table1" ref="A1:C4" totalsRowShown="0" totalsRowCount="1">
  <autoFilter ref="A1:C3"/>
  <tableColumns count="3">
    <tableColumn id="1" name="Item" totalsRowLabel="Total"/>
    <tableColumn id="2" name="Qty" totalsRowFunction="sum"/>
    <tableColumn id="3"/>
  </tableColumns>
  <tableStyleInfo name="TableStyleMedium9" showRowStripes="1"/>
</table>"#;
    let t = zavora_xlsx::tables::read_table(xml).unwrap();
    assert_eq!(t.name.as_deref(), Some("Table1"));
    assert_eq!(t.range, Some((0, 0, 3, 2)));
    assert_eq!(t.total_row, Some(true));
    assert!(t.autofilter);
    assert_eq!(t.columns.len(), 3);
    assert_eq!(t.columns[0].name, "Item");
    assert_eq!(t.columns[0].total_label.as_deref(), Some("Total"));
    assert_eq!(t.columns[1].total_function.as_deref(), Some("sum"));
    assert_eq!(t.columns[2].name, "");
    assert_eq!(t.style, Some(zavora_xlsx::tables::TableStyle::Medium(9)));
}

#[test]
fn table_part_without_extras() {
    let xml = br#"<table name="T" ref="bad" totalsRowShown="1"><tableStyleInfo name="Custom"/></table>"#;
    let t = zavora_xlsx::tables::read_table(xml).unwrap();
    assert_eq!(t.range, None);
    assert_eq!(t.total_row, Some(true));
    assert!(!t.autofilter);
    assert_eq!(t.style, None);
}
