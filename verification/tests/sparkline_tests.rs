use zavora_xlsx::sparklines::{parse_sparklines, SparklineType};

const SHEET: &str = r#"<?xml version="1.0"?>
<worksheet xmlns="http://schemas.openxmlformats.org/spreadsheetml/2006/main" xmlns:x14="http://schemas.microsoft.com/office/spreadsheetml/2009/9/main" xmlns:xm="http://schemas.microsoft.com/office/excel/2006/main">
  <sheetData/>
  <extLst>
    <ext uri="{05C60535-1F16-4fd2-B633-F4F36F0B64E0}">
      <x14:sparklineGroups>
        <x14:sparklineGroup type="column">
          <x14:color rgb="FF376092"/>
          <x14:sparklines>
            <x14:sparkline><xm:f>Sheet1!B1:B10</xm:f><xm:sqref>A1</xm:sqref></x14:sparkline>
            <x14:sparkline><xm:f>Sheet1!C1:C10</xm:f><xm:sqref>not-a-cell</xm:sqref></x14:sparkline>
            <x14:sparkline><xm:f></xm:f><xm:sqref>A3</xm:sqref></x14:sparkline>
          </x14:sparklines>
        </x14:sparklineGroup>
        <x14:sparklineGroup>
          <x14:colorSeries><x14:rgbColor rgb="FFC00000"/></x14:colorSeries>
          <x14:sparklines>
            <x14:sparkline><xm:f>Data!A1:E1</xm:f><xm:sqref>F1</xm:sqref></x14:sparkline>
          </x14:sparklines>
        </x14:sparklineGroup>
        <x14:sparklineGroup type="stacked">
          <x14:sparklines>
            <x14:sparkline><xm:sqref>G7</xm:sqref><xm:f>Data!A2:E2</xm:f></x14:sparkline>
          </x14:sparklines>
        </x14:sparklineGroup>
      </x14:sparklineGroups>
    </ext>
  </extLst>
</worksheet>"#;

#[test]
fn sparklines_are_read_with_their_groups() {
    let s = parse_sparklines(SHEET.as_bytes());
    assert_eq!(s.len(), 3);
    assert_eq!(s[0].data_range, "Sheet1!B1:B10");
    assert_eq!(s[0].sparkline_type, SparklineType::Column);
    assert_eq!((s[0].row, s[0].col), (0, 0));
    assert_eq!(s[0].color, Some([0x37, 0x60, 0x92]));
    assert_eq!(s[1].data_range, "Data!A1:E1");
    assert_eq!(s[1].sparkline_type, SparklineType::Line);
    assert_eq!((s[1].row, s[1].col), (0, 5));
    assert_eq!(s[1].color, Some([0xC0, 0x00, 0x00]));
    assert_eq!(s[2].sparkline_type, SparklineType::WinLoss);
    assert_eq!((s[2].row, s[2].col), (6, 6));
    assert_eq!(s[2].data_range, "Data!A2:E2");
    assert_eq!(s[2].color, None);
}

#[test]
fn no_sparklines_gives_nothing() {
    assert!(parse_sparklines(b"<worksheet><sheetData/></worksheet>").is_empty());
    assert!(parse_sparklines(b"not xml at all").is_empty());
}

#[test]
fn an_unfinished_sparkline_counts_with_what_was_read() {
    let data = br#"<x14:sparklineGroup type="line"><x14:sparkline><xm:f>S!A1:A5</xm:f><xm:sqref>B2</xm:sqref>"#;
    let s = parse_sparklines(data);
    assert_eq!(s.len(), 1);
    assert_eq!((s[0].row, s[0].col), (1, 1));
}
