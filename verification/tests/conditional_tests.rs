use zavora_xlsx::conditional::{
    parse_conditional_formats, AverageType, CfOperator, CfRule, DateOccurring, IconSetType, TextOperator,
    TopBottomType,
};
use zavora_xlsx::format::{BorderStyle, Pattern, Underline};
use zavora_xlsx::numbers::reads_as_float;
use zavora_xlsx::style_parser::{DxfRecord, ParsedBorder, ParsedBorderSide, ParsedFill, ParsedFont};

fn red_fill_dxf() -> DxfRecord {
    DxfRecord {
        font: Some(ParsedFont {
            bold: true,
            italic: false,
            underline: Underline::NoUnderline,
            strikethrough: false,
            size_x100: 1200,
            name: "Arial".to_string(),
            color: Some([0x9C, 0x00, 0x06]),
        }),
        fill: Some(ParsedFill { pattern: Pattern::Solid, fg_color: Some([0xFF, 0xC7, 0xCE]), bg_color: None }),
        border: None,
        num_fmt: None,
    }
}

fn border_dxf() -> DxfRecord {
    let side = ParsedBorderSide { style: BorderStyle::Thin, color: Some([0, 0, 0]) };
    DxfRecord {
        font: None,
        fill: None,
        border: Some(ParsedBorder {
            left: side,
            right: side,
            top: side,
            bottom: side,
            diagonal: ParsedBorderSide { style: BorderStyle::NoBorder, color: None },
        }),
        num_fmt: Some((164, "0.00%".to_string())),
    }
}

fn empty_dxf() -> DxfRecord {
    DxfRecord { font: None, fill: None, border: None, num_fmt: None }
}

const SHEET: &str = r#"<?xml version="1.0"?>
<worksheet xmlns="http://schemas.openxmlformats.org/spreadsheetml/2006/main">
  <sheetData/>
  <conditionalFormatting sqref="A1:A10">
    <cfRule type="cellIs" dxfId="0" priority="1" operator="greaterThan"><formula>100</formula></cfRule>
    <cfRule type="cellIs" priority="2" operator="between"><formula>1.5</formula><formula>-2e3</formula></cfRule>
    <cfRule type="cellIs" priority="3" operator="between"><formula>1</formula><formula>$B$1</formula></cfRule>
    <cfRule type="cellIs" priority="4" operator="equal"><formula>"text"</formula></cfRule>
    <cfRule type="cellIs" priority="5" operator="sideways"><formula>1</formula></cfRule>
  </conditionalFormatting>
  <conditionalFormatting sqref="B2 C3:C4">
    <cfRule type="colorScale" priority="6"><colorScale><cfvo type="min"/><cfvo type="max"/><color rgb="FFF8696B"/><color rgb="FF63BE7B"/></colorScale></cfRule>
    <cfRule type="colorScale" priority="7"><colorScale><cfvo type="min"/><cfvo type="percentile" val="50"/><cfvo type="max"/><color rgb="FFF8696B"/><color rgb="FFFFEB84"/><color rgb="FF63BE7B"/></colorScale></cfRule>
    <cfRule type="colorScale" priority="8"><colorScale><color rgb="FFF8696B"/></colorScale></cfRule>
    <cfRule type="dataBar" priority="9"><dataBar><cfvo type="min"/><cfvo type="max"/><color rgb="FF638EC6"/></dataBar></cfRule>
    <cfRule type="dataBar" priority="10"><dataBar><cfvo type="min"/><cfvo type="max"/></dataBar></cfRule>
    <cfRule type="iconSet" priority="11"><iconSet iconSet="5Arrows"><cfvo type="percent" val="0"/></iconSet></cfRule>
    <cfRule type="iconSet" priority="12"><iconSet><cfvo type="percent" val="0"/></iconSet></cfRule>
  </conditionalFormatting>
  <conditionalFormatting sqref="D1:D5">
    <cfRule type="expression" dxfId="1" priority="13"><formula>MOD(ROW(),2)=0&amp;TRUE</formula></cfRule>
    <cfRule type="expression" priority="14"><formula></formula></cfRule>
    <cfRule type="top10" dxfId="2" priority="15" rank="5" bottom="1" percent="true"/>
    <cfRule type="top10" priority="16"/>
    <cfRule type="containsText" dxfId="7" priority="17" text="abc" operator="containsText"><formula>NOT(ISERROR(SEARCH("abc",D1)))</formula></cfRule>
    <cfRule type="endsWith" priority="18" text="z"/>
    <cfRule type="duplicateValues" dxfId="0" priority="19"/>
    <cfRule type="uniqueValues" priority="20"/>
    <cfRule type="aboveAverage" priority="21" aboveAverage="0" equalAverage="1"/>
    <cfRule type="aboveAverage" priority="22"/>
    <cfRule type="timePeriod" priority="23" timePeriod="last7Days"/>
    <cfRule type="timePeriod" priority="24" timePeriod="someday"/>
    <cfRule type="somethingNew" priority="25"/>
  </conditionalFormatting>
  <conditionalFormatting sqref="not a range">
    <cfRule type="duplicateValues" priority="26"/>
  </conditionalFormatting>
</worksheet>"#;

#[test]
fn conditional_formats_are_read_in_order() {
    let dxfs = vec![red_fill_dxf(), border_dxf(), empty_dxf()];
    let cfs = parse_conditional_formats(SHEET.as_bytes(), &dxfs);
    assert_eq!(cfs.len(), 19);

    assert_eq!(cfs[0].range, (0, 0, 9, 0));
    assert_eq!(cfs[0].dxf_id, Some(0));
    match &cfs[0].rule {
        CfRule::CellIs { operator, value, value2, format } => {
            assert_eq!(*operator, CfOperator::GreaterThan);
            assert_eq!(value, "100");
            assert!(value2.is_none());
            let f = format.as_ref().expect("dxf 0 resolves");
            assert!(f.bold);
            assert_eq!(f.font_size_x100, 1200);
            assert_eq!(f.font_name, "Arial");
            assert_eq!(f.font_color, Some([0x9C, 0x00, 0x06]));
            assert_eq!(f.pattern, Pattern::Solid);
            assert_eq!(f.fg_color, Some([0xFF, 0xC7, 0xCE]));
            assert_eq!(f.border_left, BorderStyle::NoBorder);
            assert_eq!(f.num_format, "");
        }
        _ => panic!("expected a cellIs rule"),
    }
    match &cfs[1].rule {
        CfRule::CellIs { operator, value, value2, format } => {
            assert_eq!(*operator, CfOperator::Between);
            assert_eq!(value, "1.5");
            assert_eq!(value2.as_deref(), Some("-2e3"));
            assert!(format.is_none());
        }
        _ => panic!("expected a cellIs rule"),
    }
    match &cfs[2].rule {
        CfRule::CellIs { value, value2, .. } => {
            assert_eq!(value, "1");
            assert!(value2.is_none());
        }
        _ => panic!("expected a cellIs rule"),
    }

    assert_eq!(cfs[3].range, (1, 1, 1, 1));
    match &cfs[3].rule {
        CfRule::TwoColorScale { min_color, max_color } => {
            assert_eq!(*min_color, [0xF8, 0x69, 0x6B]);
            assert_eq!(*max_color, [0x63, 0xBE, 0x7B]);
        }
        _ => panic!("expected a two-color scale"),
    }
    match &cfs[4].rule {
        CfRule::ThreeColorScale { mid_color, .. } => assert_eq!(*mid_color, [0xFF, 0xEB, 0x84]),
        _ => panic!("expected a three-color scale"),
    }
    match &cfs[5].rule {
        CfRule::DataBar { color, gradient } => {
            assert_eq!(*color, [0x63, 0x8E, 0xC6]);
            assert!(!gradient);
        }
        _ => panic!("expected a data bar"),
    }
    match &cfs[6].rule {
        CfRule::DataBar { color, .. } => assert_eq!(*color, [99, 142, 198]),
        _ => panic!("expected a data bar"),
    }
    match &cfs[7].rule {
        CfRule::IconSet(t) => assert_eq!(*t, IconSetType::FiveArrows),
        _ => panic!("expected an icon set"),
    }
    match &cfs[8].rule {
        CfRule::IconSet(t) => assert_eq!(*t, IconSetType::ThreeTrafficLights),
        _ => panic!("expected an icon set"),
    }

    assert_eq!(cfs[9].range, (0, 3, 4, 3));
    match &cfs[9].rule {
        CfRule::Expression { formula, format } => {
            assert_eq!(formula, "MOD(ROW(),2)=0&TRUE");
            let f = format.as_ref().expect("dxf 1 resolves");
            assert_eq!(f.border_left, BorderStyle::Thin);
            assert_eq!(f.border_bottom_color, Some([0, 0, 0]));
            assert_eq!(f.num_format, "0.00%");
            assert!(!f.bold);
            assert_eq!(f.font_name, "Calibri");
        }
        _ => panic!("expected an expression rule"),
    }
    match &cfs[10].rule {
        CfRule::TopBottom { kind, rank, format } => {
            assert_eq!(*kind, TopBottomType::BottomPercent);
            assert_eq!(*rank, 5);
            assert!(format.is_none());
        }
        _ => panic!("expected a top/bottom rule"),
    }
    assert_eq!(cfs[10].dxf_id, Some(2));
    match &cfs[11].rule {
        CfRule::TopBottom { kind, rank, .. } => {
            assert_eq!(*kind, TopBottomType::Top);
            assert_eq!(*rank, 10);
        }
        _ => panic!("expected a top/bottom rule"),
    }
    match &cfs[12].rule {
        CfRule::Text { operator, text, format } => {
            assert_eq!(*operator, TextOperator::Contains);
            assert_eq!(text, "abc");
            assert!(format.is_none());
        }
        _ => panic!("expected a text rule"),
    }
    assert_eq!(cfs[12].dxf_id, Some(7));
    match &cfs[13].rule {
        CfRule::Text { operator, text, .. } => {
            assert_eq!(*operator, TextOperator::EndsWith);
            assert_eq!(text, "z");
        }
        _ => panic!("expected a text rule"),
    }
    match &cfs[14].rule {
        CfRule::Duplicate { format } => assert!(format.as_ref().map(|f| f.bold).unwrap_or(false)),
        _ => panic!("expected a duplicate rule"),
    }
    assert!(matches!(cfs[15].rule, CfRule::Unique { format: None }));
    match &cfs[16].rule {
        CfRule::Average { kind, .. } => assert_eq!(*kind, AverageType::BelowOrEqual),
        _ => panic!("expected an average rule"),
    }
    match &cfs[17].rule {
        CfRule::Average { kind, .. } => assert_eq!(*kind, AverageType::Above),
        _ => panic!("expected an average rule"),
    }
    match &cfs[18].rule {
        CfRule::Date { period, .. } => assert_eq!(*period, DateOccurring::Last7Days),
        _ => panic!("expected a date rule"),
    }
}

#[test]
fn no_conditional_formatting_gives_nothing() {
    let cfs = parse_conditional_formats(b"<worksheet><sheetData/></worksheet>", &[]);
    assert!(cfs.is_empty());
}

#[test]
fn an_unfinished_rule_counts_with_what_was_read() {
    let data = br#"<worksheet><conditionalFormatting sqref="E5"><cfRule type="cellIs" operator="lessThan"><formula>7</formula>"#;
    let cfs = parse_conditional_formats(data, &[]);
    assert_eq!(cfs.len(), 1);
    assert_eq!(cfs[0].range, (4, 4, 4, 4));
    match &cfs[0].rule {
        CfRule::CellIs { operator, value, .. } => {
            assert_eq!(*operator, CfOperator::LessThan);
            assert_eq!(value, "7");
        }
        _ => panic!("expected a cellIs rule"),
    }
}

#[test]
fn float_syntax_matches_std() {
    for s in ["1", "-1", "+1.5", "1.", ".5", "1e10", "1E-3", "2.5e+7", "inf", "-Infinity", "NaN", "+nan", "007"] {
        assert!(reads_as_float(s), "{s}");
        assert!(s.parse::<f64>().is_ok(), "{s}");
    }
    for s in ["", ".", "e5", "1e", "1e+", "+", "1.2.3", " 1", "1 ", "infin", "0x10", "1,5", "--1"] {
        assert!(!reads_as_float(s), "{s}");
        assert!(s.parse::<f64>().is_err(), "{s}");
    }
}
