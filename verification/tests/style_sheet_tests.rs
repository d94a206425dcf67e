use zavora_xlsx::format::{BorderStyle, Pattern, Underline};
use zavora_xlsx::numbers::{parse_i16, parse_rgb_color, parse_size_x100, parse_unsigned};
use zavora_xlsx::style_parser::builtin_num_format;
use zavora_xlsx::style_registry::StyleRegistry;
use zavora_xlsx::style_sheet::parse_styles;

const STYLES: &str = r#"<?xml version="1.0" encoding="UTF-8" standalone="yes"?>
<styleSheet xmlns="http://schemas.openxmlformats.org/spreadsheetml/2006/main">
<numFmts count="1"><numFmt numFmtId="164" formatCode="0.000"/></numFmts>
<fonts count="2">
<font><sz val="11"/><name val="Calibri"/></font>
<font><b/><i/><u val="double"/><sz val="14.5"/><color rgb="FFFF0000"/><name val="Arial"/></font>
</fonts>
<fills count="2">
<fill><patternFill patternType="none"/></fill>
<fill><patternFill patternType="solid"><fgColor rgb="FF00FF00"/><bgColor rgb="0000FF"/></patternFill></fill>
</fills>
<borders count="1">
<border><left style="thin"><color rgb="FF123456"/></left><right/><top style="double"/><bottom/><diagonal/></border>
</borders>
<cellXfs count="3">
<xf numFmtId="0" fontId="0" fillId="0" borderId="0"/>
<xf numFmtId="164" fontId="1" fillId="1" borderId="0"><alignment horizontal="center" vertical="top" wrapText="1" indent="2" textRotation="-45"/></xf>
<xf numFmtId="14" fontId="0" fillId="0" borderId="0"/>
</cellXfs>
<dxfs count="1"><dxf><font><b/></font><fill><patternFill><bgColor rgb="FFFFFF00"/></patternFill></fill><numFmt numFmtId="165" formatCode="0%"/></dxf></dxfs>
</styleSheet>"#;

#[test]
fn parse_styles_reads_every_table() {
    let s = parse_styles(STYLES.as_bytes()).unwrap();
    assert_eq!(s.num_formats, vec![(164u16, "0.000".to_string())]);
    assert_eq!(s.xf_num_fmt_ids, vec![0, 164, 14]);
    assert_eq!(s.fonts.len(), 2);
    assert_eq!(s.fonts[0].name, "Calibri");
    assert_eq!(s.fonts[0].size_x100, 1100);
    let f = &s.fonts[1];
    assert!(f.bold && f.italic);
    assert_eq!(f.underline, Underline::Double);
    assert_eq!(f.size_x100, 1450);
    assert_eq!(f.color, Some([255, 0, 0]));
    assert_eq!(f.name, "Arial");
    assert_eq!(s.fills.len(), 2);
    assert_eq!(s.fills[0].pattern, Pattern::NoFill);
    assert_eq!(s.fills[1].pattern, Pattern::Solid);
    assert_eq!(s.fills[1].fg_color, Some([0, 255, 0]));
    assert_eq!(s.fills[1].bg_color, Some([0, 0, 255]));
    assert_eq!(s.borders.len(), 1);
    assert_eq!(s.borders[0].left.style, BorderStyle::Thin);
    assert_eq!(s.borders[0].left.color, Some([0x12, 0x34, 0x56]));
    assert_eq!(s.borders[0].top.style, BorderStyle::Double);
    assert_eq!(s.borders[0].right.style, BorderStyle::NoBorder);
    assert_eq!(s.xf_records.len(), 3);
    let xf = &s.xf_records[1];
    assert_eq!((xf.font_id, xf.fill_id, xf.border_id, xf.num_fmt_id), (1, 1, 0, 164));
    assert_eq!(xf.alignment.horizontal, 2);
    assert_eq!(xf.alignment.vertical, 1);
    assert!(xf.alignment.wrap_text);
    assert_eq!(xf.alignment.indent, 2);
    assert_eq!(xf.alignment.rotation, -45);
    assert_eq!(s.dxf_records.len(), 1);
    let d = &s.dxf_records[0];
    assert!(d.font.as_ref().unwrap().bold);
    assert_eq!(d.fill.unwrap().bg_color, Some([255, 255, 0]));
    assert_eq!(d.num_fmt, Some((165u16, "0%".to_string())));
    assert!(d.border.is_none());
}

#[test]
fn parse_styles_rejects_broken_xml() {
    assert!(parse_styles(b"<styleSheet><fonts></styleSheet").is_err());
}

#[test]
fn parse_styles_of_nothing_has_default_number_format_id() {
    let s = parse_styles(b"").unwrap();
    assert_eq!(s.xf_num_fmt_ids, vec![0]);
    assert!(s.fonts.is_empty() && s.xf_records.is_empty());
}

#[test]
fn unterminated_font_is_kept() {
    let s = parse_styles(b"<styleSheet><fonts><font><b/>").unwrap();
    assert_eq!(s.fonts.len(), 1);
    assert!(s.fonts[0].bold);
}

#[test]
fn fonts_inside_dxfs_are_not_fonts() {
    let s = parse_styles(b"<styleSheet><fonts><dxfs><font><b/></font></dxfs></fonts></styleSheet>")
        .unwrap();
    assert!(s.fonts.is_empty());
}

#[test]
fn resolve_format_fills_in_the_record() {
    let s = parse_styles(STYLES.as_bytes()).unwrap();
    let f = s.resolve_format(1).unwrap();
    assert!(f.bold && f.italic);
    assert_eq!(f.font_name, "Arial");
    assert_eq!(f.font_size_x100, 1450);
    assert_eq!(f.pattern, Pattern::Solid);
    assert_eq!(f.h_align, 2);
    assert_eq!(f.num_format, "0.000");
    let g = s.resolve_format(2).unwrap();
    assert_eq!(g.num_format, "mm-dd-yy");
    assert!(s.resolve_format(3).is_none());
    let base = s.resolve_format(0).unwrap();
    assert_eq!(base.num_format, "");
}

#[test]
fn parsed_styles_import_into_registry() {
    let s = parse_styles(STYLES.as_bytes()).unwrap();
    let mut reg = StyleRegistry::new();
    reg.import_parsed(&s);
    assert_eq!(reg.xf_records.len(), 3);
    assert_eq!(reg.xf_records[1].num_fmt_id, 164);
    assert_eq!(reg.next_custom_num_fmt_id, 165);
    assert_eq!(reg.fonts[1].size_x100, 1450);
}

#[test]
fn rgb_colors() {
    assert_eq!(parse_rgb_color(b"FF000000"), Some([0, 0, 0]));
    assert_eq!(parse_rgb_color(b"FFAbCdEf"), Some([0xAB, 0xCD, 0xEF]));
    assert_eq!(parse_rgb_color(b"102030"), Some([0x10, 0x20, 0x30]));
    assert_eq!(parse_rgb_color(b"+A0B0C"), Some([10, 0x0B, 0x0C]));
    assert_eq!(parse_rgb_color(b"12345"), None);
    assert_eq!(parse_rgb_color(b"GG0000"), None);
}

#[test]
fn std_number_reading() {
    assert_eq!(parse_unsigned("42", 65535), Some(42));
    assert_eq!(parse_unsigned("+7", 65535), Some(7));
    assert_eq!(parse_unsigned("65536", 65535), None);
    assert_eq!(parse_unsigned("-1", 65535), None);
    assert_eq!(parse_unsigned("", 65535), None);
    assert_eq!(parse_unsigned("+", 65535), None);
    assert_eq!(parse_unsigned(" 1", 65535), None);
    assert_eq!(parse_i16("-32768"), Some(-32768));
    assert_eq!(parse_i16("32768"), None);
    assert_eq!(parse_i16("-"), None);
    assert_eq!(parse_i16("+90"), Some(90));
}

#[test]
fn point_sizes() {
    assert_eq!(parse_size_x100("11"), Some(1100));
    assert_eq!(parse_size_x100("10.5"), Some(1050));
    assert_eq!(parse_size_x100("8.257"), Some(825));
    assert_eq!(parse_size_x100(".5"), Some(50));
    assert_eq!(parse_size_x100("-3"), Some(0));
    assert_eq!(parse_size_x100("abc"), None);
    assert_eq!(parse_size_x100("."), None);
}

#[test]
fn builtin_formats() {
    assert_eq!(builtin_num_format(14), Some("mm-dd-yy"));
    assert_eq!(builtin_num_format(49), Some("@"));
    assert_eq!(builtin_num_format(5), None);
}
