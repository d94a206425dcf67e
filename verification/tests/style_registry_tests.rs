use zavora_xlsx::format::{BorderStyle, Format, Pattern};
use zavora_xlsx::style_parser::{ParsedFill, ParsedFont, ParsedStyles, XfRecord as ParsedXf};
use zavora_xlsx::style_registry::StyleRegistry;

#[test]
fn default_format_is_zero() {
    let mut reg = StyleRegistry::new();
    let idx = reg.register_format(&Format::new());
    assert_eq!(idx, 0);
}

#[test]
fn dedup_identical_formats() {
    let mut reg = StyleRegistry::new();
    let f = Format::new().bold();
    let idx1 = reg.register_format(&f);
    let idx2 = reg.register_format(&f);
    assert_eq!(idx1, idx2);
    assert!(idx1 > 0); // not the default
}

#[test]
fn different_formats_different_indices() {
    let mut reg = StyleRegistry::new();
    let a = reg.register_format(&Format::new().bold());
    let b = reg.register_format(&Format::new().italic());
    assert_ne!(a, b);
}

#[test]
fn date_format_detection() {
    assert!(StyleRegistry::format_string_is_date("yyyy-mm-dd"));
    assert!(StyleRegistry::format_string_is_date("dd/mm/yyyy hh:mm"));
    assert!(!StyleRegistry::format_string_is_date("#,##0.00"));
    assert!(!StyleRegistry::format_string_is_date("\"Date: \"General"));
}

#[test]
fn default_registry_tables() {
    let reg = StyleRegistry::default();
    assert_eq!(reg.fonts.len(), 1);
    assert_eq!(reg.fonts[0].name, "Calibri");
    assert_eq!(reg.fonts[0].size_x100, 1100);
    assert_eq!(reg.fills.len(), 2);
    assert_eq!(reg.fills[1].pattern, 17);
    assert_eq!(reg.borders.len(), 1);
    assert_eq!(reg.xf_records.len(), 1);
    assert_eq!(reg.next_custom_num_fmt_id, 164);
}

#[test]
fn repeated_registration_changes_nothing() {
    let mut reg = StyleRegistry::new();
    let mut f = Format::new().bold();
    f.num_format = "0.000".to_string();
    f.bg_color = Some([255, 0, 0]);
    let first = reg.register_format(&f);
    let fonts = reg.fonts.len();
    let fills = reg.fills.len();
    let xfs = reg.xf_records.len();
    let nfs = reg.num_formats.len();
    let second = reg.register_format(&f);
    assert_eq!(first, second);
    assert_eq!(reg.fonts.len(), fonts);
    assert_eq!(reg.fills.len(), fills);
    assert_eq!(reg.xf_records.len(), xfs);
    assert_eq!(reg.num_formats.len(), nfs);
}

#[test]
fn custom_number_formats_get_fresh_ids() {
    let mut reg = StyleRegistry::new();
    let mut a = Format::new();
    a.num_format = "0.000".to_string();
    let mut b = Format::new();
    b.num_format = "#,##0.0".to_string();
    let ia = reg.register_format(&a);
    let ib = reg.register_format(&b);
    assert_eq!(reg.xf_records[ia as usize].num_fmt_id, 164);
    assert_eq!(reg.xf_records[ib as usize].num_fmt_id, 165);
    assert_eq!(reg.num_formats.len(), 2);
    assert_eq!(reg.next_custom_num_fmt_id, 166);
    let mut general = Format::new();
    general.num_format = "General".to_string();
    assert_eq!(reg.register_format(&general), 0);
}

#[test]
fn background_color_makes_solid_fill() {
    let mut reg = StyleRegistry::new();
    let mut f = Format::new();
    f.bg_color = Some([1, 2, 3]);
    let idx = reg.register_format(&f);
    let fill = &reg.fills[reg.xf_records[idx as usize].fill_id];
    assert_eq!(fill.pattern, 1);
    assert_eq!(fill.fg_rgb, Some([1, 2, 3]));
    assert_eq!(fill.bg_rgb, Some([1, 2, 3]));
    let mut g = Format::new();
    g.pattern = Pattern::Gray125;
    let gi = reg.register_format(&g);
    assert_eq!(reg.xf_records[gi as usize].fill_id, 1);
}

#[test]
fn border_and_alignment_are_recorded() {
    let mut reg = StyleRegistry::new();
    let mut f = Format::new();
    f.border_top = BorderStyle::Thin;
    f.h_align = 2;
    let idx = reg.register_format(&f);
    let xf = &reg.xf_records[idx as usize];
    assert_eq!(reg.borders[xf.border_id].top, 1);
    assert!(xf.alignment.is_some());
    assert_eq!(xf.alignment.as_ref().unwrap().horizontal, 2);
}

#[test]
fn named_cell_style_is_registered_once() {
    let mut reg = StyleRegistry::new();
    let mut f = Format::new().bold();
    f.cell_style = Some("Good".to_string());
    let a = reg.register_format(&f);
    let b = reg.register_format(&f);
    assert_eq!(a, b);
    assert_eq!(reg.cell_styles.len(), 2);
    assert_eq!(reg.cell_styles[1].builtin_id, 26);
    assert_eq!(reg.xf_style_ids[a as usize], 1);
}

#[test]
fn builtin_and_custom_date_ids() {
    assert!(StyleRegistry::is_date_format(14, &[]));
    assert!(StyleRegistry::is_date_format(22, &[]));
    assert!(!StyleRegistry::is_date_format(2, &[]));
    let custom = vec![(170u16, "yyyy".to_string()), (171u16, "0.00".to_string())];
    assert!(StyleRegistry::is_date_format(170, &custom));
    assert!(!StyleRegistry::is_date_format(171, &custom));
    assert!(!StyleRegistry::format_string_is_date("[Red]0.00"));
    assert!(!StyleRegistry::format_string_is_date("0;dd"));
}

#[test]
fn dxf_formats_append() {
    let mut reg = StyleRegistry::new();
    assert_eq!(reg.register_dxf(&Format::new().bold()), 0);
    assert_eq!(reg.register_dxf(&Format::new().italic()), 1);
    assert_eq!(reg.dxf_formats.len(), 2);
}

#[test]
fn import_keeps_indices_and_reuses_entries() {
    let mut parsed = ParsedStyles::default();
    let mut bold = ParsedFont::default();
    bold.bold = true;
    parsed.fonts.push(ParsedFont::default());
    parsed.fonts.push(bold);
    parsed.fills.push(ParsedFill::default());
    let mut gray = ParsedFill::default();
    gray.pattern = Pattern::Gray125;
    parsed.fills.push(gray);
    parsed.num_formats.push((200, "0.0000".to_string()));
    parsed.xf_records.push(ParsedXf {
        font_id: 0,
        fill_id: 0,
        border_id: 0,
        num_fmt_id: 0,
        alignment: Default::default(),
    });
    parsed.xf_records.push(ParsedXf {
        font_id: 1,
        fill_id: 0,
        border_id: 0,
        num_fmt_id: 0,
        alignment: Default::default(),
    });
    parsed.xf_num_fmt_ids = vec![0, 0];
    let mut reg = StyleRegistry::new();
    reg.import_parsed(&parsed);
    assert_eq!(reg.fonts.len(), 2);
    assert_eq!(reg.fills.len(), 2);
    assert_eq!(reg.borders.len(), 1);
    assert_eq!(reg.xf_records.len(), 2);
    assert_eq!(reg.next_custom_num_fmt_id, 201);
    let idx = reg.register_format(&Format::new().bold());
    assert_eq!(idx, 1);
    assert_eq!(reg.fonts.len(), 2);
    let mut custom = Format::new();
    custom.num_format = "0.0".to_string();
    let ci = reg.register_format(&custom);
    assert_eq!(reg.xf_records[ci as usize].num_fmt_id, 201);
}

#[test]
fn duplicate_entries_resolve_to_the_last() {
    // Two identical empty fills: a map from entry to index keeps the later one.
    let mut parsed = ParsedStyles::default();
    parsed.xf_records.push(ParsedXf::default());
    let mut reg = StyleRegistry::new();
    reg.import_parsed(&parsed);
    assert_eq!(reg.fills.len(), 2);
    let idx = reg.register_format(&Format::new());
    assert_eq!(reg.xf_records[idx as usize].fill_id, 1);
    assert_eq!(idx, 1);
}

#[test]
fn import_of_empty_table_keeps_defaults() {
    let parsed = ParsedStyles::default();
    let mut reg = StyleRegistry::new();
    reg.import_parsed(&parsed);
    assert_eq!(reg.xf_records.len(), 1);
    assert_eq!(reg.fonts.len(), 1);
}

#[test]
fn escaped_characters_are_no_date_tokens() {
    assert!(!StyleRegistry::format_string_is_date("0\\h"));
    assert!(!StyleRegistry::format_string_is_date("0.00;mm"));
    assert!(StyleRegistry::format_string_is_date("\\hh:mm"));
    assert!(!StyleRegistry::format_string_is_date("0\\"));
}
