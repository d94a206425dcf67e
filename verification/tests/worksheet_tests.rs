use zavora_xlsx::cell::CellValue;
use zavora_xlsx::conditional::{CfRule, TopBottomType};
use zavora_xlsx::format::Format;
use zavora_xlsx::protection::hash_password;
use zavora_xlsx::sheet_reader::PrintSettings;
use zavora_xlsx::sparklines::{Sparkline, SparklineType};
use zavora_xlsx::shared_strings::SharedStringTable;
use zavora_xlsx::style_registry::StyleRegistry;
use zavora_xlsx::worksheet::{CellType, SheetVisibility, Worksheet};

fn text_of(v: &CellValue) -> Option<&str> {
    match v {
        CellValue::String(s) => Some(s.as_str()),
        _ => None,
    }
}

#[test]
fn written_values_read_back() {
    let mut ws = Worksheet::new("Data");
    ws.write_string(0, 0, "text", None).unwrap();
    ws.write_number(0, 1, "42.5", None).unwrap();
    ws.write_boolean(0, 2, true, None).unwrap();
    ws.write_datetime(0, 3, "45000", None).unwrap();
    assert_eq!(text_of(&ws.read_cell(0, 0)), Some("text"));
    match ws.read_cell(0, 1) {
        CellValue::Numeric { text, date } => {
            assert_eq!(text, "42.5");
            assert!(!date);
        }
        other => panic!("expected a number, got {other:?}"),
    }
    assert!(matches!(ws.read_cell(0, 2), CellValue::Bool(true)));
    match ws.read_cell(0, 3) {
        CellValue::Numeric { text, date } => {
            assert_eq!(text, "45000");
            assert!(date);
        }
        other => panic!("expected a date, got {other:?}"),
    }
    assert!(matches!(ws.read_cell(5, 5), CellValue::Empty));
    assert!(ws.dirty);
}

#[test]
fn a_later_write_replaces_an_earlier_one() {
    let mut ws = Worksheet::new("S");
    ws.write_string(2, 3, "first", None).unwrap();
    ws.write_string(2, 3, "second", None).unwrap();
    assert_eq!(text_of(&ws.read_cell(2, 3)), Some("second"));
    assert_eq!(ws.cells.len(), 1);
}

#[test]
fn formulas_drop_their_leading_equals() {
    let mut ws = Worksheet::new("S");
    ws.write_formula(0, 3, "=SUM(A1:C1)").unwrap();
    ws.write_formula_with_result(0, 4, "A1*2", "42").unwrap();
    ws.write_array_formula(0, 5, 1, 6, "=MMULT(A1:B2,C1:D2)").unwrap();
    ws.write_dynamic_formula(0, 7, "_xlfn.UNIQUE(A:A)").unwrap();
    match ws.read_cell(0, 3) {
        CellValue::Formula { formula, cached_value } => {
            assert_eq!(formula, "SUM(A1:C1)");
            assert!(matches!(*cached_value, CellValue::Empty));
        }
        other => panic!("expected a formula, got {other:?}"),
    }
    match ws.read_cell(0, 4) {
        CellValue::Formula { formula, cached_value } => {
            assert_eq!(formula, "A1*2");
            assert!(matches!(*cached_value, CellValue::Numeric { ref text, date: false } if text == "42"));
        }
        other => panic!("expected a formula, got {other:?}"),
    }
    match &ws.cells[&(0, 5)].0 {
        CellType::ArrayFormula { text, range } => {
            assert_eq!(text, "MMULT(A1:B2,C1:D2)");
            assert_eq!(range, "F1:G2");
        }
        other => panic!("expected an array formula, got {other:?}"),
    }
    match &ws.cells[&(0, 7)].0 {
        CellType::DynamicFormula { range, .. } => assert_eq!(range, "H1"),
        other => panic!("expected a dynamic formula, got {other:?}"),
    }
}

#[test]
fn clearing_a_cell_empties_it_and_drops_its_format() {
    let mut ws = Worksheet::new("S");
    let fmt = Format::new().bold();
    ws.write_string(1, 1, "x", Some(&fmt)).unwrap();
    ws.write_string(1, 2, "y", None).unwrap();
    assert!(ws.pending_formats.contains_key(&(1, 1)));
    ws.clear_cell(1, 1);
    assert!(matches!(ws.read_cell(1, 1), CellValue::Empty));
    assert!(!ws.pending_formats.contains_key(&(1, 1)));
    assert_eq!(text_of(&ws.read_cell(1, 2)), Some("y"));
}

#[test]
fn used_range_bounds_every_cell() {
    let mut ws = Worksheet::new("S");
    assert_eq!(ws.used_range(), None);
    ws.write_string(3, 2, "a", None).unwrap();
    ws.write_number(1, 5, "1", None).unwrap();
    ws.write_boolean(7, 0, false, None).unwrap();
    assert_eq!(ws.used_range(), Some((1, 0, 7, 5)));
}

#[test]
fn blank_cells_and_merges_keep_their_format() {
    let mut ws = Worksheet::new("S");
    let fmt = Format::new().bold();
    ws.write_blank(0, 8, &fmt).unwrap();
    assert!(matches!(ws.read_cell(0, 8), CellValue::Empty));
    assert!(ws.pending_formats[&(0, 8)].bold);
    ws.merge_range(0, 0, 0, 3, "Header", &fmt).unwrap();
    assert_eq!(ws.merge_ranges(), &[(0, 0, 0, 3)]);
    assert_eq!(text_of(&ws.read_cell(0, 0)), Some("Header"));
    assert!(ws.pending_formats[&(0, 0)].bold);
    ws.set_range_format(0, 0, 5, 5, &fmt).unwrap();
    assert_eq!(ws.range_formats.len(), 1);
    ws.set_cell_format(9, 9, &fmt).unwrap();
    assert!(ws.pending_formats.contains_key(&(9, 9)));
}

#[test]
fn sheet_names_are_checked() {
    let mut ws = Worksheet::new("Sheet1");
    assert!(ws.set_name("Report").is_ok());
    assert_eq!(ws.name(), "Report");
    assert!(ws.set_name("bad/name").is_err());
    assert!(ws.set_name("").is_err());
    assert_eq!(ws.name(), "Report");
}

#[test]
fn layout_settings() {
    let mut ws = Worksheet::new("S");
    ws.set_column_width(0, "20").unwrap();
    ws.set_row_height(0, "30").unwrap();
    ws.set_freeze_panes(1, 0).unwrap();
    assert_eq!(ws.column_width(0), Some("20"));
    assert_eq!(ws.row_height(0), Some("30"));
    assert_eq!(ws.column_width(1), None);
    assert_eq!((ws.freeze_row, ws.freeze_col), (1, 0));
    ws.set_column_range_width(2, 4, "12.5");
    assert_eq!(ws.column_width(3), Some("12.5"));
    assert_eq!(ws.column_width(5), None);
    ws.set_row_hidden(5, true);
    assert!(ws.hidden_rows.contains(&5));
    ws.set_row_hidden(5, false);
    assert!(ws.hidden_rows.is_empty());
    ws.set_column_hidden(3, true);
    ws.set_column_range_hidden(7, 8);
    assert_eq!(ws.hidden_cols.iter().copied().collect::<Vec<_>>(), vec![3, 7, 8]);
    ws.group_rows(2, 5, 1);
    ws.group_columns(1, 3, 2);
    assert_eq!(ws.row_outline_levels().len(), 4);
    assert_eq!(ws.row_outline_levels()[&5], 1);
    assert_eq!(ws.col_outline_levels()[&1], 2);
    ws.group_rows(9, 8, 1);
    assert_eq!(ws.row_outline_levels().len(), 4);
    ws.set_autofilter(0, 0, 10, 3);
    ws.filter_column(1, &["East", "West"]);
    assert_eq!(ws.autofilter, Some((0, 0, 10, 3)));
    assert_eq!(ws.autofilter_columns[0].1, vec!["East".to_string(), "West".to_string()]);
    ws.ignore_error("numberStoredAsText", "A1:A100");
    assert_eq!(ws.ignored_errors.len(), 1);
}

#[test]
fn view_settings() {
    let mut ws = Worksheet::new("S");
    ws.set_zoom(85);
    assert_eq!(ws.zoom, Some(85));
    ws.set_zoom(5);
    assert_eq!(ws.zoom, Some(10));
    ws.set_zoom(1000);
    assert_eq!(ws.zoom, Some(400));
    ws.hide_gridlines().hide_headings().set_right_to_left().set_tab_color([0x44, 0x72, 0xC4]);
    assert!(!ws.show_gridlines && !ws.show_headings && ws.right_to_left);
    assert_eq!(ws.tab_color, Some([0x44, 0x72, 0xC4]));
    ws.set_selection(4, 1).set_top_left_cell(0, 0);
    assert_eq!(ws.selection, Some((4, 1)));
    ws.set_default_row_height("20");
    assert_eq!(ws.default_row_height.as_deref(), Some("20"));
    ws.set_column_format(1, &Format::new().bold()).set_row_format(0, &Format::new().italic());
    assert!(ws.col_formats[&1].bold && ws.row_formats[&0].italic);
    assert_eq!(ws.visibility(), SheetVisibility::Visible);
    ws.set_hidden();
    assert!(ws.is_hidden() && !ws.is_very_hidden());
    ws.set_very_hidden();
    assert!(ws.is_very_hidden());
}

#[test]
fn print_settings_are_created_when_needed() {
    let mut ws = Worksheet::new("S");
    assert!(ws.print_settings().is_none());
    ws.set_print_area(0, 0, 20, 5);
    ws.set_repeat_rows(0, 1);
    ws.set_repeat_columns(0, 0);
    ws.set_print_scale(500);
    ws.set_page_breaks(&[10, 20], &[3]);
    let ps = ws.print_settings().expect("print settings");
    assert_eq!(ps.print_area, Some((0, 0, 20, 5)));
    assert_eq!(ps.repeat_rows, Some((0, 1)));
    assert_eq!(ps.repeat_cols, Some((0, 0)));
    assert_eq!(ps.scale, Some(400));
    assert_eq!(ps.row_breaks, vec![10, 20]);
    assert_eq!(ps.col_breaks, vec![3]);
    ws.set_print_settings(&PrintSettings::new().fit_to_page(1, 0));
    assert!(ws.print_settings().unwrap().print_area.is_none());
}

#[test]
fn protection_and_unprotected_ranges() {
    let mut ws = Worksheet::new("S");
    ws.protect();
    let p = ws.protection().unwrap();
    assert!(p.sheet && p.password_hash.is_none() && !p.select_locked_cells);
    ws.protect_with_password("secret");
    assert_eq!(ws.protection().unwrap().password_hash.as_deref(), Some(hash_password("secret").as_str()));
    ws.unprotect_range("Input", "A1:B5");
    ws.unprotect_range_with_password("Admin", "C1", "pw");
    let ranges = &ws.print_settings().unwrap().protected_ranges;
    assert_eq!(ranges.len(), 2);
    assert_eq!(ranges[0], ("Input".to_string(), "A1:B5".to_string(), None));
    assert_eq!(ranges[1].2.as_deref(), Some(hash_password("pw").as_str()));
}

#[test]
fn links_and_comments() {
    let mut ws = Worksheet::new("S");
    ws.write_url(0, 0, "https://example.com", "").unwrap();
    ws.write_url(1, 0, "https://example.com", "Example").unwrap();
    ws.write_internal_link(2, 0, "Sheet2!A1", "Go").unwrap();
    assert_eq!(text_of(&ws.read_cell(0, 0)), Some("https://example.com"));
    assert_eq!(text_of(&ws.read_cell(1, 0)), Some("Example"));
    assert_eq!(ws.hyperlinks().len(), 3);
    assert_eq!(ws.hyperlinks()[2].url, "");
    assert_eq!(ws.hyperlinks()[2].location.as_deref(), Some("Sheet2!A1"));
    ws.add_comment(3, 3, "Check this");
    ws.add_comment_with_author(3, 3, "Second", "Bob");
    ws.add_comment_with_author(4, 4, "Other", "Ann");
    assert_eq!(ws.get_comment(3, 3), Some(("Author", "Check this")));
    assert_eq!(ws.get_comment(4, 4), Some(("Ann", "Other")));
    assert_eq!(ws.get_comment(9, 9), None);
    assert_eq!(ws.comments().len(), 3);
}

#[test]
fn features_are_placed_where_asked() {
    let mut ws = Worksheet::new("S");
    ws.add_conditional_format(0, 0, 9, 0, CfRule::TopBottom { kind: TopBottomType::Top, rank: 3, format: None })
        .unwrap();
    assert_eq!(ws.conditional_formats().len(), 1);
    assert_eq!(ws.conditional_formats()[0].range, (0, 0, 9, 0));
    assert_eq!(ws.conditional_formats()[0].dxf_id, None);
    let sp = Sparkline {
        data_range: "Sheet1!A1:E1".to_string(),
        sparkline_type: SparklineType::Column,
        row: 0,
        col: 0,
        color: None,
    };
    ws.add_sparkline(2, 6, &sp).unwrap();
    assert_eq!((ws.sparklines()[0].row, ws.sparklines()[0].col), (2, 6));
    assert_eq!(ws.sparklines()[0].data_range, "Sheet1!A1:E1");
    let dvs = zavora_xlsx::validation::parse_data_validations(
        br#"<worksheet><dataValidations><dataValidation type="whole" sqref="A1"><formula1>1</formula1></dataValidation></dataValidations></worksheet>"#,
    );
    ws.add_data_validation(4, 1, 8, 1, &dvs[0]).unwrap();
    let v = &ws.validations()[0];
    assert_eq!((v.first_row, v.first_col, v.last_row, v.last_col), (4, 1, 8, 1));
}

#[test]
fn autofit_lengths_take_the_widest_cell_of_each_column() {
    let mut ws = Worksheet::new("S");
    ws.write_string(0, 0, "short", None).unwrap();
    ws.write_string(1, 0, "a much longer text", None).unwrap();
    ws.write_boolean(0, 1, true, None).unwrap();
    ws.write_formula(0, 2, "=VLOOKUP(A1,Sheet2!A:B,2,FALSE)").unwrap();
    ws.write_number(0, 3, "3.25", None).unwrap();
    let lens = ws.autofit_lengths();
    assert_eq!(lens.len(), 4);
    assert_eq!(lens[&0], 18);
    assert_eq!(lens[&1], 5);
    assert_eq!(lens[&2], 20);
    assert_eq!(lens[&3], 4);
}

#[test]
fn finalizing_registers_formats_and_shares_strings() {
    let mut ws = Worksheet::new("S");
    let bold = Format::new().bold();
    let italic = Format::new().italic();
    ws.write_string(0, 0, "a", Some(&bold)).unwrap();
    ws.write_string(0, 1, "b", None).unwrap();
    ws.write_string(1, 0, "a", None).unwrap();
    ws.write_datetime(2, 0, "45000", None).unwrap();
    ws.write_number(3, 3, "7", None).unwrap();
    ws.set_cell_format(5, 5, &italic).unwrap();
    ws.set_range_format(3, 0, 3, 9, &italic).unwrap();

    let mut sst = SharedStringTable::new();
    let mut styles = StyleRegistry::new();
    ws.finalize(&mut sst, &mut styles);

    assert!(ws.pending_formats.is_empty());
    assert!(ws.range_formats.is_empty());
    assert_eq!(sst.len(), 2);
    assert_eq!(sst.ref_count(0), 2);
    let bold_xf = styles.register_format(&bold);
    let italic_xf = styles.register_format(&italic);
    let date_xf = styles.register_format(&Format { num_format: "yyyy-mm-dd".to_string(), ..Format::new() });
    assert_ne!(bold_xf, 0);
    match &ws.cells[&(0, 0)] {
        (CellType::SharedString(i), xf) => {
            assert_eq!(sst.get(*i), Some("a"));
            assert_eq!(*xf, bold_xf);
        }
        other => panic!("expected a shared string, got {other:?}"),
    }
    match &ws.cells[&(1, 0)] {
        (CellType::SharedString(i), xf) => {
            assert_eq!(sst.get(*i), Some("a"));
            assert_eq!(*xf, 0);
        }
        other => panic!("expected a shared string, got {other:?}"),
    }
    assert_eq!(ws.cells[&(2, 0)].1, date_xf);
    assert_eq!(ws.cells[&(3, 3)].1, italic_xf);
    assert!(matches!(ws.cells[&(5, 5)], (CellType::Empty, x) if x == italic_xf));
}

#[test]
fn password_hash_is_excels_legacy_hash() {
    assert_eq!(hash_password("password"), "83AF");
    assert_eq!(hash_password(""), "CE4B");
}

#[test]
fn sheet_names_are_limited_to_31_characters() {
    let mut ws = Worksheet::new("S");
    let accented: String = std::iter::repeat('é').take(16).collect();
    assert!(ws.set_name(&accented).is_ok());
    let thirty_one: String = std::iter::repeat('é').take(31).collect();
    assert!(ws.set_name(&thirty_one).is_ok());
    let thirty_two: String = std::iter::repeat('x').take(32).collect();
    assert!(ws.set_name(&thirty_two).is_err());
}

#[test]
fn inserting_and_removing_rows_moves_cells_merges_and_heights() {
    let mut ws = Worksheet::new("S");
    ws.write_string(0, 0, "top", None).unwrap();
    ws.write_string(5, 1, "five", None).unwrap();
    ws.write_string(8, 2, "eight", None).unwrap();
    ws.merge_range(6, 0, 7, 2, "m", &Format::new()).unwrap();
    ws.set_row_height(5, "30").unwrap();
    ws.insert_rows(5, 3).unwrap();
    assert_eq!(text_of(&ws.read_cell(0, 0)), Some("top"));
    assert!(matches!(ws.read_cell(5, 1), CellValue::Empty));
    assert_eq!(text_of(&ws.read_cell(8, 1)), Some("five"));
    assert_eq!(text_of(&ws.read_cell(11, 2)), Some("eight"));
    assert_eq!(ws.merge_ranges(), &[(9, 0, 10, 2)]);
    assert_eq!(ws.row_height(8), Some("30"));
    assert_eq!(ws.row_height(5), None);
    ws.remove_rows(5, 3).unwrap();
    assert_eq!(text_of(&ws.read_cell(5, 1)), Some("five"));
    assert_eq!(text_of(&ws.read_cell(8, 2)), Some("eight"));
    assert_eq!(ws.merge_ranges(), &[(6, 0, 7, 2)]);
    assert_eq!(ws.row_height(5), Some("30"));
    ws.remove_rows(6, 2).unwrap();
    assert!(ws.merge_ranges().is_empty());
    assert_eq!(text_of(&ws.read_cell(6, 2)), Some("eight"));
    assert!(matches!(ws.read_cell(6, 0), CellValue::Empty));
}

#[test]
fn inserting_and_removing_columns_moves_cells_and_widths() {
    let mut ws = Worksheet::new("S");
    ws.write_string(0, 0, "a", None).unwrap();
    ws.write_string(0, 2, "c", None).unwrap();
    ws.set_column_width(2, "15").unwrap();
    ws.insert_columns(1, 2).unwrap();
    assert_eq!(text_of(&ws.read_cell(0, 0)), Some("a"));
    assert_eq!(text_of(&ws.read_cell(0, 4)), Some("c"));
    assert_eq!(ws.column_width(4), Some("15"));
    ws.remove_columns(0, 1).unwrap();
    assert_eq!(text_of(&ws.read_cell(0, 3)), Some("c"));
    assert_eq!(ws.column_width(3), Some("15"));
    assert_eq!(ws.cells.len(), 1);
}
