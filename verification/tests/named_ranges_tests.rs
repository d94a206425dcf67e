use zavora_xlsx::error::Error;
use zavora_xlsx::named_ranges::NamedRanges;
use zavora_xlsx::workbook::DefinedNameScope;

fn legacy(n: &NamedRanges) -> Vec<(String, String)> {
    n.defined_names().to_vec()
}

fn scoped(n: &NamedRanges) -> Vec<(String, String, DefinedNameScope)> {
    n.defined_names_with_scope().iter().map(|d| (d.name.clone(), d.formula.clone(), d.scope)).collect()
}

#[test]
fn define_name_goes_to_both_lists() {
    let mut n = NamedRanges::new();
    n.define_name("Tax", "Sheet1!$A$1").define_name_scoped("Local", "Sheet1!$B$1", 0);
    assert_eq!(legacy(&n), vec![("Tax".to_string(), "Sheet1!$A$1".to_string())]);
    assert_eq!(
        scoped(&n),
        vec![
            ("Tax".to_string(), "Sheet1!$A$1".to_string(), DefinedNameScope::Workbook),
            ("Local".to_string(), "Sheet1!$B$1".to_string(), DefinedNameScope::Sheet(0)),
        ]
    );
}

#[test]
fn add_named_range_refuses_same_name_and_scope() {
    let mut n = NamedRanges::new();
    n.add_named_range("Rate", "0.2", DefinedNameScope::Workbook).unwrap();
    n.add_named_range("Rate", "0.3", DefinedNameScope::Sheet(1)).unwrap();
    match n.add_named_range("Rate", "0.4", DefinedNameScope::Workbook) {
        Err(Error::InvalidData(m)) => assert_eq!(m, "Defined name 'Rate' already exists with the same scope"),
        _ => panic!("expected a duplicate error"),
    }
    assert_eq!(scoped(&n).len(), 2);
    assert_eq!(legacy(&n), vec![("Rate".to_string(), "0.2".to_string())]);
}

#[test]
fn update_named_range_changes_first_match_and_legacy() {
    let mut n = NamedRanges::new();
    n.add_named_range("Rate", "0.2", DefinedNameScope::Workbook).unwrap();
    n.update_named_range("Rate", "0.25").unwrap();
    assert_eq!(scoped(&n)[0].1, "0.25");
    assert_eq!(legacy(&n), vec![("Rate".to_string(), "0.25".to_string())]);
    match n.update_named_range("Missing", "1") {
        Err(Error::InvalidData(m)) => assert_eq!(m, "Defined name 'Missing' not found"),
        _ => panic!("expected not found"),
    }
}

#[test]
fn remove_named_range_by_scope() {
    let mut n = NamedRanges::new();
    n.add_named_range("A", "1", DefinedNameScope::Workbook).unwrap();
    n.add_named_range("A", "2", DefinedNameScope::Sheet(0)).unwrap();
    n.remove_named_range("A", &DefinedNameScope::Sheet(0)).unwrap();
    assert_eq!(scoped(&n), vec![("A".to_string(), "1".to_string(), DefinedNameScope::Workbook)]);
    assert_eq!(legacy(&n).len(), 1);
    match n.remove_named_range("A", &DefinedNameScope::Sheet(0)) {
        Err(Error::InvalidData(m)) => assert_eq!(m, "Defined name 'A' not found with the specified scope"),
        _ => panic!("expected not found"),
    }
    n.remove_named_range("A", &DefinedNameScope::Workbook).unwrap();
    assert!(scoped(&n).is_empty());
    assert!(legacy(&n).is_empty());
}

#[test]
fn add_then_remove_gives_back_the_names() {
    let mut n = NamedRanges::new();
    n.define_name("Keep", "1");
    let before_l = legacy(&n);
    let before_s = scoped(&n);
    n.add_named_range("Temp", "2", DefinedNameScope::Workbook).unwrap();
    n.remove_named_range("Temp", &DefinedNameScope::Workbook).unwrap();
    assert_eq!(legacy(&n), before_l);
    assert_eq!(scoped(&n), before_s);
}
