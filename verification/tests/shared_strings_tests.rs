use zavora_xlsx::shared_strings::SharedStringTable;

#[test]
fn intern_dedup() {
    let mut sst = SharedStringTable::new();
    assert_eq!(sst.intern("hello"), 0);
    assert_eq!(sst.intern("world"), 1);
    assert_eq!(sst.intern("hello"), 0); // dedup
    assert_eq!(sst.len(), 2);
    assert_eq!(sst.get(0), Some("hello"));
    assert_eq!(sst.get(1), Some("world"));
    assert_eq!(sst.get(2), None);
}

#[test]
fn ref_counts_follow_interning() {
    let mut sst = SharedStringTable::new();
    assert!(sst.is_empty());
    sst.intern("a");
    sst.intern("a");
    sst.intern("b");
    assert_eq!(sst.ref_count(0), 2);
    assert_eq!(sst.ref_count(1), 1);
    assert_eq!(sst.ref_count(7), 0);
    assert!(!sst.is_empty());
}

#[test]
fn push_keeps_duplicates_and_intern_finds_latest() {
    let mut sst = SharedStringTable::new();
    sst.push("x");
    sst.push("x");
    assert_eq!(sst.len(), 2);
    assert_eq!(sst.intern("x"), 1);
    assert_eq!(sst.ref_count(1), 2);
    assert_eq!(sst.ref_count(0), 1);
    let all: Vec<&str> = sst.iter().iter().map(|s| s.as_str()).collect();
    assert_eq!(all, vec!["x", "x"]);
}

#[test]
fn interning_keeps_one_entry_per_distinct_string_and_counts_each_call() {
    let mut sst = SharedStringTable::new();
    let a = sst.intern("alpha");
    let b = sst.intern("beta");
    let a2 = sst.intern("alpha");
    let a3 = sst.intern("alpha");
    assert_eq!((a, b, a2, a3), (0, 1, 0, 0));
    assert_eq!(sst.len(), 2);
    assert_eq!(sst.ref_count(0), 3);
    assert_eq!(sst.ref_count(1), 1);
    assert_eq!(sst.ref_count(2), 0);
}
