use rpi_mesh_plugin_manager::ledger::Ledger;

fn names(list: &[&str]) -> Vec<String> {
    list.iter().map(|n| n.to_string()).collect()
}

#[test]
fn ledger_round_trip() {
    let mut ledger = Ledger::new();
    assert_eq!(ledger.all(), names(&[]));
    ledger.record("a");
    ledger.record("b");
    assert_eq!(ledger.all(), names(&["a", "b"]));
    assert_eq!(ledger.len(), 2);
    assert!(ledger.remove("a"));
    assert_eq!(ledger.all(), names(&["b"]));
    assert_eq!(ledger.len(), 1);
}

#[test]
fn ledger_remove_of_an_absent_name_changes_nothing() {
    let mut ledger = Ledger::from_text("a\nb\n");
    assert!(!ledger.remove("c"));
    assert!(!ledger.remove(""));
    assert_eq!(ledger.all(), names(&["a", "b"]));
}

#[test]
fn ledger_remove_takes_the_first_occurrence_and_keeps_the_order() {
    let mut ledger = Ledger::from_text("a\nb\na\nc\nb\n");
    assert!(ledger.remove("b"));
    assert_eq!(ledger.all(), names(&["a", "a", "c", "b"]));
    assert!(ledger.remove("a"));
    assert_eq!(ledger.all(), names(&["a", "c", "b"]));
    assert!(ledger.remove("b"));
    assert!(ledger.remove("a"));
    assert!(ledger.remove("c"));
    assert_eq!(ledger.all(), names(&[]));
    assert!(!ledger.remove("a"));
}

#[test]
fn ledger_reads_every_line_that_is_not_empty() {
    assert_eq!(Ledger::from_text("").all(), names(&[]));
    assert_eq!(Ledger::from_text("\n\n\n").all(), names(&[]));
    assert_eq!(Ledger::from_text("a").all(), names(&["a"]));
    assert_eq!(Ledger::from_text("a\n").all(), names(&["a"]));
    assert_eq!(Ledger::from_text("\na\n\n\nb\n\n").all(), names(&["a", "b"]));
    assert_eq!(Ledger::from_text("a\r\nb\r\n").all(), names(&["a", "b"]));
    assert_eq!(Ledger::from_text(" a \n\tb\n").all(), names(&[" a ", "\tb"]));
}

#[test]
fn ledger_writes_one_name_on_each_line() {
    let mut ledger = Ledger::new();
    assert_eq!(ledger.to_text(), "");
    ledger.record("a");
    assert_eq!(ledger.to_text(), "a\n");
    ledger.record("plugin two");
    assert_eq!(ledger.to_text(), "a\nplugin two\n");
    ledger.remove("a");
    assert_eq!(ledger.to_text(), "plugin two\n");
}

#[test]
fn ledger_reads_back_what_it_writes() {
    let mut ledger = Ledger::new();
    for name in ["a", "b", "größe", "a", "x y"] {
        ledger.record(name);
    }
    let again = Ledger::from_text(&ledger.to_text());
    assert_eq!(again.all(), ledger.all());
    assert_eq!(again.all(), names(&["a", "b", "größe", "a", "x y"]));
}

#[test]
fn ledger_records_a_name_as_the_lines_that_it_makes() {
    let mut ledger = Ledger::new();
    ledger.record("");
    assert_eq!(ledger.all(), names(&[]));
    ledger.record("a\nb");
    assert_eq!(ledger.all(), names(&["a", "b"]));
    assert_eq!(Ledger::from_text(&ledger.to_text()).all(), names(&["a", "b"]));
}

#[test]
fn ledger_contains_says_whether_a_name_is_held() {
    let ledger = Ledger::from_text("a\nb\n");
    assert!(ledger.contains("a"));
    assert!(ledger.contains("b"));
    assert!(!ledger.contains("c"));
    assert!(!ledger.contains(""));
    assert!(!ledger.contains("a\n"));
}
