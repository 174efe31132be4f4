use findr::{get_args, Config, Entry, EntryType};

fn strings(items: &[&str]) -> Vec<String> {
    items.iter().map(|s| s.to_string()).collect()
}

fn config(names: &[&str], types: &[&str]) -> Config {
    get_args(vec![], strings(names), strings(types)).unwrap()
}

fn entry(path: &str, entry_type: Option<EntryType>) -> Entry {
    Entry { path: path.to_string(), entry_type }
}

#[test]
fn type_filter_without_types_lets_everything_pass() {
    let c = config(&[], &[]);
    assert!(c.type_passes(Some(EntryType::Directory)));
    assert!(c.type_passes(Some(EntryType::RegularFile)));
    assert!(c.type_passes(Some(EntryType::SymbolicLink)));
    assert!(c.type_passes(None));
}

#[test]
fn type_filter_passes_the_requested_type_only() {
    let c = config(&[], &["f"]);
    assert!(c.type_passes(Some(EntryType::RegularFile)));
    assert!(!c.type_passes(Some(EntryType::Directory)));
    assert!(!c.type_passes(Some(EntryType::SymbolicLink)));
    assert!(!c.type_passes(None));
}

#[test]
fn type_filter_passes_any_of_several_types() {
    let c = config(&[], &["d", "l", "d"]);
    assert!(c.type_passes(Some(EntryType::Directory)));
    assert!(c.type_passes(Some(EntryType::SymbolicLink)));
    assert!(!c.type_passes(Some(EntryType::RegularFile)));
    assert!(!c.type_passes(None));
}

#[test]
fn name_filter_without_patterns_lets_everything_pass() {
    let c = config(&[], &["f"]);
    assert!(c.name_passes("anything"));
    assert!(c.name_passes(""));
}

#[test]
fn name_filter_matches_anywhere_in_the_name() {
    let c = config(&["sub"], &[]);
    assert!(c.name_passes("sub"));
    assert!(c.name_passes("subdir"));
    assert!(c.name_passes("my-sub"));
    assert!(!c.name_passes("su"));
    assert!(!c.name_passes("SUB"));
}

#[test]
fn name_filter_respects_anchors() {
    let c = config(&[r"^a.*\.txt$"], &[]);
    assert!(c.name_passes("a.txt"));
    assert!(c.name_passes("abc.txt"));
    assert!(!c.name_passes("ba.txt"));
    assert!(!c.name_passes("a.txt.bak"));
}

#[test]
fn name_filter_passes_when_any_pattern_matches() {
    let c = config(&[r"\.csv$", r"\.txt$"], &[]);
    assert!(c.name_passes("b.csv"));
    assert!(c.name_passes("a.txt"));
    assert!(!c.name_passes("c.md"));
}

#[test]
fn name_filter_with_the_empty_pattern_matches_every_name() {
    let c = config(&[""], &[]);
    assert!(c.name_passes("a"));
    assert!(c.name_passes(""));
}

#[test]
fn selects_needs_both_filters() {
    let c = config(&["sub"], &["d"]);
    assert!(c.selects(&entry("root/sub", Some(EntryType::Directory))));
    assert!(!c.selects(&entry("root/sub", Some(EntryType::RegularFile))));
    assert!(!c.selects(&entry("root/other", Some(EntryType::Directory))));
    assert!(!c.selects(&entry("root/other", Some(EntryType::RegularFile))));
}

#[test]
fn selects_matches_the_base_name_only() {
    let c = config(&["sub"], &[]);
    assert!(!c.selects(&entry("sub/b.csv", Some(EntryType::RegularFile))));
    assert!(c.selects(&entry("top/sub", Some(EntryType::Directory))));
    assert!(c.selects(&entry("top/sub/", Some(EntryType::Directory))));
    let anchored = config(&["^b"], &[]);
    assert!(anchored.selects(&entry("sub/b.csv", Some(EntryType::RegularFile))));
    assert!(!anchored.selects(&entry("b/sub.csv", Some(EntryType::RegularFile))));
}

#[test]
fn selects_uses_the_whole_path_where_the_base_name_is_missing() {
    let dot = config(&[r"^\.$"], &[]);
    assert!(dot.selects(&entry(".", Some(EntryType::Directory))));
    assert!(!dot.selects(&entry("./a", Some(EntryType::RegularFile))));
    let up = config(&[r"^a/\.\.$"], &[]);
    assert!(up.selects(&entry("a/..", Some(EntryType::Directory))));
    let root = config(&["^/$"], &[]);
    assert!(root.selects(&entry("/", Some(EntryType::Directory))));
}

#[test]
fn selects_an_entry_without_kind_only_without_type_filter() {
    assert!(config(&[], &[]).selects(&entry("dev/null", None)));
    assert!(config(&["null"], &[]).selects(&entry("dev/null", None)));
    assert!(!config(&[], &["f"]).selects(&entry("dev/null", None)));
    assert!(!config(&[], &["f", "d", "l"]).selects(&entry("dev/null", None)));
}
