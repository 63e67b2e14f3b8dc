use pyreqs::names::NameSet;
use pyreqs::resolver::{
    get_pkg_names, load_mapping, parse_mapping_line, resolve_names, MappingTable, ResolveError,
};

fn set_of(names: &[&str]) -> NameSet {
    let mut set = NameSet::new();
    for name in names {
        set.insert(name.to_string());
    }
    set
}

fn sorted(set: &NameSet) -> Vec<String> {
    let mut v: Vec<String> = set.names().clone();
    v.sort();
    v
}

fn chars(s: &str) -> Vec<char> {
    s.chars().collect()
}

#[test]
fn scenario_bs4() {
    let resolved = get_pkg_names(&set_of(&["bs4"]), Some("bs4: beautifulsoup4\n")).unwrap();
    assert_eq!(sorted(&resolved), vec!["beautifulsoup4"]);
}

#[test]
fn unmapped_names_pass_through() {
    let resolved = get_pkg_names(&set_of(&["requests", "yaml"]), Some("yaml: PyYAML\n")).unwrap();
    assert_eq!(sorted(&resolved), vec!["PyYAML", "requests"]);
}

#[test]
fn empty_mapping_is_identity() {
    let resolved = get_pkg_names(&set_of(&["a", "b"]), Some("")).unwrap();
    assert_eq!(sorted(&resolved), vec!["a", "b"]);
}

#[test]
fn two_names_of_one_package_collapse() {
    let names = set_of(&["cv2", "cv", "numpy"]);
    let resolved =
        get_pkg_names(&names, Some("cv2: opencv-python\ncv: opencv-python\n")).unwrap();
    assert_eq!(sorted(&resolved), vec!["numpy", "opencv-python"]);
    assert!(resolved.len() <= names.len());
}

#[test]
fn name_that_is_another_names_package_collapses() {
    let resolved = get_pkg_names(&set_of(&["a", "b"]), Some("a: b\n")).unwrap();
    assert_eq!(sorted(&resolved), vec!["b"]);
}

#[test]
fn unreadable_mapping_fails_as_a_whole() {
    let outcome = get_pkg_names(&set_of(&["bs4"]), None);
    assert!(matches!(outcome, Err(ResolveError::MappingUnreadable)));
    let outcome = get_pkg_names(&NameSet::new(), None);
    assert!(outcome.is_err());
}

#[test]
fn empty_dependency_set_resolves_to_empty() {
    let resolved = get_pkg_names(&NameSet::new(), Some("bs4: beautifulsoup4\n")).unwrap();
    assert!(resolved.is_empty());
}

#[test]
fn mapping_line_wants_exactly_one_colon() {
    assert_eq!(
        parse_mapping_line(&chars("bs4: beautifulsoup4")),
        Some(("bs4".to_string(), "beautifulsoup4".to_string()))
    );
    assert_eq!(
        parse_mapping_line(&chars("  key\t:  value  \r")),
        Some(("key".to_string(), "value".to_string()))
    );
    assert_eq!(parse_mapping_line(&chars(":")), Some(("".to_string(), "".to_string())));
    assert_eq!(parse_mapping_line(&chars("a:b c")), Some(("a".to_string(), "b c".to_string())));
    assert_eq!(parse_mapping_line(&chars("")), None);
    assert_eq!(parse_mapping_line(&chars("no separator")), None);
    assert_eq!(parse_mapping_line(&chars("a:b:c")), None);
    assert_eq!(parse_mapping_line(&chars("a::b")), None);
}

#[test]
fn malformed_lines_are_passed_over() {
    let table = load_mapping("# comment\nbs4: beautifulsoup4\n\nbroken\na:b:c\nyaml:PyYAML\r\nlast: one");
    assert_eq!(table.get("bs4"), Some(&"beautifulsoup4".to_string()));
    assert_eq!(table.get("yaml"), Some(&"PyYAML".to_string()));
    assert_eq!(table.get("last"), Some(&"one".to_string()));
    assert_eq!(table.get("a"), None);
    assert_eq!(table.get("broken"), None);
    assert_eq!(table.get("# comment"), None);
    assert_eq!(table.get(""), None);
}

#[test]
fn later_line_replaces_earlier() {
    let table = load_mapping("k: first\nk: second\n");
    assert_eq!(table.get("k"), Some(&"second".to_string()));
}

#[test]
fn table_insert_and_get() {
    let mut table = MappingTable::new();
    assert_eq!(table.get("a"), None);
    table.insert("a".to_string(), "x".to_string());
    table.insert("b".to_string(), "y".to_string());
    table.insert("a".to_string(), "z".to_string());
    assert_eq!(table.get("a"), Some(&"z".to_string()));
    assert_eq!(table.get("b"), Some(&"y".to_string()));
    assert_eq!(table.get("A"), None);
}

#[test]
fn resolve_names_by_table() {
    let mut table = MappingTable::new();
    table.insert("PIL".to_string(), "Pillow".to_string());
    let resolved = resolve_names(&set_of(&["PIL", "flask"]), &table);
    assert_eq!(sorted(&resolved), vec!["Pillow", "flask"]);
}

#[test]
fn resolution_twice_gives_the_same() {
    let names = set_of(&["bs4", "requests", "yaml"]);
    let mapping = "bs4: beautifulsoup4\nyaml: PyYAML\n";
    let first = get_pkg_names(&names, Some(mapping)).unwrap();
    let second = get_pkg_names(&names, Some(mapping)).unwrap();
    assert_eq!(first.names(), second.names());
}
