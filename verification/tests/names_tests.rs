use pyreqs::names::NameSet;

fn sorted(set: &NameSet) -> Vec<String> {
    let mut v: Vec<String> = set.names().clone();
    v.sort();
    v
}

#[test]
fn new_set_is_empty() {
    let set = NameSet::new();
    assert!(set.is_empty());
    assert_eq!(set.len(), 0);
    assert!(!set.contains("a"));
}

#[test]
fn insert_keeps_each_name_once() {
    let mut set = NameSet::new();
    assert!(set.insert("b".to_string()));
    assert!(set.insert("a".to_string()));
    assert!(!set.insert("b".to_string()));
    assert_eq!(set.len(), 2);
    assert!(!set.is_empty());
    assert!(set.contains("a"));
    assert!(set.contains("b"));
    assert!(!set.contains("c"));
    assert!(!set.contains(""));
    assert_eq!(set.names(), &vec!["b".to_string(), "a".to_string()]);
}

#[test]
fn names_are_case_sensitive() {
    let mut set = NameSet::new();
    set.insert("Flask".to_string());
    assert!(!set.contains("flask"));
    assert!(set.insert("flask".to_string()));
    assert_eq!(set.len(), 2);
}

#[test]
fn extend_is_union() {
    let mut a = NameSet::new();
    a.insert("x".to_string());
    a.insert("y".to_string());
    let mut b = NameSet::new();
    b.insert("y".to_string());
    b.insert("z".to_string());
    a.extend(&b);
    assert_eq!(sorted(&a), vec!["x", "y", "z"]);
    assert_eq!(sorted(&b), vec!["y", "z"]);
    a.extend(&NameSet::new());
    assert_eq!(a.len(), 3);
}
