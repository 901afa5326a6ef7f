use sbom_generator::analyze::producers::maven::properties::Properties;

#[test]
fn new_properties_are_empty() {
    let p = Properties::new();
    assert_eq!(p.len(), 0);
    assert!(p.is_empty());
    assert!(p.get("a").is_none());
    assert!(!p.contains_key("a"));
    assert!(p.keys().is_empty());
    assert!(Properties::default().is_empty());
}

#[test]
fn insert_binds_and_the_last_write_wins() {
    let mut p = Properties::new();
    p.insert("a".to_string(), "1".to_string());
    p.insert("b".to_string(), "2".to_string());
    assert_eq!(p.len(), 2);
    p.insert("a".to_string(), "3".to_string());
    assert_eq!(p.len(), 2);
    assert_eq!(p.get("a").unwrap(), "3");
    assert_eq!(p.get("b").unwrap(), "2");
    assert!(p.contains_key("a"));
    assert!(!p.contains_key("A"));
    assert!(!p.is_empty());
    let mut keys = p.keys();
    keys.sort();
    assert_eq!(keys, vec!["a".to_string(), "b".to_string()]);
}

#[test]
fn extend_lets_the_other_win() {
    let mut parent = Properties::new();
    parent.insert("x".to_string(), "1".to_string());
    parent.insert("y".to_string(), "parent".to_string());
    let mut child = Properties::new();
    child.insert("y".to_string(), "child".to_string());
    child.insert("z".to_string(), "3".to_string());
    parent.extend(&child);
    assert_eq!(parent.len(), 3);
    assert_eq!(parent.get("x").unwrap(), "1");
    assert_eq!(parent.get("y").unwrap(), "child");
    assert_eq!(parent.get("z").unwrap(), "3");
    assert_eq!(child.len(), 2);
}

#[test]
fn clone_holds_the_same_bindings() {
    let mut p = Properties::new();
    p.insert("a".to_string(), "1".to_string());
    let mut q = p.clone();
    q.insert("b".to_string(), "2".to_string());
    assert_eq!(p.len(), 1);
    assert_eq!(q.len(), 2);
    assert_eq!(q.get("a").unwrap(), "1");
}
