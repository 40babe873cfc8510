use safe_frost::store::Store;

#[test]
fn put_get_remove() {
    let mut s = Store::new();
    assert!(s.get("a").is_none());
    s.put("a".to_string(), vec![1]);
    s.put("b".to_string(), vec![2]);
    s.put("a".to_string(), vec![3]);
    assert_eq!(s.get("a"), Some(&vec![3]));
    assert_eq!(s.names().len(), 2);
    s.remove("a");
    assert!(!s.contains("a"));
    s.remove("a");
    assert_eq!(s.names(), vec!["b".to_string()]);
}

#[test]
fn remove_all_of_a_kind() {
    let mut s = Store::new();
    for n in ["round1.1.commitments", "round1.1.nonces", "round1", "round1.2.commitments"] {
        s.put(n.to_string(), vec![]);
    }
    s.remove_all(safe_frost::workspace::Listing::Commitments);
    let mut names = s.names();
    names.sort();
    assert_eq!(names, vec!["round1".to_string(), "round1.1.nonces".to_string()]);
}
