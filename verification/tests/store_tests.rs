use submillisecond::store::CaptureStore;

fn store_of(pairs: &[(&str, &str)]) -> CaptureStore {
    let mut s = CaptureStore::new();
    for (k, v) in pairs {
        s.insert(k.to_string(), v.to_string());
    }
    s
}

fn entries_of(s: &CaptureStore) -> Vec<(String, String)> {
    let mut out = Vec::new();
    let mut i = 0;
    while i < s.len() {
        out.push(s.entry(i));
        i += 1;
    }
    out
}

#[test]
fn empty_store_has_no_entries() {
    let s = CaptureStore::new();
    assert_eq!(s.len(), 0);
    assert_eq!(s.get(&"id".to_string()), None);
    assert!(!s.contains_key(&"id".to_string()));
}

#[test]
fn insert_and_get() {
    let s = store_of(&[("user_id", "7"), ("team_id", "9")]);
    assert_eq!(s.len(), 2);
    assert_eq!(s.get(&"user_id".to_string()), Some("7".to_string()));
    assert_eq!(s.get(&"team_id".to_string()), Some("9".to_string()));
    assert_eq!(s.get(&"other".to_string()), None);
}

#[test]
fn insert_replaces_in_place() {
    let mut s = store_of(&[("a", "1"), ("b", "2")]);
    s.insert("a".to_string(), "3".to_string());
    assert_eq!(s.len(), 2);
    assert_eq!(
        entries_of(&s),
        vec![
            ("a".to_string(), "3".to_string()),
            ("b".to_string(), "2".to_string())
        ]
    );
}

#[test]
fn merge_empty_into_populated_is_identity() {
    let mut s = store_of(&[("user_id", "7"), ("team_id", "9")]);
    let before = entries_of(&s);
    s.merge(&CaptureStore::new());
    assert_eq!(entries_of(&s), before);
}

#[test]
fn merge_disjoint_is_union_with_values_intact() {
    let mut s = store_of(&[("a", "1"), ("b", "2")]);
    let t = store_of(&[("c", "3"), ("d", "4")]);
    s.merge(&t);
    assert_eq!(
        entries_of(&s),
        vec![
            ("a".to_string(), "1".to_string()),
            ("b".to_string(), "2".to_string()),
            ("c".to_string(), "3".to_string()),
            ("d".to_string(), "4".to_string())
        ]
    );
}

#[test]
fn merge_collision_incoming_wins_in_place() {
    let mut s = store_of(&[("a", "1"), ("b", "2")]);
    let t = store_of(&[("b", "20"), ("c", "30")]);
    s.merge(&t);
    assert_eq!(
        entries_of(&s),
        vec![
            ("a".to_string(), "1".to_string()),
            ("b".to_string(), "20".to_string()),
            ("c".to_string(), "30".to_string())
        ]
    );
}

#[test]
fn merge_into_empty_takes_incoming() {
    let mut s = CaptureStore::new();
    let t = store_of(&[("k", "v")]);
    s.merge(&t);
    assert_eq!(entries_of(&s), vec![("k".to_string(), "v".to_string())]);
}
