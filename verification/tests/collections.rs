use cloak::collections::sort_dedup_strings;
use cloak::collections::{sort_strings, KeyedList};
use cloak::text::hex_string;

#[test]
fn keyed_list_replaces_and_keeps_order() {
    let mut l: KeyedList<u32> = KeyedList::new();
    l.insert("a".into(), 1);
    l.insert("b".into(), 2);
    l.insert("a".into(), 3);
    assert_eq!(l.len(), 2);
    assert_eq!(l.get("a"), Some(&3));
    assert_eq!(l.keys().len(), 2);
    assert_eq!(l.remove("b"), Some(2));
    assert!(!l.contains_key("b"));
    let e = l.into_entries();
    assert_eq!(e, vec![("a".to_string(), 3)]);
}

#[test]
fn strings_sort_by_code_point() {
    let v = vec!["b".to_string(), "B".to_string(), "a".to_string(), "ab".to_string()];
    assert_eq!(sort_strings(v), vec!["B", "a", "ab", "b"]);
}

#[test]
fn hex_spelling() {
    assert_eq!(hex_string(&[0x00, 0x0f, 0xa5, 0xff]), "000fa5ff");
    assert_eq!(hex_string(&[]), "");
}

#[test]
fn sort_and_dedup() {
    let v = vec!["b".to_string(), "a".to_string(), "b".to_string(), "a".to_string()];
    assert_eq!(sort_dedup_strings(v), vec!["a", "b"]);
    assert!(sort_dedup_strings(vec![]).is_empty());
}
