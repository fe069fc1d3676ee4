use cloak::collections::KeyedList;
use cloak::crypto::{derive_key, SALT_LEN};
use cloak::storage::file_store::{open_vault, seal_vault, VaultData};
use cloak::storage::keyring_store::{metadata_from_legacy, KeyringMetadata, KeyringStore};
use cloak::storage::{merge_scopes, NamespacedMap};

#[test]
fn test_file_store_lifecycle() {
    let password = b"passphrase-secret";
    let salt = [5u8; SALT_LEN];
    let key = derive_key(password, &salt).unwrap();

    let mut data: VaultData = NamespacedMap::new();
    data.set("default", "API_KEY", "sk-12345".to_string());
    data.set("default", "DB_URL", "postgres://localhost".to_string());
    assert_eq!(data.get_value("default", "API_KEY"), Some("sk-12345".to_string()));
    assert_eq!(data.list("default"), vec!["API_KEY", "DB_URL"]);

    let payload = b"{\"default\":{\"API_KEY\":\"sk-12345\"}}";
    let sealed = seal_vault(&key, salt, payload).unwrap();
    assert_eq!(sealed.salt, salt);

    let key2 = derive_key(password, &sealed.salt).unwrap();
    assert_eq!(open_vault(&key2, &sealed).unwrap(), payload.to_vec());

    let bad = derive_key(b"wrong-pass", &sealed.salt).unwrap();
    assert!(open_vault(&bad, &sealed).is_err());
}

#[test]
fn read_after_write_and_delete() {
    let mut m: NamespacedMap<String> = NamespacedMap::new();
    m.set("ns", "K", "v1".to_string());
    m.set("ns", "K", "v2".to_string());
    m.set("other", "K", "o".to_string());
    assert_eq!(m.get("ns", "K"), Some(&"v2".to_string()));
    assert_eq!(m.get("other", "K"), Some(&"o".to_string()));
    assert_eq!(m.get("missing", "K"), None);
    m.delete("ns", "K");
    assert_eq!(m.get("ns", "K"), None);
    assert_eq!(m.get("other", "K"), Some(&"o".to_string()));
    // The namespace stays known after its last key is deleted.
    assert_eq!(m.list_namespaces(), vec!["ns", "other"]);
    assert!(m.list("ns").is_empty());
}

#[test]
fn listing_is_sorted() {
    let mut m: NamespacedMap<String> = NamespacedMap::new();
    m.set("b", "Z", "1".to_string());
    m.set("b", "A", "2".to_string());
    m.set("a", "M", "3".to_string());
    assert_eq!(m.list("b"), vec!["A", "Z"]);
    assert_eq!(m.list_namespaces(), vec!["a", "b"]);
    let all = m.get_all("b");
    assert_eq!(all.len(), 2);
    assert_eq!(all.get("A"), Some(&"2".to_string()));
    assert_eq!(m.get_all("nope").len(), 0);
}

#[test]
fn project_secrets_override_global() {
    let mut g: KeyedList<String> = KeyedList::new();
    g.insert("A".into(), "global-a".into());
    g.insert("B".into(), "global-b".into());
    let mut p: KeyedList<String> = KeyedList::new();
    p.insert("B".into(), "project-b".into());
    p.insert("C".into(), "project-c".into());
    let merged = merge_scopes(g, Some(p));
    assert_eq!(merged.len(), 3);
    assert_eq!(merged.get("A"), Some(&"global-a".to_string()));
    assert_eq!(merged.get("B"), Some(&"project-b".to_string()));
    assert_eq!(merged.get("C"), Some(&"project-c".to_string()));

    let mut g2: KeyedList<String> = KeyedList::new();
    g2.insert("A".into(), "x".into());
    let only = merge_scopes(g2, None);
    assert_eq!(only.len(), 1);
}

#[test]
fn keyring_service_names_and_index() {
    assert_eq!(KeyringStore::service_name("global"), "cloak-global");
    assert_eq!(KeyringStore::new("/cfg").metadata_path, "/cfg/metadata.json");

    let mut idx: KeyringMetadata = NamespacedMap::new();
    idx.record_key("ns", "SECURE", true);
    idx.record_key("ns", "PLAIN", false);
    assert!(idx.is_hardware_protected("ns", "SECURE"));
    assert!(!idx.is_hardware_protected("ns", "PLAIN"));
    assert!(!idx.is_hardware_protected("ns", "UNKNOWN"));
    idx.forget_key("ns", "SECURE");
    assert!(!idx.is_hardware_protected("ns", "SECURE"));
    assert_eq!(idx.list("ns"), vec!["PLAIN"]);
}

#[test]
fn legacy_index_is_converted() {
    let legacy = vec![
        ("ns1".to_string(), vec!["K1".to_string(), "K2".to_string()]),
        ("ns2".to_string(), vec!["K3".to_string()]),
    ];
    let idx = metadata_from_legacy(legacy);
    assert_eq!(idx.list("ns1"), vec!["K1", "K2"]);
    assert_eq!(idx.list("ns2"), vec!["K3"]);
    assert!(!idx.is_hardware_protected("ns1", "K1"));
}

#[test]
fn requested_keys_prefer_the_project() {
    let keys = vec!["A".to_string(), "B".to_string(), "C".to_string()];
    let found = vec![
        (Some("pa".to_string()), Some("ga".to_string())),
        (None, Some("gb".to_string())),
        (None, None),
    ];
    let r = cloak::storage::select_requested(&keys, &found);
    assert_eq!(r.len(), 2);
    assert_eq!(r.get("A"), Some(&"pa".to_string()));
    assert_eq!(r.get("B"), Some(&"gb".to_string()));
    assert_eq!(r.get("C"), None);
}
