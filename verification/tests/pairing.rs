//! Pairings between workspaces.
use fleet_commander::pairing::{normalize, PairingStore};
use std::collections::BTreeMap;

/// The stored form of pairings: a list of two-element lists under `pairs`.
fn yaml_of(pairs: &[(String, String)]) -> String {
    let list: Vec<Vec<&str>> = pairs.iter().map(|(a, b)| vec![a.as_str(), b.as_str()]).collect();
    serde_yaml::to_string(&BTreeMap::from([("pairs", list)])).unwrap()
}

fn pairs_of(yaml: &str) -> Vec<(String, String)> {
    let mut file: BTreeMap<String, Vec<(String, String)>> = serde_yaml::from_str(yaml).unwrap();
    file.remove("pairs").unwrap()
}

#[test]
fn connect_is_undirected_and_deduped() {
    let mut store = PairingStore::default();
    assert!(store.connect("copilot-a", "copilot-b"));
    // Reversed order is the same pairing.
    assert!(!store.connect("copilot-b", "copilot-a"));
    assert!(store.is_connected("copilot-a", "copilot-b"));
    assert!(store.is_connected("copilot-b", "copilot-a"));
}

#[test]
fn self_pair_is_rejected() {
    let mut store = PairingStore::default();
    assert!(!store.connect("copilot-a", "copilot-a"));
    assert!(!store.is_connected("copilot-a", "copilot-a"));
}

#[test]
fn disconnect_removes_pairing() {
    let mut store = PairingStore::default();
    store.connect("copilot-a", "copilot-b");
    assert!(store.disconnect("copilot-b", "copilot-a"));
    assert!(!store.is_connected("copilot-a", "copilot-b"));
    assert!(!store.disconnect("copilot-a", "copilot-b"));
}

#[test]
fn peers_lists_all_connections_sorted() {
    let mut store = PairingStore::default();
    store.connect("copilot-a", "copilot-c");
    store.connect("copilot-a", "copilot-b");
    store.connect("copilot-b", "copilot-d");
    assert_eq!(store.peers("copilot-a"), vec!["copilot-b", "copilot-c"]);
    assert_eq!(store.peers("copilot-d"), vec!["copilot-b"]);
    assert!(store.peers("copilot-z").is_empty());
}

#[test]
fn round_trip_yaml_normalizes_order() {
    let mut store = PairingStore::default();
    store.connect("copilot-b", "copilot-a"); // written reversed
    let yaml = yaml_of(&store.save());

    let loaded = PairingStore::load(Some(pairs_of(&yaml)));
    assert!(loaded.is_connected("copilot-a", "copilot-b"));
    assert_eq!(loaded.peers("copilot-a"), vec!["copilot-b"]);
}

#[test]
fn pairing_load_missing_file_returns_empty() {
    let store = PairingStore::load(None);
    assert!(store.peers("copilot-a").is_empty());
}

#[test]
fn pairings_are_stored_smaller_id_first_and_sorted() {
    let mut store = PairingStore::default();
    store.connect("z", "b");
    store.connect("c", "a");
    assert_eq!(
        store.save(),
        vec![("a".to_string(), "c".to_string()), ("b".to_string(), "z".to_string())]
    );
}

#[test]
fn self_pairs_and_repeats_are_dropped_on_load() {
    let stored = vec![
        ("b".to_string(), "a".to_string()),
        ("a".to_string(), "b".to_string()),
        ("c".to_string(), "c".to_string()),
    ];
    let store = PairingStore::load(Some(stored));
    assert_eq!(store.save(), vec![("a".to_string(), "b".to_string())]);
}

#[test]
fn a_pair_has_one_normal_form() {
    assert_eq!(normalize("b", "a"), Some(("a".to_string(), "b".to_string())));
    assert_eq!(normalize("a", "b"), Some(("a".to_string(), "b".to_string())));
    assert_eq!(normalize("a", "a"), None);
}

#[test]
fn connecting_then_disconnecting_restores_the_store() {
    let mut store = PairingStore::default();
    store.connect("a", "b");
    let before = store.save();
    assert!(store.connect("a", "c"));
    assert!(store.disconnect("c", "a"));
    assert_eq!(store.save(), before);
}

#[test]
fn pairings_live_in_the_config_directory() {
    assert_eq!(
        PairingStore::config_path(Some("/home/u/.config".into())).as_deref(),
        Some("/home/u/.config/fleet-commander/pairings.yaml")
    );
    assert_eq!(PairingStore::config_path(None), None);
}
