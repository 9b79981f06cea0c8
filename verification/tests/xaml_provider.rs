//! The XAML registry, the map of the provider, and the provider.

use std::sync::Arc;

use noesis_bevy::xaml::{
    update_xaml_registry, AssetKey, BevyXamlProvider, SharedXamlMap, XamlEvent, XamlKeys, XamlRegistry,
};

#[test]
fn provider_returns_bytes_then_forgets_on_next_load() {
    let (mut provider, mut shared) = BevyXamlProvider::new_shared();
    let bytes_a = Arc::new(b"<Grid Background=\"Red\"/>".to_vec());
    let bytes_b = Arc::new(b"<Grid Background=\"Blue\"/>".to_vec());
    let mut registry = XamlRegistry::default();
    registry.entries.insert("a.xaml".into(), Arc::clone(&bytes_a));
    registry.entries.insert("b.xaml".into(), Arc::clone(&bytes_b));
    shared.sync_from(&registry);

    let slice_a = provider.load_xaml(&shared, "a.xaml").expect("a.xaml missing");
    assert_eq!(slice_a.as_slice(), bytes_a.as_slice());

    let slice_b = provider.load_xaml(&shared, "b.xaml").expect("b.xaml missing");
    assert_eq!(slice_b.as_slice(), bytes_b.as_slice());

    assert!(provider.load_xaml(&shared, "missing.xaml").is_none());
}

#[test]
fn provider_sees_registry_changes_after_sync() {
    let (mut provider, mut shared) = BevyXamlProvider::new_shared();
    let mut registry = XamlRegistry::default();
    registry.entries.insert("a.xaml".into(), Arc::new(b"v1".to_vec()));
    shared.sync_from(&registry);
    assert_eq!(
        provider.load_xaml(&shared, "a.xaml").map(|b| b.as_slice()),
        Some(b"v1".as_slice())
    );

    registry.entries.insert("a.xaml".into(), Arc::new(b"v2".to_vec()));
    shared.sync_from(&registry);
    assert_eq!(
        provider.load_xaml(&shared, "a.xaml").map(|b| b.as_slice()),
        Some(b"v2".as_slice())
    );

    registry.entries.remove("a.xaml");
    shared.sync_from(&registry);
    assert_eq!(provider.load_xaml(&shared, "a.xaml"), None);
}

#[test]
fn extract_resource_clones_entries() {
    let mut source = XamlRegistry::default();
    source.entries.insert("foo.xaml".into(), Arc::new(b"hello".to_vec()));
    source.entries.insert("bar.xaml".into(), Arc::new(b"world".to_vec()));

    let extracted = XamlRegistry::extract_resource(&source);
    assert_eq!(extracted.entries.len(), 2);
    assert_eq!(
        extracted.entries.get("foo.xaml").map(|a| a.as_slice()),
        Some(b"hello".as_slice()),
    );
    assert!(Arc::ptr_eq(
        source.entries.get("foo.xaml").unwrap(),
        extracted.entries.get("foo.xaml").unwrap(),
    ));
}

#[test]
fn registry_answers_by_uri() {
    let mut r = XamlRegistry::default();
    assert!(r.is_empty());
    r.insert("a", Arc::new(vec![1]));
    r.insert("b", Arc::new(vec![2]));
    r.insert("a", Arc::new(vec![3]));
    assert_eq!(r.len(), 2);
    assert_eq!(r.get("a").map(|b| b.as_slice()), Some(&[3u8][..]));
    assert!(r.get("c").is_none());
    let mut keys = r.keys();
    keys.sort();
    assert_eq!(keys, vec!["a", "b"]);
}

fn loaded(id: AssetKey, path: &str, bytes: &[u8]) -> XamlEvent {
    XamlEvent::Loaded {
        id,
        path: Some(path.to_string()),
        bytes: Some(Arc::new(bytes.to_vec())),
    }
}

#[test]
fn asset_events_keep_the_registry_up_to_date() {
    let mut registry = XamlRegistry::default();
    let mut keys = XamlKeys::new();
    let id = (0, (1, 0));
    let other = (0, (2, 0));
    update_xaml_registry(
        &mut registry,
        &mut keys,
        &vec![
            loaded(id, "a.xaml", b"1"),
            loaded(other, "b.xaml", b"2"),
            XamlEvent::Other,
        ],
    );
    assert_eq!(registry.len(), 2);
    update_xaml_registry(
        &mut registry,
        &mut keys,
        &vec![
            loaded(id, "a.xaml", b"3"),
            XamlEvent::Removed { id: other },
            XamlEvent::Removed { id: (9, (9, 9)) },
        ],
    );
    assert_eq!(registry.get("a.xaml").map(|b| b.as_slice()), Some(b"3".as_slice()));
    assert!(registry.get("b.xaml").is_none());
    update_xaml_registry(
        &mut registry,
        &mut keys,
        &vec![XamlEvent::Loaded { id, path: None, bytes: Some(Arc::new(vec![])) }],
    );
    update_xaml_registry(
        &mut registry,
        &mut keys,
        &vec![XamlEvent::Loaded { id, path: Some("a.xaml".into()), bytes: None }],
    );
    assert_eq!(registry.get("a.xaml").map(|b| b.as_slice()), Some(b"3".as_slice()));
}

#[test]
fn provider_of_an_empty_map_has_nothing() {
    let mut provider = BevyXamlProvider::from_shared();
    let map = SharedXamlMap::default();
    assert!(provider.load_xaml(&map, "a").is_none());
    assert!(!map.contains_key("a"));
}
