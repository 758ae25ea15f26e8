use ic_stable_structures::memory_manager::{MemoryId, MemoryManager};
use ic_stable_structures::DefaultMemoryImpl;
use icu::codec::{decode_name, encode_name};
use icu::identity::Identity;
use icu::memory::subnet::{SubnetIndex, SubnetIndexError};
use icu::structures::DefaultMemory;

fn fresh_registry() -> SubnetIndex {
    let manager = MemoryManager::init(DefaultMemoryImpl::default());
    SubnetIndex::init(DefaultMemory(manager.get(MemoryId::new(0))))
}

fn who(bytes: &[u8]) -> Identity {
    Identity::from_slice(bytes).unwrap()
}

#[test]
fn registry_set_then_get() {
    let mut registry = fresh_registry();
    assert_eq!(registry.get_canister("ledger"), None);
    registry.set_canister("ledger", who(&[1, 2]));
    assert_eq!(registry.get_canister("ledger"), Some(who(&[1, 2])));
    assert_eq!(registry.get_canister("users"), None);
    registry.set_canister("ledger", who(&[3]));
    assert_eq!(registry.get_canister("ledger"), Some(who(&[3])));
}

#[test]
fn registry_try_get_names_the_missing_role() {
    let mut registry = fresh_registry();
    assert_eq!(
        registry.try_get_canister("ledger"),
        Err(SubnetIndexError::CanisterNotFound("ledger".to_string()))
    );
    registry.set_canister("ledger", who(&[9]));
    assert_eq!(registry.try_get_canister("ledger"), Ok(who(&[9])));
    assert_eq!(
        registry.try_get_canister(""),
        Err(SubnetIndexError::CanisterNotFound(String::new()))
    );
}

#[test]
fn registry_exports_in_key_order() {
    let mut registry = fresh_registry();
    registry.set_canister("users", who(&[2]));
    registry.set_canister("ledger", who(&[1]));
    registry.set_canister("", who(&[0]));
    registry.set_canister("ledgers", who(&[3]));
    registry.set_canister("Zeta", who(&[4]));
    assert_eq!(
        registry.get_data(),
        vec![
            (String::new(), who(&[0])),
            ("Zeta".to_string(), who(&[4])),
            ("ledger".to_string(), who(&[1])),
            ("ledgers".to_string(), who(&[3])),
            ("users".to_string(), who(&[2])),
        ]
    );
}

#[test]
fn registry_import_then_export_gives_the_data_back() {
    let mut registry = fresh_registry();
    registry.set_canister("old", who(&[7]));
    let data = vec![
        ("alpha".to_string(), who(&[1])),
        ("beta".to_string(), who(&[2, 2])),
        ("gamma".to_string(), who(&[])),
    ];
    registry.set_data(data.clone());
    assert_eq!(registry.get_data(), data);
    assert_eq!(registry.get_canister("old"), None);
}

#[test]
fn registry_import_sorts_and_keeps_the_later_entry() {
    let mut registry = fresh_registry();
    registry.set_data(vec![
        ("beta".to_string(), who(&[2])),
        ("alpha".to_string(), who(&[1])),
        ("beta".to_string(), who(&[3])),
    ]);
    assert_eq!(
        registry.get_data(),
        vec![("alpha".to_string(), who(&[1])), ("beta".to_string(), who(&[3]))]
    );
}

#[test]
fn registry_import_of_nothing_empties_it() {
    let mut registry = fresh_registry();
    registry.set_canister("ledger", who(&[1]));
    registry.set_data(Vec::new());
    assert_eq!(registry.get_data(), Vec::<(String, Identity)>::new());
}

#[test]
fn registry_takes_names_beyond_ascii() {
    let mut registry = fresh_registry();
    registry.set_canister("émile", who(&[1]));
    registry.set_canister("zebra", who(&[2]));
    registry.set_canister("日本", who(&[3]));
    assert_eq!(registry.get_canister("émile"), Some(who(&[1])));
    assert_eq!(
        registry.get_data(),
        vec![
            ("zebra".to_string(), who(&[2])),
            ("émile".to_string(), who(&[1])),
            ("日本".to_string(), who(&[3])),
        ]
    );
}

#[test]
fn name_keys_are_utf8() {
    assert_eq!(encode_name("ab"), vec![0x61u8, 0x62]);
    assert_eq!(encode_name("é"), vec![0xc3u8, 0xa9]);
    assert_eq!(decode_name(vec![0x61u8, 0x62]), Some("ab".to_string()));
    assert_eq!(decode_name(vec![0xc3u8, 0xa9]), Some("é".to_string()));
    assert_eq!(decode_name(vec![0xffu8]), None);
    assert_eq!(decode_name(vec![0xc3u8]), None);
    assert_eq!(decode_name(Vec::new()), Some(String::new()));
}

#[test]
fn short_names_and_descriptors_fit() {
    assert!(icu::codec::name_fits(""));
    assert!(icu::codec::name_fits("ledger"));
    assert!(icu::codec::descriptor_fits(&icu::codec::ChildDescriptor {
        role: "worker".to_string(),
        created_at: 0,
    }));
}

#[test]
fn registry_tells_who_holds_a_role() {
    let mut registry = fresh_registry();
    registry.set_canister("ledger", who(&[1]));
    assert!(registry.holds_role("ledger", &who(&[1])));
    assert!(!registry.holds_role("ledger", &who(&[2])));
    assert!(!registry.holds_role("users", &who(&[1])));
    registry.set_canister("ledger", who(&[2]));
    assert!(!registry.holds_role("ledger", &who(&[1])));
    assert!(registry.holds_role("ledger", &who(&[2])));
}
