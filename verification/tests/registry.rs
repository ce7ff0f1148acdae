use datasource_contracts::identifier::{abi_encode_id, Address, Bytes32};
use datasource_contracts::registry::{
    DatasourceRegistry, DatasourceRegistryError, RegistryEvent, StorageDataSource,
};

const ZERO: Address = [0u8; 20];
const ALICE: Address = [0x11; 20];
const BOB: Address = [0x22; 20];

fn id_hex(text: &str) -> Bytes32 {
    let mut out = [0u8; 32];
    for (i, byte) in out.iter_mut().enumerate() {
        *byte = u8::from_str_radix(&text[2 * i..2 * i + 2], 16).unwrap();
    }
    out
}

fn s(text: &str) -> String {
    String::from(text)
}

#[test]
fn new_registry_is_empty() {
    let registry = DatasourceRegistry::new();
    assert!(registry.events().is_empty());
    assert!(registry.get_owned_data_sources(ALICE).is_empty());
    assert!(registry.data_source(&abi_encode_id("x", &ALICE)).is_none());
}

#[test]
fn register_returns_the_derived_identifier() {
    let mut registry = DatasourceRegistry::new();
    let id = registry.register_data_source(s("x"), ALICE).unwrap();
    assert_eq!(id, abi_encode_id("x", &ALICE));
    assert_eq!(
        id,
        id_hex("571b7b919a7338a5ee73c833ed10751ce01e16d79f20cbccb7cb6169831a7df7")
    );
}

#[test]
fn register_then_get_returns_empty_manifest() {
    let mut registry = DatasourceRegistry::new();
    registry.register_data_source(s("weather"), ALICE).unwrap();
    assert_eq!(registry.get_data_source(ALICE, s("weather")), Ok(String::new()));
}

#[test]
fn register_writes_name_owner_and_empty_pointer() {
    let mut registry = DatasourceRegistry::new();
    let id = registry.register_data_source(s("weather"), ALICE).unwrap();
    assert_eq!(
        registry.data_source(&id),
        Some(&StorageDataSource { name: s("weather"), manifest_cid: s(""), owner: ALICE })
    );
}

#[test]
fn register_twice_fails_with_already_exists() {
    let mut registry = DatasourceRegistry::new();
    let id = registry.register_data_source(s("weather"), ALICE).unwrap();
    registry.update_data_source(s("weather"), s("cid1"), ALICE).unwrap();
    let events_before = registry.events().clone();
    let owned_before = registry.get_owned_data_sources(ALICE);
    let record_before = registry.data_source(&id).cloned();

    assert_eq!(
        registry.register_data_source(s("weather"), ALICE),
        Err(DatasourceRegistryError::DataSourceAlreadyExists)
    );

    assert_eq!(registry.events(), &events_before);
    assert_eq!(registry.get_owned_data_sources(ALICE), owned_before);
    assert_eq!(registry.data_source(&id).cloned(), record_before);
    assert_eq!(registry.get_data_source(ALICE, s("weather")), Ok(s("cid1")));
}

#[test]
fn same_name_under_two_owners_is_two_data_sources() {
    let mut registry = DatasourceRegistry::new();
    let a = registry.register_data_source(s("x"), ALICE).unwrap();
    let b = registry.register_data_source(s("x"), BOB).unwrap();
    assert_ne!(a, b);
    registry.update_data_source(s("x"), s("alice-cid"), ALICE).unwrap();
    assert_eq!(registry.get_data_source(ALICE, s("x")), Ok(s("alice-cid")));
    assert_eq!(registry.get_data_source(BOB, s("x")), Ok(s("")));
    assert_eq!(registry.get_owned_data_sources(ALICE), vec![a]);
    assert_eq!(registry.get_owned_data_sources(BOB), vec![b]);
}

#[test]
fn update_then_get_returns_the_new_pointer() {
    let mut registry = DatasourceRegistry::new();
    registry.register_data_source(s("weather"), ALICE).unwrap();
    assert_eq!(registry.update_data_source(s("weather"), s("cid123"), ALICE), Ok(()));
    assert_eq!(registry.get_data_source(ALICE, s("weather")), Ok(s("cid123")));
}

#[test]
fn update_may_be_repeated() {
    let mut registry = DatasourceRegistry::new();
    let id = registry.register_data_source(s("weather"), ALICE).unwrap();
    registry.update_data_source(s("weather"), s("one"), ALICE).unwrap();
    registry.update_data_source(s("weather"), s("two"), ALICE).unwrap();
    assert_eq!(registry.get_data_source(ALICE, s("weather")), Ok(s("two")));
    assert_eq!(
        registry.data_source(&id),
        Some(&StorageDataSource { name: s("weather"), manifest_cid: s("two"), owner: ALICE })
    );
    assert_eq!(registry.get_owned_data_sources(ALICE), vec![id]);
}

#[test]
fn update_of_unregistered_fails_not_found() {
    let mut registry = DatasourceRegistry::new();
    registry.register_data_source(s("weather"), ALICE).unwrap();
    assert_eq!(
        registry.update_data_source(s("weather"), s("cid123"), BOB),
        Err(DatasourceRegistryError::DataSourceNotFound)
    );
    assert_eq!(
        registry.update_data_source(s("other"), s("cid123"), ALICE),
        Err(DatasourceRegistryError::DataSourceNotFound)
    );
    assert_eq!(registry.get_data_source(ALICE, s("weather")), Ok(s("")));
    assert_eq!(registry.events().len(), 1);
}

#[test]
fn update_by_other_identity_fails_not_owner() {
    let id = abi_encode_id("weather", &BOB);
    let stored = StorageDataSource { name: s("weather"), manifest_cid: s("kept"), owner: ALICE };
    let mut registry = DatasourceRegistry::restore(vec![(id, stored.clone())], vec![(ALICE, id)]);

    assert_eq!(
        registry.update_data_source(s("weather"), s("cid123"), BOB),
        Err(DatasourceRegistryError::NotOwner)
    );

    assert_eq!(registry.data_source(&id), Some(&stored));
    assert!(registry.events().is_empty());
    assert_eq!(registry.get_owned_data_sources(ALICE), vec![id]);
}

#[test]
fn get_of_unregistered_fails_not_found() {
    let mut registry = DatasourceRegistry::new();
    assert_eq!(
        registry.get_data_source(ALICE, s("weather")),
        Err(DatasourceRegistryError::DataSourceNotFound)
    );
    registry.register_data_source(s("weather"), ALICE).unwrap();
    assert_eq!(
        registry.get_data_source(BOB, s("weather")),
        Err(DatasourceRegistryError::DataSourceNotFound)
    );
    assert_eq!(
        registry.get_data_source(ALICE, s("Weather")),
        Err(DatasourceRegistryError::DataSourceNotFound)
    );
}

#[test]
fn list_owned_is_in_registration_order() {
    let mut registry = DatasourceRegistry::new();
    registry.register_data_source(s("a"), ALICE).unwrap();
    registry.register_data_source(s("b"), ALICE).unwrap();
    assert_eq!(
        registry.get_owned_data_sources(ALICE),
        vec![abi_encode_id("a", &ALICE), abi_encode_id("b", &ALICE)]
    );
    assert_eq!(
        registry.get_owned_data_sources(ALICE),
        vec![
            id_hex("b06666fb1ee81c623ab321aaf2ce2d97e6248aafe5ac92b26e86908322cedb81"),
            id_hex("b77e61fa1af336c068b2f8aa88c3c6ca180d495eb5e7904d54f2067ba79445a6"),
        ]
    );
}

#[test]
fn list_owned_keeps_owners_apart() {
    let mut registry = DatasourceRegistry::new();
    registry.register_data_source(s("b"), ALICE).unwrap();
    registry.register_data_source(s("z"), BOB).unwrap();
    registry.register_data_source(s("a"), ALICE).unwrap();
    assert_eq!(
        registry.get_owned_data_sources(ALICE),
        vec![abi_encode_id("b", &ALICE), abi_encode_id("a", &ALICE)]
    );
    assert_eq!(registry.get_owned_data_sources(BOB), vec![abi_encode_id("z", &BOB)]);
    assert!(registry.get_owned_data_sources([0x33; 20]).is_empty());
}

#[test]
fn refused_registration_is_not_listed() {
    let mut registry = DatasourceRegistry::new();
    registry.register_data_source(s("a"), ALICE).unwrap();
    assert!(registry.register_data_source(s("a"), ALICE).is_err());
    assert_eq!(registry.get_owned_data_sources(ALICE), vec![abi_encode_id("a", &ALICE)]);
}

#[test]
fn events_follow_the_committed_changes() {
    let mut registry = DatasourceRegistry::new();
    let id = registry.register_data_source(s("weather"), ALICE).unwrap();
    registry.update_data_source(s("weather"), s("cid123"), ALICE).unwrap();
    assert!(registry.register_data_source(s("weather"), ALICE).is_err());
    assert!(registry.update_data_source(s("weather"), s("x"), BOB).is_err());
    assert_eq!(
        registry.events(),
        &vec![
            RegistryEvent::DataSourceCreated { id, owner: ALICE, name: s("weather") },
            RegistryEvent::DataSourceUpdated { id, new_manifest_cid: s("cid123") },
        ]
    );
}

#[test]
fn zero_sender_leaves_no_data_source() {
    let mut registry = DatasourceRegistry::new();
    let id = registry.register_data_source(s("ghost"), ZERO).unwrap();
    assert_eq!(id, abi_encode_id("ghost", &ZERO));
    assert_eq!(
        registry.get_data_source(ZERO, s("ghost")),
        Err(DatasourceRegistryError::DataSourceNotFound)
    );
    assert_eq!(
        registry.update_data_source(s("ghost"), s("cid"), ZERO),
        Err(DatasourceRegistryError::DataSourceNotFound)
    );
    assert_eq!(registry.register_data_source(s("ghost"), ZERO), Ok(id));
    assert_eq!(registry.get_owned_data_sources(ZERO), vec![id, id]);
    assert_eq!(
        registry.data_source(&id),
        Some(&StorageDataSource { name: s("ghost"), manifest_cid: s(""), owner: ZERO })
    );
}

#[test]
fn restore_reads_the_last_entry_of_an_identifier() {
    let id = abi_encode_id("weather", &ALICE);
    let first = StorageDataSource { name: s("weather"), manifest_cid: s("old"), owner: ALICE };
    let last = StorageDataSource { name: s("weather"), manifest_cid: s("new"), owner: ALICE };
    let mut registry =
        DatasourceRegistry::restore(vec![(id, first), (id, last.clone())], vec![(ALICE, id)]);
    assert_eq!(registry.data_source(&id), Some(&last));
    assert_eq!(registry.get_data_source(ALICE, s("weather")), Ok(s("new")));
    assert!(registry.events().is_empty());

    registry.update_data_source(s("weather"), s("newer"), ALICE).unwrap();
    assert_eq!(registry.get_data_source(ALICE, s("weather")), Ok(s("newer")));
    assert_eq!(
        registry.register_data_source(s("weather"), ALICE),
        Err(DatasourceRegistryError::DataSourceAlreadyExists)
    );
}

#[test]
fn restore_then_register_appends_to_the_restored_list() {
    let old = abi_encode_id("old", &ALICE);
    let record = StorageDataSource { name: s("old"), manifest_cid: s("c"), owner: ALICE };
    let mut registry =
        DatasourceRegistry::restore(vec![(old, record)], vec![(ALICE, old), (BOB, [9u8; 32])]);
    let new = registry.register_data_source(s("new"), ALICE).unwrap();
    assert_eq!(registry.get_owned_data_sources(ALICE), vec![old, new]);
    assert_eq!(registry.get_owned_data_sources(BOB), vec![[9u8; 32]]);
}

#[test]
fn restored_record_without_owner_may_be_registered() {
    let id = abi_encode_id("weather", &ALICE);
    let blank = StorageDataSource { name: s(""), manifest_cid: s("stale"), owner: ZERO };
    let mut registry = DatasourceRegistry::restore(vec![(id, blank)], vec![]);
    assert_eq!(
        registry.get_data_source(ALICE, s("weather")),
        Err(DatasourceRegistryError::DataSourceNotFound)
    );
    assert_eq!(registry.register_data_source(s("weather"), ALICE), Ok(id));
    assert_eq!(registry.get_data_source(ALICE, s("weather")), Ok(s("")));
}
