use std::collections::HashMap;
use sui_data_loader::loader::{decide_load, LoadAction};
use sui_data_loader::normalizer::normalize;
use sui_data_loader::object::SuiIndexedObject;
use sui_data_loader::raw::{RawContent, RawObject, RawOwner};

fn object(id: &str, version: i64, digest: &str) -> SuiIndexedObject {
    normalize(&RawObject {
        id: Some(id.to_string()),
        version: Some(version),
        digest: Some(digest.to_string()),
        type_: Some("0x2::coin::Coin<0x2::sui::SUI>".to_string()),
        owner: Some(RawOwner { address_owner: None, object_owner: None, shared: None }),
        previous_transaction: Some("tx".to_string()),
        storage_rebate: None,
        content: Some(RawContent { data_type: None, fields: None }),
        bcs: Some(vec![]),
    })
    .unwrap()
}

fn load(store: &mut HashMap<String, SuiIndexedObject>, o: &SuiIndexedObject) -> LoadAction {
    let action = decide_load(store.get(&o._id).map(|s| s.version), o.version);
    if action == LoadAction::Upsert {
        store.insert(o._id.clone(), o.clone());
    }
    action
}

#[test]
fn decisions_by_version() {
    assert_eq!(decide_load(None, 0), LoadAction::Upsert);
    assert_eq!(decide_load(None, 9), LoadAction::Upsert);
    assert_eq!(decide_load(Some(5), 4), LoadAction::Skip);
    assert_eq!(decide_load(Some(5), 5), LoadAction::Upsert);
    assert_eq!(decide_load(Some(5), 6), LoadAction::Upsert);
    assert_eq!(decide_load(Some(u64::MAX), u64::MAX - 1), LoadAction::Skip);
    assert_eq!(decide_load(Some(0), 0), LoadAction::Upsert);
}

#[test]
fn loading_twice_leaves_the_store_as_it_was() {
    let mut store = HashMap::new();
    let o = object("0x1", 3, "d3");
    assert_eq!(load(&mut store, &o), LoadAction::Upsert);
    let once = store.clone();
    load(&mut store, &o);
    assert_eq!(store, once);
}

#[test]
fn older_version_after_a_newer_one_changes_nothing() {
    let mut store = HashMap::new();
    load(&mut store, &object("0x1", 3, "d3"));
    load(&mut store, &object("0x2", 1, "e1"));
    let before = store.clone();
    assert_eq!(load(&mut store, &object("0x1", 2, "d2")), LoadAction::Skip);
    assert_eq!(store, before);
    assert_eq!(load(&mut store, &object("0x1", 4, "d4")), LoadAction::Upsert);
    assert_eq!(store["0x1"].digest, "d4");
    assert_eq!(store["0x2"].digest, "e1");
}
