//! What the load stage does with an object that reaches it.
//!
//! The store keeps one document for each object id: the latest version that
//! was loaded. An object older than the one stored is not written, so that a
//! message delivered again, or out of order, changes nothing. Whether it is
//! written or skipped, the object counts as handled and its message is
//! acknowledged.

use vstd::prelude::*;
use crate::object::IndexedObject;

verus! {

/// What to do with an incoming object.
#[derive(Clone, Copy, Debug, PartialEq, Eq, Structural)]
pub enum LoadAction {
    /// Write it under its id, in place of what is stored there.
    Upsert,
    /// Leave the store as it is.
    Skip,
}

/// Skip an object that is older than the one stored under its id; write any
/// other.
pub open spec fn load_action(stored_version: Option<u64>, incoming_version: u64) -> LoadAction {
    match stored_version {
        Some(stored) => if incoming_version < stored {
            LoadAction::Skip
        } else {
            LoadAction::Upsert
        },
        None => LoadAction::Upsert,
    }
}

/// Decides what to do with an object of version `incoming_version`, given the
/// version stored under the same id, if any.
pub fn decide_load(stored_version: Option<u64>, incoming_version: u64) -> (r: LoadAction)
    ensures
        r == load_action(stored_version, incoming_version),
{
    match stored_version {
        Some(stored) => if incoming_version < stored {
            LoadAction::Skip
        } else {
            LoadAction::Upsert
        },
        None => LoadAction::Upsert,
    }
}

/// The version stored under `id`, if any.
pub open spec fn stored_version(store: Map<Seq<char>, IndexedObject>, id: Seq<char>) -> Option<
    u64,
> {
    if store.contains_key(id) {
        Some(store[id].version)
    } else {
        None
    }
}

/// The store after `object` was loaded into it.
pub open spec fn store_after(
    store: Map<Seq<char>, IndexedObject>,
    object: IndexedObject,
) -> Map<Seq<char>, IndexedObject> {
    match load_action(stored_version(store, object.id), object.version) {
        LoadAction::Upsert => store.insert(object.id, object),
        LoadAction::Skip => store,
    }
}

/// Loading an object a second time leaves the store as the first load left
/// it.
pub proof fn law_load_twice(store: Map<Seq<char>, IndexedObject>, object: IndexedObject)
    ensures
        store_after(store_after(store, object), object) == store_after(store, object),
{
    let once = store_after(store, object);
    assert(store_after(once, object) =~= once);
}

/// Loading an older version of an object after a newer one changes nothing.
pub proof fn law_stale_load(
    store: Map<Seq<char>, IndexedObject>,
    newer: IndexedObject,
    older: IndexedObject,
)
    requires
        older.id == newer.id,
        older.version < newer.version,
    ensures
        store_after(store_after(store, newer), older) == store_after(store, newer),
{
}

/// A load never lowers the version stored under an id, and it touches no
/// other id.
pub proof fn law_versions_grow(
    store: Map<Seq<char>, IndexedObject>,
    object: IndexedObject,
    id: Seq<char>,
)
    ensures
        store.contains_key(id) ==> store_after(store, object).contains_key(id) && store_after(
            store,
            object,
        )[id].version >= store[id].version,
        id != object.id ==> (store_after(store, object).contains_key(id) <==> store.contains_key(
            id,
        )),
        id != object.id && store.contains_key(id) ==> store_after(store, object)[id] == store[id],
        store_after(store, object).contains_key(object.id),
        store_after(store, object)[object.id].version >= object.version,
{
}

} // verus!
