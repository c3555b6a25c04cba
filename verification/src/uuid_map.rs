//! A hash map from account UUIDs to entity identifiers, used for the
//! duplicate-login lookups of the admission pass.
//!
//! The map is backed by `hashbrown::HashMap`, which Verus cannot look into;
//! its contents are therefore named by the uninterpreted function
//! [`uuid_map_of`], and every operation the admission logic relies on is a
//! trusted wrapper whose contract restates what the backing crate's
//! documentation promises.

use vstd::prelude::*;

verus! {

/// A map from account UUID to entity identifier.
#[verifier::external_body]
pub struct UuidMap {
    inner: hashbrown::HashMap<u128, u64>,
}

/// The entries held by a [`UuidMap`].
pub uninterp spec fn uuid_map_of(m: UuidMap) -> Map<u128, u64>;

impl UuidMap {
    /// Relies on `hashbrown::HashMap::new`: the new map is empty.
    #[verifier::external_body]
    pub fn new() -> (map: UuidMap)
        ensures
            uuid_map_of(map) =~= Map::empty(),
    {
        UuidMap { inner: hashbrown::HashMap::new() }
    }

    /// Relies on `hashbrown::HashMap::get`: `Some` exactly for a present
    /// key, holding the value stored under it.
    #[verifier::external_body]
    pub fn get(&self, uuid: u128) -> (r: Option<u64>)
        ensures
            match r {
                Some(e) => uuid_map_of(*self).contains_key(uuid)
                    && uuid_map_of(*self)[uuid] == e,
                None => !uuid_map_of(*self).contains_key(uuid),
            },
    {
        self.inner.get(&uuid).copied()
    }

    /// Relies on `hashbrown::HashMap::insert`: the key now maps to the new
    /// value, no other entry moves, and the value previously stored under
    /// the key (if any) is handed back.
    #[verifier::external_body]
    pub fn insert(&mut self, uuid: u128, entity: u64) -> (prev: Option<u64>)
        ensures
            uuid_map_of(*final(self)) == uuid_map_of(*old(self)).insert(uuid, entity),
            match prev {
                Some(e) => uuid_map_of(*old(self)).contains_key(uuid)
                    && uuid_map_of(*old(self))[uuid] == e,
                None => !uuid_map_of(*old(self)).contains_key(uuid),
            },
    {
        self.inner.insert(uuid, entity)
    }
}

} // verus!
