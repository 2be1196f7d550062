//! The in-memory store: a value index paired with an expiry index.

use vstd::hash_map::StringHashMap;
use vstd::prelude::*;
use crate::storage::generic::{
    expiry_record, value_record, Crud, ExpiryIndex, Record, SubStorage, ValueIndex,
};
use crate::storage::Storage;
use crate::types::{ExpirationTime, StorageKey, StorageValue};

verus! {

/// A store made of two indices: `KV` holds the value of every key, `KE` the
/// expiration of the keys that have one.
pub struct InMemoryStorage<KV, KE> {
    values: KV,
    expiries: KE,
}

impl<KV: ValueIndex, KE: ExpiryIndex> InMemoryStorage<KV, KE> {
    /// What the value index holds.
    pub closed spec fn value_index(&self) -> Map<Seq<char>, Record> {
        self.values@
    }

    /// What the expiry index holds.
    pub closed spec fn expiry_index(&self) -> Map<Seq<char>, Record> {
        self.expiries@
    }

    /// Both indices meet their own invariants.
    pub closed spec fn indices_wf(&self) -> bool {
        self.values.wf() && self.expiries.wf()
    }
}

impl<KV: ValueIndex, KE: ExpiryIndex> View for InMemoryStorage<KV, KE> {
    type V = Map<Seq<char>, Record>;

    /// The keys are those of the value index; a key without an entry in the
    /// expiry index has no expiration.
    open spec fn view(&self) -> Map<Seq<char>, Record> {
        Map::new(
            |key: Seq<char>| self.value_index().contains_key(key),
            |key: Seq<char>|
                Record {
                    value: self.value_index()[key].value,
                    expiry: if self.expiry_index().contains_key(key) {
                        self.expiry_index()[key].expiry
                    } else {
                        None
                    },
                },
        )
    }
}

impl<KV: ValueIndex, KE: ExpiryIndex> Crud for InMemoryStorage<KV, KE> {
    /// Every key of the expiry index is a key of the value index, and
    /// carries an expiration.
    open spec fn wf(&self) -> bool {
        &&& self.indices_wf()
        &&& self.expiry_index().dom().subset_of(self.value_index().dom())
        &&& forall|key: Seq<char>| #[trigger]
            self.expiry_index().contains_key(key) ==> self.expiry_index()[key].expiry.is_some()
    }

    /// The store keeps the value and the expiration as given.
    open spec fn kept(value: Seq<char>, expiry: ExpirationTime) -> Record {
        Record { value, expiry }
    }

    fn create(&mut self, key: &StorageKey, value: StorageValue, expiry: ExpirationTime) {
        proof {
            KV::keeps_value(value@, expiry);
            KE::keeps_expiry(value@, expiry);
        }
        self.values.create(key, value.clone(), expiry);
        match expiry {
            // A write without expiration clears the one an earlier write set.
            None => self.expiries.delete(key),
            Some(_) => self.expiries.create(key, value, expiry),
        }
        assert(final(self)@ =~= old(self)@.insert(key@, Self::kept(value@, expiry)));
    }

    fn read(&self, key: &StorageKey) -> (found: Option<(StorageValue, ExpirationTime)>) {
        match self.values.read(key) {
            None => None,
            Some((value, _)) => {
                let expiry = match self.expiries.read(key) {
                    Some((_, expiry)) => expiry,
                    None => None,
                };
                Some((value, expiry))
            },
        }
    }

    fn delete(&mut self, key: &StorageKey) {
        self.values.delete(key);
        self.expiries.delete(key);
        assert(final(self)@ =~= old(self)@.remove(key@));
    }
}

impl<KV: ValueIndex, KE: ExpiryIndex> Storage for InMemoryStorage<KV, KE> {
    fn new() -> (store: Self) {
        let store = InMemoryStorage { values: KV::new(), expiries: KE::new() };
        assert(store@ =~= Map::<Seq<char>, Record>::empty());
        store
    }
}

/// A value index over a hash table.
pub struct InMemoryStorageHashMap {
    values: StringHashMap<StorageValue>,
}

impl View for InMemoryStorageHashMap {
    type V = Map<Seq<char>, Record>;

    /// Each key of the table, with its value and no expiration.
    closed spec fn view(&self) -> Map<Seq<char>, Record> {
        Map::new(
            |key: Seq<char>| self.values@.contains_key(key),
            |key: Seq<char>| value_record(self.values@[key]@),
        )
    }
}

impl Crud for InMemoryStorageHashMap {
    open spec fn wf(&self) -> bool {
        true
    }

    /// The index keeps the value, and no expiration.
    open spec fn kept(value: Seq<char>, expiry: ExpirationTime) -> Record {
        value_record(value)
    }

    fn create(&mut self, key: &StorageKey, value: StorageValue, _expiry: ExpirationTime) {
        self.values.insert(key.clone(), value);
        assert(final(self)@ =~= old(self)@.insert(key@, Self::kept(value@, _expiry)));
    }

    fn read(&self, key: &StorageKey) -> (found: Option<(StorageValue, ExpirationTime)>) {
        match self.values.get(key.as_str()) {
            Some(value) => Some((value.clone(), None)),
            None => None,
        }
    }

    fn delete(&mut self, key: &StorageKey) {
        self.values.remove(key.as_str());
        assert(final(self)@ =~= old(self)@.remove(key@));
    }
}

impl SubStorage for InMemoryStorageHashMap {
    fn new() -> (index: Self) {
        let index = InMemoryStorageHashMap { values: StringHashMap::new() };
        assert(index@ =~= Map::<Seq<char>, Record>::empty());
        index
    }
}

impl ValueIndex for InMemoryStorageHashMap {
    proof fn keeps_value(value: Seq<char>, expiry: ExpirationTime) {
    }
}

/// An expiry index over a hash table.
pub struct InMemoryExpiryTimeHashMap {
    expiries: StringHashMap<ExpirationTime>,
}

impl View for InMemoryExpiryTimeHashMap {
    type V = Map<Seq<char>, Record>;

    /// Each key of the table, with its expiration and an empty value.
    closed spec fn view(&self) -> Map<Seq<char>, Record> {
        Map::new(
            |key: Seq<char>| self.expiries@.contains_key(key),
            |key: Seq<char>| expiry_record(self.expiries@[key]),
        )
    }
}

impl Crud for InMemoryExpiryTimeHashMap {
    open spec fn wf(&self) -> bool {
        true
    }

    /// The index keeps the expiration, and no value.
    open spec fn kept(value: Seq<char>, expiry: ExpirationTime) -> Record {
        expiry_record(expiry)
    }

    fn create(&mut self, key: &StorageKey, _value: StorageValue, expiry: ExpirationTime) {
        self.expiries.insert(key.clone(), expiry);
        assert(final(self)@ =~= old(self)@.insert(key@, Self::kept(_value@, expiry)));
    }

    fn read(&self, key: &StorageKey) -> (found: Option<(StorageValue, ExpirationTime)>) {
        match self.expiries.get(key.as_str()) {
            Some(expiry) => Some((String::new(), *expiry)),
            None => None,
        }
    }

    fn delete(&mut self, key: &StorageKey) {
        self.expiries.remove(key.as_str());
        assert(final(self)@ =~= old(self)@.remove(key@));
    }
}

impl SubStorage for InMemoryExpiryTimeHashMap {
    fn new() -> (index: Self) {
        let index = InMemoryExpiryTimeHashMap { expiries: StringHashMap::new() };
        assert(index@ =~= Map::<Seq<char>, Record>::empty());
        index
    }
}

impl ExpiryIndex for InMemoryExpiryTimeHashMap {
    proof fn keeps_expiry(value: Seq<char>, expiry: ExpirationTime) {
    }
}

} // verus!
