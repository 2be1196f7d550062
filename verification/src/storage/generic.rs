//! The uniform create/read/delete contract that every storage meets.

use vstd::prelude::*;
use crate::types::{ExpirationTime, StorageKey, StorageValue};

verus! {

/// What a storage answers for one key: a value and an optional expiration.
pub struct Record {
    pub value: Seq<char>,
    pub expiry: ExpirationTime,
}

/// The record of a value index: the value, and no expiration.
pub open spec fn value_record(value: Seq<char>) -> Record {
    Record { value, expiry: None }
}

/// The record of an expiry index: the expiration, and an empty value.
pub open spec fn expiry_record(expiry: ExpirationTime) -> Record {
    Record { value: Seq::empty(), expiry }
}

/// The record that an answer of `read` stands for.
pub open spec fn record_of(entry: (StorageValue, ExpirationTime)) -> Record {
    Record { value: entry.0@, expiry: entry.1 }
}

/// What an answer of `read` stands for: a record, or absence.
pub open spec fn answer_of(found: Option<(StorageValue, ExpirationTime)>) -> Option<Record> {
    match found {
        Some(entry) => Some(record_of(entry)),
        None => None,
    }
}

/// The answer owed for `key` by a storage that holds `records`.
pub open spec fn lookup(records: Map<Seq<char>, Record>, key: Seq<char>) -> Option<Record> {
    if records.contains_key(key) {
        Some(records[key])
    } else {
        None
    }
}

/// What a storage that held `records` holds once `key` is bound to `record`.
pub open spec fn created(
    records: Map<Seq<char>, Record>,
    key: Seq<char>,
    record: Record,
) -> Map<Seq<char>, Record> {
    records.insert(key, record)
}

/// What a storage that held `records` holds once `key` is removed.
pub open spec fn deleted(records: Map<Seq<char>, Record>, key: Seq<char>) -> Map<Seq<char>, Record> {
    records.remove(key)
}

/// Create, read and delete over one mapping from keys to records.
///
/// The view of a storage is the mapping it holds: for each key present, the
/// record that `read` answers. A storage need not keep all of what `create`
/// is given; `kept` says what it keeps.
pub trait Crud: View<V = Map<Seq<char>, Record>> + Sized {
    /// The representation invariant of the storage.
    spec fn wf(&self) -> bool;

    /// The record that the storage keeps of a write of `value` and `expiry`.
    spec fn kept(value: Seq<char>, expiry: ExpirationTime) -> Record;

    /// Binds `key` to what the storage keeps of `value` and `expiry`,
    /// replacing any earlier record of that key.
    fn create(&mut self, key: &StorageKey, value: StorageValue, expiry: ExpirationTime)
        requires
            old(self).wf(),
        ensures
            final(self).wf(),
            final(self)@ == created(old(self)@, key@, Self::kept(value@, expiry)),
    ;

    /// Answers the record bound to `key`, or `None` where the key is absent.
    fn read(&self, key: &StorageKey) -> (found: Option<(StorageValue, ExpirationTime)>)
        requires
            self.wf(),
        ensures
            answer_of(found) == lookup(self@, key@),
    ;

    /// Removes `key`; a key that is absent stays absent.
    fn delete(&mut self, key: &StorageKey)
        requires
            old(self).wf(),
        ensures
            final(self).wf(),
            final(self)@ == deleted(old(self)@, key@),
    ;
}

/// One index of a store: a `Crud` storage that can be created empty.
pub trait SubStorage: Crud {
    /// Creates an index that holds no key.
    fn new() -> (index: Self)
        ensures
            index.wf(),
            index@ == Map::<Seq<char>, Record>::empty(),
    ;
}

/// An index that keeps the value of every write.
pub trait ValueIndex: SubStorage {
    /// What the index keeps of a write holds the value written.
    proof fn keeps_value(value: Seq<char>, expiry: ExpirationTime)
        ensures
            Self::kept(value, expiry).value == value,
    ;
}

/// An index that keeps the expiration of every write.
pub trait ExpiryIndex: SubStorage {
    /// What the index keeps of a write holds the expiration written.
    proof fn keeps_expiry(value: Seq<char>, expiry: ExpirationTime)
        ensures
            Self::kept(value, expiry).expiry == expiry,
    ;
}

} // verus!
