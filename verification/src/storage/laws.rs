//! What holds of a storage after any operations on it.
//!
//! Each law speaks of the records that a storage holds, through the
//! functions by which `create`, `read` and `delete` state what they do.

use vstd::prelude::*;
use crate::storage::generic::{created, deleted, lookup, Crud, ExpiryIndex, Record, ValueIndex};
use crate::storage::inmemory::InMemoryStorage;
use crate::types::ExpirationTime;

verus! {

/// A key written to a store without expiration reads back with the value
/// written and no expiration.
pub proof fn lemma_read_after_create_without_expiry<KV: ValueIndex, KE: ExpiryIndex>(
    store: InMemoryStorage<KV, KE>,
    key: Seq<char>,
    value: Seq<char>,
)
    ensures
        lookup(created(store@, key, InMemoryStorage::<KV, KE>::kept(value, None)), key) == Some(
            Record { value, expiry: None },
        ),
{
}

/// A key written to a store with an expiration reads back with the value
/// and the expiration written.
pub proof fn lemma_read_after_create_with_expiry<KV: ValueIndex, KE: ExpiryIndex>(
    store: InMemoryStorage<KV, KE>,
    key: Seq<char>,
    value: Seq<char>,
    deadline: u128,
)
    ensures
        lookup(
            created(store@, key, InMemoryStorage::<KV, KE>::kept(value, Some(deadline))),
            key,
        ) == Some(Record { value, expiry: Some(deadline) }),
{
}

/// A write without expiration clears the expiration that an earlier write
/// of the key had set.
pub proof fn lemma_update_without_expiry_clears_it<KV: ValueIndex, KE: ExpiryIndex>(
    store: InMemoryStorage<KV, KE>,
    key: Seq<char>,
    first: Seq<char>,
    deadline: u128,
    second: Seq<char>,
)
    ensures
        lookup(
            created(
                created(store@, key, InMemoryStorage::<KV, KE>::kept(first, Some(deadline))),
                key,
                InMemoryStorage::<KV, KE>::kept(second, None),
            ),
            key,
        ) == Some(Record { value: second, expiry: None }),
{
}

/// A deleted key reads as absent, whether or not it was present before.
pub proof fn lemma_read_after_delete<S: Crud>(storage: S, key: Seq<char>)
    ensures
        lookup(deleted(storage@, key), key).is_none(),
{
}

/// Deleting a key twice leaves what deleting it once leaves.
pub proof fn lemma_delete_idempotent<S: Crud>(storage: S, key: Seq<char>)
    ensures
        deleted(deleted(storage@, key), key) == deleted(storage@, key),
{
    assert(deleted(deleted(storage@, key), key) =~= deleted(storage@, key));
}

/// Of two writes to one key, the one applied last is read back, whole: its
/// value with its expiration, in either order of the two.
pub proof fn lemma_last_write_wins<S: Crud>(
    storage: S,
    key: Seq<char>,
    one: Record,
    other: Record,
)
    ensures
        lookup(created(created(storage@, key, one), key, other), key) == Some(other),
        lookup(created(created(storage@, key, other), key, one), key) == Some(one),
{
}

/// A write or a delete of one key leaves the answer for every other key
/// as it was.
pub proof fn lemma_other_keys_untouched<S: Crud>(
    storage: S,
    key: Seq<char>,
    record: Record,
    other: Seq<char>,
)
    requires
        key != other,
    ensures
        lookup(created(storage@, key, record), other) == lookup(storage@, other),
        lookup(deleted(storage@, key), other) == lookup(storage@, other),
{
}

/// In a store the expiry index holds the keys that have an expiration, and
/// no others: each of them has a value, and reads back with the expiration
/// that the index holds.
pub proof fn lemma_expiry_index_follows_values<KV: ValueIndex, KE: ExpiryIndex>(
    store: InMemoryStorage<KV, KE>,
    key: Seq<char>,
)
    requires
        store.wf(),
    ensures
        store.expiry_index().contains_key(key) ==> store.value_index().contains_key(key),
        store@.contains_key(key) <==> store.value_index().contains_key(key),
        store.expiry_index().contains_key(key) <==> store@.contains_key(key)
            && store@[key].expiry.is_some(),
        store.expiry_index().contains_key(key) ==> store@[key].expiry
            == store.expiry_index()[key].expiry,
{
    if store.expiry_index().contains_key(key) {
        assert(store.expiry_index().dom().contains(key));
    }
}

/// Stores built on different indices that hold the same records answer
/// every read alike, and hold the same records after the same write or the
/// same delete.
pub proof fn lemma_backings_agree<
    KV: ValueIndex,
    KE: ExpiryIndex,
    OtherKV: ValueIndex,
    OtherKE: ExpiryIndex,
>(
    store: InMemoryStorage<KV, KE>,
    other: InMemoryStorage<OtherKV, OtherKE>,
    key: Seq<char>,
    value: Seq<char>,
    expiry: ExpirationTime,
)
    requires
        store@ == other@,
    ensures
        lookup(store@, key) == lookup(other@, key),
        created(store@, key, InMemoryStorage::<KV, KE>::kept(value, expiry)) == created(
            other@,
            key,
            InMemoryStorage::<OtherKV, OtherKE>::kept(value, expiry),
        ),
        deleted(store@, key) == deleted(other@, key),
{
}

/// What a storage that held `records` holds after the writes of `writes`,
/// applied from first to last.
pub open spec fn created_all(
    records: Map<Seq<char>, Record>,
    writes: Seq<(Seq<char>, Record)>,
) -> Map<Seq<char>, Record>
    decreases writes.len(),
{
    if writes.len() == 0 {
        records
    } else {
        created(created_all(records, writes.drop_last()), writes.last().0, writes.last().1)
    }
}

/// After writes to keys that differ from each other, in whatever order they
/// were applied, each key reads back with what was written to it.
pub proof fn lemma_writes_to_distinct_keys<S: Crud>(
    storage: S,
    writes: Seq<(Seq<char>, Record)>,
    which: int,
)
    requires
        0 <= which < writes.len(),
        forall|i: int, j: int| 0 <= i < j < writes.len() ==> writes[i].0 != writes[j].0,
    ensures
        lookup(created_all(storage@, writes), writes[which].0) == Some(writes[which].1),
    decreases writes.len(),
{
    if which < writes.len() - 1 {
        lemma_writes_to_distinct_keys(storage, writes.drop_last(), which);
    }
}

} // verus!
