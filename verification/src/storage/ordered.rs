//! An expiry index whose entries are kept in the order of their keys.

use vstd::prelude::*;
use crate::storage::generic::{expiry_record, Crud, ExpiryIndex, Record, SubStorage};
use crate::storage::key_order::{
    compare_keys, key_bytes, lemma_key_bytes_injective, lemma_key_order,
    lemma_precedes_irreflexive, lemma_precedes_transitive, precedes, KeyOrder,
};
use crate::types::{ExpirationTime, StorageKey, StorageValue};

verus! {

/// The entry at position `at` has the key `key`.
pub open spec fn holds_at(
    entries: Seq<(StorageKey, ExpirationTime)>,
    at: int,
    key: Seq<char>,
) -> bool {
    0 <= at < entries.len() && entries[at].0@ == key
}

/// `key` comes after the keys of the entries before `at`, and before the
/// keys of the entries from `at` on.
pub open spec fn belongs_at(
    entries: Seq<(StorageKey, ExpirationTime)>,
    at: int,
    key: Seq<char>,
) -> bool {
    &&& 0 <= at <= entries.len()
    &&& forall|i: int|
        0 <= i < at ==> precedes(key_bytes((#[trigger] entries[i]).0@), key_bytes(key))
    &&& forall|i: int|
        at <= i < entries.len() ==> precedes(key_bytes(key), key_bytes((#[trigger] entries[i]).0@))
}

/// Each entry's key comes strictly before the keys of the entries after it.
pub open spec fn ascending(entries: Seq<(StorageKey, ExpirationTime)>) -> bool {
    forall|i: int, j: int|
        0 <= i < j < entries.len() ==> precedes(
            key_bytes((#[trigger] entries[i]).0@),
            key_bytes((#[trigger] entries[j]).0@),
        )
}

/// A position at which `key` is held, where there is one.
pub open spec fn place_of(entries: Seq<(StorageKey, ExpirationTime)>, key: Seq<char>) -> int {
    choose|at: int| holds_at(entries, at, key)
}

/// The mapping that a sequence of entries stands for.
pub open spec fn records_of(entries: Seq<(StorageKey, ExpirationTime)>) -> Map<Seq<char>, Record> {
    Map::new(
        |key: Seq<char>| exists|at: int| holds_at(entries, at, key),
        |key: Seq<char>| expiry_record(entries[place_of(entries, key)].1),
    )
}

/// In ascending entries a key is held at one position only.
proof fn lemma_place_unique(
    entries: Seq<(StorageKey, ExpirationTime)>,
    i: int,
    j: int,
    key: Seq<char>,
)
    requires
        ascending(entries),
        holds_at(entries, i, key),
        holds_at(entries, j, key),
    ensures
        i == j,
{
    lemma_precedes_irreflexive(key_bytes(key));
}

/// Ascending entries answer, for the key at each position, the expiration
/// held there.
proof fn lemma_records_at(entries: Seq<(StorageKey, ExpirationTime)>, at: int)
    requires
        ascending(entries),
        0 <= at < entries.len(),
    ensures
        records_of(entries).contains_key(entries[at].0@),
        records_of(entries)[entries[at].0@] == expiry_record(entries[at].1),
{
    let key = entries[at].0@;
    assert(holds_at(entries, at, key));
    lemma_place_unique(entries, at, place_of(entries, key), key);
}

/// A key is not held by entries among which it has a place of its own.
proof fn lemma_absent(entries: Seq<(StorageKey, ExpirationTime)>, at: int, key: Seq<char>)
    requires
        belongs_at(entries, at, key),
    ensures
        !records_of(entries).contains_key(key),
{
    lemma_precedes_irreflexive(key_bytes(key));
}

/// Putting an entry where its key belongs keeps the order, and binds the
/// key to the entry's expiration.
proof fn lemma_insert(
    entries: Seq<(StorageKey, ExpirationTime)>,
    at: int,
    entry: (StorageKey, ExpirationTime),
)
    requires
        ascending(entries),
        belongs_at(entries, at, entry.0@),
    ensures
        ascending(entries.insert(at, entry)),
        records_of(entries.insert(at, entry)) == records_of(entries).insert(
            entry.0@,
            expiry_record(entry.1),
        ),
{
    let grown = entries.insert(at, entry);
    let expected = records_of(entries).insert(entry.0@, expiry_record(entry.1));
    assert forall|i: int, j: int| 0 <= i < j < grown.len() implies precedes(
        key_bytes((#[trigger] grown[i]).0@),
        key_bytes((#[trigger] grown[j]).0@),
    ) by {
        if i != at {
            assert(grown[i] == entries[if i < at { i } else { i - 1 }]);
        }
        if j != at {
            assert(grown[j] == entries[if j < at { j } else { j - 1 }]);
        }
    }
    assert forall|key: Seq<char>| #[trigger] records_of(grown).dom().contains(key) implies {
        &&& expected.dom().contains(key)
        &&& records_of(grown)[key] == expected[key]
    } by {
        let i = place_of(grown, key);
        lemma_records_at(grown, i);
        if i != at {
            let from = if i < at { i } else { i - 1 };
            assert(holds_at(entries, from, key));
            lemma_records_at(entries, from);
            if key == entry.0@ {
                assert(holds_at(grown, at, key));
                lemma_place_unique(grown, i, at, key);
            }
        }
    }
    assert forall|key: Seq<char>| #[trigger] expected.dom().contains(key) implies records_of(
        grown,
    ).dom().contains(key) by {
        if key == entry.0@ {
            assert(holds_at(grown, at, key));
        } else {
            let i = place_of(entries, key);
            assert(holds_at(grown, if i < at { i } else { i + 1 }, key));
        }
    }
    assert(records_of(grown) =~= expected);
}

/// Replacing the entry of a key by another entry of that key keeps the
/// order, and binds the key to the new expiration.
proof fn lemma_replace(
    entries: Seq<(StorageKey, ExpirationTime)>,
    at: int,
    entry: (StorageKey, ExpirationTime),
)
    requires
        ascending(entries),
        holds_at(entries, at, entry.0@),
    ensures
        ascending(entries.update(at, entry)),
        records_of(entries.update(at, entry)) == records_of(entries).insert(
            entry.0@,
            expiry_record(entry.1),
        ),
{
    let changed = entries.update(at, entry);
    let expected = records_of(entries).insert(entry.0@, expiry_record(entry.1));
    assert forall|i: int, j: int| 0 <= i < j < changed.len() implies precedes(
        key_bytes((#[trigger] changed[i]).0@),
        key_bytes((#[trigger] changed[j]).0@),
    ) by {
        assert(changed[i].0@ == entries[i].0@);
        assert(changed[j].0@ == entries[j].0@);
    }
    assert forall|key: Seq<char>| #[trigger] records_of(changed).dom().contains(key) implies {
        &&& expected.dom().contains(key)
        &&& records_of(changed)[key] == expected[key]
    } by {
        let i = place_of(changed, key);
        lemma_records_at(changed, i);
        assert(holds_at(entries, i, key));
        lemma_records_at(entries, i);
        if i != at && key == entry.0@ {
            lemma_place_unique(entries, i, at, key);
        }
    }
    assert forall|key: Seq<char>| #[trigger] expected.dom().contains(key) implies records_of(
        changed,
    ).dom().contains(key) by {
        if key == entry.0@ {
            assert(holds_at(changed, at, key));
        } else {
            assert(holds_at(changed, place_of(entries, key), key));
        }
    }
    assert(records_of(changed) =~= expected);
}

/// Taking an entry out keeps the order, and unbinds the entry's key.
proof fn lemma_remove(entries: Seq<(StorageKey, ExpirationTime)>, at: int)
    requires
        ascending(entries),
        0 <= at < entries.len(),
    ensures
        ascending(entries.remove(at)),
        records_of(entries.remove(at)) == records_of(entries).remove(entries[at].0@),
{
    let shrunk = entries.remove(at);
    let expected = records_of(entries).remove(entries[at].0@);
    assert forall|i: int, j: int| 0 <= i < j < shrunk.len() implies precedes(
        key_bytes((#[trigger] shrunk[i]).0@),
        key_bytes((#[trigger] shrunk[j]).0@),
    ) by {
        assert(shrunk[i] == entries[if i < at { i } else { i + 1 }]);
        assert(shrunk[j] == entries[if j < at { j } else { j + 1 }]);
    }
    assert forall|key: Seq<char>| #[trigger] records_of(shrunk).dom().contains(key) implies {
        &&& expected.dom().contains(key)
        &&& records_of(shrunk)[key] == expected[key]
    } by {
        let i = place_of(shrunk, key);
        lemma_records_at(shrunk, i);
        let from = if i < at { i } else { i + 1 };
        assert(holds_at(entries, from, key));
        lemma_records_at(entries, from);
        if key == entries[at].0@ {
            lemma_place_unique(entries, from, at, key);
        }
    }
    assert forall|key: Seq<char>| #[trigger] expected.dom().contains(key) implies records_of(
        shrunk,
    ).dom().contains(key) by {
        let i = place_of(entries, key);
        assert(holds_at(shrunk, if i < at { i } else { i - 1 }, key));
    }
    assert(records_of(shrunk) =~= expected);
}

/// An expiry index that keeps its entries sorted by key, so that a key is
/// found by halving.
pub struct InMemoryExpiryTimeBTreeMap {
    entries: Vec<(StorageKey, ExpirationTime)>,
}

impl InMemoryExpiryTimeBTreeMap {
    /// The entries, in the order in which they are kept.
    pub closed spec fn entries(&self) -> Seq<(StorageKey, ExpirationTime)> {
        self.entries@
    }

    /// Finds the position at which `key` is held, or else the position at
    /// which it belongs; the flag tells which of the two.
    fn locate(&self, key: &StorageKey) -> (place: (usize, bool))
        requires
            ascending(self.entries()),
        ensures
            place.1 ==> holds_at(self.entries(), place.0 as int, key@),
            !place.1 ==> belongs_at(self.entries(), place.0 as int, key@),
    {
        let wanted = key.as_str().as_bytes();
        let mut low: usize = 0;
        let mut high: usize = self.entries.len();
        while low < high
            invariant
                low <= high <= self.entries@.len(),
                ascending(self.entries@),
                wanted@ == key_bytes(key@),
                forall|i: int|
                    0 <= i < low ==> precedes(
                        key_bytes((#[trigger] self.entries@[i]).0@),
                        key_bytes(key@),
                    ),
                forall|i: int|
                    high <= i < self.entries@.len() ==> precedes(
                        key_bytes(key@),
                        key_bytes((#[trigger] self.entries@[i]).0@),
                    ),
            decreases high - low,
        {
            let middle = low + (high - low) / 2;
            let held = self.entries[middle].0.as_str().as_bytes();
            proof {
                lemma_key_order(held@, wanted@);
            }
            match compare_keys(held, wanted) {
                KeyOrder::Before => {
                    assert forall|i: int| 0 <= i < middle implies precedes(
                        key_bytes((#[trigger] self.entries@[i]).0@),
                        key_bytes(key@),
                    ) by {
                        lemma_precedes_transitive(
                            key_bytes(self.entries@[i].0@),
                            held@,
                            wanted@,
                        );
                    }
                    low = middle + 1;
                },
                KeyOrder::Same => {
                    proof {
                        lemma_key_bytes_injective(self.entries@[middle as int].0@, key@);
                    }
                    return (middle, true);
                },
                KeyOrder::After => {
                    assert forall|i: int| middle < i < self.entries@.len() implies precedes(
                        key_bytes(key@),
                        key_bytes((#[trigger] self.entries@[i]).0@),
                    ) by {
                        lemma_precedes_transitive(
                            wanted@,
                            held@,
                            key_bytes(self.entries@[i].0@),
                        );
                    }
                    high = middle;
                },
            }
        }
        (low, false)
    }
}

impl View for InMemoryExpiryTimeBTreeMap {
    type V = Map<Seq<char>, Record>;

    open spec fn view(&self) -> Map<Seq<char>, Record> {
        records_of(self.entries())
    }
}

impl Crud for InMemoryExpiryTimeBTreeMap {
    /// The entries stand in the order of their keys, so no key is held twice.
    open spec fn wf(&self) -> bool {
        ascending(self.entries())
    }

    /// The index keeps the expiration, and no value.
    open spec fn kept(value: Seq<char>, expiry: ExpirationTime) -> Record {
        expiry_record(expiry)
    }

    fn create(&mut self, key: &StorageKey, _value: StorageValue, expiry: ExpirationTime) {
        let (at, held) = self.locate(key);
        let entry = (key.clone(), expiry);
        if held {
            proof {
                lemma_replace(self.entries@, at as int, entry);
            }
            self.entries.set(at, entry);
        } else {
            proof {
                lemma_insert(self.entries@, at as int, entry);
            }
            self.entries.insert(at, entry);
        }
    }

    fn read(&self, key: &StorageKey) -> (found: Option<(StorageValue, ExpirationTime)>) {
        let (at, held) = self.locate(key);
        if held {
            proof {
                lemma_records_at(self.entries@, at as int);
            }
            Some((String::new(), self.entries[at].1))
        } else {
            proof {
                lemma_absent(self.entries@, at as int, key@);
            }
            None
        }
    }

    fn delete(&mut self, key: &StorageKey) {
        let (at, held) = self.locate(key);
        if held {
            proof {
                lemma_remove(self.entries@, at as int);
            }
            self.entries.remove(at);
        } else {
            proof {
                lemma_absent(self.entries@, at as int, key@);
            }
            assert(self@.remove(key@) =~= self@);
        }
    }
}

impl SubStorage for InMemoryExpiryTimeBTreeMap {
    fn new() -> (index: Self) {
        let index = InMemoryExpiryTimeBTreeMap { entries: Vec::new() };
        assert(index@ =~= Map::<Seq<char>, Record>::empty());
        index
    }
}

impl ExpiryIndex for InMemoryExpiryTimeBTreeMap {
    proof fn keeps_expiry(value: Seq<char>, expiry: ExpirationTime) {
    }
}

} // verus!
