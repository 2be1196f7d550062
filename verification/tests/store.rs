use redis_server::storage::generic::Crud;
use redis_server::storage::inmemory::{
    InMemoryExpiryTimeHashMap, InMemoryStorage, InMemoryStorageHashMap,
};
use redis_server::storage::ordered::InMemoryExpiryTimeBTreeMap;
use redis_server::storage::Storage;
use redis_server::types::{ExpirationTime, StorageKey, StorageValue};

type HashedStore = InMemoryStorage<InMemoryStorageHashMap, InMemoryExpiryTimeHashMap>;
type OrderedStore = InMemoryStorage<InMemoryStorageHashMap, InMemoryExpiryTimeBTreeMap>;

fn key(text: &str) -> StorageKey {
    String::from(text)
}

fn value(text: &str) -> StorageValue {
    String::from(text)
}

fn answer(text: &str, expiry: ExpirationTime) -> Option<(StorageValue, ExpirationTime)> {
    Some((String::from(text), expiry))
}

fn check_create_without_expiry<S: Storage>() {
    let mut store = S::new();
    store.create(&key("k"), value("v"), None);
    assert_eq!(store.read(&key("k")), answer("v", None));
}

fn check_create_with_expiry<S: Storage>() {
    let mut store = S::new();
    store.create(&key("k"), value("v"), Some(1_700_000_000_123));
    assert_eq!(store.read(&key("k")), answer("v", Some(1_700_000_000_123)));
}

fn check_update_clears_expiry<S: Storage>() {
    let mut store = S::new();
    store.create(&key("k"), value("v1"), Some(42));
    assert_eq!(store.read(&key("k")), answer("v1", Some(42)));
    store.create(&key("k"), value("v2"), None);
    assert_eq!(store.read(&key("k")), answer("v2", None));
}

fn check_update_replaces_expiry<S: Storage>() {
    let mut store = S::new();
    store.create(&key("k"), value("v1"), Some(42));
    store.create(&key("k"), value("v2"), Some(43));
    assert_eq!(store.read(&key("k")), answer("v2", Some(43)));
    store.create(&key("k"), value("v3"), None);
    store.create(&key("k"), value("v4"), Some(44));
    assert_eq!(store.read(&key("k")), answer("v4", Some(44)));
}

fn check_delete_then_read<S: Storage>() {
    let mut store = S::new();
    store.delete(&key("never"));
    assert_eq!(store.read(&key("never")), None);
    store.create(&key("plain"), value("v"), None);
    store.delete(&key("plain"));
    assert_eq!(store.read(&key("plain")), None);
    store.create(&key("timed"), value("v"), Some(7));
    store.delete(&key("timed"));
    assert_eq!(store.read(&key("timed")), None);
}

fn check_delete_forgets_expiry<S: Storage>() {
    let mut store = S::new();
    store.create(&key("k"), value("v1"), Some(7));
    store.delete(&key("k"));
    store.create(&key("k"), value("v2"), None);
    assert_eq!(store.read(&key("k")), answer("v2", None));
}

fn check_delete_twice<S: Storage>() {
    let mut once = S::new();
    let mut twice = S::new();
    let names = ["a", "b", "c"];
    for name in names {
        once.create(&key(name), value(name), Some(9));
        twice.create(&key(name), value(name), Some(9));
    }
    once.delete(&key("b"));
    twice.delete(&key("b"));
    twice.delete(&key("b"));
    for name in ["a", "b", "c", "d"] {
        assert_eq!(once.read(&key(name)), twice.read(&key(name)));
    }
    assert_eq!(twice.read(&key("b")), None);
    assert_eq!(twice.read(&key("a")), answer("a", Some(9)));
    assert_eq!(twice.read(&key("c")), answer("c", Some(9)));
}

fn check_last_write_wins<S: Storage>() {
    let mut store = S::new();
    store.create(&key("k"), value("v1"), Some(1));
    store.create(&key("k"), value("v2"), None);
    assert_eq!(store.read(&key("k")), answer("v2", None));
    let mut store = S::new();
    store.create(&key("k"), value("v2"), None);
    store.create(&key("k"), value("v1"), Some(1));
    assert_eq!(store.read(&key("k")), answer("v1", Some(1)));
}

fn check_distinct_keys<S: Storage>() {
    let mut store = S::new();
    let count: u128 = 64;
    // Written in an order that is neither ascending nor descending.
    for step in 0..count {
        let n = (step * 37) % count;
        let expiry = if n % 2 == 0 { Some(n) } else { None };
        store.create(&format!("key-{}", n), format!("value-{}", n), expiry);
    }
    for n in 0..count {
        let expiry = if n % 2 == 0 { Some(n) } else { None };
        assert_eq!(
            store.read(&format!("key-{}", n)),
            Some((format!("value-{}", n), expiry))
        );
    }
    assert_eq!(store.read(&key("key-64")), None);
    assert_eq!(store.read(&key("key-")), None);
}

fn check_other_keys_untouched<S: Storage>() {
    let mut store = S::new();
    store.create(&key("a"), value("1"), Some(10));
    store.create(&key("ab"), value("2"), None);
    store.create(&key("b"), value("3"), Some(30));
    store.create(&key("ab"), value("4"), Some(40));
    assert_eq!(store.read(&key("a")), answer("1", Some(10)));
    assert_eq!(store.read(&key("b")), answer("3", Some(30)));
    store.delete(&key("ab"));
    assert_eq!(store.read(&key("a")), answer("1", Some(10)));
    assert_eq!(store.read(&key("b")), answer("3", Some(30)));
    assert_eq!(store.read(&key("ab")), None);
}

fn check_empty_and_wide_strings<S: Storage>() {
    let mut store = S::new();
    assert_eq!(store.read(&key("")), None);
    store.create(&key(""), value(""), None);
    assert_eq!(store.read(&key("")), answer("", None));
    store.create(&key("clé"), value("valeur"), Some(u128::MAX));
    store.create(&key("cle"), value("value"), Some(0));
    store.create(&key("鍵"), value("値"), None);
    assert_eq!(store.read(&key("clé")), answer("valeur", Some(u128::MAX)));
    assert_eq!(store.read(&key("cle")), answer("value", Some(0)));
    assert_eq!(store.read(&key("鍵")), answer("値", None));
    assert_eq!(store.read(&key("cl")), None);
    store.delete(&key(""));
    assert_eq!(store.read(&key("")), None);
    assert_eq!(store.read(&key("cle")), answer("value", Some(0)));
}

fn check_two_clients<S: Storage>() {
    let mut store = S::new();
    store.create(&key("x"), value("1"), None);
    assert_eq!(store.read(&key("x")), answer("1", None));
    store.delete(&key("x"));
    assert_eq!(store.read(&key("x")), None);
}

#[test]
fn new_store_holds_no_key() {
    let hashed = HashedStore::new();
    let ordered = OrderedStore::new();
    for name in ["", "a", "x", "key"] {
        assert_eq!(hashed.read(&key(name)), None);
        assert_eq!(ordered.read(&key(name)), None);
    }
}

#[test]
fn hashed_create_without_expiry_then_read() {
    check_create_without_expiry::<HashedStore>();
}

#[test]
fn ordered_create_without_expiry_then_read() {
    check_create_without_expiry::<OrderedStore>();
}

#[test]
fn hashed_create_with_expiry_then_read() {
    check_create_with_expiry::<HashedStore>();
}

#[test]
fn ordered_create_with_expiry_then_read() {
    check_create_with_expiry::<OrderedStore>();
}

#[test]
fn hashed_update_without_expiry_clears_it() {
    check_update_clears_expiry::<HashedStore>();
}

#[test]
fn ordered_update_without_expiry_clears_it() {
    check_update_clears_expiry::<OrderedStore>();
}

#[test]
fn hashed_update_with_expiry_replaces_it() {
    check_update_replaces_expiry::<HashedStore>();
}

#[test]
fn ordered_update_with_expiry_replaces_it() {
    check_update_replaces_expiry::<OrderedStore>();
}

#[test]
fn hashed_delete_then_read_is_absent() {
    check_delete_then_read::<HashedStore>();
}

#[test]
fn ordered_delete_then_read_is_absent() {
    check_delete_then_read::<OrderedStore>();
}

#[test]
fn hashed_delete_forgets_expiry() {
    check_delete_forgets_expiry::<HashedStore>();
}

#[test]
fn ordered_delete_forgets_expiry() {
    check_delete_forgets_expiry::<OrderedStore>();
}

#[test]
fn hashed_delete_is_idempotent() {
    check_delete_twice::<HashedStore>();
}

#[test]
fn ordered_delete_is_idempotent() {
    check_delete_twice::<OrderedStore>();
}

#[test]
fn hashed_last_write_wins() {
    check_last_write_wins::<HashedStore>();
}

#[test]
fn ordered_last_write_wins() {
    check_last_write_wins::<OrderedStore>();
}

#[test]
fn hashed_distinct_keys_keep_their_writes() {
    check_distinct_keys::<HashedStore>();
}

#[test]
fn ordered_distinct_keys_keep_their_writes() {
    check_distinct_keys::<OrderedStore>();
}

#[test]
fn hashed_other_keys_untouched() {
    check_other_keys_untouched::<HashedStore>();
}

#[test]
fn ordered_other_keys_untouched() {
    check_other_keys_untouched::<OrderedStore>();
}

#[test]
fn hashed_empty_and_wide_strings() {
    check_empty_and_wide_strings::<HashedStore>();
}

#[test]
fn ordered_empty_and_wide_strings() {
    check_empty_and_wide_strings::<OrderedStore>();
}

#[test]
fn hashed_create_read_delete_read() {
    check_two_clients::<HashedStore>();
}

#[test]
fn ordered_create_read_delete_read() {
    check_two_clients::<OrderedStore>();
}

#[test]
fn both_backings_answer_alike() {
    let mut hashed = HashedStore::new();
    let mut ordered = OrderedStore::new();
    let names = ["m", "b", "zz", "a", "mm", "", "b", "y", "a", "ma"];
    for (step, name) in names.iter().enumerate() {
        let expiry = if step % 3 == 0 { None } else { Some(step as u128) };
        hashed.create(&key(name), format!("v{}", step), expiry);
        ordered.create(&key(name), format!("v{}", step), expiry);
        if step % 4 == 3 {
            hashed.delete(&key(names[step - 2]));
            ordered.delete(&key(names[step - 2]));
        }
        for probe in ["", "a", "b", "m", "ma", "mm", "y", "zz", "q"] {
            assert_eq!(hashed.read(&key(probe)), ordered.read(&key(probe)));
        }
    }
    assert_eq!(ordered.read(&key("ma")), answer("v9", None));
    assert_eq!(ordered.read(&key("a")), answer("v8", Some(8)));
    assert_eq!(ordered.read(&key("b")), answer("v6", None));
}
