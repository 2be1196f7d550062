//! The order of keys: that of their UTF-8 bytes, read left to right.

use vstd::prelude::*;
use vstd::utf8::{decode_utf8, encode_utf8, encode_utf8_decode_utf8};

verus! {

/// How one key stands to another.
#[derive(Debug, Clone, Copy, PartialEq, Eq, Structural)]
pub enum KeyOrder {
    /// The first key comes before the second.
    Before,
    /// The two keys are the same.
    Same,
    /// The first key comes after the second.
    After,
}

/// The bytes by which a key is ordered.
pub open spec fn key_bytes(key: Seq<char>) -> Seq<u8> {
    encode_utf8(key)
}

/// `a` and `b` agree on their first `at` bytes, and there `a` ends while
/// `b` goes on, or `a` has the smaller byte.
pub open spec fn parts_at(a: Seq<u8>, b: Seq<u8>, at: int) -> bool {
    &&& 0 <= at <= a.len()
    &&& at < b.len()
    &&& forall|j: int| 0 <= j < at ==> a[j] == b[j]
    &&& at < a.len() ==> a[at] < b[at]
}

/// `a` comes strictly before `b`: a proper prefix comes before what
/// extends it, and otherwise the first byte that differs decides.
pub open spec fn precedes(a: Seq<u8>, b: Seq<u8>) -> bool {
    exists|at: int| parts_at(a, b, at)
}

/// How `a` stands to `b`.
pub open spec fn key_order(a: Seq<u8>, b: Seq<u8>) -> KeyOrder {
    if a == b {
        KeyOrder::Same
    } else if precedes(a, b) {
        KeyOrder::Before
    } else {
        KeyOrder::After
    }
}

/// Nothing comes before itself.
pub proof fn lemma_precedes_irreflexive(a: Seq<u8>)
    ensures
        !precedes(a, a),
{
}

/// What comes before something that comes before `c` comes before `c`.
pub proof fn lemma_precedes_transitive(a: Seq<u8>, b: Seq<u8>, c: Seq<u8>)
    requires
        precedes(a, b),
        precedes(b, c),
    ensures
        precedes(a, c),
{
    let i = choose|at: int| parts_at(a, b, at);
    let j = choose|at: int| parts_at(b, c, at);
    if i <= j {
        assert(parts_at(a, c, i));
    } else {
        assert(parts_at(a, c, j));
    }
}

/// Of two different byte strings one comes before the other.
pub proof fn lemma_precedes_total(a: Seq<u8>, b: Seq<u8>)
    ensures
        a == b || precedes(a, b) || precedes(b, a),
{
    if a != b && !precedes(a, b) && !precedes(b, a) {
        lemma_agree_up_to(a, b, a.len() as int);
        if a.len() == b.len() {
            assert(a =~= b);
        } else {
            assert(parts_at(a, b, a.len() as int));
        }
    }
}

/// Two byte strings of which neither comes before the other agree on
/// every position that both have.
proof fn lemma_agree_up_to(a: Seq<u8>, b: Seq<u8>, n: int)
    requires
        !precedes(a, b),
        !precedes(b, a),
        0 <= n <= a.len(),
    ensures
        n <= b.len(),
        forall|j: int| 0 <= j < n ==> a[j] == b[j],
    decreases n,
{
    if n > 0 {
        lemma_agree_up_to(a, b, n - 1);
        assert(!parts_at(b, a, n - 1));
        assert(!parts_at(a, b, n - 1));
    }
    if n > b.len() {
        assert(!parts_at(b, a, b.len() as int));
    }
}

/// What each outcome of a comparison says of the two byte strings.
pub proof fn lemma_key_order(a: Seq<u8>, b: Seq<u8>)
    ensures
        key_order(a, b) == KeyOrder::Before <==> precedes(a, b),
        key_order(a, b) == KeyOrder::Same <==> a == b,
        key_order(a, b) == KeyOrder::After <==> precedes(b, a),
{
    lemma_precedes_total(a, b);
    lemma_precedes_irreflexive(a);
    if precedes(a, b) && precedes(b, a) {
        lemma_precedes_transitive(a, b, a);
    }
}

/// Keys with the same bytes are the same key.
pub proof fn lemma_key_bytes_injective(x: Seq<char>, y: Seq<char>)
    requires
        key_bytes(x) == key_bytes(y),
    ensures
        x == y,
{
    encode_utf8_decode_utf8(x);
    encode_utf8_decode_utf8(y);
    assert(decode_utf8(encode_utf8(x)) == decode_utf8(encode_utf8(y)));
}

/// Compares two byte strings, left to right.
pub fn compare_keys(a: &[u8], b: &[u8]) -> (order: KeyOrder)
    ensures
        order == key_order(a@, b@),
{
    proof {
        lemma_key_order(a@, b@);
    }
    let mut i: usize = 0;
    while i < a.len() && i < b.len()
        invariant
            i <= a.len(),
            i <= b.len(),
            forall|j: int| 0 <= j < i ==> a@[j] == b@[j],
        decreases a.len() - i,
    {
        if a[i] < b[i] {
            assert(parts_at(a@, b@, i as int));
            return KeyOrder::Before;
        }
        if a[i] > b[i] {
            assert(parts_at(b@, a@, i as int));
            return KeyOrder::After;
        }
        i += 1;
    }
    if a.len() < b.len() {
        assert(parts_at(a@, b@, i as int));
        KeyOrder::Before
    } else if a.len() > b.len() {
        assert(parts_at(b@, a@, i as int));
        KeyOrder::After
    } else {
        assert(a@ =~= b@);
        KeyOrder::Same
    }
}

} // verus!
