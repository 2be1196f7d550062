//! The plain types that the storage and its callers exchange.

use vstd::prelude::*;

verus! {

/// The key of one stored entry.
pub type StorageKey = String;

/// The payload stored under a key.
pub type StorageValue = String;

/// An absolute timestamp in milliseconds since the Unix epoch, after which
/// a value counts as gone; `None` means that the value never expires.
pub type ExpirationTime = Option<u128>;

} // verus!
