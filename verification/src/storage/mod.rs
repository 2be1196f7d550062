//! Storage: the uniform contract, and the in-memory stores that meet it.

use vstd::prelude::*;

pub mod generic;
pub mod inmemory;
pub mod key_order;
pub mod laws;
pub mod ordered;

use generic::{Crud, Record};

verus! {

/// A complete store: a `Crud` storage that can be created empty.
pub trait Storage: Crud {
    /// Creates a store that holds no key.
    fn new() -> (store: Self)
        ensures
            store.wf(),
            store@ == Map::<Seq<char>, Record>::empty(),
    ;
}

} // verus!
