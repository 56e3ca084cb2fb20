//! What every component of the runtime knows about accounts.

use std::hash::Hash;
use vstd::prelude::*;

verus! {

/// A type whose values can name accounts: it is copied freely, and as the
/// key of a hash map it finds an entry exactly under the value that the
/// entry was stored with.
pub trait AccountKey: Copy + Eq + Hash {
    /// Values of the type behave as keys of a hash map: hashing is a function
    /// of the value, and `==` holds of identical values only.
    proof fn is_hash_key()
        ensures
            vstd::std_specs::hash::obeys_key_model::<Self>(),
    ;
}

impl AccountKey for u8 {
    proof fn is_hash_key() {
        broadcast use vstd::std_specs::hash::group_hash_axioms;

    }
}

impl AccountKey for u16 {
    proof fn is_hash_key() {
        broadcast use vstd::std_specs::hash::group_hash_axioms;

    }
}

impl AccountKey for u32 {
    proof fn is_hash_key() {
        broadcast use vstd::std_specs::hash::group_hash_axioms;

    }
}

impl AccountKey for u64 {
    proof fn is_hash_key() {
        broadcast use vstd::std_specs::hash::group_hash_axioms;

    }
}

impl AccountKey for u128 {
    proof fn is_hash_key() {
        broadcast use vstd::std_specs::hash::group_hash_axioms;

    }
}

impl AccountKey for usize {
    proof fn is_hash_key() {
        broadcast use vstd::std_specs::hash::group_hash_axioms;

    }
}

/// Names the type by which accounts are identified.
pub trait SystemConfig {
    /// The identifier of an account.
    type AccountId: AccountKey;
}

} // verus!
