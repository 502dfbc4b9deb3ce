//! The per-account table of transactions: a `std` hash map hashed with `rustc_hash`'s
//! `FxBuildHasher`, seen through its `Map` view.

use crate::account::AccountTransaction;
use crate::TransactionId;
use rustc_hash::FxHashMap;
use vstd::prelude::*;

verus! {

/// `rustc_hash::FxBuildHasher`, the (stateless, unseeded) hash builder of `FxHashMap`.
#[verifier::external_type_specification]
#[verifier::external_body]
pub struct ExFxBuildHasher(rustc_hash::FxBuildHasher);

/// Transactions of one account, keyed by transaction id.
pub type TransactionMap = FxHashMap<TransactionId, AccountTransaction>;

/// Calls `HashMap::contains_key` on an `FxHashMap`.
/// Trusted: the result is whether the key is in the map. `FxBuildHasher` builds identical
/// hashers with a fixed seed, so equal keys hash alike and the map behaves as a map.
#[verifier::external_body]
pub(crate) fn map_contains_key(m: &TransactionMap, k: TransactionId) -> (r: bool)
    ensures
        r == m@.contains_key(k),
{
    m.contains_key(&k)
}

/// Calls `HashMap::get` on an `FxHashMap` and copies the value out.
/// Trusted: `Some` of the value stored under the key, `None` when there is none.
#[verifier::external_body]
pub(crate) fn map_get(m: &TransactionMap, k: TransactionId) -> (r: Option<AccountTransaction>)
    ensures
        m@.contains_key(k) ==> r == Some(m@[k]),
        !m@.contains_key(k) ==> r is None,
{
    m.get(&k).copied()
}

/// Calls `HashMap::insert` on an `FxHashMap`, dropping the replaced value.
/// Trusted: afterwards the key maps to the value and every other entry is unchanged.
#[verifier::external_body]
pub(crate) fn map_insert(m: &mut TransactionMap, k: TransactionId, v: AccountTransaction)
    ensures
        final(m)@ == old(m)@.insert(k, v),
{
    m.insert(k, v);
}

} // verus!
