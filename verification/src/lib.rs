//! A verified on-chain name registry: named entries map either to a
//! validated account address or to a typed asset descriptor, under
//! single-admin write control, stored in a byte-keyed persistent store
//! whose key layout other contracts may read directly.

use vstd::prelude::*;

pub mod error;
pub mod keys;
pub mod model;
pub mod msg;
pub mod registry;
pub mod store;
pub mod values;

verus! {

/// Concatenation of a namespace and a key, the raw building block of
/// every storage key this registry writes or reads.
pub fn concat(namespace: &[u8], key: &[u8]) -> (r: Vec<u8>)
    ensures
        r@ == namespace@ + key@,
{
    let mut k: Vec<u8> = Vec::new();
    k.extend_from_slice(namespace);
    k.extend_from_slice(key);
    k
}

} // verus!
