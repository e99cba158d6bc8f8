//! The storage key namespace: the deterministic rule that maps a
//! (collection tag, entry name) pair to the byte key under which the entry
//! lives in the registry's persistent store.
//!
//! The rule is `length_prefix(tag) ++ utf8(name)`, where `length_prefix`
//! puts the tag's length in front as two big-endian bytes.  Other contracts
//! reconstruct these keys on their side and read the registry's store
//! directly, so the rule must match the persistence layer's own convention
//! exactly and must be injective over the whole key space.

use vstd::prelude::*;
use vstd::utf8::{encode_utf8, encode_utf8_decode_utf8};

use crate::concat;

verus! {

/// Two big-endian length bytes followed by the namespace itself.
pub open spec fn spec_length_prefixed(ns: Seq<u8>) -> Seq<u8> {
    seq![((ns.len() / 256) as u8), ((ns.len() % 256) as u8)] + ns
}

/// The raw storage key of an entry: prefixed collection tag, then the
/// entry name's bytes.
pub open spec fn spec_raw_key(collection: Seq<u8>, name_bytes: Seq<u8>) -> Seq<u8> {
    spec_length_prefixed(collection) + name_bytes
}

/// Tag of the collection that holds validated account addresses
/// (the bytes of "contracts").
pub open spec fn contracts_tag() -> Seq<u8> {
    seq![99u8, 111u8, 110u8, 116u8, 114u8, 97u8, 99u8, 116u8, 115u8]
}

/// Tag of the collection that holds asset descriptors
/// (the bytes of "assets").
pub open spec fn assets_tag() -> Seq<u8> {
    seq![97u8, 115u8, 115u8, 101u8, 116u8, 115u8]
}

/// The fixed key under which the admin record lives (the bytes of
/// "admin"); single records carry no length prefix.
pub open spec fn admin_key() -> Seq<u8> {
    seq![97u8, 100u8, 109u8, 105u8, 110u8]
}

/// Key of a named entry in the address collection.
pub open spec fn contract_key(name: Seq<char>) -> Seq<u8> {
    spec_raw_key(contracts_tag(), encode_utf8(name))
}

/// Key of a named entry in the asset collection.
pub open spec fn asset_key(name: Seq<char>) -> Seq<u8> {
    spec_raw_key(assets_tag(), encode_utf8(name))
}

/// Relies on `cosmwasm_std::storage_keys::to_length_prefixed` (re-exported
/// by `cosmwasm_storage`): it returns the namespace preceded by its length
/// as two big-endian bytes, and panics on namespaces longer than 0xFFFF.
#[verifier::external_body]
pub(crate) fn length_prefixed(namespace: &[u8]) -> (r: Vec<u8>)
    requires
        namespace@.len() <= 0xFFFF,
    ensures
        r@ == spec_length_prefixed(namespace@),
{
    cosmwasm_storage::to_length_prefixed(namespace)
}

/// Exec form of `spec_raw_key`; this is the derivation an external reader
/// runs to address one entry of the registry's store.
pub fn raw_key(collection: &[u8], name_bytes: &[u8]) -> (r: Vec<u8>)
    requires
        collection@.len() <= 0xFFFF,
    ensures
        r@ == spec_raw_key(collection@, name_bytes@),
{
    let prefixed = length_prefixed(collection);
    concat(prefixed.as_slice(), name_bytes)
}

/// The bytes of "contracts".
pub fn contracts_tag_bytes() -> (r: Vec<u8>)
    ensures
        r@ == contracts_tag(),
{
    let mut v: Vec<u8> = Vec::new();
    v.push(99u8);
    v.push(111u8);
    v.push(110u8);
    v.push(116u8);
    v.push(114u8);
    v.push(97u8);
    v.push(99u8);
    v.push(116u8);
    v.push(115u8);
    proof {
        assert(v@ =~= contracts_tag());
    }
    v
}

/// The bytes of "assets".
pub fn assets_tag_bytes() -> (r: Vec<u8>)
    ensures
        r@ == assets_tag(),
{
    let mut v: Vec<u8> = Vec::new();
    v.push(97u8);
    v.push(115u8);
    v.push(115u8);
    v.push(101u8);
    v.push(116u8);
    v.push(115u8);
    proof {
        assert(v@ =~= assets_tag());
    }
    v
}

/// The bytes of "admin".
pub fn admin_key_bytes() -> (r: Vec<u8>)
    ensures
        r@ == admin_key(),
{
    let mut v: Vec<u8> = Vec::new();
    v.push(97u8);
    v.push(100u8);
    v.push(109u8);
    v.push(105u8);
    v.push(110u8);
    proof {
        assert(v@ =~= admin_key());
    }
    v
}

/// Key of a named entry in the address collection, from the name itself.
pub fn contract_raw_key(name: &str) -> (r: Vec<u8>)
    ensures
        r@ == contract_key(name@),
{
    let tag = contracts_tag_bytes();
    raw_key(tag.as_slice(), name.as_bytes())
}

/// Key of a named entry in the asset collection, from the name itself.
pub fn asset_raw_key(name: &str) -> (r: Vec<u8>)
    ensures
        r@ == asset_key(name@),
{
    let tag = assets_tag_bytes();
    raw_key(tag.as_slice(), name.as_bytes())
}

/// The raw-key rule is injective: distinct (collection, name-bytes) pairs
/// never share a storage key.
pub proof fn lemma_raw_key_injective(c1: Seq<u8>, n1: Seq<u8>, c2: Seq<u8>, n2: Seq<u8>)
    requires
        c1.len() <= 0xFFFF,
        c2.len() <= 0xFFFF,
        spec_raw_key(c1, n1) == spec_raw_key(c2, n2),
    ensures
        c1 == c2,
        n1 == n2,
{
    let k1 = spec_raw_key(c1, n1);
    let k2 = spec_raw_key(c2, n2);
    assert(k1[0] == ((c1.len() / 256) as u8) && k1[1] == ((c1.len() % 256) as u8));
    assert(k2[0] == ((c2.len() / 256) as u8) && k2[1] == ((c2.len() % 256) as u8));
    assert(c1.len() / 256 == c2.len() / 256 && c1.len() % 256 == c2.len() % 256);
    assert(c1.len() == c2.len());
    assert forall|i: int| 0 <= i < c1.len() implies c1[i] == c2[i] by {
        assert(k1[2 + i] == c1[i]);
        assert(k2[2 + i] == c2[i]);
    }
    assert(c1 =~= c2);
    assert(n1.len() == n2.len());
    assert forall|i: int| 0 <= i < n1.len() implies n1[i] == n2[i] by {
        assert(k1[2 + c1.len() + i] == n1[i]);
        assert(k2[2 + c2.len() + i] == n2[i]);
    }
    assert(n1 =~= n2);
}

/// Distinct entry names get distinct keys within the address collection.
pub proof fn lemma_contract_key_injective(n1: Seq<char>, n2: Seq<char>)
    requires
        contract_key(n1) == contract_key(n2),
    ensures
        n1 == n2,
{
    lemma_raw_key_injective(contracts_tag(), encode_utf8(n1), contracts_tag(), encode_utf8(n2));
    encode_utf8_decode_utf8(n1);
    encode_utf8_decode_utf8(n2);
}

/// Distinct entry names get distinct keys within the asset collection.
pub proof fn lemma_asset_key_injective(n1: Seq<char>, n2: Seq<char>)
    requires
        asset_key(n1) == asset_key(n2),
    ensures
        n1 == n2,
{
    lemma_raw_key_injective(assets_tag(), encode_utf8(n1), assets_tag(), encode_utf8(n2));
    encode_utf8_decode_utf8(n1);
    encode_utf8_decode_utf8(n2);
}

/// The two collections and the admin record never collide: the same name
/// may exist in both collections without interference, and neither ever
/// touches the admin record.
pub proof fn lemma_keys_disjoint(n1: Seq<char>, n2: Seq<char>)
    ensures
        contract_key(n1) != asset_key(n2),
        contract_key(n1) != admin_key(),
        asset_key(n2) != admin_key(),
{
    assert(contract_key(n1)[1] == 9u8);
    assert(asset_key(n2)[1] == 6u8);
    assert(contract_key(n1)[0] == 0u8);
    assert(asset_key(n2)[0] == 0u8);
    assert(admin_key()[0] == 97u8);
}

} // verus!
