//! The registry's persistent byte-keyed store.
//!
//! The backing collection is `cosmwasm_std::MemoryStorage`, an ordered map
//! from byte keys to byte values.  Its contents are named by `kv_view`, and
//! every access the registry makes goes through the small wrappers below,
//! whose contracts restate what the collection's own source shows.

use vstd::prelude::*;

verus! {

#[verifier::external_type_specification]
#[verifier::external_body]
pub struct ExMemoryStorage(cosmwasm_std::MemoryStorage);

/// The contents of the store: which byte value sits under each byte key.
pub uninterp spec fn kv_view(s: cosmwasm_std::MemoryStorage) -> Map<Seq<u8>, Seq<u8>>;

/// The contents of a store that holds nothing.
pub open spec fn kv_empty() -> Map<Seq<u8>, Seq<u8>> {
    Map::empty()
}

/// Relies on `MemoryStorage::new`: the backing map starts empty.
#[verifier::external_body]
pub(crate) fn kv_new() -> (s: cosmwasm_std::MemoryStorage)
    ensures
        kv_view(s) == kv_empty(),
{
    cosmwasm_std::MemoryStorage::new()
}

/// Relies on `<MemoryStorage as Storage>::get`: a copy of the bytes under
/// the key, or nothing where the key is absent.
#[verifier::external_body]
pub(crate) fn kv_get(s: &cosmwasm_std::MemoryStorage, key: &[u8]) -> (r: Option<Vec<u8>>)
    ensures
        match r {
            Some(v) => kv_view(*s).contains_key(key@) && v@ == kv_view(*s)[key@],
            None => !kv_view(*s).contains_key(key@),
        },
{
    cosmwasm_std::Storage::get(s, key)
}

/// Relies on `<MemoryStorage as Storage>::set`: it overwrites or inserts
/// the value under the key, and panics on empty values, which are
/// therefore excluded here.
#[verifier::external_body]
pub(crate) fn kv_set(s: &mut cosmwasm_std::MemoryStorage, key: &[u8], value: &[u8])
    requires
        value@.len() > 0,
    ensures
        kv_view(*final(s)) == kv_view(*old(s)).insert(key@, value@),
{
    cosmwasm_std::Storage::set(s, key, value)
}

/// Relies on `<MemoryStorage as Storage>::remove`: it deletes the key if
/// present and does nothing otherwise.
#[verifier::external_body]
pub(crate) fn kv_remove(s: &mut cosmwasm_std::MemoryStorage, key: &[u8])
    ensures
        kv_view(*final(s)) == kv_view(*old(s)).remove(key@),
{
    cosmwasm_std::Storage::remove(s, key)
}

} // verus!
