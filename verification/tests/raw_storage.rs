//! The cross-boundary coupling: the registry's key derivation and stored
//! byte encodings must match, byte for byte, what the persistence layer
//! and its serializer produce, since external readers reconstruct keys and
//! decode values on their own.

use cosmwasm_std::Addr;
use cw_registry::keys;
use cw_registry::registry::Registry;
use cw_registry::values::{AccountAddr, AssetDescriptor};

fn addr(s: &str) -> AccountAddr {
    AccountAddr::new(s.to_string())
}

#[test]
fn concat_joins_namespace_and_key() {
    assert_eq!(cw_registry::concat(b"ab", b"cd"), b"abcd".to_vec());
    assert_eq!(cw_registry::concat(b"", b"xy"), b"xy".to_vec());
    assert_eq!(cw_registry::concat(b"xy", b""), b"xy".to_vec());
}

#[test]
fn raw_key_is_length_prefixed_tag_then_name() {
    let key = keys::raw_key(b"assets", b"gold");
    let mut expected = vec![0u8, 6u8];
    expected.extend_from_slice(b"assets");
    expected.extend_from_slice(b"gold");
    assert_eq!(key, expected);
}

#[test]
fn key_derivation_matches_persistence_layer() {
    let ours = keys::contract_raw_key("oracle");
    let theirs = cw_registry::concat(
        &cosmwasm_storage::to_length_prefixed(b"contracts"),
        "oracle".as_bytes(),
    );
    assert_eq!(ours, theirs);

    let map: cw_storage_plus::Map<&str, Addr> = cw_storage_plus::Map::new("contracts");
    let path = map.key("oracle");
    assert_eq!(ours.as_slice(), &*path);

    let ours = keys::asset_raw_key("gold");
    let map: cw_storage_plus::Map<&str, cw_asset::AssetInfo> = cw_storage_plus::Map::new("assets");
    let path = map.key("gold");
    assert_eq!(ours.as_slice(), &*path);
}

#[test]
fn raw_read_of_derived_key_equals_in_process_get() {
    let admin = addr("alice");
    let mut reg = Registry::instantiate(admin.duplicate());
    let r = reg.update_contract_addresses(
        &admin,
        &vec![("oracle".to_string(), addr("addr1"))],
        &vec![],
    );
    assert!(r.is_ok());
    let r = reg.update_asset_addresses(
        &admin,
        &vec![("uusd".to_string(), AssetDescriptor::Native("uusd".to_string()))],
        &vec![],
    );
    assert!(r.is_ok());

    // Present names: the raw bytes decode to exactly what get returns.
    let raw = reg
        .raw_read(keys::contract_raw_key("oracle").as_slice())
        .expect("raw key must resolve");
    let decoded: Addr = cosmwasm_std::from_slice(&raw).unwrap();
    assert_eq!(
        decoded.as_str(),
        reg.get_contract(&"oracle".to_string()).unwrap().as_text()
    );

    // Absent names: both modes say "not present".
    assert!(reg.raw_read(keys::contract_raw_key("nobody").as_slice()).is_none());
    assert!(reg.get_contract(&"nobody".to_string()).is_none());

    // The same name lives independently in each collection's namespace.
    assert!(reg.raw_read(keys::asset_raw_key("oracle").as_slice()).is_none());
    assert!(reg.raw_read(keys::asset_raw_key("uusd").as_slice()).is_some());
}

#[test]
fn stored_address_bytes_are_the_serializer_encoding() {
    let admin = addr("alice");
    let mut reg = Registry::instantiate(admin.duplicate());
    reg.upsert_many_contracts(&vec![("oracle".to_string(), addr("addr1"))]);
    let raw = reg
        .raw_read(keys::contract_raw_key("oracle").as_slice())
        .unwrap();
    let expected = cosmwasm_std::to_vec(&Addr::unchecked("addr1")).unwrap();
    assert_eq!(raw, expected);
}

#[test]
fn stored_asset_bytes_are_the_serializer_encoding() {
    let admin = addr("alice");
    let mut reg = Registry::instantiate(admin.duplicate());
    reg.upsert_many_assets(&vec![
        ("uusd".to_string(), AssetDescriptor::Native("uusd".to_string())),
        (
            "gold".to_string(),
            AssetDescriptor::ContractToken(addr("goldtoken")),
        ),
    ]);
    let raw = reg.raw_read(keys::asset_raw_key("uusd").as_slice()).unwrap();
    let expected = cosmwasm_std::to_vec(&cw_asset::AssetInfo::native("uusd")).unwrap();
    assert_eq!(raw, expected);

    let raw = reg.raw_read(keys::asset_raw_key("gold").as_slice()).unwrap();
    let expected =
        cosmwasm_std::to_vec(&cw_asset::AssetInfo::cw20(Addr::unchecked("goldtoken"))).unwrap();
    assert_eq!(raw, expected);
}

#[test]
fn stored_admin_bytes_are_the_serializer_encoding() {
    let reg = Registry::instantiate(addr("alice"));
    let raw = reg.raw_read(keys::admin_key_bytes().as_slice()).unwrap();
    let expected = cosmwasm_std::to_vec(&Some(Addr::unchecked("alice"))).unwrap();
    assert_eq!(raw, expected);
}

#[test]
fn cleared_admin_bytes_are_the_serializer_encoding() {
    let alice = addr("alice");
    let mut reg = Registry::instantiate(alice.duplicate());
    assert!(reg.set_admin(&alice, None).is_ok());
    let raw = reg.raw_read(keys::admin_key_bytes().as_slice()).unwrap();
    let expected = cosmwasm_std::to_vec(&Option::<Addr>::None).unwrap();
    assert_eq!(raw, expected);
}
