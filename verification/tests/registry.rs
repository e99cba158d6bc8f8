use cw_registry::error::ContractError;
use cw_registry::msg::{ExecuteMsg, QueryAnswer, QueryMsg};
use cw_registry::registry::Registry;
use cw_registry::values::{AccountAddr, AssetDescriptor};

fn addr(s: &str) -> AccountAddr {
    AccountAddr::new(s.to_string())
}

fn fresh_with_entries() -> Registry {
    let admin = addr("alice");
    let mut reg = Registry::instantiate(admin.duplicate());
    let r = reg.update_contract_addresses(
        &admin,
        &vec![
            ("oracle".to_string(), addr("addr1")),
            ("vault".to_string(), addr("addr2")),
        ],
        &vec![],
    );
    assert!(r.is_ok());
    reg
}

#[test]
fn absent_name_is_not_present() {
    let reg = Registry::instantiate(addr("alice"));
    assert!(reg.get_contract(&"oracle".to_string()).is_none());
    assert!(reg.get_asset(&"gold".to_string()).is_none());
}

#[test]
fn upsert_then_get_returns_value() {
    let reg = fresh_with_entries();
    let got = reg.get_contract(&"oracle".to_string()).unwrap();
    assert_eq!(got.as_text(), "addr1");
    let got = reg.get_contract(&"vault".to_string()).unwrap();
    assert_eq!(got.as_text(), "addr2");
}

#[test]
fn remove_is_idempotent() {
    let mut once = fresh_with_entries();
    let mut twice = fresh_with_entries();
    let removal = vec!["oracle".to_string()];
    once.remove_many_contracts(&removal);
    twice.remove_many_contracts(&removal);
    twice.remove_many_contracts(&removal);
    let keys = [
        cw_registry::keys::contract_raw_key("oracle"),
        cw_registry::keys::contract_raw_key("vault"),
        cw_registry::keys::admin_key_bytes(),
    ];
    for key in keys.iter() {
        assert_eq!(once.raw_read(key.as_slice()), twice.raw_read(key.as_slice()));
    }
    assert!(once.get_contract(&"oracle".to_string()).is_none());
    assert_eq!(
        twice.get_contract(&"vault".to_string()).unwrap().as_text(),
        "addr2"
    );
}

#[test]
fn non_admin_mutation_rejected_and_store_unchanged() {
    let mut reg = fresh_with_entries();
    let mallory = addr("mallory");
    let oracle_key = cw_registry::keys::contract_raw_key("oracle");
    let admin_key = cw_registry::keys::admin_key_bytes();
    let oracle_before = reg.raw_read(oracle_key.as_slice());
    let admin_before = reg.raw_read(admin_key.as_slice());
    let r = reg.update_contract_addresses(
        &mallory,
        &vec![("oracle".to_string(), addr("evil"))],
        &vec!["vault".to_string()],
    );
    assert!(matches!(r, Err(ContractError::Unauthorized)));
    assert_eq!(reg.raw_read(oracle_key.as_slice()), oracle_before);
    assert_eq!(reg.raw_read(admin_key.as_slice()), admin_before);
    assert_eq!(
        reg.get_contract(&"oracle".to_string()).unwrap().as_text(),
        "addr1"
    );
}

#[test]
fn no_admin_means_all_mutation_rejected() {
    let admin = addr("alice");
    let mut reg = Registry::instantiate(admin.duplicate());
    assert!(reg.set_admin(&admin, None).is_ok());
    assert!(reg.get_admin().is_none());
    let r = reg.update_contract_addresses(
        &admin,
        &vec![("oracle".to_string(), addr("addr1"))],
        &vec![],
    );
    assert!(matches!(r, Err(ContractError::Unauthorized)));
    assert!(reg.get_contract(&"oracle".to_string()).is_none());
}

#[test]
fn admin_transfer_moves_authority() {
    let alice = addr("alice");
    let bob = addr("bob");
    let mut reg = Registry::instantiate(alice.duplicate());
    assert!(matches!(
        reg.set_admin(&bob, Some(bob.duplicate())),
        Err(ContractError::Unauthorized)
    ));
    assert!(reg.set_admin(&alice, Some(bob.duplicate())).is_ok());
    assert_eq!(reg.get_admin().unwrap().as_text(), "bob");
    assert!(matches!(
        reg.update_contract_addresses(&alice, &vec![], &vec![]),
        Err(ContractError::Unauthorized)
    ));
    assert!(reg.update_contract_addresses(&bob, &vec![], &vec![]).is_ok());
}

#[test]
fn last_write_wins_across_batches() {
    let admin = addr("alice");
    let mut reg = Registry::instantiate(admin.duplicate());
    reg.upsert_many_contracts(&vec![("oracle".to_string(), addr("addr1"))]);
    reg.upsert_many_contracts(&vec![("oracle".to_string(), addr("addr2"))]);
    assert_eq!(
        reg.get_contract(&"oracle".to_string()).unwrap().as_text(),
        "addr2"
    );
}

#[test]
fn last_write_wins_within_batch() {
    let admin = addr("alice");
    let mut reg = Registry::instantiate(admin.duplicate());
    reg.upsert_many_contracts(&vec![
        ("oracle".to_string(), addr("addr1")),
        ("oracle".to_string(), addr("addr2")),
    ]);
    assert_eq!(
        reg.get_contract(&"oracle".to_string()).unwrap().as_text(),
        "addr2"
    );
}

#[test]
fn add_and_remove_in_same_update_removes() {
    let admin = addr("alice");
    let mut reg = Registry::instantiate(admin.duplicate());
    let r = reg.update_contract_addresses(
        &admin,
        &vec![("oracle".to_string(), addr("addr1"))],
        &vec!["oracle".to_string()],
    );
    assert!(r.is_ok());
    assert!(reg.get_contract(&"oracle".to_string()).is_none());
}

#[test]
fn batch_query_omits_absent_names_in_request_order() {
    let reg = fresh_with_entries();
    let names = vec![
        "vault".to_string(),
        "missing".to_string(),
        "oracle".to_string(),
    ];
    let resp = reg.query_contracts(&names);
    let pairs: Vec<(String, String)> = resp.contracts;
    assert_eq!(
        pairs,
        vec![
            ("vault".to_string(), "addr2".to_string()),
            ("oracle".to_string(), "addr1".to_string()),
        ]
    );
}

#[test]
fn asset_entries_round_trip() {
    let admin = addr("alice");
    let mut reg = Registry::instantiate(admin.duplicate());
    let r = reg.update_asset_addresses(
        &admin,
        &vec![
            ("uusd".to_string(), AssetDescriptor::Native("uusd".to_string())),
            (
                "gold".to_string(),
                AssetDescriptor::ContractToken(addr("goldtoken")),
            ),
        ],
        &vec![],
    );
    assert!(r.is_ok());
    match reg.get_asset(&"uusd".to_string()).unwrap() {
        AssetDescriptor::Native(denom) => assert_eq!(denom, "uusd"),
        other => panic!("wrong variant: {:?}", other),
    }
    match reg.get_asset(&"gold".to_string()).unwrap() {
        AssetDescriptor::ContractToken(a) => assert_eq!(a.as_text(), "goldtoken"),
        other => panic!("wrong variant: {:?}", other),
    }
    let resp = reg.query_assets(&vec!["gold".to_string(), "none".to_string()]);
    assert_eq!(resp.assets.len(), 1);
    assert_eq!(resp.assets[0].0, "gold");
}

#[test]
fn execute_and_query_dispatch() {
    let admin = addr("alice");
    let mut reg = Registry::instantiate(admin.duplicate());
    let r = reg.execute(
        &admin,
        ExecuteMsg::UpdateContractAddresses {
            to_add: vec![("oracle".to_string(), addr("addr1"))],
            to_remove: vec![],
        },
    );
    assert!(r.is_ok());
    let answer = reg.query(QueryMsg::QueryContracts {
        names: vec!["oracle".to_string()],
    });
    match answer {
        QueryAnswer::Contracts(resp) => {
            assert_eq!(
                resp.contracts,
                vec![("oracle".to_string(), "addr1".to_string())]
            );
        }
        QueryAnswer::Assets(_) => panic!("wrong answer kind"),
    }
    let r = reg.execute(
        &admin,
        ExecuteMsg::SetAdmin {
            admin: Some(addr("bob")),
        },
    );
    assert!(r.is_ok());
    assert_eq!(reg.get_admin().unwrap().as_text(), "bob");
}

#[test]
fn full_scenario_admin_gate_and_tie_break() {
    let a = addr("alice");
    let b = addr("bob");
    let mut reg = Registry::instantiate(a.duplicate());

    let r = reg.execute(
        &a,
        ExecuteMsg::UpdateContractAddresses {
            to_add: vec![("oracle".to_string(), addr("addr1"))],
            to_remove: vec![],
        },
    );
    assert!(r.is_ok());
    match reg.query(QueryMsg::QueryContracts {
        names: vec!["oracle".to_string()],
    }) {
        QueryAnswer::Contracts(resp) => assert_eq!(
            resp.contracts,
            vec![("oracle".to_string(), "addr1".to_string())]
        ),
        QueryAnswer::Assets(_) => panic!("wrong answer kind"),
    }

    let r = reg.execute(
        &b,
        ExecuteMsg::UpdateContractAddresses {
            to_add: vec![("oracle".to_string(), addr("addr1"))],
            to_remove: vec![],
        },
    );
    assert!(matches!(r, Err(ContractError::Unauthorized)));
    assert_eq!(
        reg.get_contract(&"oracle".to_string()).unwrap().as_text(),
        "addr1"
    );

    let r = reg.execute(
        &a,
        ExecuteMsg::UpdateContractAddresses {
            to_add: vec![("oracle".to_string(), addr("addr2"))],
            to_remove: vec!["oracle".to_string()],
        },
    );
    assert!(r.is_ok());
    assert!(reg.get_contract(&"oracle".to_string()).is_none());
}

#[test]
fn same_name_lives_independently_in_both_collections() {
    let admin = addr("alice");
    let mut reg = Registry::instantiate(admin.duplicate());
    reg.upsert_many_contracts(&vec![("gold".to_string(), addr("goldcontract"))]);
    reg.upsert_many_assets(&vec![(
        "gold".to_string(),
        AssetDescriptor::Native("ugold".to_string()),
    )]);
    assert_eq!(
        reg.get_contract(&"gold".to_string()).unwrap().as_text(),
        "goldcontract"
    );
    assert!(reg.get_asset(&"gold".to_string()).is_some());

    // Removing the asset entry leaves the address entry untouched.
    reg.remove_many_assets(&vec!["gold".to_string()]);
    assert!(reg.get_asset(&"gold".to_string()).is_none());
    assert_eq!(
        reg.get_contract(&"gold".to_string()).unwrap().as_text(),
        "goldcontract"
    );
}

#[test]
fn error_descriptions() {
    assert_eq!(ContractError::Unauthorized.describe(), "Unauthorized");
    let e = ContractError::InvalidAddress {
        val: "BAD".to_string(),
    };
    assert_eq!(e.describe(), "Invalid address: BAD");
    let e = ContractError::NotFoundInRegistry {
        val: "oracle".to_string(),
    };
    assert!(e.describe().contains("oracle"));
}
