//! The registry itself: two independent name-keyed collections (addresses
//! and assets) and the admin record, all living in one byte-keyed
//! persistent store under the key namespace of `keys`.
//!
//! Well-formedness ties the store's raw bytes to the mathematical
//! collections: each collection holds a name exactly when the store holds
//! the derived key, and the bytes under that key are the entry's encoding.
//! Every operation preserves it, so an external reader who derives a key
//! and reads the store raw sees exactly what the in-process lookup sees.

use vstd::prelude::*;

use crate::error::ContractError;
use crate::keys::{
    admin_key, admin_key_bytes, asset_key, asset_raw_key, contract_key, contract_raw_key,
    lemma_asset_key_injective, lemma_contract_key_injective, lemma_keys_disjoint,
};
use crate::model::{apply_removes, apply_upserts, resolve};
use crate::msg::{AssetQueryResponse, ContractQueryResponse, ExecuteMsg, QueryAnswer, QueryMsg};
use crate::store::{kv_empty, kv_get, kv_new, kv_remove, kv_set, kv_view};
use crate::values::{
    addr_enc, admin_enc, admin_view, asset_enc, decode_addr, decode_asset, encode_addr,
    encode_admin, encode_asset, AccountAddr, AssetDesc, AssetDescriptor,
};

verus! {

/// The names of a batch, each as its character sequence.
pub open spec fn names_view(names: Seq<String>) -> Seq<Seq<char>> {
    names.map_values(|s: String| s@)
}

/// The (name, address) pairs of a batch, each as its character sequences.
pub open spec fn contract_entries_view(entries: Seq<(String, AccountAddr)>) -> Seq<
    (Seq<char>, Seq<char>),
> {
    entries.map_values(|p: (String, AccountAddr)| (p.0@, p.1@))
}

/// The (name, descriptor) pairs of a batch, in mathematical form.
pub open spec fn asset_entries_view(entries: Seq<(String, AssetDescriptor)>) -> Seq<
    (Seq<char>, AssetDesc),
> {
    entries.map_values(|p: (String, AssetDescriptor)| (p.0@, p.1@))
}

/// The (name, address-text) pairs of a response, each as its character
/// sequences.
pub open spec fn text_pairs_view(pairs: Seq<(String, String)>) -> Seq<(Seq<char>, Seq<char>)> {
    pairs.map_values(|p: (String, String)| (p.0@, p.1@))
}

/// An empty address collection.
pub open spec fn no_contracts() -> Map<Seq<char>, Seq<char>> {
    Map::empty()
}

/// An empty asset collection.
pub open spec fn no_assets() -> Map<Seq<char>, AssetDesc> {
    Map::empty()
}

/// How the raw byte store realizes the registry's state: the admin record
/// sits under its fixed key, and each collection holds a name exactly when
/// the store holds the derived key, whose value is the entry's encoding.
pub open spec fn wf_store(
    raw: Map<Seq<u8>, Seq<u8>>,
    contracts: Map<Seq<char>, Seq<char>>,
    assets: Map<Seq<char>, AssetDesc>,
    admin: Option<Seq<char>>,
) -> bool {
    &&& raw.contains_key(admin_key())
    &&& raw[admin_key()] == admin_enc(admin)
    &&& forall|n: Seq<char>|
        #![trigger contract_key(n)]
        contracts.contains_key(n) <==> raw.contains_key(contract_key(n))
    &&& forall|n: Seq<char>|
        #![trigger contract_key(n)]
        contracts.contains_key(n) ==> raw[contract_key(n)] == addr_enc(contracts[n])
    &&& forall|n: Seq<char>|
        #![trigger asset_key(n)]
        assets.contains_key(n) <==> raw.contains_key(asset_key(n))
    &&& forall|n: Seq<char>|
        #![trigger asset_key(n)]
        assets.contains_key(n) ==> raw[asset_key(n)] == asset_enc(assets[n])
}

/// The registry: the persistent store it owns, the admin record, and the
/// mathematical contents of the two collections.
pub struct Registry {
    store: cosmwasm_std::MemoryStorage,
    admin: Option<AccountAddr>,
    contracts: Ghost<Map<Seq<char>, Seq<char>>>,
    assets: Ghost<Map<Seq<char>, AssetDesc>>,
}

impl Registry {
    /// The address collection: which address text each name resolves to.
    pub closed spec fn contracts_map(&self) -> Map<Seq<char>, Seq<char>> {
        self.contracts@
    }

    /// The asset collection: which descriptor each name resolves to.
    pub closed spec fn assets_map(&self) -> Map<Seq<char>, AssetDesc> {
        self.assets@
    }

    /// The admin record: the admin's address text, if one is set.
    pub closed spec fn admin_state(&self) -> Option<Seq<char>> {
        admin_view(self.admin)
    }

    /// The raw bytes of the persistent store, as an external reader sees
    /// them.
    pub closed spec fn raw_store(&self) -> Map<Seq<u8>, Seq<u8>> {
        kv_view(self.store)
    }

    /// The registry's invariant: its store realizes its state.
    pub open spec fn wf(&self) -> bool {
        wf_store(self.raw_store(), self.contracts_map(), self.assets_map(), self.admin_state())
    }
}

proof fn lemma_wf_set_contract(
    raw: Map<Seq<u8>, Seq<u8>>,
    contracts: Map<Seq<char>, Seq<char>>,
    assets: Map<Seq<char>, AssetDesc>,
    admin: Option<Seq<char>>,
    n: Seq<char>,
    v: Seq<char>,
)
    requires
        wf_store(raw, contracts, assets, admin),
    ensures
        wf_store(raw.insert(contract_key(n), addr_enc(v)), contracts.insert(n, v), assets, admin),
{
    let raw2 = raw.insert(contract_key(n), addr_enc(v));
    let c2 = contracts.insert(n, v);
    lemma_keys_disjoint(n, n);
    assert forall|m: Seq<char>|
        #![trigger contract_key(m)]
        (c2.contains_key(m) <==> raw2.contains_key(contract_key(m))) && (c2.contains_key(m)
            ==> raw2[contract_key(m)] == addr_enc(c2[m])) by {
        if m != n && contract_key(m) == contract_key(n) {
            lemma_contract_key_injective(m, n);
        }
    }
    assert forall|m: Seq<char>|
        #![trigger asset_key(m)]
        (assets.contains_key(m) <==> raw2.contains_key(asset_key(m))) && (assets.contains_key(m)
            ==> raw2[asset_key(m)] == asset_enc(assets[m])) by {
        lemma_keys_disjoint(n, m);
    }
}

proof fn lemma_wf_remove_contract(
    raw: Map<Seq<u8>, Seq<u8>>,
    contracts: Map<Seq<char>, Seq<char>>,
    assets: Map<Seq<char>, AssetDesc>,
    admin: Option<Seq<char>>,
    n: Seq<char>,
)
    requires
        wf_store(raw, contracts, assets, admin),
    ensures
        wf_store(raw.remove(contract_key(n)), contracts.remove(n), assets, admin),
{
    let raw2 = raw.remove(contract_key(n));
    let c2 = contracts.remove(n);
    lemma_keys_disjoint(n, n);
    assert forall|m: Seq<char>|
        #![trigger contract_key(m)]
        (c2.contains_key(m) <==> raw2.contains_key(contract_key(m))) && (c2.contains_key(m)
            ==> raw2[contract_key(m)] == addr_enc(c2[m])) by {
        if m != n && contract_key(m) == contract_key(n) {
            lemma_contract_key_injective(m, n);
        }
    }
    assert forall|m: Seq<char>|
        #![trigger asset_key(m)]
        (assets.contains_key(m) <==> raw2.contains_key(asset_key(m))) && (assets.contains_key(m)
            ==> raw2[asset_key(m)] == asset_enc(assets[m])) by {
        lemma_keys_disjoint(n, m);
    }
}

proof fn lemma_wf_set_asset(
    raw: Map<Seq<u8>, Seq<u8>>,
    contracts: Map<Seq<char>, Seq<char>>,
    assets: Map<Seq<char>, AssetDesc>,
    admin: Option<Seq<char>>,
    n: Seq<char>,
    v: AssetDesc,
)
    requires
        wf_store(raw, contracts, assets, admin),
    ensures
        wf_store(raw.insert(asset_key(n), asset_enc(v)), contracts, assets.insert(n, v), admin),
{
    let raw2 = raw.insert(asset_key(n), asset_enc(v));
    let a2 = assets.insert(n, v);
    lemma_keys_disjoint(n, n);
    assert forall|m: Seq<char>|
        #![trigger asset_key(m)]
        (a2.contains_key(m) <==> raw2.contains_key(asset_key(m))) && (a2.contains_key(m)
            ==> raw2[asset_key(m)] == asset_enc(a2[m])) by {
        if m != n && asset_key(m) == asset_key(n) {
            lemma_asset_key_injective(m, n);
        }
    }
    assert forall|m: Seq<char>|
        #![trigger contract_key(m)]
        (contracts.contains_key(m) <==> raw2.contains_key(contract_key(m)))
            && (contracts.contains_key(m) ==> raw2[contract_key(m)] == addr_enc(
            contracts[m],
        )) by {
        lemma_keys_disjoint(m, n);
    }
}

proof fn lemma_wf_remove_asset(
    raw: Map<Seq<u8>, Seq<u8>>,
    contracts: Map<Seq<char>, Seq<char>>,
    assets: Map<Seq<char>, AssetDesc>,
    admin: Option<Seq<char>>,
    n: Seq<char>,
)
    requires
        wf_store(raw, contracts, assets, admin),
    ensures
        wf_store(raw.remove(asset_key(n)), contracts, assets.remove(n), admin),
{
    let raw2 = raw.remove(asset_key(n));
    let a2 = assets.remove(n);
    lemma_keys_disjoint(n, n);
    assert forall|m: Seq<char>|
        #![trigger asset_key(m)]
        (a2.contains_key(m) <==> raw2.contains_key(asset_key(m))) && (a2.contains_key(m)
            ==> raw2[asset_key(m)] == asset_enc(a2[m])) by {
        if m != n && asset_key(m) == asset_key(n) {
            lemma_asset_key_injective(m, n);
        }
    }
    assert forall|m: Seq<char>|
        #![trigger contract_key(m)]
        (contracts.contains_key(m) <==> raw2.contains_key(contract_key(m)))
            && (contracts.contains_key(m) ==> raw2[contract_key(m)] == addr_enc(
            contracts[m],
        )) by {
        lemma_keys_disjoint(m, n);
    }
}

proof fn lemma_wf_set_admin(
    raw: Map<Seq<u8>, Seq<u8>>,
    contracts: Map<Seq<char>, Seq<char>>,
    assets: Map<Seq<char>, AssetDesc>,
    admin: Option<Seq<char>>,
    new_admin: Option<Seq<char>>,
)
    requires
        wf_store(raw, contracts, assets, admin),
    ensures
        wf_store(raw.insert(admin_key(), admin_enc(new_admin)), contracts, assets, new_admin),
{
    let raw2 = raw.insert(admin_key(), admin_enc(new_admin));
    assert forall|m: Seq<char>|
        #![trigger contract_key(m)]
        (contracts.contains_key(m) <==> raw2.contains_key(contract_key(m)))
            && (contracts.contains_key(m) ==> raw2[contract_key(m)] == addr_enc(
            contracts[m],
        )) by {
        lemma_keys_disjoint(m, m);
    }
    assert forall|m: Seq<char>|
        #![trigger asset_key(m)]
        (assets.contains_key(m) <==> raw2.contains_key(asset_key(m))) && (assets.contains_key(m)
            ==> raw2[asset_key(m)] == asset_enc(assets[m])) by {
        lemma_keys_disjoint(m, m);
    }
}

impl Registry {
    /// Set up a fresh registry: both collections empty, the initializing
    /// caller recorded as admin.
    pub fn instantiate(creator: AccountAddr) -> (r: Registry)
        ensures
            r.wf(),
            r.admin_state() == Some(creator@),
            r.contracts_map() == no_contracts(),
            r.assets_map() == no_assets(),
    {
        let mut reg = Registry {
            store: kv_new(),
            admin: Some(creator),
            contracts: Ghost(no_contracts()),
            assets: Ghost(no_assets()),
        };
        let key = admin_key_bytes();
        let bytes = encode_admin(&reg.admin);
        kv_set(&mut reg.store, key.as_slice(), bytes.as_slice());
        proof {
            let raw = kv_view(reg.store);
            assert(raw == kv_empty().insert(admin_key(), admin_enc(reg.admin_state())));
            assert forall|m: Seq<char>|
                #![trigger contract_key(m)]
                !raw.contains_key(contract_key(m)) && !raw.contains_key(asset_key(m)) by {
                lemma_keys_disjoint(m, m);
            }
        }
        reg
    }

    /// The current admin record; absent means all mutation is rejected.
    pub fn get_admin(&self) -> (r: Option<AccountAddr>)
        ensures
            admin_view(r) == self.admin_state(),
    {
        match &self.admin {
            Some(a) => Some(a.duplicate()),
            None => None,
        }
    }

    /// Authorization gate: succeeds exactly when the caller is the current
    /// admin; in particular it fails for everyone while no admin is set.
    /// No side effect.
    pub fn assert_admin(&self, caller: &AccountAddr) -> (r: Result<(), ContractError>)
        ensures
            r is Ok <==> self.admin_state() == Some(caller@),
            r matches Err(e) ==> e is Unauthorized,
    {
        match &self.admin {
            Some(a) => {
                if a.eq_addr(caller) {
                    Ok(())
                } else {
                    Err(ContractError::Unauthorized)
                }
            },
            None => Err(ContractError::Unauthorized),
        }
    }

    /// Replace the admin record.  Only the current admin may do so; setting
    /// it to nothing permanently rejects all future mutation.  An
    /// unauthorized caller leaves the registry — its store included —
    /// untouched.
    pub fn set_admin(&mut self, caller: &AccountAddr, new_admin: Option<AccountAddr>) -> (r:
        Result<(), ContractError>)
        requires
            old(self).wf(),
        ensures
            final(self).wf(),
            r is Ok <==> old(self).admin_state() == Some(caller@),
            r matches Err(e) ==> e is Unauthorized && *final(self) == *old(self),
            r is Ok ==> final(self).admin_state() == admin_view(new_admin)
                && final(self).contracts_map() == old(self).contracts_map()
                && final(self).assets_map() == old(self).assets_map(),
    {
        match self.assert_admin(caller) {
            Err(e) => Err(e),
            Ok(()) => {
                let ghost pre = *self;
                self.admin = new_admin;
                let key = admin_key_bytes();
                let bytes = encode_admin(&self.admin);
                kv_set(&mut self.store, key.as_slice(), bytes.as_slice());
                proof {
                    lemma_wf_set_admin(
                        pre.raw_store(),
                        pre.contracts_map(),
                        pre.assets_map(),
                        pre.admin_state(),
                        self.admin_state(),
                    );
                }
                Ok(())
            },
        }
    }

    fn set_contract(&mut self, name: &String, value: &AccountAddr)
        requires
            old(self).wf(),
        ensures
            final(self).wf(),
            final(self).contracts_map() == old(self).contracts_map().insert(name@, value@),
            final(self).assets_map() == old(self).assets_map(),
            final(self).admin_state() == old(self).admin_state(),
    {
        let ghost pre = *self;
        let key = contract_raw_key(name.as_str());
        let bytes = encode_addr(value);
        kv_set(&mut self.store, key.as_slice(), bytes.as_slice());
        proof {
            self.contracts@ = self.contracts@.insert(name@, value@);
            lemma_wf_set_contract(
                pre.raw_store(),
                pre.contracts_map(),
                pre.assets_map(),
                pre.admin_state(),
                name@,
                value@,
            );
        }
    }

    fn remove_contract(&mut self, name: &String)
        requires
            old(self).wf(),
        ensures
            final(self).wf(),
            final(self).contracts_map() == old(self).contracts_map().remove(name@),
            final(self).assets_map() == old(self).assets_map(),
            final(self).admin_state() == old(self).admin_state(),
    {
        let ghost pre = *self;
        let key = contract_raw_key(name.as_str());
        kv_remove(&mut self.store, key.as_slice());
        proof {
            self.contracts@ = self.contracts@.remove(name@);
            lemma_wf_remove_contract(
                pre.raw_store(),
                pre.contracts_map(),
                pre.assets_map(),
                pre.admin_state(),
                name@,
            );
        }
    }

    fn set_asset(&mut self, name: &String, value: &AssetDescriptor)
        requires
            old(self).wf(),
        ensures
            final(self).wf(),
            final(self).assets_map() == old(self).assets_map().insert(name@, value@),
            final(self).contracts_map() == old(self).contracts_map(),
            final(self).admin_state() == old(self).admin_state(),
    {
        let ghost pre = *self;
        let key = asset_raw_key(name.as_str());
        let bytes = encode_asset(value);
        kv_set(&mut self.store, key.as_slice(), bytes.as_slice());
        proof {
            self.assets@ = self.assets@.insert(name@, value@);
            lemma_wf_set_asset(
                pre.raw_store(),
                pre.contracts_map(),
                pre.assets_map(),
                pre.admin_state(),
                name@,
                value@,
            );
        }
    }

    fn remove_asset(&mut self, name: &String)
        requires
            old(self).wf(),
        ensures
            final(self).wf(),
            final(self).assets_map() == old(self).assets_map().remove(name@),
            final(self).contracts_map() == old(self).contracts_map(),
            final(self).admin_state() == old(self).admin_state(),
    {
        let ghost pre = *self;
        let key = asset_raw_key(name.as_str());
        kv_remove(&mut self.store, key.as_slice());
        proof {
            self.assets@ = self.assets@.remove(name@);
            lemma_wf_remove_asset(
                pre.raw_store(),
                pre.contracts_map(),
                pre.assets_map(),
                pre.admin_state(),
                name@,
            );
        }
    }

    /// Apply a batch of (name, address) pairs in caller order: existing
    /// names are overwritten, fresh ones inserted, and of a repeated name
    /// the last pair wins.
    pub fn upsert_many_contracts(&mut self, entries: &Vec<(String, AccountAddr)>)
        requires
            old(self).wf(),
        ensures
            final(self).wf(),
            final(self).contracts_map() == apply_upserts(
                old(self).contracts_map(),
                contract_entries_view(entries@),
            ),
            final(self).assets_map() == old(self).assets_map(),
            final(self).admin_state() == old(self).admin_state(),
    {
        let ghost orig = *self;
        let ghost ev = contract_entries_view(entries@);
        let mut i: usize = 0;
        while i < entries.len()
            invariant
                self.wf(),
                i <= entries.len(),
                ev == contract_entries_view(entries@),
                self.contracts_map() == apply_upserts(orig.contracts_map(), ev.take(i as int)),
                self.assets_map() == orig.assets_map(),
                self.admin_state() == orig.admin_state(),
            decreases entries.len() - i,
        {
            let pair = &entries[i];
            self.set_contract(&pair.0, &pair.1);
            proof {
                assert(ev.take(i as int + 1).drop_last() =~= ev.take(i as int));
                assert(ev.take(i as int + 1).last() == (pair.0@, pair.1@));
            }
            i += 1;
        }
        proof {
            assert(ev.take(entries@.len() as int) =~= ev);
        }
    }

    /// Delete a batch of names in caller order; absent names are a silent
    /// no-op.
    pub fn remove_many_contracts(&mut self, names: &Vec<String>)
        requires
            old(self).wf(),
        ensures
            final(self).wf(),
            final(self).contracts_map() == apply_removes(
                old(self).contracts_map(),
                names_view(names@),
            ),
            final(self).assets_map() == old(self).assets_map(),
            final(self).admin_state() == old(self).admin_state(),
    {
        let ghost orig = *self;
        let ghost nv = names_view(names@);
        let mut i: usize = 0;
        while i < names.len()
            invariant
                self.wf(),
                i <= names.len(),
                nv == names_view(names@),
                self.contracts_map() == apply_removes(orig.contracts_map(), nv.take(i as int)),
                self.assets_map() == orig.assets_map(),
                self.admin_state() == orig.admin_state(),
            decreases names.len() - i,
        {
            let name = &names[i];
            self.remove_contract(name);
            proof {
                assert(nv.take(i as int + 1).drop_last() =~= nv.take(i as int));
                assert(nv.take(i as int + 1).last() == name@);
            }
            i += 1;
        }
        proof {
            assert(nv.take(names@.len() as int) =~= nv);
        }
    }

    /// Apply a batch of (name, descriptor) pairs in caller order, as for
    /// addresses.
    pub fn upsert_many_assets(&mut self, entries: &Vec<(String, AssetDescriptor)>)
        requires
            old(self).wf(),
        ensures
            final(self).wf(),
            final(self).assets_map() == apply_upserts(
                old(self).assets_map(),
                asset_entries_view(entries@),
            ),
            final(self).contracts_map() == old(self).contracts_map(),
            final(self).admin_state() == old(self).admin_state(),
    {
        let ghost orig = *self;
        let ghost ev = asset_entries_view(entries@);
        let mut i: usize = 0;
        while i < entries.len()
            invariant
                self.wf(),
                i <= entries.len(),
                ev == asset_entries_view(entries@),
                self.assets_map() == apply_upserts(orig.assets_map(), ev.take(i as int)),
                self.contracts_map() == orig.contracts_map(),
                self.admin_state() == orig.admin_state(),
            decreases entries.len() - i,
        {
            let pair = &entries[i];
            self.set_asset(&pair.0, &pair.1);
            proof {
                assert(ev.take(i as int + 1).drop_last() =~= ev.take(i as int));
                assert(ev.take(i as int + 1).last() == (pair.0@, pair.1@));
            }
            i += 1;
        }
        proof {
            assert(ev.take(entries@.len() as int) =~= ev);
        }
    }

    /// Delete a batch of asset names in caller order; absent names are a
    /// silent no-op.
    pub fn remove_many_assets(&mut self, names: &Vec<String>)
        requires
            old(self).wf(),
        ensures
            final(self).wf(),
            final(self).assets_map() == apply_removes(old(self).assets_map(), names_view(names@)),
            final(self).contracts_map() == old(self).contracts_map(),
            final(self).admin_state() == old(self).admin_state(),
    {
        let ghost orig = *self;
        let ghost nv = names_view(names@);
        let mut i: usize = 0;
        while i < names.len()
            invariant
                self.wf(),
                i <= names.len(),
                nv == names_view(names@),
                self.assets_map() == apply_removes(orig.assets_map(), nv.take(i as int)),
                self.contracts_map() == orig.contracts_map(),
                self.admin_state() == orig.admin_state(),
            decreases names.len() - i,
        {
            let name = &names[i];
            self.remove_asset(name);
            proof {
                assert(nv.take(i as int + 1).drop_last() =~= nv.take(i as int));
                assert(nv.take(i as int + 1).last() == name@);
            }
            i += 1;
        }
        proof {
            assert(nv.take(names@.len() as int) =~= nv);
        }
    }

    /// Look one name up in the address collection, by deriving its storage
    /// key and reading the store raw; "not present" is distinguishable
    /// from every stored value.
    pub fn get_contract(&self, name: &String) -> (r: Option<AccountAddr>)
        requires
            self.wf(),
        ensures
            match r {
                Some(a) => self.contracts_map().contains_key(name@) && a@ == self.contracts_map()[
                    name@
                ],
                None => !self.contracts_map().contains_key(name@),
            },
    {
        let key = contract_raw_key(name.as_str());
        match kv_get(&self.store, key.as_slice()) {
            None => None,
            Some(bytes) => {
                proof {
                    assert(self.contracts_map().contains_key(name@));
                    assert(bytes@ == addr_enc(self.contracts_map()[name@]));
                }
                let decoded = decode_addr(bytes.as_slice());
                match decoded {
                    Some(a) => Some(a),
                    None => {
                        proof {
                            assert(false);
                        }
                        None
                    },
                }
            },
        }
    }

    /// Look one name up in the asset collection.
    pub fn get_asset(&self, name: &String) -> (r: Option<AssetDescriptor>)
        requires
            self.wf(),
        ensures
            match r {
                Some(d) => self.assets_map().contains_key(name@) && d@ == self.assets_map()[name@],
                None => !self.assets_map().contains_key(name@),
            },
    {
        let key = asset_raw_key(name.as_str());
        match kv_get(&self.store, key.as_slice()) {
            None => None,
            Some(bytes) => {
                proof {
                    assert(self.assets_map().contains_key(name@));
                    assert(bytes@ == asset_enc(self.assets_map()[name@]));
                }
                let decoded = decode_asset(bytes.as_slice());
                match decoded {
                    Some(d) => Some(d),
                    None => {
                        proof {
                            assert(false);
                        }
                        None
                    },
                }
            },
        }
    }

    /// Resolve a batch of names against the address collection: the
    /// present ones with their addresses, in request order; absent names
    /// are silently omitted.
    pub fn get_many_contracts(&self, names: &Vec<String>) -> (r: Vec<(String, AccountAddr)>)
        requires
            self.wf(),
        ensures
            contract_entries_view(r@) == resolve(self.contracts_map(), names_view(names@)),
    {
        let ghost nv = names_view(names@);
        let mut out: Vec<(String, AccountAddr)> = Vec::new();
        let mut i: usize = 0;
        while i < names.len()
            invariant
                self.wf(),
                i <= names.len(),
                nv == names_view(names@),
                contract_entries_view(out@) == resolve(self.contracts_map(), nv.take(i as int)),
            decreases names.len() - i,
        {
            let name = &names[i];
            let ghost out_pre = out@;
            match self.get_contract(name) {
                Some(a) => {
                    out.push((name.clone(), a));
                    proof {
                        assert(contract_entries_view(out@) =~= contract_entries_view(
                            out_pre,
                        ).push((name@, self.contracts_map()[name@])));
                    }
                },
                None => {},
            }
            proof {
                assert(nv.take(i as int + 1).drop_last() =~= nv.take(i as int));
                assert(nv.take(i as int + 1).last() == name@);
            }
            i += 1;
        }
        proof {
            assert(nv.take(names@.len() as int) =~= nv);
        }
        out
    }

    /// Resolve a batch of names against the asset collection, as for
    /// addresses.
    pub fn get_many_assets(&self, names: &Vec<String>) -> (r: Vec<(String, AssetDescriptor)>)
        requires
            self.wf(),
        ensures
            asset_entries_view(r@) == resolve(self.assets_map(), names_view(names@)),
    {
        let ghost nv = names_view(names@);
        let mut out: Vec<(String, AssetDescriptor)> = Vec::new();
        let mut i: usize = 0;
        while i < names.len()
            invariant
                self.wf(),
                i <= names.len(),
                nv == names_view(names@),
                asset_entries_view(out@) == resolve(self.assets_map(), nv.take(i as int)),
            decreases names.len() - i,
        {
            let name = &names[i];
            let ghost out_pre = out@;
            match self.get_asset(name) {
                Some(d) => {
                    out.push((name.clone(), d));
                    proof {
                        assert(asset_entries_view(out@) =~= asset_entries_view(out_pre).push(
                            (name@, self.assets_map()[name@]),
                        ));
                    }
                },
                None => {},
            }
            proof {
                assert(nv.take(i as int + 1).drop_last() =~= nv.take(i as int));
                assert(nv.take(i as int + 1).last() == name@);
            }
            i += 1;
        }
        proof {
            assert(nv.take(names@.len() as int) =~= nv);
        }
        out
    }

    /// Adds, updates or removes address entries: admin gate first, then
    /// the upserts, then the removals, so a name in both batches ends up
    /// removed.  An unauthorized caller gets `Unauthorized` and the
    /// registry — its store included — stays untouched.
    pub fn update_contract_addresses(
        &mut self,
        caller: &AccountAddr,
        to_add: &Vec<(String, AccountAddr)>,
        to_remove: &Vec<String>,
    ) -> (r: Result<(), ContractError>)
        requires
            old(self).wf(),
        ensures
            final(self).wf(),
            r is Ok <==> old(self).admin_state() == Some(caller@),
            r matches Err(e) ==> e is Unauthorized && *final(self) == *old(self),
            r is Ok ==> final(self).contracts_map() == apply_removes(
                apply_upserts(old(self).contracts_map(), contract_entries_view(to_add@)),
                names_view(to_remove@),
            ) && final(self).assets_map() == old(self).assets_map() && final(self).admin_state()
                == old(self).admin_state(),
    {
        match self.assert_admin(caller) {
            Err(e) => Err(e),
            Ok(()) => {
                self.upsert_many_contracts(to_add);
                self.remove_many_contracts(to_remove);
                Ok(())
            },
        }
    }

    /// Adds, updates or removes asset entries, as for addresses.
    pub fn update_asset_addresses(
        &mut self,
        caller: &AccountAddr,
        to_add: &Vec<(String, AssetDescriptor)>,
        to_remove: &Vec<String>,
    ) -> (r: Result<(), ContractError>)
        requires
            old(self).wf(),
        ensures
            final(self).wf(),
            r is Ok <==> old(self).admin_state() == Some(caller@),
            r matches Err(e) ==> e is Unauthorized && *final(self) == *old(self),
            r is Ok ==> final(self).assets_map() == apply_removes(
                apply_upserts(old(self).assets_map(), asset_entries_view(to_add@)),
                names_view(to_remove@),
            ) && final(self).contracts_map() == old(self).contracts_map()
                && final(self).admin_state() == old(self).admin_state(),
    {
        match self.assert_admin(caller) {
            Err(e) => Err(e),
            Ok(()) => {
                self.upsert_many_assets(to_add);
                self.remove_many_assets(to_remove);
                Ok(())
            },
        }
    }

    /// Dispatch one mutation message: the admin gate decides, then the
    /// named operation runs.  Every mutation by anyone but the current
    /// admin fails with `Unauthorized` and changes nothing.
    pub fn execute(&mut self, caller: &AccountAddr, msg: ExecuteMsg) -> (r: Result<
        (),
        ContractError,
    >)
        requires
            old(self).wf(),
        ensures
            final(self).wf(),
            r is Ok <==> old(self).admin_state() == Some(caller@),
            r matches Err(e) ==> e is Unauthorized && *final(self) == *old(self),
            msg matches ExecuteMsg::SetAdmin { admin } ==> (r is Ok ==> final(self).admin_state()
                == admin_view(admin) && final(self).contracts_map() == old(self).contracts_map()
                && final(self).assets_map() == old(self).assets_map()),
            msg matches ExecuteMsg::UpdateContractAddresses { to_add, to_remove } ==> (r is Ok
                ==> final(self).contracts_map() == apply_removes(
                apply_upserts(old(self).contracts_map(), contract_entries_view(to_add@)),
                names_view(to_remove@),
            ) && final(self).assets_map() == old(self).assets_map() && final(self).admin_state()
                == old(self).admin_state()),
            msg matches ExecuteMsg::UpdateAssetAddresses { to_add, to_remove } ==> (r is Ok
                ==> final(self).assets_map() == apply_removes(
                apply_upserts(old(self).assets_map(), asset_entries_view(to_add@)),
                names_view(to_remove@),
            ) && final(self).contracts_map() == old(self).contracts_map()
                && final(self).admin_state() == old(self).admin_state()),
    {
        match msg {
            ExecuteMsg::SetAdmin { admin } => self.set_admin(caller, admin),
            ExecuteMsg::UpdateContractAddresses { to_add, to_remove } => self
                .update_contract_addresses(caller, &to_add, &to_remove),
            ExecuteMsg::UpdateAssetAddresses { to_add, to_remove } => self.update_asset_addresses(
                caller,
                &to_add,
                &to_remove,
            ),
        }
    }

    /// Answer one read request from the relevant collection; reads never
    /// fail, absent names are simply omitted.
    pub fn query(&self, msg: QueryMsg) -> (r: QueryAnswer)
        requires
            self.wf(),
        ensures
            msg matches QueryMsg::QueryContracts { names } ==> (r matches QueryAnswer::Contracts(
                resp,
            ) && text_pairs_view(resp.contracts@) == resolve(
                self.contracts_map(),
                names_view(names@),
            )),
            msg matches QueryMsg::QueryAssets { names } ==> (r matches QueryAnswer::Assets(resp)
                && asset_entries_view(resp.assets@) == resolve(
                self.assets_map(),
                names_view(names@),
            )),
    {
        match msg {
            QueryMsg::QueryContracts { names } => QueryAnswer::Contracts(
                self.query_contracts(&names),
            ),
            QueryMsg::QueryAssets { names } => QueryAnswer::Assets(self.query_assets(&names)),
        }
    }

    /// Resolve a batch of contract names to a response of (name, address
    /// text) pairs, in request order, omitting absent names.
    pub fn query_contracts(&self, names: &Vec<String>) -> (r: ContractQueryResponse)
        requires
            self.wf(),
        ensures
            text_pairs_view(r.contracts@) == resolve(self.contracts_map(), names_view(names@)),
    {
        let resolved = self.get_many_contracts(names);
        let mut out: Vec<(String, String)> = Vec::new();
        let mut i: usize = 0;
        while i < resolved.len()
            invariant
                i <= resolved.len(),
                text_pairs_view(out@) == contract_entries_view(resolved@.take(i as int)),
            decreases resolved.len() - i,
        {
            let pair = &resolved[i];
            let ghost out_pre = out@;
            out.push((pair.0.clone(), pair.1.as_text().clone()));
            proof {
                assert(text_pairs_view(out@) =~= text_pairs_view(out_pre).push(
                    (pair.0@, pair.1@),
                ));
                assert(contract_entries_view(resolved@.take(i as int + 1))
                    =~= contract_entries_view(resolved@.take(i as int)).push(
                    (pair.0@, pair.1@),
                ));
            }
            i += 1;
        }
        proof {
            assert(resolved@.take(resolved@.len() as int) =~= resolved@);
        }
        ContractQueryResponse { contracts: out }
    }

    /// Resolve a batch of asset names to a response of (name, descriptor)
    /// pairs, in request order, omitting absent names.
    pub fn query_assets(&self, names: &Vec<String>) -> (r: AssetQueryResponse)
        requires
            self.wf(),
        ensures
            asset_entries_view(r.assets@) == resolve(self.assets_map(), names_view(names@)),
    {
        AssetQueryResponse { assets: self.get_many_assets(names) }
    }

    /// A raw read of the registry's persistent store, exactly as an
    /// external contract performs it against a reconstructed key, without
    /// invoking any of the registry's logic.
    pub fn raw_read(&self, key: &[u8]) -> (r: Option<Vec<u8>>)
        ensures
            match r {
                Some(v) => self.raw_store().contains_key(key@) && v@ == self.raw_store()[key@],
                None => !self.raw_store().contains_key(key@),
            },
    {
        kv_get(&self.store, key)
    }
}

/// Cross-boundary raw reads agree with in-process lookups: for every name
/// and either collection, the store holds the derived key exactly when the
/// collection holds the name, and the bytes under it are the entry's
/// encoding — so a reader who derives the key independently sees the same
/// entry the registry's own lookup returns.
pub proof fn lemma_raw_matches_lookup(reg: Registry, n: Seq<char>)
    requires
        reg.wf(),
    ensures
        reg.raw_store().contains_key(contract_key(n)) <==> reg.contracts_map().contains_key(n),
        reg.contracts_map().contains_key(n) ==> reg.raw_store()[contract_key(n)] == addr_enc(
            reg.contracts_map()[n],
        ),
        reg.raw_store().contains_key(asset_key(n)) <==> reg.assets_map().contains_key(n),
        reg.assets_map().contains_key(n) ==> reg.raw_store()[asset_key(n)] == asset_enc(
            reg.assets_map()[n],
        ),
{
}

} // verus!
