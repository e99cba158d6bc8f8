//! The two value kinds a registry entry can hold, and their byte encodings.
//!
//! An address entry holds a validated account address; an asset entry holds
//! a typed asset descriptor.  Both are stored as the byte encoding that the
//! persistence layer's serializer produces, so external readers of the raw
//! store see exactly that wire format.  The encodings depend on the value
//! alone; they are named (`addr_enc`, `asset_enc`, `admin_enc`) rather than
//! spelled out, and the wrappers below relate the names to the serializer.

use vstd::prelude::*;

verus! {

/// A validated account address: the address text as the host's validator
/// accepted it.  Validation itself happens at the host boundary, before a
/// value of this type is made.
#[derive(Clone, Debug)]
pub struct AccountAddr {
    pub text: String,
}

impl View for AccountAddr {
    type V = Seq<char>;

    open spec fn view(&self) -> Seq<char> {
        self.text@
    }
}

impl AccountAddr {
    pub fn new(text: String) -> (r: AccountAddr)
        ensures
            r@ == text@,
    {
        AccountAddr { text }
    }

    pub fn as_text(&self) -> (r: &String)
        ensures
            r@ == self@,
    {
        &self.text
    }

    pub fn eq_addr(&self, other: &AccountAddr) -> (r: bool)
        ensures
            r == (self@ == other@),
    {
        self.text == other.text
    }

    /// A copy carrying the same address text.
    pub fn duplicate(&self) -> (r: AccountAddr)
        ensures
            r@ == self@,
    {
        AccountAddr { text: self.text.clone() }
    }
}

/// A typed asset descriptor: a native currency named by its denomination,
/// or a token issued by a contract at a validated address.
#[derive(Clone, Debug)]
pub enum AssetDescriptor {
    Native(String),
    ContractToken(AccountAddr),
}

/// Mathematical form of an asset descriptor.
pub enum AssetDesc {
    Native(Seq<char>),
    ContractToken(Seq<char>),
}

impl View for AssetDescriptor {
    type V = AssetDesc;

    open spec fn view(&self) -> AssetDesc {
        match self {
            AssetDescriptor::Native(denom) => AssetDesc::Native(denom@),
            AssetDescriptor::ContractToken(addr) => AssetDesc::ContractToken(addr@),
        }
    }
}

impl AssetDescriptor {
    /// A copy describing the same asset.
    pub fn duplicate(&self) -> (r: AssetDescriptor)
        ensures
            r@ == self@,
    {
        match self {
            AssetDescriptor::Native(denom) => AssetDescriptor::Native(denom.clone()),
            AssetDescriptor::ContractToken(addr) => AssetDescriptor::ContractToken(
                addr.duplicate(),
            ),
        }
    }
}

/// Mathematical form of the admin record: the admin's address text, or
/// nothing where no admin is set.
pub open spec fn admin_view(a: Option<AccountAddr>) -> Option<Seq<char>> {
    match a {
        Some(addr) => Some(addr@),
        None => None,
    }
}

/// The stored byte encoding of an address entry with the given text.
pub uninterp spec fn addr_enc(s: Seq<char>) -> Seq<u8>;

/// The stored byte encoding of an asset entry.
pub uninterp spec fn asset_enc(a: AssetDesc) -> Seq<u8>;

/// The stored byte encoding of the admin record.
pub uninterp spec fn admin_enc(a: Option<Seq<char>>) -> Seq<u8>;

/// Relies on `cosmwasm_std::to_vec`: an address serializes as its text
/// alone, so the encoding is a function of the text; serializing a plain
/// string value always succeeds and yields at least its two quote bytes.
#[verifier::external_body]
pub(crate) fn encode_addr(a: &AccountAddr) -> (r: Vec<u8>)
    ensures
        r@ == addr_enc(a@),
        r@.len() > 0,
{
    cosmwasm_std::to_vec(&cosmwasm_std::Addr::unchecked(a.text.as_str())).unwrap()
}

/// Relies on `cosmwasm_std::from_slice`: deserializing inverts
/// serialization, so any encoding of an address decodes back to the same
/// address text.
#[verifier::external_body]
pub(crate) fn decode_addr(b: &[u8]) -> (r: Option<AccountAddr>)
    ensures
        forall|s: Seq<char>| b@ == addr_enc(s) ==> r is Some,
        forall|s: Seq<char>| b@ == addr_enc(s) ==> r->0@ == s,
{
    cosmwasm_std::from_slice::<cosmwasm_std::Addr>(b)
        .ok()
        .map(|a| AccountAddr { text: a.into_string() })
}

/// Relies on `cosmwasm_std::to_vec` over `cw_asset::AssetInfo`: the
/// descriptor serializes from its variant and fields alone; serializing
/// such a tagged value always succeeds and is never empty.
#[verifier::external_body]
pub(crate) fn encode_asset(d: &AssetDescriptor) -> (r: Vec<u8>)
    ensures
        r@ == asset_enc(d@),
        r@.len() > 0,
{
    let info: cw_asset::AssetInfo = match d {
        AssetDescriptor::Native(denom) => cw_asset::AssetInfo::native(denom.as_str()),
        AssetDescriptor::ContractToken(addr) => {
            cw_asset::AssetInfo::cw20(cosmwasm_std::Addr::unchecked(addr.text.as_str()))
        },
    };
    cosmwasm_std::to_vec(&info).unwrap()
}

/// Relies on `cosmwasm_std::from_slice` over `cw_asset::AssetInfo`:
/// deserializing inverts serialization, so any encoding of a descriptor
/// decodes back to the same descriptor.
#[verifier::external_body]
pub(crate) fn decode_asset(b: &[u8]) -> (r: Option<AssetDescriptor>)
    ensures
        forall|a: AssetDesc| b@ == asset_enc(a) ==> r is Some,
        forall|a: AssetDesc| b@ == asset_enc(a) ==> r->0@ == a,
{
    match cosmwasm_std::from_slice::<cw_asset::AssetInfo>(b) {
        Ok(cw_asset::AssetInfoBase::Native(denom)) => Some(AssetDescriptor::Native(denom)),
        Ok(cw_asset::AssetInfoBase::Cw20(addr)) => {
            Some(AssetDescriptor::ContractToken(AccountAddr { text: addr.into_string() }))
        },
        _ => None,
    }
}

/// Relies on `cosmwasm_std::to_vec` over `Option<Addr>`: the admin record
/// serializes from the optional address text alone, to `null` or to the
/// quoted text, so it always succeeds and is never empty.
#[verifier::external_body]
pub(crate) fn encode_admin(a: &Option<AccountAddr>) -> (r: Vec<u8>)
    ensures
        r@ == admin_enc(admin_view(*a)),
        r@.len() > 0,
{
    let v: Option<cosmwasm_std::Addr> =
        a.as_ref().map(|x| cosmwasm_std::Addr::unchecked(x.text.as_str()));
    cosmwasm_std::to_vec(&v).unwrap()
}

} // verus!
