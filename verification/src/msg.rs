//! The message shapes of the dispatch boundary, in the form the verified
//! core consumes: address strings have already been validated by the host
//! and arrive as `AccountAddr`.

use vstd::prelude::*;

use crate::values::{AccountAddr, AssetDescriptor};

verus! {

/// A mutation request.
pub enum ExecuteMsg {
    /// Replace the admin; an absent admin rejects all future mutation.
    SetAdmin { admin: Option<AccountAddr> },
    /// Upsert the given (name, address) entries, then delete the given
    /// names, in that order.
    UpdateContractAddresses { to_add: Vec<(String, AccountAddr)>, to_remove: Vec<String> },
    /// Upsert the given (name, descriptor) entries, then delete the given
    /// names, in that order.
    UpdateAssetAddresses { to_add: Vec<(String, AssetDescriptor)>, to_remove: Vec<String> },
}

/// A read request.
pub enum QueryMsg {
    QueryAssets { names: Vec<String> },
    QueryContracts { names: Vec<String> },
}

/// The present entries among the requested asset names, in request order.
pub struct AssetQueryResponse {
    pub assets: Vec<(String, AssetDescriptor)>,
}

/// The present entries among the requested contract names, in request
/// order, each address as its text.
pub struct ContractQueryResponse {
    pub contracts: Vec<(String, String)>,
}

/// The answer to a `QueryMsg`, one variant per request kind.
pub enum QueryAnswer {
    Assets(AssetQueryResponse),
    Contracts(ContractQueryResponse),
}

} // verus!
