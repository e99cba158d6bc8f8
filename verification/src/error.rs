//! The errors a registry operation can surface.

use vstd::prelude::*;
use vstd::string::StringExecFns;

verus! {

/// Why a registry operation was rejected.  A mutation by anyone but the
/// current admin — or by anyone at all while no admin is set — is
/// `Unauthorized`.  `InvalidAddress` is raised at the host boundary when
/// an address fails validation, before any store mutation.
/// `NotFoundInRegistry` is reserved for a lookup path that requires a name
/// to exist; the batch resolver instead omits missing names silently.
#[derive(Debug)]
pub enum ContractError {
    Unauthorized,
    InvalidAddress { val: String },
    NotFoundInRegistry { val: String },
}

impl ContractError {
    /// A human-readable description of the error.
    pub fn describe(&self) -> (r: String)
        ensures
            self is Unauthorized ==> r@ =~= "Unauthorized"@,
    {
        match self {
            ContractError::Unauthorized => {
                let s: String = "Unauthorized".to_owned();
                s
            },
            ContractError::InvalidAddress { val } => {
                let mut s: String = "Invalid address: ".to_owned();
                s.append(val.as_str());
                s
            },
            ContractError::NotFoundInRegistry { val } => {
                let mut s: String = "Found no associated address or asset with stored name ".to_owned();
                s.append(val.as_str());
                s
            },
        }
    }
}

} // verus!
