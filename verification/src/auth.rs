//! Accounts as they are stored.

use crate::any::Any;
use vstd::prelude::*;

verus! {

/// The type URL under which a base account travels in a message.
pub const BASE_ACCOUNT_TYPE_URL: &'static str = "/cosmos.auth.v1beta1.BaseAccount";

/// The type URL under which a module account travels in a message.
pub const MODULE_ACCOUNT_TYPE_URL: &'static str = "/cosmos.auth.v1beta1.ModuleAccount";

/// An account: its address, its public key, its number and the number of
/// transactions it has signed.
#[derive(Clone, Debug, PartialEq, Eq)]
pub struct BaseAccount {
    pub address: String,
    pub pub_key: Option<Any>,
    pub account_number: u64,
    pub sequence: u64,
}

impl BaseAccount {
    /// The account with these fields.
    pub fn new(address: String, pub_key: Option<Any>, account_number: u64, sequence: u64) -> (r:
        BaseAccount)
        ensures
            r.address == address,
            r.pub_key == pub_key,
            r.account_number == account_number,
            r.sequence == sequence,
    {
        BaseAccount { address, pub_key, account_number, sequence }
    }
}

/// The account of a module, with the name of the module and what it is
/// allowed to do.
#[derive(Clone, Debug, PartialEq, Eq)]
pub struct ModuleAccount {
    pub base_account: Option<BaseAccount>,
    pub name: String,
    pub permissions: Vec<String>,
}

} // verus!
