//! Hierarchical deterministic key paths.

use vstd::prelude::*;

verus! {

/// The path of a key in a hierarchical deterministic wallet.
#[derive(Clone, Debug, PartialEq, Eq)]
pub struct Bip44Params {
    /// The purpose, 44 for this kind of path.
    pub purpose: u32,
    /// The coin type, which keeps the keys of different chains apart.
    pub coin_type: u32,
    /// The account, which splits the keys into independent identities.
    pub account: u32,
    /// Whether the key belongs to the internal chain, used for change.
    pub change: bool,
    /// The index of the address under the account.
    pub address_index: u32,
}

} // verus!
