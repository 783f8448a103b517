//! Items of a keyring.

use crate::any::Any;
use crate::crypto::hd::Bip44Params;
use vstd::prelude::*;

verus! {

/// A key whose private part is kept in the keyring.
#[derive(Clone, Debug, PartialEq, Eq)]
pub struct Local {
    pub priv_key: Option<Any>,
}

/// A key that lives on a hardware device, found by its path.
#[derive(Clone, Debug, PartialEq, Eq)]
pub struct Ledger {
    pub path: Option<Bip44Params>,
}

/// A key made of several keys.
#[derive(Clone, Debug, PartialEq, Eq)]
pub struct Multi {}

/// A key whose private part is kept elsewhere.
#[derive(Clone, Debug, PartialEq, Eq)]
pub struct Offline {}

/// What a record of the keyring holds.
#[derive(Clone, Debug, PartialEq, Eq)]
pub enum Item {
    /// A key whose private part is kept in the keyring.
    Local(Local),
    /// A key on a hardware device.
    Ledger(Ledger),
    /// A key made of several keys.
    Multi(Multi),
    /// A key whose private part is kept elsewhere.
    Offline(Offline),
}

/// A record of the keyring: a name, a public key and the item it stands
/// for.
#[derive(Clone, Debug, PartialEq, Eq)]
pub struct Record {
    pub name: String,
    pub pub_key: Option<Any>,
    pub item: Option<Item>,
}

} // verus!
