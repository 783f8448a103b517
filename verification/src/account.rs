//! What an account shows of itself.

use vstd::prelude::*;

verus! {

/// An account: its address, its public key and the number of transactions
/// it has signed.
pub trait Account {
    type Address;

    type PubKey;

    fn address(&self) -> &Self::Address;

    fn pub_key(&self) -> &Self::PubKey;

    fn sequence(&self) -> u64;
}

} // verus!
