//! Ed25519 keys.

use vstd::prelude::*;

verus! {

/// An Ed25519 public key: its 32 bytes.
#[derive(Clone, Debug, PartialEq, Eq)]
pub struct PubKey {
    pub key: Vec<u8>,
}

/// An Ed25519 private key.
#[derive(Clone, Debug, PartialEq, Eq)]
pub struct PrivKey {
    pub key: Vec<u8>,
}

} // verus!
