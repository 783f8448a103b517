//! secp256k1 keys.

use vstd::prelude::*;

verus! {

/// A secp256k1 public key in compressed form: a byte that tells which of the
/// two y-coordinates is meant, then the x-coordinate.
#[derive(Clone, Debug, PartialEq, Eq)]
pub struct PubKey {
    pub key: Vec<u8>,
}

/// A secp256k1 private key.
#[derive(Clone, Debug, PartialEq, Eq)]
pub struct PrivKey {
    pub key: Vec<u8>,
}

} // verus!
