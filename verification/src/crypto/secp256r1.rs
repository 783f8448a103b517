//! secp256r1 keys.

use vstd::prelude::*;

verus! {

/// A secp256r1 public key in compressed form.
#[derive(Clone, Debug, PartialEq, Eq)]
pub struct PubKey {
    pub key: Vec<u8>,
}

/// A secp256r1 private key.
#[derive(Clone, Debug, PartialEq, Eq)]
pub struct PrivKey {
    /// The secret number, most significant byte first.
    pub secret: Vec<u8>,
}

} // verus!
