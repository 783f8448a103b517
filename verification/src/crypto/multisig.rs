//! Signatures made by several keys.

use crate::any::Any;
use vstd::prelude::*;

verus! {

/// A public key made of several public keys, of which `threshold` must
/// sign.
#[derive(Clone, Debug, PartialEq, Eq)]
pub struct LegacyAminoPubKey {
    pub threshold: u32,
    pub public_keys: Vec<Any>,
}

/// The signatures of the keys that signed.
#[derive(Clone, Debug, PartialEq, Eq)]
pub struct MultiSignature {
    pub signatures: Vec<Vec<u8>>,
}

/// A bit array stored in as few bytes as it needs.
#[derive(Clone, Debug, PartialEq, Eq)]
pub struct CompactBitArray {
    /// The number of bits in use in the last byte; zero where all eight are.
    pub extra_bits_stored: u32,
    /// The bits, eight to a byte.
    pub elems: Vec<u8>,
}

} // verus!
