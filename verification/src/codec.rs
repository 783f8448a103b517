//! The conversion between the text and the bytes of an address.

use vstd::prelude::*;

verus! {

/// Turns the text of an address into its bytes and back.
pub trait Codec {
    fn string_to_bytes(&self, text: &str) -> Vec<u8>;

    fn bytes_to_string(&self, bytes: &[u8]) -> String;
}

} // verus!
