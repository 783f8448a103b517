//! Key-value pairs of a store, and checks on the length of store keys.

use vstd::prelude::*;

verus! {

/// A key and the value stored under it.
#[derive(Clone, Debug)]
pub struct Pair {
    pub key: Vec<u8>,
    pub value: Vec<u8>,
}

/// A list of key-value pairs.
#[derive(Clone, Debug)]
pub struct Pairs {
    pub pairs: Vec<Pair>,
}

/// States that the store key `bz` has at least `length` bytes; a shorter key
/// may not be given.
pub fn assert_key_at_least_length(bz: &[u8], length: usize)
    requires
        bz@.len() >= length,
{
    assert(bz@.len() >= length);
}

/// States that the store key `bz` has exactly `length` bytes; a key of
/// another length may not be given.
pub fn assert_key_length(bz: &[u8], length: usize)
    requires
        bz@.len() == length,
{
    assert(bz@.len() == length);
}

} // verus!
