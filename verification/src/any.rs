//! A message of any kind, as it travels.

use vstd::prelude::*;

verus! {

/// A message of any kind: the URL that names its type, and its bytes.
#[derive(Clone, Debug, Default, PartialEq, Eq)]
pub struct Any {
    pub type_url: String,
    pub value: Vec<u8>,
}

} // verus!
