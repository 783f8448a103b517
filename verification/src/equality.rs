//! Equality of coin sets: two sets are equal when they hold the same coins,
//! in whatever order.

use crate::coins::BaseCoins;
use vstd::prelude::*;
use vstd::std_specs::cmp::PartialEqSpecImpl;

verus! {

impl PartialEq for BaseCoins {
    fn eq(&self, other: &BaseCoins) -> (r: bool) {
        self.is_equal(other)
    }
}

impl Eq for BaseCoins {

}

impl PartialEqSpecImpl for BaseCoins {
    open spec fn obeys_eq_spec() -> bool {
        true
    }

    open spec fn eq_spec(&self, other: &BaseCoins) -> bool {
        self@.to_multiset() == other@.to_multiset()
    }
}

} // verus!
