//! Comparisons of coin sets, denomination by denomination.

use crate::coin::CoinModel;
use crate::coins::{amount_in, denoms_valid, ordered, BaseCoins};
use crate::denom::is_valid_denom;
use vstd::prelude::*;

verus! {

/// Every denomination of `a` is held by `b` at a nonzero amount, and `a`
/// has no more coins than `b`.
pub open spec fn denoms_within(a: Seq<CoinModel>, b: Seq<CoinModel>) -> bool {
    &&& a.len() <= b.len()
    &&& forall|k: int| 0 <= k < a.len() ==> amount_in(b, (#[trigger] a[k]).denom) > 0
}

/// `a` has a coin and, where `b` has one too, holds strictly more than `b`
/// of every denomination of `b`, and has at least as many coins.
pub open spec fn all_gt(a: Seq<CoinModel>, b: Seq<CoinModel>) -> bool {
    &&& a.len() > 0
    &&& b.len() > 0 ==> {
        &&& b.len() <= a.len()
        &&& forall|k: int|
            0 <= k < b.len() ==> amount_in(a, (#[trigger] b[k]).denom) > b[k].amount
    }
}

/// `b` has no coin, or `a` has one and holds at least as much as `b` of
/// every denomination of `b`.
pub open spec fn all_gte(a: Seq<CoinModel>, b: Seq<CoinModel>) -> bool {
    b.len() > 0 ==> {
        &&& a.len() > 0
        &&& forall|k: int|
            0 <= k < b.len() ==> amount_in(a, (#[trigger] b[k]).denom) >= b[k].amount
    }
}

/// `b` has no coin, or `a` holds strictly more than `b` of some
/// denomination of `b`.
pub open spec fn any_gt(a: Seq<CoinModel>, b: Seq<CoinModel>) -> bool {
    b.len() > 0 ==> exists|k: int|
        0 <= k < b.len() && amount_in(a, (#[trigger] b[k]).denom) > b[k].amount
}

/// Of some denomination of `b`, `a` holds something and `b` holds at least
/// as much.
pub open spec fn any_gte(a: Seq<CoinModel>, b: Seq<CoinModel>) -> bool {
    exists|k: int|
        0 <= k < b.len() && 0 < amount_in(a, (#[trigger] b[k]).denom) <= b[k].amount
}

/// Whether every denomination of `a` is held by `b` at a nonzero amount,
/// and `a` has no more coins than `b`.
fn within(a: &BaseCoins, b: &BaseCoins) -> (r: bool)
    requires
        denoms_valid(a@),
        ordered(b@),
    ensures
        r == denoms_within(a@, b@),
{
    if a.0.len() > b.0.len() {
        return false;
    }
    let mut i: usize = 0;
    while i < a.0.len()
        invariant
            i <= a.0@.len(),
            a.0@.len() <= b.0@.len(),
            denoms_valid(a@),
            ordered(b@),
            forall|k: int| 0 <= k < i ==> amount_in(b@, (#[trigger] a@[k]).denom) > 0,
        decreases a.0@.len() - i,
    {
        assert(is_valid_denom(a@[i as int].denom));
        if b.amount_of(a.0[i].denom.as_str()).is_zero() {
            return false;
        }
        i += 1;
    }
    true
}

/// Whether `a` holds strictly more than `b` of every denomination of `b`.
fn exceeds_all(a: &BaseCoins, b: &BaseCoins) -> (r: bool)
    requires
        ordered(a@),
        denoms_valid(b@),
    ensures
        r == all_gt(a@, b@),
{
    if a.0.len() == 0 {
        return false;
    }
    if b.0.len() == 0 {
        return true;
    }
    if !within(b, a) {
        assert(!all_gt(a@, b@)) by {
            if all_gt(a@, b@) {
                assert forall|k: int| 0 <= k < b@.len() implies amount_in(
                    a@,
                    (#[trigger] b@[k]).denom,
                ) > 0 by {}
            }
        }
        return false;
    }
    let mut i: usize = 0;
    while i < b.0.len()
        invariant
            i <= b.0@.len(),
            b.0@.len() <= a.0@.len(),
            ordered(a@),
            denoms_valid(b@),
            forall|k: int| 0 <= k < i ==> amount_in(a@, (#[trigger] b@[k]).denom) > b@[k].amount,
        decreases b.0@.len() - i,
    {
        assert(is_valid_denom(b@[i as int].denom));
        let amount_a = a.amount_of(b.0[i].denom.as_str());
        if !amount_a.gt(&b.0[i].amount) {
            return false;
        }
        i += 1;
    }
    true
}

/// Whether `a` holds at least as much as `b` of every denomination of `b`.
fn reaches_all(a: &BaseCoins, b: &BaseCoins) -> (r: bool)
    requires
        ordered(a@),
        denoms_valid(b@),
    ensures
        r == all_gte(a@, b@),
{
    if b.0.len() == 0 {
        return true;
    }
    if a.0.len() == 0 {
        return false;
    }
    let mut i: usize = 0;
    while i < b.0.len()
        invariant
            i <= b.0@.len(),
            ordered(a@),
            denoms_valid(b@),
            forall|k: int| 0 <= k < i ==> amount_in(a@, (#[trigger] b@[k]).denom) >= b@[k].amount,
        decreases b.0@.len() - i,
    {
        assert(is_valid_denom(b@[i as int].denom));
        let amount_a = a.amount_of(b.0[i].denom.as_str());
        if amount_a.lt(&b.0[i].amount) {
            return false;
        }
        i += 1;
    }
    true
}

impl BaseCoins {
    /// Whether every denomination of this set is held by `coin_b` at a
    /// nonzero amount, and this set has no more coins than `coin_b`.
    pub fn denoms_subset_of(&self, coin_b: &BaseCoins) -> (r: bool)
        requires
            denoms_valid(self@),
            ordered(coin_b@),
        ensures
            r == denoms_within(self@, coin_b@),
    {
        within(self, coin_b)
    }

    /// Whether every denomination of this set is held by `coins_b` at a
    /// nonzero amount, and this set has no more coins than `coins_b`.
    pub fn denom_subset_of(&self, coins_b: &BaseCoins) -> (r: bool)
        requires
            denoms_valid(self@),
            ordered(coins_b@),
        ensures
            r == denoms_within(self@, coins_b@),
    {
        within(self, coins_b)
    }

    /// Whether this set has a coin and holds strictly more than `coin_b` of
    /// every denomination of `coin_b`.
    pub fn is_all_gt(&self, coin_b: BaseCoins) -> (r: bool)
        requires
            ordered(self@),
            denoms_valid(coin_b@),
        ensures
            r == all_gt(self@, coin_b@),
    {
        exceeds_all(self, &coin_b)
    }

    /// Whether `coin_b` has a coin and holds strictly more than this set of
    /// every denomination of this set.
    pub fn is_all_lt(&self, coin_b: BaseCoins) -> (r: bool)
        requires
            ordered(coin_b@),
            denoms_valid(self@),
        ensures
            r == all_gt(coin_b@, self@),
    {
        exceeds_all(&coin_b, self)
    }

    /// Whether this set holds at least as much as `coin_b` of every
    /// denomination of `coin_b`.
    pub fn is_all_gte(&self, coin_b: BaseCoins) -> (r: bool)
        requires
            ordered(self@),
            denoms_valid(coin_b@),
        ensures
            r == all_gte(self@, coin_b@),
    {
        reaches_all(self, &coin_b)
    }

    /// Whether `coin_b` holds at least as much as this set of every
    /// denomination of this set.
    pub fn is_all_lte(&self, coin_b: BaseCoins) -> (r: bool)
        requires
            ordered(coin_b@),
            denoms_valid(self@),
        ensures
            r == all_gte(coin_b@, self@),
    {
        reaches_all(&coin_b, self)
    }

    /// Whether `coin_b` has no coin, or this set holds strictly more than
    /// `coin_b` of some denomination of `coin_b`.
    pub fn is_any_gt(&self, coin_b: BaseCoins) -> (r: bool)
        requires
            ordered(self@),
            denoms_valid(coin_b@),
        ensures
            r == any_gt(self@, coin_b@),
    {
        if coin_b.0.len() == 0 {
            return true;
        }
        let mut i: usize = 0;
        while i < coin_b.0.len()
            invariant
                i <= coin_b.0@.len(),
                ordered(self@),
                denoms_valid(coin_b@),
                forall|k: int|
                    0 <= k < i ==> !(amount_in(self@, (#[trigger] coin_b@[k]).denom)
                        > coin_b@[k].amount),
            decreases coin_b.0@.len() - i,
        {
            assert(is_valid_denom(coin_b@[i as int].denom));
            let amount_a = self.amount_of(coin_b.0[i].denom.as_str());
            if amount_a.gt(&coin_b.0[i].amount) && !amount_a.is_zero() {
                assert(amount_in(self@, coin_b@[i as int].denom) > coin_b@[i as int].amount);
                return true;
            }
            i += 1;
        }
        false
    }

    /// Whether, of some denomination of `coin_b`, this set holds something
    /// and `coin_b` holds at least as much.
    pub fn is_any_gte(&self, coin_b: BaseCoins) -> (r: bool)
        requires
            ordered(self@),
            denoms_valid(coin_b@),
        ensures
            r == any_gte(self@, coin_b@),
    {
        if coin_b.0.len() == 0 {
            return false;
        }
        let mut i: usize = 0;
        while i < coin_b.0.len()
            invariant
                i <= coin_b.0@.len(),
                ordered(self@),
                denoms_valid(coin_b@),
                forall|k: int|
                    0 <= k < i ==> !(0 < amount_in(self@, (#[trigger] coin_b@[k]).denom)
                        <= coin_b@[k].amount),
            decreases coin_b.0@.len() - i,
        {
            assert(is_valid_denom(coin_b@[i as int].denom));
            let amount_a = self.amount_of(coin_b.0[i].denom.as_str());
            if !amount_a.gt(&coin_b.0[i].amount) && !amount_a.is_zero() {
                assert(0 < amount_in(self@, coin_b@[i as int].denom) <= coin_b@[i as int].amount);
                return true;
            }
            i += 1;
        }
        false
    }
}

} // verus!
