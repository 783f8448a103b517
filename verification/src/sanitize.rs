//! Bringing coins into canonical form: leaving out those worth nothing,
//! sorting, and building a set; and the equality of sets.

use crate::coin::{coin_le, Coin, CoinModel};
use crate::coins::{
    canonical, coin_order, coins_model, denoms_valid, is_first_fault, lemma_coin_le_total,
    lemma_take_step, nonzero_coins, ordered, positive, sanitized, BaseCoins,
};
use crate::errors::Error;
use vstd::prelude::*;
use vstd::relations::sorted_by;
use vstd::seq_lib::{lemma_sorted_unique, to_multiset_build, to_multiset_insert};

verus! {

/// The coins that are worth something, in their order.
pub fn remove_zero_coins(coins: BaseCoins) -> (r: BaseCoins)
    ensures
        r@ == nonzero_coins(coins@),
{
    let mut non_zeros: Vec<Coin> = Vec::new();
    let mut i: usize = 0;
    let ghost pred = |c: CoinModel| c.amount > 0;
    while i < coins.0.len()
        invariant
            i <= coins.0@.len(),
            pred == (|c: CoinModel| c.amount > 0),
            coins_model(non_zeros@) == coins@.take(i as int).filter(pred),
        decreases coins.0@.len() - i,
    {
        let ghost before = coins_model(non_zeros@);
        let coin = &coins.0[i];
        let keep = !coin.is_zero();
        if keep {
            non_zeros.push(coin.duplicate());
        }
        proof {
            vstd::seq::Seq::lemma_filter_push(coins@.take(i as int), coins@[i as int], pred);
            lemma_take_step(coins@, i as int);
            if keep {
                assert(coins_model(non_zeros@) =~= before.push(coins@[i as int]));
            } else {
                assert(coins_model(non_zeros@) =~= before);
            }
        }
        i += 1;
    }
    proof {
        assert(coins@.take(i as int) =~= coins@);
    }
    BaseCoins(non_zeros)
}

/// The coins that are worth something, in the order of coins.
pub fn sanitize_coins(coins: Vec<Coin>) -> (r: BaseCoins)
    ensures
        r@ == sanitized(coins_model(coins@)),
{
    let mut new_coins = remove_zero_coins(BaseCoins(coins));
    new_coins.sort();
    new_coins
}

impl BaseCoins {
    /// A copy of the set with its coins in the order of coins.
    pub fn sorted_copy(&self) -> (r: BaseCoins)
        ensures
            r@ == self@.sort_by(coin_order()),
    {
        let mut out: Vec<Coin> = Vec::new();
        let mut i: usize = 0;
        proof {
            assert(coins_model(out@) =~= self@.take(0));
        }
        while i < self.0.len()
            invariant
                i <= self.0@.len(),
                sorted_by(coins_model(out@), coin_order()),
                coins_model(out@).to_multiset() == self@.take(i as int).to_multiset(),
            decreases self.0@.len() - i,
        {
            let coin = self.0[i].duplicate();
            let ghost before = coins_model(out@);
            let mut pos: usize = 0;
            while pos < out.len() && out[pos].precedes(&coin)
                invariant
                    pos <= out@.len(),
                    before == coins_model(out@),
                    forall|k: int| 0 <= k < pos ==> coin_le(#[trigger] before[k], coin@),
                decreases out@.len() - pos,
            {
                pos += 1;
            }
            out.insert(pos, coin);
            proof {
                let after = coins_model(out@);
                let leq = coin_order();
                assert(after =~= before.insert(pos as int, coin@));
                to_multiset_insert(before, pos as int, coin@);
                to_multiset_build(self@.take(i as int), self@[i as int]);
                lemma_take_step(self@, i as int);
                lemma_coin_le_total();
                assert forall|p: int, q: int| 0 <= p < q < after.len() implies #[trigger] leq(
                    after[p],
                    after[q],
                ) by {
                    if q < pos {
                        assert(leq(before[p], before[q]));
                    } else if q == pos {
                        assert(coin_le(before[p], coin@));
                    } else if p < pos {
                        assert(leq(before[p], before[q - 1]));
                    } else if p == pos {
                        assert(!coin_le(before[pos as int], coin@));
                        assert(leq(before[pos as int], coin@) || leq(coin@, before[pos as int]));
                        if q - 1 > pos {
                            assert(leq(before[pos as int], before[q - 1]));
                        }
                    } else {
                        assert(leq(before[p - 1], before[q - 1]));
                    }
                }
            }
            i += 1;
        }
        proof {
            assert(self@.take(i as int) =~= self@);
            lemma_coin_le_total();
            self@.lemma_sort_by_ensures(coin_order());
            lemma_sorted_unique(coins_model(out@), self@.sort_by(coin_order()), coin_order());
        }
        BaseCoins(out)
    }

    /// Puts the coins in the order of coins: by denomination, then by
    /// amount.
    pub fn sort(&mut self)
        ensures
            final(self)@ == old(self)@.sort_by(coin_order()),
    {
        let sorted = self.sorted_copy();
        *self = sorted;
    }

    /// The canonical set of the coins given: those that are worth something,
    /// in ascending order of denomination. The coins are refused where one
    /// that is worth something has a denomination that does not fit the
    /// pattern, or where two of them share a denomination.
    pub fn new(coins: Vec<Coin>) -> (r: Result<BaseCoins, Error>)
        ensures
            r.is_ok() == (ordered(sanitized(coins_model(coins@))) && denoms_valid(
                sanitized(coins_model(coins@)),
            )),
            r matches Ok(set) ==> set@ == sanitized(coins_model(coins@)) && canonical(set@),
            r matches Err(e) ==> !(e is ZeroAmount) && exists|k: int|
                is_first_fault(sanitized(coins_model(coins@)), k, e),
    {
        let ghost given = coins_model(coins@);
        let new_coins = sanitize_coins(coins);
        proof {
            lemma_sanitized_positive(given);
        }
        match new_coins.validate() {
            Ok(()) => Ok(new_coins),
            Err(e) => {
                proof {
                    let k = choose|k: int| is_first_fault(new_coins@, k, e);
                    assert(new_coins@[k].amount > 0);
                }
                Err(e)
            },
        }
    }
}

/// No coin of a sanitized sequence is worth nothing, and each of them is a
/// coin of the sequence it was made from.
pub proof fn lemma_sanitized_positive(s: Seq<CoinModel>)
    ensures
        positive(sanitized(s)),
        forall|k: int| 0 <= k < sanitized(s).len() ==> s.contains(#[trigger] sanitized(s)[k]),
{
    broadcast use vstd::seq_lib::group_to_multiset_ensures;

    let pred = |c: CoinModel| c.amount > 0;
    let f = s.filter(pred);
    let t = sanitized(s);
    lemma_coin_le_total();
    f.lemma_sort_by_ensures(coin_order());
    assert forall|k: int| 0 <= k < t.len() implies (#[trigger] t[k]).amount > 0 && s.contains(
        t[k],
    ) by {
        assert(t.contains(t[k]));
        assert(f.contains(t[k]));
        s.lemma_filter_contains_rev(pred, t[k]);
    }
}

impl BaseCoins {
    /// Whether the two sets hold the same coins, in whatever order.
    pub fn is_equal(&self, other: &BaseCoins) -> (r: bool)
        ensures
            r == (self@.to_multiset() == other@.to_multiset()),
    {
        broadcast use vstd::seq_lib::group_to_multiset_ensures;

        proof {
            assert(self@.to_multiset().len() == self@.len());
            assert(other@.to_multiset().len() == other@.len());
        }
        if self.0.len() != other.0.len() {
            return false;
        }
        let coins = self.sorted_copy();
        let coins_b = other.sorted_copy();
        proof {
            lemma_coin_le_total();
            self@.lemma_sort_by_ensures(coin_order());
            other@.lemma_sort_by_ensures(coin_order());
            assert(coins@.to_multiset().len() == coins@.len());
            assert(coins_b@.to_multiset().len() == coins_b@.len());
            if self@.to_multiset() == other@.to_multiset() {
                lemma_sorted_unique(coins@, coins_b@, coin_order());
            }
        }
        let mut i: usize = 0;
        while i < coins.0.len()
            invariant
                i <= coins.0@.len(),
                coins.0@.len() == coins_b.0@.len(),
                coins@.to_multiset() == self@.to_multiset(),
                coins_b@.to_multiset() == other@.to_multiset(),
                self@.to_multiset() == other@.to_multiset() ==> coins@ == coins_b@,
                forall|k: int| 0 <= k < i ==> coins@[k] == coins_b@[k],
            decreases coins.0@.len() - i,
        {
            if !coins.0[i].is_equal(coins_b.0[i].duplicate()) {
                assert(coins@[i as int] != coins_b@[i as int]);
                return false;
            }
            i += 1;
        }
        proof {
            assert(coins@ =~= coins_b@);
        }
        true
    }
}

} // verus!
