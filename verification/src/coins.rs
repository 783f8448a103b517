//! Coin sets: coins of distinct denominations in ascending order, what they
//! hold of each denomination, and how they are looked up.

use crate::amount::Amount;
use crate::coin::{coin_le, coin_text, Coin, CoinModel};
use crate::denom::{denom_is_valid, is_valid_denom};
use crate::errors::Error;
use crate::text::{
    lemma_lex_asymmetric, lemma_lex_irreflexive, lemma_lex_total, lemma_lex_transitive, lex_lt,
    str_lt,
};
use vstd::prelude::*;
use vstd::relations::{sorted_by, total_ordering};
use vstd::std_specs::convert::FromSpecImpl;
use vstd::string::StringExecFns;

verus! {

/// A set of coins, one per denomination. Its view is the sequence of what
/// its coins stand for.
///
/// The type has `<` but not `Ord`: with `Ord`, `min` and `max` called on an
/// owned set would be those of `Ord`, which hand back one of the two sets.
#[derive(Clone, Debug, PartialOrd)]
pub struct BaseCoins(pub Vec<Coin>);

/// What a vector of coins stands for.
pub open spec fn coins_model(v: Seq<Coin>) -> Seq<CoinModel> {
    Seq::new(v.len(), |i: int| v[i]@)
}

impl View for BaseCoins {
    type V = Seq<CoinModel>;

    open spec fn view(&self) -> Seq<CoinModel> {
        coins_model(self.0@)
    }
}

impl From<Vec<Coin>> for BaseCoins {
    fn from(coins: Vec<Coin>) -> (r: BaseCoins) {
        BaseCoins(coins)
    }
}

impl FromSpecImpl<Vec<Coin>> for BaseCoins {
    open spec fn obeys_from_spec() -> bool {
        true
    }

    open spec fn from_spec(coins: Vec<Coin>) -> BaseCoins {
        BaseCoins(coins)
    }
}

/// The denominations of `s` are strictly ascending, so that none occurs
/// twice.
pub open spec fn ordered(s: Seq<CoinModel>) -> bool {
    forall|i: int, j: int|
        0 <= i < j < s.len() ==> lex_lt(#[trigger] s[i].denom, #[trigger] s[j].denom)
}

/// No coin of `s` has the amount zero.
pub open spec fn positive(s: Seq<CoinModel>) -> bool {
    forall|i: int| 0 <= i < s.len() ==> (#[trigger] s[i]).amount > 0
}

/// Every denomination of `s` fits the denomination pattern.
pub open spec fn denoms_valid(s: Seq<CoinModel>) -> bool {
    forall|i: int| 0 <= i < s.len() ==> is_valid_denom((#[trigger] s[i]).denom)
}

/// `s` is in canonical form: strictly ascending valid denominations and no
/// zero amount.
pub open spec fn canonical(s: Seq<CoinModel>) -> bool {
    ordered(s) && positive(s) && denoms_valid(s)
}

/// Some coin of `s` has the denomination `d`.
pub open spec fn has_denom(s: Seq<CoinModel>, d: Seq<char>) -> bool {
    exists|i: int| 0 <= i < s.len() && (#[trigger] s[i]).denom == d
}

/// The amount that `s` holds of the denomination `d`: that of its last coin
/// of that denomination, and zero where it has none.
pub open spec fn amount_in(s: Seq<CoinModel>, d: Seq<char>) -> nat
    decreases s.len(),
{
    if s.len() == 0 {
        0
    } else if s.last().denom == d {
        s.last().amount
    } else {
        amount_in(s.drop_last(), d)
    }
}

/// The order of coins, as a relation.
pub open spec fn coin_order() -> spec_fn(CoinModel, CoinModel) -> bool {
    |a: CoinModel, b: CoinModel| coin_le(a, b)
}

/// The coins of `s` with a nonzero amount, in their order.
pub open spec fn nonzero_coins(s: Seq<CoinModel>) -> Seq<CoinModel> {
    s.filter(|c: CoinModel| c.amount > 0)
}

/// The order of coins is total.
pub proof fn lemma_coin_le_total()
    ensures
        total_ordering(coin_order()),
{
    let leq = coin_order();
    assert forall|a: CoinModel, b: CoinModel| #[trigger] leq(a, b) && leq(b, a) implies a == b by {
        if lex_lt(a.denom, b.denom) {
            lemma_lex_asymmetric(a.denom, b.denom);
        }
        if lex_lt(b.denom, a.denom) {
            lemma_lex_asymmetric(b.denom, a.denom);
        }
    }
    assert forall|a: CoinModel, b: CoinModel, c: CoinModel| #[trigger]
        leq(a, b) && #[trigger] leq(b, c) implies leq(a, c) by {
        if lex_lt(a.denom, b.denom) && lex_lt(b.denom, c.denom) {
            lemma_lex_transitive(a.denom, b.denom, c.denom);
        }
    }
    assert forall|a: CoinModel, b: CoinModel| #[trigger] leq(a, b) || #[trigger] leq(b, a) by {
        lemma_lex_total(a.denom, b.denom);
    }
    assert(vstd::relations::reflexive(leq));
    assert(vstd::relations::antisymmetric(leq));
    assert(vstd::relations::transitive(leq));
    assert(vstd::relations::strongly_connected(leq));
}

/// A sequence holds nothing of a denomination that none of its coins has.
pub proof fn lemma_amount_absent(s: Seq<CoinModel>, d: Seq<char>)
    requires
        !has_denom(s, d),
    ensures
        amount_in(s, d) == 0,
    decreases s.len(),
{
    if s.len() > 0 {
        assert(s.last() == s[s.len() - 1]);
        assert forall|i: int| 0 <= i < s.drop_last().len() implies (
        #[trigger] s.drop_last()[i]).denom != d by {
            assert(s.drop_last()[i] == s[i]);
        }
        lemma_amount_absent(s.drop_last(), d);
    }
}

/// An ordered sequence holds of each coin's denomination that coin's amount.
pub proof fn lemma_amount_at(s: Seq<CoinModel>, i: int)
    requires
        ordered(s),
        0 <= i < s.len(),
    ensures
        amount_in(s, s[i].denom) == s[i].amount,
    decreases s.len(),
{
    if i < s.len() - 1 {
        let t = s.drop_last();
        assert(s.last() == s[s.len() - 1]);
        assert(lex_lt(s[i].denom, s[s.len() - 1].denom));
        lemma_lex_asymmetric(s[i].denom, s[s.len() - 1].denom);
        assert forall|p: int, q: int| 0 <= p < q < t.len() implies lex_lt(
            #[trigger] t[p].denom,
            #[trigger] t[q].denom,
        ) by {
            assert(t[p] == s[p] && t[q] == s[q]);
        }
        assert(t[i] == s[i]);
        lemma_amount_at(t, i);
    }
}

/// Where a sequence holds a nonzero amount of a denomination, one of its
/// coins has that denomination and that amount.
pub proof fn lemma_amount_present(s: Seq<CoinModel>, d: Seq<char>)
    requires
        amount_in(s, d) > 0,
    ensures
        exists|i: int|
            0 <= i < s.len() && (#[trigger] s[i]).denom == d && s[i].amount == amount_in(s, d),
    decreases s.len(),
{
    if s.len() > 0 {
        if s.last().denom == d {
            assert(s[s.len() - 1].denom == d);
        } else {
            lemma_amount_present(s.drop_last(), d);
            let i = choose|i: int|
                0 <= i < s.drop_last().len() && (#[trigger] s.drop_last()[i]).denom == d
                    && s.drop_last()[i].amount == amount_in(s.drop_last(), d);
            assert(s[i] == s.drop_last()[i]);
        }
    }
}

/// What a sequence holds after one more coin was put at its end.
pub proof fn lemma_amount_push(s: Seq<CoinModel>, c: CoinModel, d: Seq<char>)
    ensures
        amount_in(s.push(c), d) == if c.denom == d {
            c.amount
        } else {
            amount_in(s, d)
        },
{
    assert(s.push(c).last() == c);
    assert(s.push(c).drop_last() =~= s);
}

/// A prefix that is one step longer is the shorter prefix with one more
/// coin at its end.
pub proof fn lemma_take_step(s: Seq<CoinModel>, i: int)
    requires
        0 <= i < s.len(),
    ensures
        s.take(i + 1) == s.take(i).push(s[i]),
{
    assert(s.take(i + 1) =~= s.take(i).push(s[i]));
}

/// A sequence whose denominations all come before `d` holds nothing of `d`.
pub proof fn lemma_amount_before(s: Seq<CoinModel>, d: Seq<char>)
    requires
        forall|k: int| 0 <= k < s.len() ==> lex_lt((#[trigger] s[k]).denom, d),
    ensures
        amount_in(s, d) == 0,
{
    lemma_lex_irreflexive(d);
    lemma_amount_absent(s, d);
}

/// Two ordered sequences without zero amounts that hold the same amount of
/// every denomination are the same sequence.
pub proof fn lemma_amounts_determine(s: Seq<CoinModel>, t: Seq<CoinModel>)
    requires
        ordered(s),
        positive(s),
        ordered(t),
        positive(t),
        forall|d: Seq<char>| amount_in(s, d) == amount_in(t, d),
    ensures
        s == t,
    decreases s.len(),
{
    if s.len() == 0 {
        if t.len() > 0 {
            lemma_amount_at(t, t.len() - 1);
            assert(amount_in(s, t[t.len() - 1].denom) == 0);
        }
        assert(s =~= t);
    } else if t.len() == 0 {
        lemma_amount_at(s, s.len() - 1);
        assert(amount_in(t, s[s.len() - 1].denom) == 0);
    } else {
        let a = s[s.len() - 1];
        let b = t[t.len() - 1];
        lemma_amount_at(s, s.len() - 1);
        lemma_amount_at(t, t.len() - 1);
        assert(amount_in(t, a.denom) == a.amount);
        assert(amount_in(s, b.denom) == b.amount);
        lemma_amount_present(t, a.denom);
        lemma_amount_present(s, b.denom);
        let i = choose|i: int|
            0 <= i < t.len() && (#[trigger] t[i]).denom == a.denom && t[i].amount == amount_in(
                t,
                a.denom,
            );
        let j = choose|j: int|
            0 <= j < s.len() && (#[trigger] s[j]).denom == b.denom && s[j].amount == amount_in(
                s,
                b.denom,
            );
        if i < t.len() - 1 {
            assert(lex_lt(t[i].denom, t[t.len() - 1].denom));
            if j < s.len() - 1 {
                assert(lex_lt(s[j].denom, s[s.len() - 1].denom));
                lemma_lex_asymmetric(a.denom, b.denom);
            } else {
                lemma_lex_irreflexive(a.denom);
            }
        }
        assert(a.denom == b.denom);
        assert(a == b);
        let s1 = s.drop_last();
        let t1 = t.drop_last();
        assert forall|p: int, q: int| 0 <= p < q < s1.len() implies lex_lt(
            #[trigger] s1[p].denom,
            #[trigger] s1[q].denom,
        ) by {
            assert(s1[p] == s[p] && s1[q] == s[q]);
        }
        assert forall|p: int, q: int| 0 <= p < q < t1.len() implies lex_lt(
            #[trigger] t1[p].denom,
            #[trigger] t1[q].denom,
        ) by {
            assert(t1[p] == t[p] && t1[q] == t[q]);
        }
        assert forall|p: int| 0 <= p < s1.len() implies (#[trigger] s1[p]).amount > 0 by {
            assert(s1[p] == s[p]);
        }
        assert forall|p: int| 0 <= p < t1.len() implies (#[trigger] t1[p]).amount > 0 by {
            assert(t1[p] == t[p]);
        }
        assert forall|d: Seq<char>| amount_in(s1, d) == amount_in(t1, d) by {
            assert(s.last() == a && t.last() == b);
            if d == a.denom {
                assert(!has_denom(s1, d)) by {
                    if has_denom(s1, d) {
                        let p = choose|p: int| 0 <= p < s1.len() && (#[trigger] s1[p]).denom == d;
                        assert(s1[p] == s[p]);
                        assert(lex_lt(s[p].denom, s[s.len() - 1].denom));
                        lemma_lex_irreflexive(d);
                    }
                }
                assert(!has_denom(t1, d)) by {
                    if has_denom(t1, d) {
                        let p = choose|p: int| 0 <= p < t1.len() && (#[trigger] t1[p]).denom == d;
                        assert(t1[p] == t[p]);
                        assert(lex_lt(t[p].denom, t[t.len() - 1].denom));
                        lemma_lex_irreflexive(d);
                    }
                }
                lemma_amount_absent(s1, d);
                lemma_amount_absent(t1, d);
            } else {
                assert(amount_in(s, d) == amount_in(s1, d));
                assert(amount_in(t, d) == amount_in(t1, d));
            }
        }
        lemma_amounts_determine(s1, t1);
        assert(s =~= s1.push(a));
        assert(t =~= t1.push(b));
    }
}

/// The coins of `s` that are worth something, in the order of coins.
pub open spec fn sanitized(s: Seq<CoinModel>) -> Seq<CoinModel> {
    nonzero_coins(s).sort_by(coin_order())
}

/// The place `k` of `s` is in order: its denomination is valid, its amount
/// is not zero, and its denomination comes after that of the place before.
pub open spec fn entry_ok(s: Seq<CoinModel>, k: int) -> bool {
    &&& is_valid_denom(s[k].denom)
    &&& s[k].amount > 0
    &&& (k > 0 ==> lex_lt(s[k - 1].denom, s[k].denom))
}

/// `e` is the error that the place `k` of `s` gives. The denomination is
/// looked at first, then the amount, then the order: `InvalidCoin` with the
/// denomination where it does not fit the pattern, `ZeroAmount` with the
/// denomination where the amount is zero, `DenomNotSorted` where the
/// denomination comes before that of the place before, `DuplicateDenom`
/// where the two are the same.
pub open spec fn is_entry_error(s: Seq<CoinModel>, k: int, e: Error) -> bool {
    if !is_valid_denom(s[k].denom) {
        e matches Error::InvalidCoin { coin } && coin@ == s[k].denom
    } else if s[k].amount == 0 {
        e matches Error::ZeroAmount { denom } && denom@ == s[k].denom
    } else if k > 0 && lex_lt(s[k].denom, s[k - 1].denom) {
        e is DenomNotSorted
    } else {
        k > 0 && s[k].denom == s[k - 1].denom && e is DuplicateDenom
    }
}

/// The place `k` is the first of `s` that is out of order, and `e` is the
/// error it gives.
pub open spec fn is_first_fault(s: Seq<CoinModel>, k: int, e: Error) -> bool {
    &&& 0 <= k < s.len()
    &&& !entry_ok(s, k)
    &&& is_entry_error(s, k, e)
    &&& forall|j: int| 0 <= j < k ==> #[trigger] entry_ok(s, j)
}

impl BaseCoins {
    /// The number of coins.
    pub fn len(&self) -> (r: usize)
        ensures
            r == self@.len(),
    {
        self.0.len()
    }

    /// Whether there is no coin.
    pub fn is_empty(&self) -> (r: bool)
        ensures
            r == (self@.len() == 0),
    {
        self.0.len() == 0
    }

    /// A copy of the set.
    pub fn duplicate(&self) -> (r: BaseCoins)
        ensures
            r@ == self@,
    {
        let mut out: Vec<Coin> = Vec::new();
        let mut i: usize = 0;
        while i < self.0.len()
            invariant
                i <= self.0@.len(),
                out@.len() == i,
                forall|j: int| 0 <= j < i ==> (#[trigger] out@[j])@ == self@[j],
            decreases self.0@.len() - i,
        {
            out.push(self.0[i].duplicate());
            i += 1;
        }
        proof {
            assert(coins_model(out@) =~= self@);
        }
        BaseCoins(out)
    }

    /// The denominations of the coins, in their order.
    pub fn denoms(&self) -> (r: Vec<String>)
        ensures
            r@.len() == self@.len(),
            forall|i: int| 0 <= i < self@.len() ==> (#[trigger] r@[i])@ == self@[i].denom,
    {
        let mut out: Vec<String> = Vec::new();
        let mut i: usize = 0;
        while i < self.0.len()
            invariant
                i <= self.0@.len(),
                out@.len() == i,
                forall|j: int| 0 <= j < i ==> (#[trigger] out@[j])@ == self@[j].denom,
            decreases self.0@.len() - i,
        {
            out.push(self.0[i].denom.clone());
            i += 1;
        }
        out
    }

    /// The denomination of the coin at place `i`.
    pub fn get_denom_by_index(&self, i: usize) -> (r: String)
        requires
            i < self@.len(),
        ensures
            r@ == self@[i as int].denom,
    {
        self.0[i].denom.clone()
    }

    /// Whether every coin is worth nothing, as in a set without coins.
    pub fn is_zero(&self) -> (r: bool)
        ensures
            r == (forall|i: int| 0 <= i < self@.len() ==> (#[trigger] self@[i]).amount == 0),
    {
        let mut i: usize = 0;
        while i < self.0.len()
            invariant
                i <= self.0@.len(),
                forall|j: int| 0 <= j < i ==> (#[trigger] self@[j]).amount == 0,
            decreases self.0@.len() - i,
        {
            if !self.0[i].is_zero() {
                assert(self@[i as int].amount != 0);
                return false;
            }
            i += 1;
        }
        true
    }

    /// Whether there is a coin and no coin has a negative amount; as no
    /// amount is negative, whether there is a coin.
    pub fn is_all_positive(&self) -> (r: bool)
        ensures
            r == (self@.len() > 0),
    {
        self.0.len() > 0
    }

    /// Accepts a set in canonical form: its denominations fit the
    /// denomination pattern and are strictly ascending, and no amount is
    /// zero. The first place that is out of order gives the error.
    pub fn validate(&self) -> (r: Result<(), Error>)
        ensures
            r.is_ok() == canonical(self@),
            r matches Err(e) ==> exists|k: int| is_first_fault(self@, k, e),
    {
        let mut i: usize = 0;
        while i < self.0.len()
            invariant
                i <= self.0@.len(),
                forall|j: int| 0 <= j < i ==> #[trigger] entry_ok(self@, j),
                forall|j: int| 0 <= j < i ==> is_valid_denom((#[trigger] self@[j]).denom),
                forall|j: int| 0 <= j < i ==> (#[trigger] self@[j]).amount > 0,
                forall|p: int, q: int|
                    0 <= p < q < i ==> lex_lt(#[trigger] self@[p].denom, #[trigger] self@[q].denom),
            decreases self.0@.len() - i,
        {
            let coin = &self.0[i];
            if !denom_is_valid(coin.denom.as_str()) {
                let e = Error::InvalidCoin { coin: coin.denom.clone() };
                proof {
                    assert(!is_valid_denom(self@[i as int].denom));
                    assert(is_first_fault(self@, i as int, e));
                }
                return Err(e);
            }
            if coin.is_zero() {
                let e = Error::ZeroAmount { denom: coin.denom.clone() };
                proof {
                    assert(self@[i as int].amount == 0);
                    assert(is_first_fault(self@, i as int, e));
                }
                return Err(e);
            }
            if i > 0 {
                let low = &self.0[i - 1];
                if str_lt(coin.denom.as_str(), low.denom.as_str()) {
                    proof {
                        lemma_lex_asymmetric(self@[i as int].denom, self@[i - 1].denom);
                        if ordered(self@) {
                            assert(lex_lt(self@[i - 1].denom, self@[i as int].denom));
                        }
                        assert(is_first_fault(self@, i as int, Error::DenomNotSorted));
                    }
                    return Err(Error::DenomNotSorted);
                }
                if !str_lt(low.denom.as_str(), coin.denom.as_str()) {
                    proof {
                        lemma_lex_total(self@[i - 1].denom, self@[i as int].denom);
                        if ordered(self@) {
                            assert(lex_lt(self@[i - 1].denom, self@[i as int].denom));
                        }
                        assert(is_first_fault(self@, i as int, Error::DuplicateDenom));
                    }
                    return Err(Error::DuplicateDenom);
                }
                proof {
                    assert forall|p: int| 0 <= p < i implies lex_lt(
                        #[trigger] self@[p].denom,
                        self@[i as int].denom,
                    ) by {
                        if p < i - 1 {
                            lemma_lex_transitive(
                                self@[p].denom,
                                self@[i - 1].denom,
                                self@[i as int].denom,
                            );
                        }
                    }
                }
            }
            assert(entry_ok(self@, i as int));
            i += 1;
        }
        Ok(())
    }

    /// Whether the set is in canonical form: its denominations fit the
    /// denomination pattern and are strictly ascending, and no amount is
    /// zero.
    pub fn is_valid(&self) -> (r: bool)
        ensures
            r == canonical(self@),
    {
        self.validate().is_ok()
    }

    /// Whether the coins are in ascending order, by denomination and then by
    /// amount.
    pub fn is_sorted(&self) -> (r: bool)
        ensures
            r == sorted_by(self@, coin_order()),
    {
        let ghost leq = coin_order();
        if self.0.len() < 2 {
            return true;
        }
        let mut i: usize = 1;
        while i < self.0.len()
            invariant
                1 <= i <= self.0@.len(),
                leq == coin_order(),
                forall|p: int, q: int| 0 <= p < q < i ==> #[trigger] leq(self@[p], self@[q]),
            decreases self.0@.len() - i,
        {
            let in_order = self.0[i - 1].precedes(&self.0[i]);
            if !in_order {
                assert(!leq(self@[i - 1], self@[i as int]));
                return false;
            }
            proof {
                lemma_coin_le_total();
                assert forall|p: int| 0 <= p < i implies #[trigger] leq(self@[p], self@[i as int]) by {
                    if p < i - 1 {
                        assert(leq(self@[p], self@[i - 1]));
                        assert(leq(self@[i - 1], self@[i as int]));
                    }
                }
            }
            i += 1;
        }
        true
    }

    /// The coin of the denomination `denom`, found by bisection.
    pub fn find(&self, denom: &str) -> (r: Option<Coin>)
        requires
            ordered(self@),
        ensures
            r.is_some() == has_denom(self@, denom@),
            r.is_some() ==> r.unwrap()@ == (CoinModel {
                denom: denom@,
                amount: amount_in(self@, denom@),
            }),
    {
        let mut lo: usize = 0;
        let mut hi: usize = self.0.len();
        while lo < hi
            invariant
                lo <= hi <= self.0@.len(),
                ordered(self@),
                forall|i: int| 0 <= i < lo ==> lex_lt((#[trigger] self@[i]).denom, denom@),
                forall|i: int| hi <= i < self@.len() ==> lex_lt(denom@, (#[trigger] self@[i]).denom),
            decreases hi - lo,
        {
            let mid: usize = lo + (hi - lo) / 2;
            let coin = &self.0[mid];
            if str_lt(coin.denom.as_str(), denom) {
                proof {
                    assert forall|i: int| 0 <= i < mid + 1 implies lex_lt(
                        (#[trigger] self@[i]).denom,
                        denom@,
                    ) by {
                        if i < mid {
                            lemma_lex_transitive(self@[i].denom, self@[mid as int].denom, denom@);
                        }
                    }
                }
                lo = mid + 1;
            } else if str_lt(denom, coin.denom.as_str()) {
                proof {
                    assert forall|i: int| mid <= i < self@.len() implies lex_lt(
                        denom@,
                        (#[trigger] self@[i]).denom,
                    ) by {
                        if i > mid {
                            lemma_lex_transitive(denom@, self@[mid as int].denom, self@[i].denom);
                        }
                    }
                }
                hi = mid;
            } else {
                proof {
                    lemma_lex_total(self@[mid as int].denom, denom@);
                    lemma_amount_at(self@, mid as int);
                }
                return Some(coin.duplicate());
            }
        }
        proof {
            assert forall|i: int| 0 <= i < self@.len() implies (#[trigger] self@[i]).denom
                != denom@ by {
                lemma_lex_irreflexive(denom@);
            }
        }
        None
    }

    /// The amount held of `denom`, zero where there is no such coin; the
    /// denomination is not checked against the pattern.
    pub fn amount_of_no_denom_validation(&self, denom: &str) -> (r: Amount)
        requires
            ordered(self@),
        ensures
            r@ == amount_in(self@, denom@),
    {
        match self.find(denom) {
            Some(c) => c.amount,
            None => {
                proof {
                    lemma_amount_absent(self@, denom@);
                }
                Amount::zero()
            },
        }
    }

    /// The amount held of the valid denomination `denom`, zero where there
    /// is no such coin.
    pub fn amount_of(&self, denom: &str) -> (r: Amount)
        requires
            ordered(self@),
            is_valid_denom(denom@),
        ensures
            r@ == amount_in(self@, denom@),
    {
        self.amount_of_no_denom_validation(denom)
    }
    /// Whether the denominations are strictly ascending.
    pub fn is_ordered(&self) -> (r: bool)
        ensures
            r == ordered(self@),
    {
        if self.0.len() < 2 {
            return true;
        }
        let mut i: usize = 1;
        while i < self.0.len()
            invariant
                1 <= i <= self.0@.len(),
                forall|p: int, q: int|
                    0 <= p < q < i ==> lex_lt(#[trigger] self@[p].denom, #[trigger] self@[q].denom),
            decreases self.0@.len() - i,
        {
            if !str_lt(self.0[i - 1].denom.as_str(), self.0[i].denom.as_str()) {
                assert(!lex_lt(self@[i - 1].denom, self@[i as int].denom));
                return false;
            }
            proof {
                assert forall|p: int| 0 <= p < i implies lex_lt(
                    #[trigger] self@[p].denom,
                    self@[i as int].denom,
                ) by {
                    if p < i - 1 {
                        lemma_lex_transitive(
                            self@[p].denom,
                            self@[i - 1].denom,
                            self@[i as int].denom,
                        );
                    }
                }
            }
            i += 1;
        }
        true
    }
}

/// The text of a sequence of coins: the texts of its coins, with a comma
/// between one and the next.
pub open spec fn coins_text(s: Seq<CoinModel>) -> Seq<char>
    decreases s.len(),
{
    if s.len() == 0 {
        Seq::empty()
    } else if s.len() == 1 {
        coin_text(s[0])
    } else {
        coins_text(s.drop_last()) + seq![','] + coin_text(s.last())
    }
}

impl BaseCoins {
    /// The text of the set: the texts of its coins, with a comma between
    /// one and the next.
    pub fn to_string(&self) -> (r: String)
        ensures
            r@ == coins_text(self@),
    {
        let mut out = String::new();
        let mut i: usize = 0;
        while i < self.0.len()
            invariant
                i <= self.0@.len(),
                out@ == coins_text(self@.take(i as int)),
            decreases self.0@.len() - i,
        {
            if i > 0 {
                out.append(",");
            }
            let text = self.0[i].to_string();
            out.append(text.as_str());
            proof {
                let t = self@.take(i + 1);
                assert(t.drop_last() =~= self@.take(i as int));
                assert(t.last() == self@[i as int]);
                reveal_strlit(",");
                assert(","@ =~= seq![',']);
                if i == 0 {
                    assert(self@.take(0).len() == 0);
                    assert(Seq::<char>::empty() + coin_text(t[0]) =~= coin_text(t[0]));
                }
            }
            i += 1;
        }
        proof {
            assert(self@.take(i as int) =~= self@);
        }
        out
    }
}


} // verus!
