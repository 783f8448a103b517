//! The arithmetic of coin sets: sum, difference, the lesser and the greater
//! of two sets, and a set multiplied or divided by a number.

use crate::amount::{amount_limit, Amount};
use crate::coin::{Coin, CoinModel};
use crate::coins::{
    amount_in, canonical, coins_model, denoms_valid, has_denom, lemma_amount_absent,
    lemma_amount_at, lemma_amount_before, lemma_amount_push, lemma_take_step, ordered, positive,
    BaseCoins,
};
use crate::denom::is_valid_denom;
use crate::text::{lemma_lex_total, lemma_lex_transitive, lex_lt, str_lt};
use vstd::prelude::*;

verus! {

/// The ways in which two coin sets are combined, denomination by
/// denomination.
#[derive(Clone, Copy, Debug, PartialEq, Eq)]
pub enum Combine {
    /// The sum of the two amounts.
    Sum,
    /// The first amount less the second, and zero where the second is the
    /// greater.
    Difference,
    /// The lesser of the two amounts.
    Least,
    /// The greater of the two amounts.
    Greatest,
}

/// What `op` makes of the amounts `x` and `y` of one denomination.
pub open spec fn combine(op: Combine, x: nat, y: nat) -> nat {
    match op {
        Combine::Sum => x + y,
        Combine::Difference => if y <= x {
            (x - y) as nat
        } else {
            0
        },
        Combine::Least => if x <= y {
            x
        } else {
            y
        },
        Combine::Greatest => if x <= y {
            y
        } else {
            x
        },
    }
}

/// The amounts that `a` and `b` hold of any one denomination add up to less
/// than two to the power of 256.
pub open spec fn sums_fit(a: Seq<CoinModel>, b: Seq<CoinModel>) -> bool {
    forall|d: Seq<char>| #[trigger] amount_in(a, d) + amount_in(b, d) < amount_limit()
}

/// The coins of a set that holds, of every denomination, what `op` makes of
/// the amounts that `a` and `b` hold of it.
pub open spec fn is_combination(
    r: Seq<CoinModel>,
    op: Combine,
    a: Seq<CoinModel>,
    b: Seq<CoinModel>,
) -> bool {
    &&& ordered(r)
    &&& positive(r)
    &&& forall|d: Seq<char>| #[trigger]
        amount_in(r, d) == combine(op, amount_in(a, d), amount_in(b, d))
}

/// What `op` makes of two amounts, unless it is a sum that does not fit in
/// 256 bits.
fn combine_amounts(op: Combine, x: Amount, y: Amount) -> (r: Option<Amount>)
    ensures
        r.is_some() == (op is Sum ==> x@ + y@ < amount_limit()),
        r matches Some(v) ==> v@ == combine(op, x@, y@),
{
    match op {
        Combine::Sum => x.checked_add(y),
        Combine::Difference => Some(x.saturating_sub(y)),
        Combine::Least => if y.lt(&x) {
            Some(y)
        } else {
            Some(x)
        },
        Combine::Greatest => if x.lt(&y) {
            Some(y)
        } else {
            Some(x)
        },
    }
}

/// Every denomination of a combination is one of `a` or of `b`.
pub proof fn lemma_combination_denoms(
    r: Seq<CoinModel>,
    op: Combine,
    a: Seq<CoinModel>,
    b: Seq<CoinModel>,
)
    requires
        is_combination(r, op, a, b),
    ensures
        forall|k: int|
            0 <= k < r.len() ==> has_denom(a, (#[trigger] r[k]).denom) || has_denom(
                b,
                r[k].denom,
            ),
        denoms_valid(a) && denoms_valid(b) ==> denoms_valid(r),
{
    assert forall|k: int| 0 <= k < r.len() implies has_denom(a, (#[trigger] r[k]).denom)
        || has_denom(b, r[k].denom) by {
        let d = r[k].denom;
        lemma_amount_at(r, k);
        assert(amount_in(r, d) == combine(op, amount_in(a, d), amount_in(b, d)));
        if !has_denom(a, d) && !has_denom(b, d) {
            lemma_amount_absent(a, d);
            lemma_amount_absent(b, d);
        }
    }
    if denoms_valid(a) && denoms_valid(b) {
        assert forall|k: int| 0 <= k < r.len() implies is_valid_denom((#[trigger] r[k]).denom) by {
            let d = r[k].denom;
            if has_denom(a, d) {
                let p = choose|p: int| 0 <= p < a.len() && (#[trigger] a[p]).denom == d;
                assert(is_valid_denom(a[p].denom));
            } else {
                let p = choose|p: int| 0 <= p < b.len() && (#[trigger] b[p]).denom == d;
                assert(is_valid_denom(b[p].denom));
            }
        }
    }
}

impl BaseCoins {
    /// Walks two ordered sets side by side and keeps, for every
    /// denomination, what `op` makes of the two amounts, where that is not
    /// zero. There is no result where `op` is the sum and the two amounts
    /// of some denomination do not add up to less than two to the 256.
    pub fn try_merge(&self, other: &BaseCoins, op: Combine) -> (r: Option<BaseCoins>)
        requires
            ordered(self@),
            ordered(other@),
        ensures
            r.is_some() == (op is Sum ==> sums_fit(self@, other@)),
            r matches Some(set) ==> is_combination(set@, op, self@, other@),
    {
        let n: usize = self.0.len();
        let m: usize = other.0.len();
        let mut out: Vec<Coin> = Vec::new();
        let mut i: usize = 0;
        let mut j: usize = 0;
        while i < n || j < m
            invariant
                i <= n,
                j <= m,
                n == self@.len(),
                m == other@.len(),
                ordered(self@),
                ordered(other@),
                op is Sum ==> sums_fit(self@.take(i as int), other@.take(j as int)),
                ordered(coins_model(out@)),
                positive(coins_model(out@)),
                forall|k: int|
                    0 <= k < out@.len() && i < n ==> lex_lt(
                        (#[trigger] out@[k])@.denom,
                        self@[i as int].denom,
                    ),
                forall|k: int|
                    0 <= k < out@.len() && j < m ==> lex_lt(
                        (#[trigger] out@[k])@.denom,
                        other@[j as int].denom,
                    ),
                forall|k: int|
                    0 <= k < j && i < n ==> lex_lt(
                        (#[trigger] other@[k]).denom,
                        self@[i as int].denom,
                    ),
                forall|k: int|
                    0 <= k < i && j < m ==> lex_lt(
                        (#[trigger] self@[k]).denom,
                        other@[j as int].denom,
                    ),
                forall|d: Seq<char>| #[trigger]
                    amount_in(coins_model(out@), d) == combine(
                        op,
                        amount_in(self@.take(i as int), d),
                        amount_in(other@.take(j as int), d),
                    ),
            decreases (n - i) + (m - j),
        {
            let ghost old_out = coins_model(out@);
            let ghost i0 = i as int;
            let ghost j0 = j as int;
            let from_a: bool;
            let from_b: bool;
            if j >= m {
                from_a = true;
                from_b = false;
            } else if i >= n {
                from_a = false;
                from_b = true;
            } else if str_lt(self.0[i].denom.as_str(), other.0[j].denom.as_str()) {
                from_a = true;
                from_b = false;
            } else if str_lt(other.0[j].denom.as_str(), self.0[i].denom.as_str()) {
                from_a = false;
                from_b = true;
            } else {
                proof {
                    lemma_lex_total(self@[i0].denom, other@[j0].denom);
                }
                from_a = true;
                from_b = true;
            }
            let x = if from_a {
                self.0[i].amount
            } else {
                Amount::zero()
            };
            let y = if from_b {
                other.0[j].amount
            } else {
                Amount::zero()
            };
            let denom = if from_a {
                self.0[i].denom.clone()
            } else {
                other.0[j].denom.clone()
            };
            let ghost d0 = denom@;
            proof {
                if from_a {
                    lemma_amount_at(self@, i0);
                    lemma_take_step(self@, i0);
                }
                if from_b {
                    lemma_amount_at(other@, j0);
                    lemma_take_step(other@, j0);
                }
                x.lemma_bounded();
                y.lemma_bounded();
            }
            let value = match combine_amounts(op, x, y) {
                Some(v) => v,
                None => {
                    assert(amount_in(self@, d0) + amount_in(other@, d0) >= amount_limit());
                    return None;
                },
            };
            let keep = !value.is_zero();
            if keep {
                out.push(Coin { denom, amount: value });
            }
            if from_a {
                i += 1;
            }
            if from_b {
                j += 1;
            }
            proof {
                let new_out = coins_model(out@);
                let c0 = CoinModel { denom: d0, amount: value@ };
                if keep {
                    assert(new_out =~= old_out.push(c0));
                } else {
                    assert(new_out =~= old_out);
                }
                assert forall|k: int| 0 <= k < out@.len() && i < n implies lex_lt(
                    (#[trigger] out@[k])@.denom,
                    self@[i as int].denom,
                ) by {
                    if from_a {
                        assert(lex_lt(self@[i0].denom, self@[i as int].denom));
                        if k < old_out.len() {
                            assert(old_out[k] == out@[k]@);
                            lemma_lex_transitive(out@[k]@.denom, d0, self@[i as int].denom);
                        }
                    } else {
                        if k < old_out.len() {
                            assert(old_out[k] == out@[k]@);
                        }
                    }
                }
                assert forall|k: int| 0 <= k < out@.len() && j < m implies lex_lt(
                    (#[trigger] out@[k])@.denom,
                    other@[j as int].denom,
                ) by {
                    if from_b {
                        assert(lex_lt(other@[j0].denom, other@[j as int].denom));
                        if k < old_out.len() {
                            assert(old_out[k] == out@[k]@);
                            lemma_lex_transitive(out@[k]@.denom, d0, other@[j as int].denom);
                        }
                    } else {
                        if k < old_out.len() {
                            assert(old_out[k] == out@[k]@);
                        }
                    }
                }
                assert forall|k: int| 0 <= k < j && i < n implies lex_lt(
                    (#[trigger] other@[k]).denom,
                    self@[i as int].denom,
                ) by {
                    if from_a {
                        assert(lex_lt(self@[i0].denom, self@[i as int].denom));
                        if k < j0 {
                            lemma_lex_transitive(other@[k].denom, d0, self@[i as int].denom);
                        }
                    }
                }
                assert forall|k: int| 0 <= k < i && j < m implies lex_lt(
                    (#[trigger] self@[k]).denom,
                    other@[j as int].denom,
                ) by {
                    if from_b {
                        assert(lex_lt(other@[j0].denom, other@[j as int].denom));
                        if k < i0 {
                            lemma_lex_transitive(self@[k].denom, d0, other@[j as int].denom);
                        }
                    }
                }
                assert(ordered(new_out)) by {
                    assert forall|p: int, q: int| 0 <= p < q < new_out.len() implies lex_lt(
                        #[trigger] new_out[p].denom,
                        #[trigger] new_out[q].denom,
                    ) by {
                        if q < old_out.len() {
                            assert(new_out[p] == old_out[p] && new_out[q] == old_out[q]);
                        } else {
                            assert(old_out[p] == out@[p]@);
                        }
                    }
                }
                assert forall|d: Seq<char>| #[trigger]
                    amount_in(new_out, d) == combine(
                        op,
                        amount_in(self@.take(i as int), d),
                        amount_in(other@.take(j as int), d),
                    ) by {
                    assert(amount_in(old_out, d) == combine(
                        op,
                        amount_in(self@.take(i0), d),
                        amount_in(other@.take(j0), d),
                    ));
                    if from_a {
                        lemma_amount_push(self@.take(i0), self@[i0], d);
                    }
                    if from_b {
                        lemma_amount_push(other@.take(j0), other@[j0], d);
                    }
                    if keep {
                        lemma_amount_push(old_out, c0, d);
                    }
                    if d == d0 {
                        assert forall|k: int| 0 <= k < old_out.len() implies lex_lt(
                            (#[trigger] old_out[k]).denom,
                            d,
                        ) by {
                            assert(old_out[k] == out@[k]@);
                        }
                        lemma_amount_before(old_out, d);
                        if !from_a {
                            lemma_amount_before(self@.take(i0), d);
                        }
                        if !from_b {
                            lemma_amount_before(other@.take(j0), d);
                        }
                    }
                }
                if op is Sum {
                    assert forall|d: Seq<char>| #[trigger]
                        amount_in(self@.take(i as int), d) + amount_in(other@.take(j as int), d)
                            < amount_limit() by {
                        assert(amount_in(self@.take(i0), d) + amount_in(other@.take(j0), d)
                            < amount_limit());
                        if from_a {
                            lemma_amount_push(self@.take(i0), self@[i0], d);
                        }
                        if from_b {
                            lemma_amount_push(other@.take(j0), other@[j0], d);
                        }
                        if d == d0 {
                            if !from_a {
                                lemma_amount_before(self@.take(i0), d);
                            }
                            if !from_b {
                                lemma_amount_before(other@.take(j0), d);
                            }
                        }
                    }
                }
            }
        }
        proof {
            assert(self@.take(n as int) =~= self@);
            assert(other@.take(m as int) =~= other@);
        }
        Some(BaseCoins(out))
    }

    /// Walks two ordered sets side by side and keeps, for every
    /// denomination, what `op` makes of the two amounts, where that is not
    /// zero.
    pub fn merge(&self, other: &BaseCoins, op: Combine) -> (r: BaseCoins)
        requires
            ordered(self@),
            ordered(other@),
            op is Sum ==> sums_fit(self@, other@),
        ensures
            is_combination(r@, op, self@, other@),
    {
        match self.try_merge(other, op) {
            Some(set) => set,
            None => vstd::pervasive::unreached(),
        }
    }

    /// The sum of two sets, where the two amounts of every denomination add
    /// up to less than two to the power of 256, and nothing otherwise.
    pub fn checked_safe_add(&self, coins_b: &BaseCoins) -> (r: Option<BaseCoins>)
        requires
            ordered(self@),
            ordered(coins_b@),
        ensures
            r.is_some() == sums_fit(self@, coins_b@),
            r matches Some(set) ==> is_combination(set@, Combine::Sum, self@, coins_b@),
    {
        self.try_merge(coins_b, Combine::Sum)
    }
}

/// What becomes of an amount `v` under the factor or divisor `x`.
pub open spec fn scale_amount(v: nat, x: nat, divide: bool) -> nat {
    if divide {
        v / x
    } else {
        v * x
    }
}

/// Every product of an amount of `s` with `x` is below two to the power of
/// 256.
pub open spec fn products_fit(s: Seq<CoinModel>, x: nat) -> bool {
    forall|i: int| 0 <= i < s.len() ==> (#[trigger] s[i]).amount * x < amount_limit()
}

/// The coins of a set that holds, of every denomination, the amount that
/// `a` holds of it, multiplied or divided by `x`.
pub open spec fn is_scaling(r: Seq<CoinModel>, a: Seq<CoinModel>, x: nat, divide: bool) -> bool {
    &&& ordered(r)
    &&& positive(r)
    &&& forall|d: Seq<char>| #[trigger] amount_in(r, d) == scale_amount(amount_in(a, d), x, divide)
}

impl BaseCoins {
    /// The sum of two sets: of every denomination, the sum of what the two
    /// hold of it.
    pub fn safe_add(&self, coins_b: &BaseCoins) -> (r: BaseCoins)
        requires
            ordered(self@),
            ordered(coins_b@),
            sums_fit(self@, coins_b@),
        ensures
            is_combination(r@, Combine::Sum, self@, coins_b@),
            denoms_valid(self@) && denoms_valid(coins_b@) ==> canonical(r@),
    {
        let r = self.merge(coins_b, Combine::Sum);
        proof {
            lemma_combination_denoms(r@, Combine::Sum, self@, coins_b@);
        }
        r
    }

    /// The difference of two sets: of every denomination, what this set
    /// holds of it beyond what `coins_b` holds; nothing of a denomination of
    /// which `coins_b` holds at least as much.
    pub fn safe_sub(&self, coins_b: &BaseCoins) -> (r: BaseCoins)
        requires
            ordered(self@),
            ordered(coins_b@),
        ensures
            is_combination(r@, Combine::Difference, self@, coins_b@),
            denoms_valid(self@) && denoms_valid(coins_b@) ==> canonical(r@),
    {
        let r = self.merge(coins_b, Combine::Difference);
        proof {
            lemma_combination_denoms(r@, Combine::Difference, self@, coins_b@);
        }
        r
    }

    /// The greater of two sets: of every denomination, the greater of what
    /// the two hold of it.
    pub fn max(&self, coin_b: BaseCoins) -> (r: BaseCoins)
        requires
            ordered(self@),
            ordered(coin_b@),
        ensures
            is_combination(r@, Combine::Greatest, self@, coin_b@),
            denoms_valid(self@) && denoms_valid(coin_b@) ==> canonical(r@),
    {
        let r = self.merge(&coin_b, Combine::Greatest);
        proof {
            lemma_combination_denoms(r@, Combine::Greatest, self@, coin_b@);
        }
        r
    }

    /// The lesser of two sets: of every denomination, the lesser of what the
    /// two hold of it.
    pub fn min(&self, coin_b: BaseCoins) -> (r: BaseCoins)
        requires
            ordered(self@),
            ordered(coin_b@),
        ensures
            is_combination(r@, Combine::Least, self@, coin_b@),
            denoms_valid(self@) && denoms_valid(coin_b@) ==> canonical(r@),
    {
        let r = self.merge(&coin_b, Combine::Least);
        proof {
            lemma_combination_denoms(r@, Combine::Least, self@, coin_b@);
        }
        r
    }

    /// The set with every amount multiplied or divided by `x`; a coin whose
    /// amount becomes zero is left out. There is no result where a product
    /// does not fit in 256 bits.
    fn try_scaled(&self, x: u64, divide: bool) -> (r: Option<BaseCoins>)
        requires
            ordered(self@),
            divide ==> x != 0,
        ensures
            r.is_some() == (divide || products_fit(self@, x as nat)),
            r matches Some(set) ==> is_scaling(set@, self@, x as nat, divide) && (denoms_valid(
                self@,
            ) ==> denoms_valid(set@)),
    {
        let mut out: Vec<Coin> = Vec::new();
        let mut i: usize = 0;
        proof {
            assert(self@.take(0).len() == 0);
            assert(0nat * (x as nat) == 0) by (nonlinear_arith);
            if divide {
                assert(0nat / (x as nat) == 0) by (nonlinear_arith)
                    requires
                        x != 0,
                ;
            }
        }
        while i < self.0.len()
            invariant
                i <= self.0@.len(),
                ordered(self@),
                divide ==> x != 0,
                !divide ==> products_fit(self@.take(i as int), x as nat),
                ordered(coins_model(out@)),
                positive(coins_model(out@)),
                denoms_valid(self@) ==> denoms_valid(coins_model(out@)),
                forall|k: int|
                    0 <= k < out@.len() && i < self@.len() ==> lex_lt(
                        (#[trigger] out@[k])@.denom,
                        self@[i as int].denom,
                    ),
                forall|d: Seq<char>| #[trigger]
                    amount_in(coins_model(out@), d) == scale_amount(
                        amount_in(self@.take(i as int), d),
                        x as nat,
                        divide,
                    ),
            decreases self.0@.len() - i,
        {
            let ghost old_out = coins_model(out@);
            let ghost i0 = i as int;
            let coin = &self.0[i];
            let ghost d0 = coin@.denom;
            assert(coin@ == self@[i0]);
            let value = if divide {
                coin.amount.div(x)
            } else {
                match coin.amount.checked_mul(x) {
                    Some(v) => v,
                    None => {
                        assert(self@[i0].amount * (x as nat) >= amount_limit());
                        return None;
                    },
                }
            };
            let keep = !value.is_zero();
            if keep {
                out.push(Coin { denom: coin.denom.clone(), amount: value });
            }
            i += 1;
            proof {
                let new_out = coins_model(out@);
                let c0 = CoinModel { denom: d0, amount: value@ };
                if keep {
                    assert(new_out =~= old_out.push(c0));
                } else {
                    assert(new_out =~= old_out);
                }
                lemma_take_step(self@, i0);
                assert forall|k: int| 0 <= k < out@.len() && i < self@.len() implies lex_lt(
                    (#[trigger] out@[k])@.denom,
                    self@[i as int].denom,
                ) by {
                    assert(lex_lt(self@[i0].denom, self@[i as int].denom));
                    if k < old_out.len() {
                        assert(old_out[k] == out@[k]@);
                        lemma_lex_transitive(out@[k]@.denom, d0, self@[i as int].denom);
                    }
                }
                assert(ordered(new_out)) by {
                    assert forall|p: int, q: int| 0 <= p < q < new_out.len() implies lex_lt(
                        #[trigger] new_out[p].denom,
                        #[trigger] new_out[q].denom,
                    ) by {
                        if q < old_out.len() {
                            assert(new_out[p] == old_out[p] && new_out[q] == old_out[q]);
                        } else {
                            assert(old_out[p] == out@[p]@);
                        }
                    }
                }
                if denoms_valid(self@) {
                    assert forall|k: int| 0 <= k < new_out.len() implies is_valid_denom(
                        (#[trigger] new_out[k]).denom,
                    ) by {
                        if k < old_out.len() {
                            assert(new_out[k] == old_out[k]);
                        } else {
                            assert(is_valid_denom(self@[i0].denom));
                        }
                    }
                }
                assert forall|d: Seq<char>| #[trigger]
                    amount_in(new_out, d) == scale_amount(
                        amount_in(self@.take(i as int), d),
                        x as nat,
                        divide,
                    ) by {
                    assert(amount_in(old_out, d) == scale_amount(
                        amount_in(self@.take(i0), d),
                        x as nat,
                        divide,
                    ));
                    lemma_amount_push(self@.take(i0), self@[i0], d);
                    if keep {
                        lemma_amount_push(old_out, c0, d);
                    }
                    if d == d0 {
                        assert forall|k: int| 0 <= k < old_out.len() implies lex_lt(
                            (#[trigger] old_out[k]).denom,
                            d,
                        ) by {
                            assert(old_out[k] == out@[k]@);
                        }
                        lemma_amount_before(old_out, d);
                    }
                }
                if !divide {
                    assert forall|k: int| 0 <= k < self@.take(i as int).len() implies (
                    #[trigger] self@.take(i as int)[k]).amount * (x as nat) < amount_limit() by {
                        if k < i0 {
                            assert(self@.take(i0)[k] == self@.take(i as int)[k]);
                        }
                    }
                }
            }
        }
        proof {
            assert(self@.take(i as int) =~= self@);
        }
        Some(BaseCoins(out))
    }

    /// The set with every amount multiplied by `x`, where every product is
    /// below two to the power of 256, and nothing otherwise.
    pub fn checked_safe_mul(&self, x: u64) -> (r: Option<BaseCoins>)
        requires
            ordered(self@),
        ensures
            r.is_some() == products_fit(self@, x as nat),
            r matches Some(set) ==> is_scaling(set@, self@, x as nat, false) && (denoms_valid(
                self@,
            ) ==> canonical(set@)),
    {
        self.try_scaled(x, false)
    }

    /// The set with every amount multiplied by `x`; multiplied by zero, the
    /// set without coins.
    pub fn safe_mul(&self, x: u64) -> (r: BaseCoins)
        requires
            ordered(self@),
            products_fit(self@, x as nat),
        ensures
            is_scaling(r@, self@, x as nat, false),
            denoms_valid(self@) ==> canonical(r@),
    {
        match self.try_scaled(x, false) {
            Some(set) => set,
            None => vstd::pervasive::unreached(),
        }
    }

    /// The set with every amount divided by `x`, rounded towards zero; a
    /// coin whose amount is less than `x` is left out.
    pub fn safe_div(&self, x: u64) -> (r: BaseCoins)
        requires
            ordered(self@),
            x != 0,
        ensures
            is_scaling(r@, self@, x as nat, true),
            denoms_valid(self@) ==> canonical(r@),
    {
        match self.try_scaled(x, true) {
            Some(set) => set,
            None => vstd::pervasive::unreached(),
        }
    }
}

} // verus!
