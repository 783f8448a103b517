//! Staking: tokens and the consensus power they give.

use vstd::prelude::*;

verus! {

/// Delay, in blocks, between the moment validator updates are handed to the
/// consensus engine and the moment they take effect.
pub const VALIDATOR_UPDATE_DELAY: i64 = 1;

/// The default bondable coin denomination.
pub const DEFAULT_BOND_DENOM: &'static str = "stake";

/// The default amount of staking tokens that gives one unit of consensus
/// power.
pub const DEFAULT_POWER_REDUCTION: i64 = 1000000;

/// The quotient of two integers, rounded towards zero.
pub open spec fn quotient_towards_zero(a: int, b: int) -> int {
    if a >= 0 && b > 0 {
        a / b
    } else if a < 0 && b > 0 {
        -((-a) / b)
    } else if a >= 0 && b < 0 {
        -(a / (-b))
    } else {
        (-a) / (-b)
    }
}

/// The consensus power that `tokens` give: their number divided by
/// `power_reduction`, rounded towards zero.
pub fn tokens_to_consensus_power(tokens: i64, power_reduction: i64) -> (r: i64)
    requires
        power_reduction != 0,
        !(tokens == i64::MIN && power_reduction == -1),
    ensures
        r == quotient_towards_zero(tokens as int, power_reduction as int),
{
    let a: i128 = tokens as i128;
    let b: i128 = power_reduction as i128;
    let size_a: i128 = if a >= 0 {
        a
    } else {
        -a
    };
    let size_b: i128 = if b > 0 {
        b
    } else {
        -b
    };
    let size: i128 = size_a / size_b;
    assert(0 <= size <= size_a && (size_b >= 2 && size_a > 0 ==> size < size_a))
        by (nonlinear_arith)
        requires
            size_a >= 0,
            size_b > 0,
            size == size_a / size_b,
    ;
    let q: i128 = if (a >= 0) == (b > 0) {
        size
    } else {
        -size
    };
    q as i64
}

/// The tokens that give the consensus power `power`: its product with
/// `power_reduction`.
pub fn tokens_from_consensus_power(power: i64, power_reduction: i64) -> (r: i64)
    requires
        i64::MIN <= power * power_reduction <= i64::MAX,
    ensures
        r == power * power_reduction,
{
    power * power_reduction
}

} // verus!
