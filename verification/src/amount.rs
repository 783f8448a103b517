//! Amounts of tokens: non-negative integers of 256 bits.

use crate::errors::Error;
use crate::text::{all_digits, dec_repr, dec_value};
use primitive_types::U256;
use vstd::prelude::*;
use vstd::std_specs::convert::FromSpecImpl;

verus! {

/// Two to the power of 64: the weight of one word of an amount.
pub open spec fn word_base() -> int {
    0x1_0000_0000_0000_0000
}

/// Two to the power of 256: every amount is below it.
pub open spec fn amount_limit() -> int {
    word_base() * word_base() * word_base() * word_base()
}

/// The number that four 64-bit words denote, most significant first.
pub open spec fn words_value(w3: u64, w2: u64, w1: u64, w0: u64) -> nat {
    (w0 + word_base() * (w1 + word_base() * (w2 + word_base() * w3))) as nat
}

/// An amount of tokens. Its view is the number it stands for.
///
/// The words are held most significant first, so that the derived order is
/// the order of the numbers.
#[derive(Clone, Copy, Debug, PartialEq, Eq, Structural, PartialOrd, Ord, Hash)]
pub struct Amount {
    w3: u64,
    w2: u64,
    w1: u64,
    w0: u64,
}

impl View for Amount {
    type V = nat;

    closed spec fn view(&self) -> nat {
        words_value(self.w3, self.w2, self.w1, self.w0)
    }
}

/// Sum of two amounts, unless it does not fit.
///
/// Trusted: this is `U256::checked_add`, which returns the sum when it is
/// below two to the 256 and `None` otherwise.
#[verifier::external_body]
fn u256_checked_add(a: Amount, b: Amount) -> (r: Option<Amount>)
    ensures
        r.is_some() == (a@ + b@ < amount_limit()),
        r.is_some() ==> r.unwrap()@ == a@ + b@,
{
    match U256([a.w0, a.w1, a.w2, a.w3]).checked_add(U256([b.w0, b.w1, b.w2, b.w3])) {
        Some(v) => Some(Amount { w3: v.0[3], w2: v.0[2], w1: v.0[1], w0: v.0[0] }),
        None => None,
    }
}

/// Difference of two amounts, unless it would be negative.
///
/// Trusted: this is `U256::checked_sub`, which returns the difference when
/// the second operand is not the greater and `None` otherwise.
#[verifier::external_body]
fn u256_checked_sub(a: Amount, b: Amount) -> (r: Option<Amount>)
    ensures
        r.is_some() == (b@ <= a@),
        r.is_some() ==> r.unwrap()@ == a@ - b@,
{
    match U256([a.w0, a.w1, a.w2, a.w3]).checked_sub(U256([b.w0, b.w1, b.w2, b.w3])) {
        Some(v) => Some(Amount { w3: v.0[3], w2: v.0[2], w1: v.0[1], w0: v.0[0] }),
        None => None,
    }
}

/// Product of an amount and a 64-bit factor, unless it does not fit.
///
/// Trusted: this is `U256::checked_mul`, which returns the product when it
/// is below two to the 256 and `None` otherwise.
#[verifier::external_body]
fn u256_checked_mul(a: Amount, x: u64) -> (r: Option<Amount>)
    ensures
        r.is_some() == (a@ * x < amount_limit()),
        r.is_some() ==> r.unwrap()@ == a@ * x,
{
    match U256([a.w0, a.w1, a.w2, a.w3]).checked_mul(U256([x, 0, 0, 0])) {
        Some(v) => Some(Amount { w3: v.0[3], w2: v.0[2], w1: v.0[1], w0: v.0[0] }),
        None => None,
    }
}

/// Quotient of an amount by a 64-bit divisor, unless the divisor is zero.
///
/// Trusted: this is `U256::checked_div`, which returns `None` for a zero
/// divisor and otherwise the quotient, rounded towards zero.
#[verifier::external_body]
fn u256_checked_div(a: Amount, x: u64) -> (r: Option<Amount>)
    ensures
        r.is_some() == (x != 0),
        r.is_some() ==> r.unwrap()@ == a@ / (x as nat),
{
    match U256([a.w0, a.w1, a.w2, a.w3]).checked_div(U256([x, 0, 0, 0])) {
        Some(v) => Some(Amount { w3: v.0[3], w2: v.0[2], w1: v.0[1], w0: v.0[0] }),
        None => None,
    }
}

/// The amount that a decimal numeral denotes.
///
/// Trusted: this is `U256::from_dec_str`, which accepts exactly the strings
/// of decimal digits (the empty one too, as zero) whose number is below two
/// to the 256, and returns that number.
#[verifier::external_body]
fn u256_from_dec_str(s: &str) -> (r: Option<Amount>)
    ensures
        r.is_some() == (all_digits(s@) && dec_value(s@) < amount_limit()),
        r.is_some() ==> r.unwrap()@ == dec_value(s@),
{
    match U256::from_dec_str(s) {
        Ok(v) => Some(Amount { w3: v.0[3], w2: v.0[2], w1: v.0[1], w0: v.0[0] }),
        Err(_) => None,
    }
}

/// The decimal numeral of an amount.
///
/// Trusted: this is the `Display` of `U256`, which writes the number in
/// base ten without leading zeros, and zero as "0".
#[verifier::external_body]
fn u256_to_dec_string(a: Amount) -> (r: String)
    ensures
        r@ == dec_repr(a@),
{
    U256([a.w0, a.w1, a.w2, a.w3]).to_string()
}

impl Amount {
    /// Every amount is below two to the power of 256.
    pub proof fn lemma_bounded(self)
        ensures
            self@ < amount_limit(),
    {
        assert(amount_limit() == word_base() * (word_base() * (word_base() * word_base())))
            by (nonlinear_arith);
    }

    /// Two amounts that stand for the same number are the same amount.
    pub proof fn lemma_view_injective(self, other: Amount)
        ensures
            (self@ == other@) == (self == other),
    {
        if self@ == other@ {
            let b = word_base();
            let hs = self.w1 + b * (self.w2 + b * self.w3);
            let ho = other.w1 + b * (other.w2 + b * other.w3);
            assert(self.w0 + b * hs == other.w0 + b * ho);
            assert(hs == ho);
            let gs = self.w2 + b * self.w3;
            let go = other.w2 + b * other.w3;
            assert(self.w1 + b * gs == other.w1 + b * go);
            assert(gs == go);
        }
    }

    /// The amount zero.
    pub fn zero() -> (r: Amount)
        ensures
            r@ == 0,
    {
        Amount { w3: 0, w2: 0, w1: 0, w0: 0 }
    }

    /// Whether the amount is zero.
    pub fn is_zero(&self) -> (r: bool)
        ensures
            r == (self@ == 0),
    {
        self.w3 == 0 && self.w2 == 0 && self.w1 == 0 && self.w0 == 0
    }

    /// Whether the amount is not negative, which every amount is.
    pub fn is_positive(&self) -> (r: bool)
        ensures
            r,
    {
        true
    }

    /// Whether the two amounts are the same number.
    pub fn is_equal(&self, other: &Amount) -> (r: bool)
        ensures
            r == (self@ == other@),
    {
        proof {
            self.lemma_view_injective(*other);
        }
        self.w3 == other.w3 && self.w2 == other.w2 && self.w1 == other.w1 && self.w0 == other.w0
    }

    /// Whether this amount is strictly less than the other.
    pub fn lt(&self, other: &Amount) -> (r: bool)
        ensures
            r == (self@ < other@),
    {
        if self.w3 != other.w3 {
            self.w3 < other.w3
        } else if self.w2 != other.w2 {
            self.w2 < other.w2
        } else if self.w1 != other.w1 {
            self.w1 < other.w1
        } else {
            self.w0 < other.w0
        }
    }

    /// Whether this amount is strictly greater than the other.
    pub fn gt(&self, other: &Amount) -> (r: bool)
        ensures
            r == (self@ > other@),
    {
        other.lt(self)
    }

    /// The sum, or `None` when it does not fit in 256 bits.
    pub fn checked_add(self, rhs: Amount) -> (r: Option<Amount>)
        ensures
            r.is_some() == (self@ + rhs@ < amount_limit()),
            r.is_some() ==> r.unwrap()@ == self@ + rhs@,
    {
        u256_checked_add(self, rhs)
    }

    /// The difference, or `None` when `rhs` is the greater.
    pub fn checked_sub(self, rhs: Amount) -> (r: Option<Amount>)
        ensures
            r.is_some() == (rhs@ <= self@),
            r.is_some() ==> r.unwrap()@ == self@ - rhs@,
    {
        u256_checked_sub(self, rhs)
    }

    /// The sum of two amounts that fits in 256 bits.
    pub fn add(self, rhs: Amount) -> (r: Amount)
        requires
            self@ + rhs@ < amount_limit(),
        ensures
            r@ == self@ + rhs@,
    {
        match u256_checked_add(self, rhs) {
            Some(v) => v,
            None => vstd::pervasive::unreached(),
        }
    }

    /// The difference of two amounts, the second not the greater.
    pub fn sub(self, rhs: Amount) -> (r: Amount)
        requires
            rhs@ <= self@,
        ensures
            r@ == self@ - rhs@,
    {
        match u256_checked_sub(self, rhs) {
            Some(v) => v,
            None => vstd::pervasive::unreached(),
        }
    }

    /// The difference where `rhs` is not the greater, and zero otherwise.
    pub fn saturating_sub(self, rhs: Amount) -> (r: Amount)
        ensures
            r@ == if rhs@ <= self@ { self@ - rhs@ } else { 0 },
    {
        match u256_checked_sub(self, rhs) {
            Some(v) => v,
            None => Amount::zero(),
        }
    }

    /// The product with a factor, or `None` when it does not fit in 256 bits.
    pub fn checked_mul(self, rhs: u64) -> (r: Option<Amount>)
        ensures
            r.is_some() == (self@ * rhs < amount_limit()),
            r.is_some() ==> r.unwrap()@ == self@ * rhs,
    {
        u256_checked_mul(self, rhs)
    }

    /// The product with a factor, where it fits in 256 bits.
    pub fn mul(self, rhs: u64) -> (r: Amount)
        requires
            self@ * rhs < amount_limit(),
        ensures
            r@ == self@ * rhs,
    {
        match u256_checked_mul(self, rhs) {
            Some(v) => v,
            None => vstd::pervasive::unreached(),
        }
    }

    /// The quotient by a divisor other than zero, rounded towards zero.
    pub fn div(self, rhs: u64) -> (r: Amount)
        requires
            rhs != 0,
        ensures
            r@ == self@ / (rhs as nat),
    {
        match u256_checked_div(self, rhs) {
            Some(v) => v,
            None => vstd::pervasive::unreached(),
        }
    }

    /// Reads a decimal numeral. Every string of decimal digits whose number
    /// is below two to the 256 is accepted, the empty string as zero; any
    /// other text is handed back in `InvalidAmount`.
    pub fn from_str(s: &str) -> (r: Result<Amount, Error>)
        ensures
            r.is_ok() == (all_digits(s@) && dec_value(s@) < amount_limit()),
            r.is_ok() ==> r.unwrap()@ == dec_value(s@),
            r.is_err() ==> (r.unwrap_err() matches Error::InvalidAmount(t) && t@ == s@),
    {
        match u256_from_dec_str(s) {
            Some(v) => Ok(v),
            None => Err(Error::InvalidAmount(s.to_owned())),
        }
    }

    /// The decimal numeral of the amount.
    pub fn to_string(&self) -> (r: String)
        ensures
            r@ == dec_repr(self@),
    {
        u256_to_dec_string(*self)
    }
}

impl std::str::FromStr for Amount {
    type Err = Error;

    fn from_str(s: &str) -> (r: Result<Amount, Error>) {
        Amount::from_str(s)
    }
}

impl From<u64> for Amount {
    fn from(v: u64) -> (r: Amount) {
        Amount { w3: 0, w2: 0, w1: 0, w0: v }
    }
}

impl FromSpecImpl<u64> for Amount {
    open spec fn obeys_from_spec() -> bool {
        true
    }

    closed spec fn from_spec(v: u64) -> Amount {
        Amount { w3: 0, w2: 0, w1: 0, w0: v }
    }
}

impl Amount {
    /// The amount made from a 64-bit number stands for that number.
    pub proof fn lemma_from_u64(v: u64)
        ensures
            <Amount as vstd::std_specs::convert::FromSpec<u64>>::from_spec(v)@ == v,
    {
    }

    /// The amount that stands for a 64-bit number.
    pub fn from_u64(v: u64) -> (r: Amount)
        ensures
            r@ == v,
    {
        Amount { w3: 0, w2: 0, w1: 0, w0: v }
    }
}

} // verus!
