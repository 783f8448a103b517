//! A coin: an amount of one denomination, and the text form of coins.

use crate::amount::{amount_limit, Amount};
use crate::denom::{char_is_denom_char, denom_is_valid, is_denom_char, is_valid_denom};
use crate::errors::Error;
use crate::text::{
    dec_repr, dec_value, is_digit, lemma_lex_asymmetric, lemma_lex_irreflexive, lemma_lex_total,
    lex_lt, str_lt,
};
use vstd::prelude::*;
use vstd::string::{StrSliceExecFns, StringExecFns};

verus! {

/// The type URL under which a coin travels in a message.
pub const TYPE_URL: &'static str = "/cosmos.base.v1beta1.Coin";

/// What a coin stands for: a denomination and a number of its units.
pub ghost struct CoinModel {
    pub denom: Seq<char>,
    pub amount: nat,
}

/// A token amount of one denomination.
#[derive(Clone, Debug, PartialEq, Eq, PartialOrd, Ord)]
pub struct Coin {
    /// Denomination
    pub denom: String,
    /// Amount
    pub amount: Amount,
}

/// A coin whose denomination carries no prefix.
pub type BaseCoin = Coin;

impl View for Coin {
    type V = CoinModel;

    open spec fn view(&self) -> CoinModel {
        CoinModel { denom: self.denom@, amount: self.amount@ }
    }
}

/// The order of coins: by denomination, then by amount.
pub open spec fn coin_le(a: CoinModel, b: CoinModel) -> bool {
    lex_lt(a.denom, b.denom) || (a.denom == b.denom && a.amount <= b.amount)
}

/// The text of a coin: its decimal amount followed by its denomination.
pub open spec fn coin_text(c: CoinModel) -> Seq<char> {
    dec_repr(c.amount) + c.denom
}

/// `c` may stand in the denomination part of a coin's text: a denomination
/// character or a backslash.
pub open spec fn is_coin_text_char(c: char) -> bool {
    is_denom_char(c) || c == '\\'
}

/// The first `n` characters of `s` are digits and the next one, if there is
/// one, is not.
pub open spec fn is_digit_run(s: Seq<char>, n: int) -> bool {
    &&& 0 <= n <= s.len()
    &&& forall|i: int| 0 <= i < n ==> is_digit(#[trigger] s[i])
    &&& (n < s.len() ==> !is_digit(s[n]))
}

/// The number of digits that `s` starts with.
pub open spec fn digit_run(s: Seq<char>) -> int {
    choose|n: int| is_digit_run(s, n)
}

/// Where the amount ends and the denomination begins in a coin's text: after
/// the leading digits; the last digit of a text made of digits alone is left
/// to the denomination.
pub open spec fn coin_split_index(s: Seq<char>) -> int {
    let n = digit_run(s);
    if n == s.len() {
        n - 1
    } else {
        n
    }
}

/// `s` is one or more digits followed by one or more coin text characters.
pub open spec fn is_coin_text(s: Seq<char>) -> bool {
    let k = coin_split_index(s);
    &&& 1 <= k < s.len()
    &&& forall|i: int| k <= i < s.len() ==> is_coin_text_char(#[trigger] s[i])
}

/// The digits that a coin's text starts with.
pub open spec fn coin_text_digits(s: Seq<char>) -> Seq<char> {
    s.subrange(0, coin_split_index(s))
}

/// The coin that the text `s` denotes, where it denotes one whose amount
/// fits.
pub open spec fn parse_coin(s: Seq<char>) -> Option<CoinModel> {
    if is_coin_text(s) && dec_value(coin_text_digits(s)) < amount_limit() {
        Some(
            CoinModel {
                denom: s.subrange(coin_split_index(s), s.len() as int),
                amount: dec_value(coin_text_digits(s)),
            },
        )
    } else {
        None
    }
}

/// `e` is the error that reading the text `s` as a coin gives: `InvalidCoin`
/// with the text where it is not a coin's text, `InvalidAmount` with the
/// digits where their number is too large.
pub open spec fn is_parse_error(s: Seq<char>, e: Error) -> bool {
    if is_coin_text(s) {
        &&& dec_value(coin_text_digits(s)) >= amount_limit()
        &&& e matches Error::InvalidAmount(t)
        &&& t@ == coin_text_digits(s)
    } else {
        e matches Error::InvalidCoin { coin } && coin@ == s
    }
}

/// `k` is the place of the first comma of `s`, or its length where it has
/// none.
pub open spec fn is_first_comma(s: Seq<char>, k: int) -> bool {
    &&& 0 <= k <= s.len()
    &&& forall|i: int| 0 <= i < k ==> #[trigger] s[i] != ','
    &&& (k < s.len() ==> s[k] == ',')
}

/// The place of the first comma of `s`, or its length where it has none.
pub open spec fn first_comma(s: Seq<char>) -> int {
    choose|k: int| is_first_comma(s, k)
}

/// The pieces of `s` between its commas, in order; a text without a comma is
/// one piece.
pub open spec fn split_commas(s: Seq<char>) -> Seq<Seq<char>>
    decreases s.len(),
{
    let k = first_comma(s);
    if 0 <= k < s.len() {
        seq![s.subrange(0, k)] + split_commas(s.subrange(k + 1, s.len() as int))
    } else {
        seq![s]
    }
}

/// A string has one run of leading digits.
pub proof fn lemma_digit_run(s: Seq<char>, n: int)
    requires
        is_digit_run(s, n),
    ensures
        digit_run(s) == n,
{
    let m = digit_run(s);
    assert(is_digit_run(s, m));
    if m < n {
        assert(is_digit(s[m]));
    } else if n < m {
        assert(is_digit(s[n]));
    }
}

/// A string has one first comma.
pub proof fn lemma_first_comma(s: Seq<char>, k: int)
    requires
        is_first_comma(s, k),
    ensures
        first_comma(s) == k,
{
    let m = first_comma(s);
    assert(is_first_comma(s, m));
    if m < k {
        assert(s[m] != ',');
    } else if k < m {
        assert(s[k] != ',');
    }
}

impl std::str::FromStr for Coin {
    type Err = Error;

    fn from_str(coin_str: &str) -> (r: Result<Coin, Error>) {
        Coin::from_str(coin_str)
    }
}

/// Whether `c` may stand in the denomination part of a coin's text.
fn char_is_coin_text_char(c: char) -> (r: bool)
    ensures
        r == is_coin_text_char(c),
{
    char_is_denom_char(c) || c == '\\'
}

impl Coin {
    /// A coin of `amount` units of `denom`, where `denom` fits the
    /// denomination pattern; any other denomination is handed back in
    /// `InvalidCoin`.
    pub fn new(denom: String, amount: u64) -> (r: Result<Coin, Error>)
        ensures
            r.is_ok() == is_valid_denom(denom@),
            r.is_ok() ==> r.unwrap()@ == (CoinModel { denom: denom@, amount: amount as nat }),
            r.is_err() ==> (r.unwrap_err() matches Error::InvalidCoin { coin } && coin@
                == denom@),
    {
        if denom_is_valid(denom.as_str()) {
            Ok(Coin { denom, amount: Amount::from_u64(amount) })
        } else {
            Err(Error::InvalidCoin { coin: denom })
        }
    }

    /// A copy of the coin.
    pub fn duplicate(&self) -> (r: Coin)
        ensures
            r@ == self@,
    {
        Coin { denom: self.denom.clone(), amount: self.amount }
    }

    /// Reads a coin from its text: a decimal amount followed, without a
    /// separator, by the denomination.
    pub fn from_str(coin_str: &str) -> (r: Result<Coin, Error>)
        ensures
            r.is_ok() == parse_coin(coin_str@).is_some(),
            r.is_ok() ==> Some(r.unwrap()@) == parse_coin(coin_str@),
            r.is_err() ==> is_parse_error(coin_str@, r.unwrap_err()),
    {
        let n: usize = coin_str.unicode_len();
        let mut run: usize = 0;
        while run < n
            invariant
                run <= n,
                n == coin_str@.len(),
                forall|j: int| 0 <= j < run ==> is_digit(#[trigger] coin_str@[j]),
            ensures
                run <= n,
                is_digit_run(coin_str@, run as int),
            decreases n - run,
        {
            let c = coin_str.get_char(run);
            if !('0' <= c && c <= '9') {
                break ;
            }
            run += 1;
        }
        proof {
            lemma_digit_run(coin_str@, run as int);
        }
        if n < 2 || run == 0 {
            return Err(Error::InvalidCoin { coin: coin_str.to_owned() });
        }
        let split: usize = if run == n {
            run - 1
        } else {
            run
        };
        let mut i: usize = split;
        while i < n
            invariant
                split <= i <= n,
                n == coin_str@.len(),
                coin_split_index(coin_str@) == split,
                forall|j: int| split <= j < i ==> is_coin_text_char(#[trigger] coin_str@[j]),
            decreases n - i,
        {
            if !char_is_coin_text_char(coin_str.get_char(i)) {
                return Err(Error::InvalidCoin { coin: coin_str.to_owned() });
            }
            i += 1;
        }
        let digits = coin_str.substring_char(0, split);
        let denom = coin_str.substring_char(split, n);
        match Amount::from_str(digits) {
            Ok(amount) => Ok(Coin { denom: denom.to_owned(), amount }),
            Err(e) => Err(e),
        }
    }

    /// Reads a list of coins from their texts, separated by commas. The
    /// first text that is not a coin ends the reading with its error.
    pub fn from_string_list(coin_str: &str) -> (r: Result<Vec<Coin>, Error>)
        ensures
            r.is_ok() == (forall|j: int|
                0 <= j < split_commas(coin_str@).len() ==> parse_coin(
                    #[trigger] split_commas(coin_str@)[j],
                ).is_some()),
            r.is_ok() ==> r.unwrap()@.len() == split_commas(coin_str@).len(),
            r.is_ok() ==> forall|j: int|
                0 <= j < split_commas(coin_str@).len() ==> parse_coin(
                    #[trigger] split_commas(coin_str@)[j],
                ) == Some(r.unwrap()@[j]@),
            r.is_err() ==> exists|k: int|
                0 <= k < split_commas(coin_str@).len() && is_parse_error(
                    #[trigger] split_commas(coin_str@)[k],
                    r.unwrap_err(),
                ) && forall|j: int|
                    0 <= j < k ==> parse_coin(#[trigger] split_commas(coin_str@)[j]).is_some(),
    {
        let n: usize = coin_str.unicode_len();
        let ghost segs = split_commas(coin_str@);
        let ghost mut done: Seq<Seq<char>> = Seq::empty();
        let mut out: Vec<Coin> = Vec::new();
        let mut start: usize = 0;
        let mut i: usize = 0;
        proof {
            assert(coin_str@.subrange(0, n as int) =~= coin_str@);
        }
        while i < n
            invariant
                start <= i <= n,
                n == coin_str@.len(),
                segs == split_commas(coin_str@),
                segs =~= done + split_commas(coin_str@.subrange(start as int, n as int)),
                done.len() == out@.len(),
                forall|j: int| start <= j < i ==> #[trigger] coin_str@[j] != ',',
                forall|j: int|
                    0 <= j < done.len() ==> parse_coin(#[trigger] done[j]) == Some(out@[j]@),
            decreases n - i,
        {
            if coin_str.get_char(i) == ',' {
                let piece = coin_str.substring_char(start, i);
                let ghost rest = coin_str@.subrange(start as int, n as int);
                proof {
                    assert(is_first_comma(rest, i - start));
                    lemma_first_comma(rest, i - start);
                    assert(rest.subrange(0, i - start) =~= piece@);
                    assert(rest.subrange(i - start + 1, rest.len() as int)
                        =~= coin_str@.subrange(i + 1, n as int));
                    assert(segs[done.len() as int] == piece@);
                }
                match Coin::from_str(piece) {
                    Ok(c) => {
                        out.push(c);
                        proof {
                            done = done.push(piece@);
                        }
                    },
                    Err(e) => {
                        proof {
                            let k = done.len() as int;
                            assert forall|j: int| 0 <= j < k implies parse_coin(
                                #[trigger] segs[j],
                            ).is_some() by {
                                assert(segs[j] == done[j]);
                            }
                            assert(is_parse_error(segs[k], e));
                            assert(!parse_coin(segs[k]).is_some());
                        }
                        return Err(e);
                    },
                }
                start = i + 1;
            }
            i += 1;
        }
        let piece = coin_str.substring_char(start, n);
        proof {
            assert(is_first_comma(piece@, piece@.len() as int));
            lemma_first_comma(piece@, piece@.len() as int);
            assert(segs =~= done.push(piece@));
        }
        match Coin::from_str(piece) {
            Ok(c) => {
                out.push(c);
                proof {
                    assert forall|j: int| 0 <= j < segs.len() implies parse_coin(
                        #[trigger] segs[j],
                    ) == Some(out@[j]@) by {
                        if j < done.len() {
                            assert(segs[j] == done[j]);
                        }
                    }
                }
                Ok(out)
            },
            Err(e) => {
                proof {
                    let k = done.len() as int;
                    assert forall|j: int| 0 <= j < k implies parse_coin(
                        #[trigger] segs[j],
                    ).is_some() by {
                        assert(segs[j] == done[j]);
                    }
                    assert(is_parse_error(segs[k], e));
                    assert(!parse_coin(segs[k]).is_some());
                }
                Err(e)
            },
        }
    }

    /// The text of the coin: its decimal amount followed by its
    /// denomination.
    pub fn to_string(&self) -> (r: String)
        ensures
            r@ == coin_text(self@),
    {
        self.amount.to_string().concat(self.denom.as_str())
    }

    /// Accepts a coin whose denomination fits the denomination pattern.
    pub fn validate(&self) -> (r: Result<(), Error>)
        ensures
            r.is_ok() == is_valid_denom(self@.denom),
            r.is_err() ==> (r.unwrap_err() matches Error::InvalidCoin { coin } && coin@
                == self@.denom),
    {
        crate::denom::validate_denom(self.denom.as_str())
    }

    /// Whether the coin's denomination fits the denomination pattern.
    pub fn is_valid(&self) -> (r: bool)
        ensures
            r == is_valid_denom(self@.denom),
    {
        denom_is_valid(self.denom.as_str())
    }

    /// Whether the coin is worth nothing.
    pub fn is_zero(&self) -> (r: bool)
        ensures
            r == (self@.amount == 0),
    {
        self.amount.is_zero()
    }

    /// Whether this coin is worth at least as much as another of the same
    /// denomination.
    pub fn is_gte(&self, other: Coin) -> (r: bool)
        requires
            self@.denom == other@.denom,
        ensures
            r == (self@.amount >= other@.amount),
    {
        !self.amount.lt(&other.amount)
    }

    /// Whether this coin is worth less than another of the same
    /// denomination.
    pub fn is_lt(&self, other: Coin) -> (r: bool)
        requires
            self@.denom == other@.denom,
        ensures
            r == (self@.amount < other@.amount),
    {
        self.amount.lt(&other.amount)
    }

    /// Whether this coin is worth at most as much as another of the same
    /// denomination.
    pub fn is_lte(&self, other: Coin) -> (r: bool)
        requires
            self@.denom == other@.denom,
        ensures
            r == (self@.amount <= other@.amount),
    {
        !self.amount.gt(&other.amount)
    }

    /// Whether this coin comes before `other`, or is equal to it, in the
    /// order of coins: by denomination, then by amount.
    pub fn precedes(&self, other: &Coin) -> (r: bool)
        ensures
            r == coin_le(self@, other@),
    {
        if str_lt(self.denom.as_str(), other.denom.as_str()) {
            true
        } else if str_lt(other.denom.as_str(), self.denom.as_str()) {
            proof {
                lemma_lex_asymmetric(other@.denom, self@.denom);
            }
            false
        } else {
            proof {
                lemma_lex_total(self@.denom, other@.denom);
                lemma_lex_irreflexive(self@.denom);
            }
            !self.amount.gt(&other.amount)
        }
    }

    /// Whether the two coins have the same denomination and amount.
    pub fn is_equal(&self, other: Coin) -> (r: bool)
        ensures
            r == (self@ == other@),
    {
        self.denom == other.denom && self.amount.is_equal(&other.amount)
    }

    /// The coin with `amount` more units.
    pub fn add_amount(&self, amount: Amount) -> (r: Coin)
        requires
            self@.amount + amount@ < amount_limit(),
        ensures
            r@ == (CoinModel { denom: self@.denom, amount: self@.amount + amount@ }),
    {
        Coin { denom: self.denom.clone(), amount: self.amount.add(amount) }
    }

    /// The coin with `amount` fewer units, where it has that many.
    pub fn sub_amount(&self, amount: Amount) -> (r: Coin)
        requires
            amount@ <= self@.amount,
        ensures
            r@ == (CoinModel { denom: self@.denom, amount: (self@.amount - amount@) as nat }),
    {
        Coin { denom: self.denom.clone(), amount: self.amount.sub(amount) }
    }

    /// The sum of two coins of one denomination.
    pub fn add(self, other: Coin) -> (r: Coin)
        requires
            self@.denom == other@.denom,
            self@.amount + other@.amount < amount_limit(),
        ensures
            r@ == (CoinModel { denom: self@.denom, amount: self@.amount + other@.amount }),
    {
        Coin { denom: self.denom, amount: self.amount.add(other.amount) }
    }

    /// The difference of two coins of one denomination, the second not the
    /// greater.
    pub fn sub(self, other: Coin) -> (r: Coin)
        requires
            self@.denom == other@.denom,
            other@.amount <= self@.amount,
        ensures
            r@ == (CoinModel {
                denom: self@.denom,
                amount: (self@.amount - other@.amount) as nat,
            }),
    {
        Coin { denom: self.denom, amount: self.amount.sub(other.amount) }
    }

    /// The coin with `factor` times as many units.
    pub fn mul(self, factor: u64) -> (r: Coin)
        requires
            self@.amount * factor < amount_limit(),
        ensures
            r@ == (CoinModel { denom: self@.denom, amount: self@.amount * (factor as nat) }),
    {
        Coin { denom: self.denom, amount: self.amount.mul(factor) }
    }

    /// The coin with its units divided by `divisor`, rounded towards zero.
    pub fn div(self, divisor: u64) -> (r: Coin)
        requires
            divisor != 0,
        ensures
            r@ == (CoinModel { denom: self@.denom, amount: self@.amount / (divisor as nat) }),
    {
        Coin { denom: self.denom, amount: self.amount.div(divisor) }
    }
}

} // verus!
