//! Denominations: the names of token types, and the pattern they must fit.

use crate::errors::Error;
use vstd::prelude::*;
use vstd::string::StrSliceExecFns;

verus! {

/// The shortest length of a denomination.
pub const MIN_DENOM_LEN: usize = 3;

/// The longest length of a denomination.
pub const MAX_DENOM_LEN: usize = 128;

/// `c` is an ASCII letter.
pub open spec fn is_letter(c: char) -> bool {
    ('a' <= c && c <= 'z') || ('A' <= c && c <= 'Z')
}

/// `c` may stand in a denomination after its first character: a letter, a
/// digit, or one of `/`, `:`, `.`, `_` and `-`.
pub open spec fn is_denom_char(c: char) -> bool {
    is_letter(c) || ('0' <= c && c <= '9') || c == '/' || c == ':' || c == '.' || c == '_'
        || c == '-'
}

/// `s` is a denomination: a letter followed by 2 to 127 denomination
/// characters.
pub open spec fn is_valid_denom(s: Seq<char>) -> bool {
    &&& MIN_DENOM_LEN <= s.len() <= MAX_DENOM_LEN
    &&& is_letter(s[0])
    &&& forall|i: int| 1 <= i < s.len() ==> is_denom_char(#[trigger] s[i])
}

/// `s` is a non-empty string of ASCII letters and digits.
pub open spec fn is_alphanumeric(s: Seq<char>) -> bool {
    &&& s.len() >= 1
    &&& forall|i: int|
        0 <= i < s.len() ==> is_letter(#[trigger] s[i]) || ('0' <= s[i] && s[i] <= '9')
}

/// Whether `c` is an ASCII letter.
pub fn char_is_letter(c: char) -> (r: bool)
    ensures
        r == is_letter(c),
{
    ('a' <= c && c <= 'z') || ('A' <= c && c <= 'Z')
}

/// Whether `c` may stand in a denomination after its first character.
pub fn char_is_denom_char(c: char) -> (r: bool)
    ensures
        r == is_denom_char(c),
{
    char_is_letter(c) || ('0' <= c && c <= '9') || c == '/' || c == ':' || c == '.' || c == '_'
        || c == '-'
}

/// Whether `denom` fits the denomination pattern.
pub fn denom_is_valid(denom: &str) -> (r: bool)
    ensures
        r == is_valid_denom(denom@),
{
    let n: usize = denom.unicode_len();
    if n < MIN_DENOM_LEN || n > MAX_DENOM_LEN {
        return false;
    }
    if !char_is_letter(denom.get_char(0)) {
        return false;
    }
    let mut i: usize = 1;
    while i < n
        invariant
            1 <= i <= n,
            n == denom@.len(),
            forall|j: int| 1 <= j < i ==> is_denom_char(#[trigger] denom@[j]),
        decreases n - i,
    {
        if !char_is_denom_char(denom.get_char(i)) {
            return false;
        }
        i += 1;
    }
    true
}

/// Accepts a denomination that fits the pattern and rejects any other text
/// with `InvalidCoin`, which carries the text.
pub fn validate_denom(denom: &str) -> (r: Result<(), Error>)
    ensures
        r.is_ok() == is_valid_denom(denom@),
        r.is_err() ==> (r.unwrap_err() matches Error::InvalidCoin { coin } && coin@ == denom@),
{
    if denom_is_valid(denom) {
        Ok(())
    } else {
        Err(Error::InvalidCoin { coin: denom.to_owned() })
    }
}

/// The denomination pattern, written as a regular expression.
pub fn default_coin_denom_regex() -> (r: String)
    ensures
        r@ == "[a-zA-Z][a-zA-Z0-9/:._-]{2,127}"@,
{
    "[a-zA-Z][a-zA-Z0-9/:._-]{2,127}".to_owned()
}

/// Whether `s` is a non-empty string of ASCII letters and digits.
pub fn is_alpha(s: &str) -> (r: bool)
    ensures
        r == is_alphanumeric(s@),
{
    let n: usize = s.unicode_len();
    if n == 0 {
        return false;
    }
    let mut i: usize = 0;
    while i < n
        invariant
            i <= n,
            n == s@.len(),
            forall|j: int|
                0 <= j < i ==> is_letter(#[trigger] s@[j]) || ('0' <= s@[j] && s@[j] <= '9'),
        decreases n - i,
    {
        let c = s.get_char(i);
        if !(char_is_letter(c) || ('0' <= c && c <= '9')) {
            return false;
        }
        i += 1;
    }
    true
}

} // verus!
