//! The errors that parsing and construction hand back.

use vstd::prelude::*;

verus! {

/// What went wrong while a coin, a coin set or an address was built.
#[derive(Debug, Clone, PartialEq, Eq)]
pub enum Error {
    /// The text is not an amount followed by a denomination, or the
    /// denomination does not fit the denomination pattern.
    InvalidCoin { coin: String },
    /// The denomination is not acceptable.
    InvalidDenom(String),
    /// The text is not a decimal number that fits an amount.
    InvalidAmount(String),
    /// No amount was given.
    AmountIsNil,
    /// A denomination trace has the wrong number of parts.
    InvalidTraceLength { len: usize },
    /// The base denomination is empty.
    EmptyBaseDenom,
    /// Two coins that must share a denomination do not.
    InvalidCoinDenom { left: String, right: String },
    /// A coin of a set is worth nothing; the denomination is that of the
    /// coin.
    ZeroAmount { denom: String },
    /// Two entries of a coin set share a denomination.
    DuplicateDenom,
    /// The entries of a coin set are not in ascending order of denomination.
    DenomNotSorted,
    /// An empty string was given where a Bech32 address was expected.
    EmptyBech32Address,
    /// The Bech32 prefix is not the expected one.
    InvalidBech32Prefix,
    /// A Bech32 address decoded to nothing.
    Bech32EmptyAddress,
    /// An empty string was given where a hex address was expected.
    EmptyHexAddress,
    /// The text is not an even number of hexadecimal digits.
    InvalidHex,
    /// The results of a transaction hold responses of a kind that is not
    /// understood.
    TxMsgDataUnsupported,
    /// The text is not a Bech32 text.
    InvalidBech32,
}

} // verus!
