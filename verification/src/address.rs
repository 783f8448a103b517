//! Account addresses, their hexadecimal and Bech32 texts, and the cache of
//! Bech32 texts.

use crate::errors::Error;
use lru::LruCache;
use vstd::prelude::*;
use vstd::string::StrSliceExecFns;

verus! {

/// The main Bech32 prefix of an account's address.
pub const BECH32_MAIN_PREFIX: &'static str = "cosmos";

/// The purpose of the key paths: 44, as for every path of that kind.
pub const PURPOSE: u32 = 44;

/// The coin type of the key paths.
pub const COIN_TYPE: u32 = 118;

/// The key path that was used at the fundraiser.
pub const FULL_FUNDRAISER_PATH: &'static str = "m/44'/118'/0'/0/0";

/// The prefix for account keys.
pub const PREFIX_ACCOUNT: &'static str = "acc";

/// The prefix for validator keys.
pub const PREFIX_VALIDATOR: &'static str = "val";

/// The prefix for consensus keys.
pub const PREFIX_CONSENSUS: &'static str = "cons";

/// The prefix for public keys.
pub const PREFIX_PUBLIC: &'static str = "pub";

/// The prefix for operator keys.
pub const PREFIX_OPERATOR: &'static str = "oper";

/// The prefix for addresses.
pub const PREFIX_ADDRESS: &'static str = "addr";

/// The Bech32 prefix of an account's address.
pub const BECH32_PREFIX_ACC_ADDR: &'static str = "cosmos";

/// What the kinds of addresses have in common.
pub trait Address: PartialEq + Eq {
    fn empty(&self) -> bool;

    fn marshal(&self) -> Result<Vec<u8>, Error>;

    fn marshal_json(&self) -> Result<Vec<u8>, Error>;

    fn bytes(&self) -> Vec<u8>;

    fn to_string(&self) -> String;
}

/// The address of an account: its bytes.
#[derive(Clone, Debug, Default, PartialEq, Eq)]
pub struct AccAddress {
    pub bytes: Vec<u8>,
}

impl AccAddress {
    /// Whether the address has no bytes.
    pub fn empty(&self) -> (r: bool)
        ensures
            r == (self.bytes@.len() == 0),
    {
        self.bytes.len() == 0
    }

    /// The bytes of the address.
    pub fn bytes(&self) -> (r: Vec<u8>)
        ensures
            r@ == self.bytes@,
    {
        self.bytes.clone()
    }
}

/// `c` is a hexadecimal digit, in either case.
pub open spec fn is_hex_digit(c: char) -> bool {
    ('0' <= c && c <= '9') || ('a' <= c && c <= 'f') || ('A' <= c && c <= 'F')
}

/// The number that the hexadecimal digit `c` stands for.
pub open spec fn hex_value(c: char) -> int {
    if '0' <= c && c <= '9' {
        c as int - '0' as int
    } else if 'a' <= c && c <= 'f' {
        c as int - 'a' as int + 10
    } else {
        c as int - 'A' as int + 10
    }
}

/// `s` is an even number of hexadecimal digits.
pub open spec fn is_hex_text(s: Seq<char>) -> bool {
    &&& s.len() % 2 == 0
    &&& forall|i: int| 0 <= i < s.len() ==> is_hex_digit(#[trigger] s[i])
}

/// The bytes that the hexadecimal text `s` denotes: one for every two
/// digits, the first digit of the two being the upper half.
pub open spec fn hex_bytes(s: Seq<char>) -> Seq<u8> {
    Seq::new(s.len() / 2, |i: int| (hex_value(s[2 * i]) * 16 + hex_value(s[2 * i + 1])) as u8)
}

#[verifier::external_type_specification]
#[verifier::external_body]
pub struct ExFromHexError(hex::FromHexError);

/// The bytes that a hexadecimal text denotes.
///
/// Trusted: this is `hex::decode`, which accepts exactly the texts made of
/// an even number of hexadecimal digits, in either case, and returns one
/// byte for every two digits.
#[verifier::external_body]
fn hex_decode(text: &str) -> (r: Result<Vec<u8>, hex::FromHexError>)
    ensures
        r.is_ok() == is_hex_text(text@),
        r.is_ok() ==> r.unwrap()@ == hex_bytes(text@),
{
    hex::decode(text)
}

/// The bytes of an address given in hexadecimal. The empty text is refused
/// with `EmptyBech32Address`, a text that is not an even number of
/// hexadecimal digits with `InvalidHex`.
pub fn address_bytes_from_hex_string(address: &str) -> (r: Result<Vec<u8>, Error>)
    ensures
        r.is_ok() == (address@.len() > 0 && is_hex_text(address@)),
        r matches Ok(bytes) ==> bytes@ == hex_bytes(address@),
        r matches Err(e) ==> if address@.len() == 0 {
            e is EmptyBech32Address
        } else {
            e is InvalidHex
        },
{
    if address.is_empty() {
        return Err(Error::EmptyBech32Address);
    }
    match hex_decode(address) {
        Ok(bytes) => Ok(bytes),
        Err(_) => Err(Error::InvalidHex),
    }
}

/// The account address that a hexadecimal text denotes, whatever bytes it
/// denotes: nothing is asked of them.
pub fn acc_address_from_hex_unsafe(address: &str) -> (r: Result<AccAddress, Error>)
    ensures
        r.is_ok() == (address@.len() > 0 && is_hex_text(address@)),
        r matches Ok(a) ==> a.bytes@ == hex_bytes(address@),
        r matches Err(e) ==> if address@.len() == 0 {
            e is EmptyBech32Address
        } else {
            e is InvalidHex
        },
{
    match address_bytes_from_hex_string(address) {
        Ok(bytes) => Ok(AccAddress { bytes }),
        Err(e) => Err(e),
    }
}

/// `s` may be the human-readable part of a Bech32 text: 1 to 83 visible
/// ASCII characters, its letters all of one case.
pub open spec fn is_valid_hrp(s: Seq<char>) -> bool {
    &&& 1 <= s.len() <= 83
    &&& forall|i: int| 0 <= i < s.len() ==> '!' <= #[trigger] s[i] && s[i] <= '~'
    &&& !((exists|i: int| 0 <= i < s.len() && 'a' <= #[trigger] s[i] && s[i] <= 'z') && (exists|
        i: int,
    | 0 <= i < s.len() && 'A' <= #[trigger] s[i] && s[i] <= 'Z'))
}

/// Every byte of `data` is a group of five bits.
pub open spec fn is_five_bit_data(data: Seq<u8>) -> bool {
    forall|i: int| 0 <= i < data.len() ==> #[trigger] data[i] <= 31
}

/// Whether `hrp` may be the human-readable part of a Bech32 text.
pub fn hrp_is_valid(hrp: &str) -> (r: bool)
    ensures
        r == is_valid_hrp(hrp@),
{
    let n: usize = hrp.unicode_len();
    if n < 1 || n > 83 {
        return false;
    }
    let mut lower: bool = false;
    let mut upper: bool = false;
    let mut i: usize = 0;
    while i < n
        invariant
            i <= n,
            n == hrp@.len(),
            forall|j: int| 0 <= j < i ==> '!' <= #[trigger] hrp@[j] && hrp@[j] <= '~',
            lower == (exists|j: int| 0 <= j < i && 'a' <= #[trigger] hrp@[j] && hrp@[j] <= 'z'),
            upper == (exists|j: int| 0 <= j < i && 'A' <= #[trigger] hrp@[j] && hrp@[j] <= 'Z'),
        decreases n - i,
    {
        let c = hrp.get_char(i);
        if !('!' <= c && c <= '~') {
            return false;
        }
        if 'a' <= c && c <= 'z' {
            lower = true;
        }
        if 'A' <= c && c <= 'Z' {
            upper = true;
        }
        i += 1;
    }
    !(lower && upper)
}

/// Whether every byte of `data` is a group of five bits.
pub fn data_is_five_bit(data: &[u8]) -> (r: bool)
    ensures
        r == is_five_bit_data(data@),
{
    let mut i: usize = 0;
    while i < data.len()
        invariant
            i <= data@.len(),
            forall|j: int| 0 <= j < i ==> #[trigger] data@[j] <= 31,
        decreases data@.len() - i,
    {
        if data[i] > 31 {
            return false;
        }
        i += 1;
    }
    true
}

/// The Bech32 text of the five-bit groups `data` under the human-readable
/// part `hrp`.
pub uninterp spec fn bech32_encoding(hrp: Seq<char>, data: Seq<u8>) -> Seq<char>;

/// The human-readable part and the five-bit groups that a Bech32 text
/// holds, where it is one.
pub uninterp spec fn bech32_decoding(text: Seq<char>) -> Option<(Seq<char>, Seq<u8>)>;

/// The Bech32 text of five-bit groups.
///
/// Trusted: this is `bech32::encode` with the checksum of the first Bech32
/// variant, which fails only on a human-readable part that is not valid;
/// each byte is first made a five-bit group, which fails only on a byte
/// above 31.
#[verifier::external_body]
fn bech32_encode(hrp: &str, data: &[u8]) -> (r: String)
    requires
        is_valid_hrp(hrp@),
        is_five_bit_data(data@),
    ensures
        r@ == bech32_encoding(hrp@, data@),
{
    let groups: Vec<bech32::u5> = data.iter().map(|v| bech32::u5::try_from_u8(*v).unwrap()).collect();
    bech32::encode(hrp, groups, bech32::Variant::Bech32).unwrap()
}

/// The human-readable part and the five-bit groups of a Bech32 text.
///
/// Trusted: this is `bech32::decode`; which checksum the text carries is
/// left aside.
#[verifier::external_body]
fn bech32_decode(text: &str) -> (r: Option<(String, Vec<u8>)>)
    ensures
        r matches Some(parts) ==> bech32_decoding(text@) == Some((parts.0@, parts.1@)),
        r is None ==> bech32_decoding(text@) is None,
{
    match bech32::decode(text) {
        Ok((hrp, data, _)) => Some((hrp, data.into_iter().map(|v| v.to_u8()).collect())),
        Err(_) => None,
    }
}

/// The five-bit groups of a decoded Bech32 text whose human-readable part
/// is `prefix`; any other human-readable part is refused with
/// `InvalidBech32Prefix`.
pub fn check_bech32_prefix(hrp: String, data: Vec<u8>, prefix: &str) -> (r: Result<Vec<u8>, Error>)
    ensures
        r.is_ok() == (hrp@ == prefix@),
        r matches Ok(bytes) ==> bytes@ == data@,
        r matches Err(e) ==> e is InvalidBech32Prefix,
{
    let expected = prefix.to_owned();
    if hrp == expected {
        Ok(data)
    } else {
        Err(Error::InvalidBech32Prefix)
    }
}

/// What reading the Bech32 text `text` under the prefix `prefix` gives.
pub open spec fn is_bech32_reading(
    text: Seq<char>,
    prefix: Seq<char>,
    r: Result<Vec<u8>, Error>,
) -> bool {
    if text.len() == 0 {
        r matches Err(e) && e is EmptyBech32Address
    } else {
        match bech32_decoding(text) {
            None => r matches Err(e) && e is InvalidBech32,
            Some(parts) => if parts.0 == prefix {
                r matches Ok(bytes) && bytes@ == parts.1
            } else {
                r matches Err(e) && e is InvalidBech32Prefix
            },
        }
    }
}

/// The five-bit groups of the Bech32 text `bech32str`, whose human-readable
/// part must be `prefix`. The empty text is refused with
/// `EmptyBech32Address`, a text that is not Bech32 with `InvalidBech32`,
/// another human-readable part with `InvalidBech32Prefix`.
pub fn get_from_bech32(bech32str: &str, prefix: &str) -> (r: Result<Vec<u8>, Error>)
    ensures
        is_bech32_reading(bech32str@, prefix@, r),
{
    if bech32str.is_empty() {
        return Err(Error::EmptyBech32Address);
    }
    match bech32_decode(bech32str) {
        Some(parts) => check_bech32_prefix(parts.0, parts.1, prefix),
        None => Err(Error::InvalidBech32),
    }
}

#[verifier::external_type_specification]
#[verifier::external_body]
#[verifier::reject_recursive_types(K)]
#[verifier::reject_recursive_types(V)]
#[verifier::reject_recursive_types(S)]
pub struct ExLruCache<K, V, S>(LruCache<K, V, S>);

#[verifier::external_type_specification]
#[verifier::external_body]
pub struct ExDefaultHasher(lru::DefaultHasher);

/// The texts that a cache holds, each under its key.
pub uninterp spec fn cache_entries(cache: LruCache<String, String>) -> Map<Seq<char>, Seq<char>>;

/// The number of entries that a cache was made for; it is at least one.
pub uninterp spec fn cache_capacity(cache: LruCache<String, String>) -> nat;

/// Puts a text into the cache under a key.
///
/// Trusted: this is `LruCache::put`. A key that is in the cache gets the
/// new text. A new key is added; where the cache is full, one entry, the
/// one that was used longest ago, leaves first. No other entry changes.
#[verifier::external_body]
fn cache_put(cache: &mut LruCache<String, String>, key: String, value: String)
    ensures
        cache_capacity(*final(cache)) == cache_capacity(*old(cache)),
        cache_entries(*final(cache)).contains_key(key@),
        cache_entries(*final(cache))[key@] == value@,
        forall|k: Seq<char>|
            k != key@ && #[trigger] cache_entries(*final(cache)).contains_key(k)
                ==> cache_entries(*old(cache)).contains_key(k) && cache_entries(*final(cache))[k]
                == cache_entries(*old(cache))[k],
        cache_entries(*old(cache)).contains_key(key@) || cache_entries(*old(cache)).len()
            < cache_capacity(*old(cache)) ==> cache_entries(*final(cache)) == cache_entries(
            *old(cache),
        ).insert(key@, value@),
{
    cache.put(key, value);
}

/// The Bech32 text of `addr` under `prefix`, which is also put into the
/// cache under `cache_key`. Every byte of `addr` is taken as one five-bit
/// group.
pub fn cache_bech32_addr(
    prefix: &str,
    addr: &[u8],
    cache: &mut LruCache<String, String>,
    cache_key: &str,
) -> (r: String)
    requires
        is_valid_hrp(prefix@),
        is_five_bit_data(addr@),
    ensures
        r@ == bech32_encoding(prefix@, addr@),
        cache_capacity(*final(cache)) == cache_capacity(*old(cache)),
        cache_entries(*final(cache)).contains_key(cache_key@),
        cache_entries(*final(cache))[cache_key@] == r@,
        forall|k: Seq<char>|
            k != cache_key@ && #[trigger] cache_entries(*final(cache)).contains_key(k)
                ==> cache_entries(*old(cache)).contains_key(k) && cache_entries(*final(cache))[k]
                == cache_entries(*old(cache))[k],
        cache_entries(*old(cache)).contains_key(cache_key@) || cache_entries(*old(cache)).len()
            < cache_capacity(*old(cache)) ==> cache_entries(*final(cache)) == cache_entries(
            *old(cache),
        ).insert(cache_key@, r@),
{
    let bech32_addr = bech32_encode(prefix, addr);
    cache_put(cache, cache_key.to_owned(), bech32_addr.clone());
    bech32_addr
}

} // verus!
