use cosmos_coins::address::{
    acc_address_from_hex_unsafe, address_bytes_from_hex_string, cache_bech32_addr,
    check_bech32_prefix, data_is_five_bit, get_from_bech32, hrp_is_valid, AccAddress,
};
use cosmos_coins::errors::Error;
use cosmos_coins::kv::{assert_key_at_least_length, assert_key_length};
use cosmos_coins::staking::{tokens_from_consensus_power, tokens_to_consensus_power};
use lru::LruCache;
use std::num::NonZeroUsize;

#[test]
fn hex_addresses() {
    assert_eq!(address_bytes_from_hex_string("00ff1A"), Ok(vec![0u8, 255, 26]));
    assert_eq!(address_bytes_from_hex_string("6b697769"), Ok(b"kiwi".to_vec()));
    assert_eq!(address_bytes_from_hex_string(""), Err(Error::EmptyBech32Address));
    assert_eq!(address_bytes_from_hex_string("abc"), Err(Error::InvalidHex));
    assert_eq!(address_bytes_from_hex_string("zz"), Err(Error::InvalidHex));
    let addr = acc_address_from_hex_unsafe("0A0b").unwrap();
    assert_eq!(addr, AccAddress { bytes: vec![10, 11] });
    assert!(!addr.empty());
    assert_eq!(addr.bytes(), vec![10, 11]);
    assert!(AccAddress { bytes: vec![] }.empty());
    assert!(acc_address_from_hex_unsafe("0g").is_err());
}

#[test]
fn bech32_texts() {
    let data: Vec<u8> = (0u8..32).collect();
    let text = "abcdef1qpzry9x8gf2tvdw0s3jn54khce6mua7lmqqqxw";
    assert_eq!(get_from_bech32(text, "abcdef"), Ok(data.clone()));
    assert_eq!(get_from_bech32(text, "cosmos"), Err(Error::InvalidBech32Prefix));
    assert_eq!(get_from_bech32("", "cosmos"), Err(Error::EmptyBech32Address));
    assert_eq!(get_from_bech32("abcdef1qpzry9x8", "abcdef"), Err(Error::InvalidBech32));
    assert_eq!(get_from_bech32("a12uel5l", "a"), Ok(vec![]));
    assert_eq!(check_bech32_prefix("a".to_string(), vec![1, 2], "a"), Ok(vec![1, 2]));
    assert_eq!(
        check_bech32_prefix("a".to_string(), vec![1, 2], "b"),
        Err(Error::InvalidBech32Prefix)
    );
}

#[test]
fn bech32_cache() {
    let data: Vec<u8> = (0u8..32).collect();
    let mut cache: LruCache<String, String> = LruCache::new(NonZeroUsize::new(2).unwrap());
    let text = cache_bech32_addr("abcdef", &data, &mut cache, "first");
    assert_eq!(text, "abcdef1qpzry9x8gf2tvdw0s3jn54khce6mua7lmqqqxw");
    assert_eq!(cache.peek("first"), Some(&text));
    let empty = cache_bech32_addr("a", &[], &mut cache, "second");
    assert_eq!(empty, "a12uel5l");
    assert_eq!(cache.len(), 2);
    let again = cache_bech32_addr("a", &[], &mut cache, "first");
    assert_eq!(cache.peek("first"), Some(&again));
    assert_eq!(cache.peek("second"), Some(&empty));
    let _ = cache_bech32_addr("a", &[], &mut cache, "third");
    assert_eq!(cache.len(), 2);
    assert_eq!(cache.peek("third"), Some(&empty));
    assert_eq!(get_from_bech32(&text, "abcdef"), Ok(data));
}

#[test]
fn consensus_power() {
    assert_eq!(tokens_to_consensus_power(2_500_000, 1_000_000), 2);
    assert_eq!(tokens_to_consensus_power(-2_500_000, 1_000_000), -2);
    assert_eq!(tokens_to_consensus_power(2_500_000, -1_000_000), -2);
    assert_eq!(tokens_to_consensus_power(-2_500_000, -1_000_000), 2);
    assert_eq!(tokens_to_consensus_power(i64::MIN, 1), i64::MIN);
    assert_eq!(tokens_to_consensus_power(i64::MIN, 2), i64::MIN / 2);
    assert_eq!(tokens_to_consensus_power(0, 7), 0);
    assert_eq!(tokens_from_consensus_power(3, 1_000_000), 3_000_000);
    assert_eq!(tokens_from_consensus_power(-3, 1_000_000), -3_000_000);
}

#[test]
fn key_lengths() {
    assert_key_at_least_length(&[1, 2, 3], 2);
    assert_key_at_least_length(&[1, 2, 3], 3);
    assert_key_length(&[1, 2, 3], 3);
    assert_key_length(&[], 0);
}

#[test]
fn bech32_conditions() {
    assert!(hrp_is_valid("cosmos"));
    assert!(hrp_is_valid("COSMOS1"));
    assert!(hrp_is_valid("a"));
    assert!(!hrp_is_valid(""));
    assert!(!hrp_is_valid("Cosmos"));
    assert!(!hrp_is_valid("cos mos"));
    assert!(!hrp_is_valid("cosm\u{f6}s"));
    assert!(hrp_is_valid(&"a".repeat(83)));
    assert!(!hrp_is_valid(&"a".repeat(84)));
    assert!(data_is_five_bit(&[]));
    assert!(data_is_five_bit(&[0, 31]));
    assert!(!data_is_five_bit(&[0, 32]));
}
