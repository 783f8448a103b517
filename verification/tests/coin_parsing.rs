use cosmos_coins::amount::Amount;
use cosmos_coins::coin::{BaseCoin, Coin};
use cosmos_coins::denom::{is_alpha, validate_denom};
use cosmos_coins::errors::Error;

type RawCoin = Coin;

#[test]
fn test_parse_raw_coin() -> Result<(), Error> {
    {
        let coin = RawCoin::from_str("123stake")?;
        assert_eq!(coin.denom, "stake");
        assert_eq!(coin.amount, 123u64.into());
    }

    {
        let coin = RawCoin::from_str("1a1")?;
        assert_eq!(coin.denom, "a1");
        assert_eq!(coin.amount, 1u64.into());
    }

    {
        let coin = RawCoin::from_str("0x1/:.\\_-")?;
        assert_eq!(coin.denom, "x1/:.\\_-");
        assert_eq!(coin.amount, 0u64.into());
    }

    {
        // `!` is not allowed
        let res = RawCoin::from_str("0x!");
        assert!(res.is_err());
    }

    Ok(())
}

#[test]
fn test_parse_raw_coin_list() -> Result<(), Error> {
    {
        let coins = RawCoin::from_string_list("123stake,1a1,999den0m")?;
        assert_eq!(coins.len(), 3);

        assert_eq!(coins[0].denom, "stake");
        assert_eq!(coins[0].amount, 123u64.into());

        assert_eq!(coins[1].denom, "a1");
        assert_eq!(coins[1].amount, 1u64.into());

        assert_eq!(coins[2].denom, "den0m");
        assert_eq!(coins[2].amount, 999u64.into());
    }

    Ok(())
}

#[test]
fn test_valid_denom() -> Result<(), Error> {
    let base_coin = BaseCoin::new("stake".into(), 23)?;
    assert_eq!(base_coin.denom.as_str(), "stake");
    println!("base coin: {:?}", base_coin);
    Ok(())
}

#[test]
fn test_is_alpha() {
    assert!(is_alpha("abc123"));
}

#[test]
fn is_alpha_rejects_other_text() {
    assert!(!is_alpha(""));
    assert!(!is_alpha("abc 123"));
    assert!(!is_alpha("abc-123"));
    assert!(!is_alpha("abc123\n"));
    assert!(!is_alpha("é"));
    assert!(is_alpha("Z"));
}

#[test]
fn parse_reports_the_failing_text() {
    assert_eq!(
        RawCoin::from_str("0x!"),
        Err(Error::InvalidCoin { coin: "0x!".to_string() })
    );
    assert_eq!(
        RawCoin::from_str("stake"),
        Err(Error::InvalidCoin { coin: "stake".to_string() })
    );
    assert_eq!(
        RawCoin::from_str("!1stake"),
        Err(Error::InvalidCoin { coin: "!1stake".to_string() })
    );
    assert_eq!(RawCoin::from_str(""), Err(Error::InvalidCoin { coin: String::new() }));
    assert_eq!(RawCoin::from_str("7"), Err(Error::InvalidCoin { coin: "7".to_string() }));
    assert_eq!(
        RawCoin::from_str("12 stake"),
        Err(Error::InvalidCoin { coin: "12 stake".to_string() })
    );
    assert_eq!(
        RawCoin::from_str("5stäke"),
        Err(Error::InvalidCoin { coin: "5stäke".to_string() })
    );
}

#[test]
fn parse_of_digits_alone_leaves_the_last_to_the_denomination() {
    let coin = RawCoin::from_str("123").unwrap();
    assert_eq!(coin.amount, 12u64.into());
    assert_eq!(coin.denom, "3");
}

#[test]
fn parse_rejects_an_amount_that_does_not_fit() {
    let digits = "115792089237316195423570985008687907853269984665640564039457584007913129639936";
    let text = format!("{}stake", digits);
    assert_eq!(RawCoin::from_str(&text), Err(Error::InvalidAmount(digits.to_string())));
    let fits = "115792089237316195423570985008687907853269984665640564039457584007913129639935";
    let coin = RawCoin::from_str(&format!("{}stake", fits)).unwrap();
    assert_eq!(coin.amount.to_string(), fits);
    assert_eq!(coin.denom, "stake");
}

#[test]
fn parse_list_stops_at_the_first_failure() {
    assert_eq!(
        RawCoin::from_string_list("1stake,x,2!"),
        Err(Error::InvalidCoin { coin: "x".to_string() })
    );
    assert_eq!(
        RawCoin::from_string_list("1stake,"),
        Err(Error::InvalidCoin { coin: String::new() })
    );
    assert_eq!(RawCoin::from_string_list(""), Err(Error::InvalidCoin { coin: String::new() }));
    let one = RawCoin::from_string_list("42atom").unwrap();
    assert_eq!(one.len(), 1);
    assert_eq!(one[0].amount, Amount::from(42u64));
    assert_eq!(one[0].denom, "atom");
}

#[test]
fn text_round_trip() {
    let coin = Coin::new("ibc/27394FB092D2ECCD".to_string(), 1_000_000).unwrap();
    let text = coin.to_string();
    assert_eq!(text, "1000000ibc/27394FB092D2ECCD");
    assert_eq!(Coin::from_str(&text), Ok(coin));

    let zero = Coin::new("stake".to_string(), 0).unwrap();
    assert_eq!(zero.to_string(), "0stake");
    assert_eq!(Coin::from_str("0stake"), Ok(zero));
}

#[test]
fn denom_length_boundaries() {
    assert!(validate_denom("abc").is_ok());
    assert!(validate_denom("ab").is_err());
    let long = format!("a{}", "b".repeat(127));
    assert_eq!(long.len(), 128);
    assert!(validate_denom(&long).is_ok());
    let too_long = format!("a{}", "b".repeat(128));
    assert_eq!(too_long.len(), 129);
    assert!(validate_denom(&too_long).is_err());
}

#[test]
fn denom_characters() {
    assert!(validate_denom("a/:._-9Z").is_ok());
    assert_eq!(validate_denom("1ab"), Err(Error::InvalidCoin { coin: "1ab".to_string() }));
    assert!(validate_denom("ab!").is_err());
    assert!(validate_denom("ab\\").is_err());
    assert!(validate_denom("ab c").is_err());
    assert!(validate_denom("abc\n").is_err());
    assert!(validate_denom("").is_err());
    assert!(validate_denom("äbc").is_err());
    assert!(Coin::new("ab".to_string(), 1).is_err());
    assert_eq!(
        Coin::new("x!".to_string(), 1),
        Err(Error::InvalidCoin { coin: "x!".to_string() })
    );
}

#[test]
fn coin_amount_arithmetic() {
    let coin = Coin::new("stake".to_string(), 5).unwrap();
    let more = coin.add_amount(7u64.into());
    assert_eq!(more, Coin::new("stake".to_string(), 12).unwrap());
    let less = more.sub_amount(2u64.into());
    assert_eq!(less, Coin::new("stake".to_string(), 10).unwrap());
    assert_eq!(less.duplicate().add(coin.duplicate()).amount, 15u64.into());
    assert_eq!(less.duplicate().sub(coin.duplicate()).amount, 5u64.into());
    assert_eq!(less.duplicate().mul(3).amount, 30u64.into());
    assert_eq!(less.duplicate().div(4).amount, 2u64.into());
    assert_eq!(less.duplicate().div(4).denom, "stake");
}

#[test]
fn coin_comparisons() {
    let five = Coin::new("stake".to_string(), 5).unwrap();
    let seven = Coin::new("stake".to_string(), 7).unwrap();
    assert!(seven.is_gte(five.duplicate()));
    assert!(five.is_gte(five.duplicate()));
    assert!(!five.is_gte(seven.duplicate()));
    assert!(five.is_lt(seven.duplicate()));
    assert!(!five.is_lt(five.duplicate()));
    assert!(five.is_lte(five.duplicate()));
    assert!(!seven.is_lte(five.duplicate()));
    assert!(five.is_equal(five.duplicate()));
    assert!(!five.is_equal(seven.duplicate()));
    assert!(!five.is_equal(Coin::new("atom".to_string(), 5).unwrap()));
    assert!(five.precedes(&seven));
    assert!(five.precedes(&five));
    assert!(!seven.precedes(&five));
    assert!(Coin::new("atom".to_string(), 9).unwrap().precedes(&five));
    assert!(!five.precedes(&Coin::new("atom".to_string(), 1).unwrap()));
    assert!(five < seven);
    assert!(five.is_valid());
    assert!(!five.is_zero());
    assert!(Coin::new("stake".to_string(), 0).unwrap().is_zero());
    assert!(!Coin { denom: "s".to_string(), amount: 1u64.into() }.is_valid());
}

#[test]
fn parse_through_from_str() {
    let coin: Coin = "123stake".parse().unwrap();
    assert_eq!(coin, Coin::new("stake".to_string(), 123).unwrap());
    let amount: Amount = "42".parse().unwrap();
    assert_eq!(amount, Amount::from(42u64));
    assert_eq!("4x".parse::<Amount>(), Err(Error::InvalidAmount("4x".to_string())));
    assert_eq!("x4".parse::<Coin>(), Err(Error::InvalidCoin { coin: "x4".to_string() }));
}
