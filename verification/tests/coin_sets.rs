use cosmos_coins::amount::Amount;
use cosmos_coins::coin::Coin;
use cosmos_coins::coins::BaseCoins;
use cosmos_coins::merge::Combine;
use cosmos_coins::sanitize::{remove_zero_coins, sanitize_coins};
use cosmos_coins::errors::Error;

fn coin(denom: &str, amount: u64) -> Coin {
    Coin { denom: denom.to_string(), amount: amount.into() }
}

fn set(coins: &[(&str, u64)]) -> BaseCoins {
    BaseCoins(coins.iter().map(|(d, a)| coin(d, *a)).collect())
}

fn listed(coins: &BaseCoins) -> Vec<(String, String)> {
    coins.0.iter().map(|c| (c.denom.clone(), c.amount.to_string())).collect()
}

fn pairs(coins: &[(&str, u64)]) -> Vec<(String, String)> {
    coins.iter().map(|(d, a)| (d.to_string(), a.to_string())).collect()
}

#[test]
fn safe_add_sums_shared_denominations() {
    let sum = set(&[("A", 2), ("B", 3)]).safe_add(&set(&[("B", 1), ("C", 4)]));
    assert_eq!(listed(&sum), pairs(&[("A", 2), ("B", 4), ("C", 4)]));
    assert_eq!(sum, set(&[("A", 2), ("B", 4), ("C", 4)]));
}

#[test]
fn max_takes_the_greater_amounts() {
    let max = set(&[("A", 1), ("B", 3), ("C", 2)]).max(set(&[("A", 4), ("B", 2), ("C", 2)]));
    assert_eq!(listed(&max), pairs(&[("A", 4), ("B", 3), ("C", 2)]));
    let other = set(&[("A", 2), ("B", 3)]).max(set(&[("B", 1), ("C", 4)]));
    assert_eq!(listed(&other), pairs(&[("A", 2), ("B", 3), ("C", 4)]));
    let with_empty = set(&[("A", 1), ("B", 2)]).max(set(&[]));
    assert_eq!(listed(&with_empty), pairs(&[("A", 1), ("B", 2)]));
}

#[test]
fn min_of_disjoint_sets_is_empty() {
    let min = set(&[("A", 1), ("B", 2)]).min(set(&[("C", 3)]));
    assert!(min.is_empty());
    assert_eq!(min.len(), 0);
    let shared = set(&[("A", 1), ("B", 3), ("C", 2)]).min(set(&[("A", 4), ("B", 2), ("C", 2)]));
    assert_eq!(listed(&shared), pairs(&[("A", 1), ("B", 2), ("C", 2)]));
    let one = set(&[("A", 2), ("B", 3)]).min(set(&[("B", 1), ("C", 4)]));
    assert_eq!(listed(&one), pairs(&[("B", 1)]));
}

#[test]
fn new_rejects_duplicates() {
    let res = BaseCoins::new(vec![coin("B", 2), coin("A", 0), coin("B", 1)]);
    assert!(res.is_err());
    let res = BaseCoins::new(vec![coin("stake", 2), coin("atom", 0), coin("stake", 1)]);
    assert_eq!(res, Err(Error::DuplicateDenom));
}

#[test]
fn new_sanitizes() {
    let made = BaseCoins::new(vec![coin("stake", 2), coin("zero", 0), coin("atom", 1)]).unwrap();
    assert_eq!(listed(&made), pairs(&[("atom", 1), ("stake", 2)]));
    assert!(made.is_valid());
    assert!(made.is_sorted());
    assert!(BaseCoins::new(vec![]).unwrap().is_empty());
    assert_eq!(
        BaseCoins::new(vec![coin("stake", 2), coin("x", 1)]),
        Err(Error::InvalidCoin { coin: "x".to_string() })
    );
    // a zero coin is dropped before its denomination is looked at
    assert!(BaseCoins::new(vec![coin("stake", 2), coin("x", 0)]).is_ok());
}

#[test]
fn new_is_idempotent() {
    let made = BaseCoins::new(vec![coin("stake", 2), coin("atom", 1), coin("ibc/x", 9)]).unwrap();
    let again = BaseCoins::new(made.0.clone()).unwrap();
    assert_eq!(listed(&again), listed(&made));
    assert_eq!(again, made);
}

#[test]
fn validate_names_the_fault() {
    assert_eq!(set(&[("stake", 1), ("atom", 1)]).validate(), Err(Error::DenomNotSorted));
    assert_eq!(set(&[("atom", 1), ("atom", 2)]).validate(), Err(Error::DuplicateDenom));
    assert_eq!(
        set(&[("at", 1), ("stake", 2)]).validate(),
        Err(Error::InvalidCoin { coin: "at".to_string() })
    );
    assert_eq!(
        set(&[("stake", 0)]).validate(),
        Err(Error::ZeroAmount { denom: "stake".to_string() })
    );
    assert!(!set(&[("stake", 0)]).is_valid());
    assert_eq!(
        set(&[("atom", 1), ("stake", 0)]).validate(),
        Err(Error::ZeroAmount { denom: "stake".to_string() })
    );
    // the denomination is looked at before the amount, the amount before the order
    assert_eq!(
        set(&[("stake", 1), ("at", 0)]).validate(),
        Err(Error::InvalidCoin { coin: "at".to_string() })
    );
    assert_eq!(
        set(&[("stake", 1), ("atom", 0)]).validate(),
        Err(Error::ZeroAmount { denom: "atom".to_string() })
    );
    assert!(!set(&[("atom", 0), ("stake", 1)]).is_valid());
    assert!(set(&[("atom", 1), ("stake", 2)]).is_valid());
    assert_eq!(set(&[("atom", 1), ("stake", 2)]).validate(), Ok(()));
    assert_eq!(set(&[]).validate(), Ok(()));
    assert!(!set(&[("stake", 1), ("atom", 1)]).is_valid());
}

#[test]
fn conservation_and_commutativity() {
    let a = set(&[("atom", 5), ("ibc/z", 1), ("stake", 10)]);
    let b = set(&[("atom", 7), ("osmo", 3), ("stake", 10)]);
    let sum = a.safe_add(&b);
    assert_eq!(
        listed(&sum),
        pairs(&[("atom", 12), ("ibc/z", 1), ("osmo", 3), ("stake", 20)])
    );
    let min = a.min(b.clone());
    let max = a.max(b.clone());
    assert_eq!(listed(&min.safe_add(&max)), listed(&sum));
    assert_eq!(listed(&b.safe_add(&a)), listed(&sum));
    assert_eq!(listed(&b.min(a.clone())), listed(&min));
    assert_eq!(listed(&b.max(a.clone())), listed(&max));
    assert_eq!(listed(&a.safe_add(&set(&[]))), listed(&a));
    assert_eq!(listed(&set(&[]).safe_add(&a)), listed(&a));
}

#[test]
fn results_hold_no_zero() {
    let a = set(&[("atom", 5), ("stake", 10)]);
    let b = set(&[("atom", 5), ("osmo", 3), ("stake", 4)]);
    let diff = a.safe_sub(&b);
    assert_eq!(listed(&diff), pairs(&[("stake", 6)]));
    let under = b.safe_sub(&a);
    assert_eq!(listed(&under), pairs(&[("osmo", 3)]));
    assert!(a.safe_sub(&a).is_empty());
    let with_zero = set(&[("atom", 0), ("stake", 1)]);
    assert_eq!(listed(&with_zero.safe_add(&set(&[]))), pairs(&[("stake", 1)]));
    assert_eq!(listed(&with_zero.min(with_zero.clone())), pairs(&[("stake", 1)]));
    assert_eq!(listed(&with_zero.max(set(&[]))), pairs(&[("stake", 1)]));
    assert_eq!(
        listed(&a.merge(&b, Combine::Difference)),
        pairs(&[("stake", 6)])
    );
}

#[test]
fn scaling() {
    let a = set(&[("atom", 2), ("stake", 30)]);
    assert_eq!(listed(&a.safe_mul(2)), pairs(&[("atom", 4), ("stake", 60)]));
    assert_eq!(listed(&a.safe_div(2)), pairs(&[("atom", 1), ("stake", 15)]));
    assert_eq!(listed(&a.safe_div(4)), pairs(&[("stake", 7)]));
    assert!(a.safe_mul(0).is_empty());
    assert!(set(&[("atom", 4)]).safe_div(8).is_empty());
}

#[test]
fn lookup() {
    let a = set(&[("atom", 2), ("ibc/x", 7), ("osmo", 1), ("stake", 30)]);
    assert_eq!(a.find("atom"), Some(coin("atom", 2)));
    assert_eq!(a.find("ibc/x"), Some(coin("ibc/x", 7)));
    assert_eq!(a.find("osmo"), Some(coin("osmo", 1)));
    assert_eq!(a.find("stake"), Some(coin("stake", 30)));
    assert_eq!(a.find("aaa"), None);
    assert_eq!(a.find("luna"), None);
    assert_eq!(a.find("zzz"), None);
    assert_eq!(set(&[]).find("atom"), None);
    assert_eq!(a.amount_of("stake"), Amount::from(30u64));
    assert_eq!(a.amount_of("luna"), Amount::zero());
    assert_eq!(a.amount_of_no_denom_validation("x"), Amount::zero());
    assert_eq!(a.denoms(), vec!["atom", "ibc/x", "osmo", "stake"]);
    assert_eq!(a.get_denom_by_index(2), "osmo");
    assert_eq!(a.len(), 4);
    assert!(!a.is_empty());
    assert!(a.is_all_positive());
    assert!(!set(&[]).is_all_positive());
    assert!(!a.is_zero());
    assert!(set(&[]).is_zero());
    assert!(set(&[("atom", 0)]).is_zero());
}

#[test]
fn comparisons_of_sets() {
    let a = set(&[("atom", 5), ("stake", 10)]);
    let b = set(&[("atom", 4), ("stake", 9)]);
    let c = set(&[("atom", 5)]);
    let d = set(&[("osmo", 1)]);
    let none = set(&[]);

    assert!(a.is_all_gt(b.clone()));
    assert!(!a.is_all_gt(a.clone()));
    assert!(!a.is_all_gt(d.clone()));
    assert!(a.is_all_gt(none.clone()));
    assert!(!none.is_all_gt(a.clone()));
    assert!(!none.is_all_gt(none.clone()));
    assert!(!c.is_all_gt(b.clone()));
    assert!(a.is_all_gt(set(&[("atom", 4)])));

    assert!(b.is_all_lt(a.clone()));
    assert!(!a.is_all_lt(b.clone()));

    assert!(a.is_all_gte(a.clone()));
    assert!(a.is_all_gte(b.clone()));
    assert!(a.is_all_gte(c.clone()));
    assert!(!b.is_all_gte(a.clone()));
    assert!(!a.is_all_gte(d.clone()));
    assert!(a.is_all_gte(none.clone()));
    assert!(!none.is_all_gte(a.clone()));
    assert!(none.is_all_gte(none.clone()));

    assert!(b.is_all_lte(a.clone()));
    assert!(!a.is_all_lte(b.clone()));

    assert!(a.is_any_gt(none.clone()));
    assert!(a.is_any_gt(set(&[("atom", 9), ("stake", 9)])));
    assert!(!a.is_any_gt(a.clone()));
    assert!(!a.is_any_gt(d.clone()));
    assert!(!none.is_any_gt(d.clone()));

    assert!(!a.is_any_gte(none.clone()));
    assert!(a.is_any_gte(a.clone()));
    assert!(a.is_any_gte(set(&[("atom", 9)])));
    assert!(!a.is_any_gte(b.clone()));
    assert!(!a.is_any_gte(d.clone()));

    assert!(c.denoms_subset_of(&a));
    assert!(c.denom_subset_of(&a));
    assert!(!a.denoms_subset_of(&c));
    assert!(!d.denoms_subset_of(&a));
    assert!(none.denoms_subset_of(&a));
}

#[test]
fn equality_ignores_order() {
    let a = BaseCoins(vec![coin("stake", 1), coin("atom", 2)]);
    let b = BaseCoins(vec![coin("atom", 2), coin("stake", 1)]);
    assert!(a == b);
    assert!(a.is_equal(&b));
    assert!(a != BaseCoins(vec![coin("atom", 2), coin("stake", 2)]));
    assert!(a != BaseCoins(vec![coin("atom", 2)]));
    assert!(a != BaseCoins(vec![coin("atom", 2), coin("atom", 2)]));
    assert!(BaseCoins(vec![]) == BaseCoins(vec![]));
}

#[test]
fn sorting() {
    let mut a = BaseCoins(vec![coin("stake", 1), coin("atom", 2), coin("atom", 1), coin("b", 0)]);
    assert!(!a.is_sorted());
    a.sort();
    assert_eq!(listed(&a), pairs(&[("atom", 1), ("atom", 2), ("b", 0), ("stake", 1)]));
    assert!(a.is_sorted());
    let kept = remove_zero_coins(a.clone());
    assert_eq!(listed(&kept), pairs(&[("atom", 1), ("atom", 2), ("stake", 1)]));
    let clean = sanitize_coins(vec![coin("stake", 1), coin("b", 0), coin("atom", 2)]);
    assert_eq!(listed(&clean), pairs(&[("atom", 2), ("stake", 1)]));
    let made: BaseCoins = vec![coin("x", 1)].into();
    assert_eq!(listed(&made), pairs(&[("x", 1)]));
    assert_eq!(listed(&a.sorted_copy()), listed(&a));
}

#[test]
fn order_is_by_code_point() {
    let made = BaseCoins::new(vec![coin("abc", 1), coin("Zed", 1), coin("ab/", 1), coin("abcd", 1)])
        .unwrap();
    assert_eq!(made.denoms(), vec!["Zed", "ab/", "abc", "abcd"]);
}

#[test]
fn checked_operations() {
    let max = "115792089237316195423570985008687907853269984665640564039457584007913129639935";
    let full = BaseCoins(vec![Coin {
        denom: "stake".to_string(),
        amount: Amount::from_str(max).unwrap(),
    }]);
    let one = set(&[("stake", 1)]);
    assert_eq!(full.checked_safe_add(&one), None);
    assert_eq!(one.checked_safe_add(&full), None);
    assert_eq!(full.checked_safe_add(&set(&[("atom", 1)])).map(|s| s.len()), Some(2));
    assert_eq!(one.checked_safe_add(&one), Some(set(&[("stake", 2)])));
    assert_eq!(full.checked_safe_mul(2), None);
    assert_eq!(full.checked_safe_mul(1), Some(full.clone()));
    assert_eq!(full.checked_safe_mul(0), Some(set(&[])));
    assert_eq!(listed(&full.safe_sub(&one).safe_add(&one)), listed(&full));
    assert_eq!(full.try_merge(&one, Combine::Sum), None);
    assert_eq!(full.try_merge(&one, Combine::Greatest), Some(full.clone()));
    assert_eq!(full.try_merge(&one, Combine::Least), Some(one.clone()));
}

#[test]
fn derived_order_of_sets() {
    assert!(set(&[("atom", 1)]) < set(&[("atom", 2)]));
    assert!(set(&[("atom", 9)]) < set(&[("stake", 1)]));
    assert!(set(&[]) < set(&[("atom", 1)]));
    // `min` on an owned set is the lesser of the two sets, not one of them
    assert!(set(&[("atom", 1), ("stake", 2)]).min(set(&[("osmo", 3)])).is_empty());
}

#[test]
fn ordering_check() {
    assert!(set(&[]).is_ordered());
    assert!(set(&[("a", 1)]).is_ordered());
    assert!(set(&[("a", 1), ("b", 0)]).is_ordered());
    assert!(!set(&[("a", 1), ("a", 2)]).is_ordered());
    assert!(!set(&[("b", 1), ("a", 2)]).is_ordered());
    assert!(set(&[("a", 1), ("a", 2)]).is_sorted());
    assert!(!set(&[("a", 2), ("a", 1)]).is_sorted());
}

#[test]
fn text_of_a_set() {
    assert_eq!(set(&[]).to_string(), "");
    assert_eq!(set(&[("atom", 1)]).to_string(), "1atom");
    assert_eq!(set(&[("atom", 1), ("stake", 20)]).to_string(), "1atom,20stake");
    let read = Coin::from_string_list(&set(&[("atom", 1), ("stake", 20)]).to_string()).unwrap();
    assert_eq!(BaseCoins(read), set(&[("atom", 1), ("stake", 20)]));
}
