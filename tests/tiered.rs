use fedimint_tbs::tiered::{Amount, InvalidAmountTierError, Tiered};

fn amt(n: u64) -> Amount {
    Amount::from_msats(n)
}

#[test]
fn gen_denominations_base_two() {
    let t = Tiered::gen_denominations(2, amt(16));
    let tiers: Vec<u64> = t.tiers().iter().map(|a| a.msats).collect();
    assert_eq!(tiers, vec![1, 2, 4, 8, 16]);
    assert_eq!(t.count_tiers(), 5);
    assert_eq!(*t.max_tier(), amt(16));
}

#[test]
fn gen_denominations_base_ten() {
    let t = Tiered::gen_denominations(10, amt(999));
    let tiers: Vec<u64> = t.tiers().iter().map(|a| a.msats).collect();
    assert_eq!(tiers, vec![1, 10, 100]);
}

#[test]
fn gen_denominations_zero_max_is_empty() {
    assert_eq!(Tiered::gen_denominations(2, amt(0)).count_tiers(), 0);
}

#[test]
fn gen_denominations_up_to_largest_amount() {
    let t = Tiered::gen_denominations(2, amt(u64::MAX));
    assert_eq!(t.count_tiers(), 64);
    assert_eq!(*t.max_tier(), amt(1 << 63));
}

#[test]
fn insert_keeps_tiers_sorted_and_replaces() {
    let mut t: Tiered<&str> = Tiered::default();
    assert_eq!(t.insert(amt(10), "ten"), None);
    assert_eq!(t.insert(amt(1), "one"), None);
    assert_eq!(t.insert(amt(5), "five"), None);
    assert_eq!(t.insert(amt(5), "FIVE"), Some("five"));
    let tiers: Vec<u64> = t.tiers().iter().map(|a| a.msats).collect();
    assert_eq!(tiers, vec![1, 5, 10]);
    let values: Vec<&str> = t.values().into_iter().copied().collect();
    assert_eq!(values, vec!["one", "FIVE", "ten"]);
    let pairs: Vec<(u64, &str)> = t.iter().into_iter().map(|(a, v)| (a.msats, *v)).collect();
    assert_eq!(pairs, vec![(1, "one"), (5, "FIVE"), (10, "ten")]);
    assert_eq!(t.into_entries().len(), 3);
}

#[test]
fn tier_lookup_and_error() {
    let mut t: Tiered<u32> = Tiered::default();
    t.insert(amt(4), 40);
    assert_eq!(t.tier(&amt(4)), Ok(&40));
    assert_eq!(t.tier(&amt(3)), Err(InvalidAmountTierError(amt(3))));
    assert_eq!(t.get(amt(4)), Some(&40));
    assert_eq!(t.get(amt(5)), None);
}

#[test]
fn get_mut_changes_value() {
    let mut t: Tiered<u32> = Tiered::default();
    t.insert(amt(4), 40);
    *t.get_mut(amt(4)).unwrap() = 41;
    assert_eq!(t.get(amt(4)), Some(&41));
    assert!(t.get_mut(amt(9)).is_none());
}

#[test]
fn structural_eq_compares_tiers_only() {
    let mut a: Tiered<u32> = Tiered::default();
    let mut b: Tiered<&str> = Tiered::default();
    a.insert(amt(1), 1);
    a.insert(amt(2), 2);
    b.insert(amt(2), "x");
    assert!(!a.structural_eq(&b));
    b.insert(amt(1), "y");
    assert!(a.structural_eq(&b));
    b.insert(amt(3), "z");
    assert!(!a.structural_eq(&b));
    let denoms = Tiered::gen_denominations(2, amt(2));
    assert!(denoms.structural_eq(&a));
}

#[test]
fn get_mut_or_default_adds_missing_tier() {
    let mut t: Tiered<u32> = Tiered::default();
    t.insert(amt(1), 10);
    t.insert(amt(100), 1000);
    *t.get_mut_or_default(amt(10)) += 7;
    *t.get_mut_or_default(amt(1)) += 1;
    let pairs: Vec<(u64, u32)> = t.iter().into_iter().map(|(a, v)| (a.msats, *v)).collect();
    assert_eq!(pairs, vec![(1, 11), (10, 7), (100, 1000)]);
}
