use ai_sentiment_nft::policy::EvolutionPolicy;

#[test]
fn standard_policy_has_the_documented_tiers() {
    let p = EvolutionPolicy::standard();
    assert_eq!(p.high_above, 75);
    assert_eq!(p.mid_above, 50);
    assert_eq!(p.low_below, 25);
    assert_eq!(p.high_reward, 10);
    assert_eq!(p.mid_reward, 5);
    assert_eq!(p.low_penalty, 2);
}

#[test]
fn transition_table() {
    let p = EvolutionPolicy::standard();
    assert_eq!(p.apply(90, 0), 10);
    assert_eq!(p.apply(60, 0), 5);
    assert_eq!(p.apply(10, 0), 0);
    assert_eq!(p.apply(40, 0), 0);
}

#[test]
fn boundaries_belong_to_the_tier_below() {
    let p = EvolutionPolicy::standard();
    assert_eq!(p.apply(76, 100), 110);
    assert_eq!(p.apply(75, 100), 105);
    assert_eq!(p.apply(51, 100), 105);
    assert_eq!(p.apply(50, 100), 100);
    assert_eq!(p.apply(25, 100), 100);
    assert_eq!(p.apply(24, 100), 98);
    assert_eq!(p.apply(0, 100), 98);
    assert_eq!(p.apply(u64::MAX, 100), 110);
}

#[test]
fn points_stop_at_zero() {
    let p = EvolutionPolicy::standard();
    assert_eq!(p.apply(10, 0), 0);
    assert_eq!(p.apply(10, 1), 0);
    assert_eq!(p.apply(10, 2), 0);
    assert_eq!(p.apply(10, 3), 1);
}

#[test]
fn points_stop_at_the_largest_value() {
    let p = EvolutionPolicy::standard();
    assert_eq!(p.apply(90, u64::MAX), u64::MAX);
    assert_eq!(p.apply(90, u64::MAX - 9), u64::MAX);
    assert_eq!(p.apply(90, u64::MAX - 10), u64::MAX);
    assert_eq!(p.apply(90, u64::MAX - 11), u64::MAX - 1);
    assert_eq!(p.apply(60, u64::MAX - 4), u64::MAX);
    assert_eq!(p.apply(60, u64::MAX - 6), u64::MAX - 1);
}

#[test]
fn a_policy_of_other_tiers_is_applied_by_its_own_boundaries() {
    let p = EvolutionPolicy {
        high_above: 900,
        mid_above: 500,
        low_below: 100,
        high_reward: 7,
        mid_reward: 3,
        low_penalty: 4,
    };
    assert_eq!(p.apply(901, 10), 17);
    assert_eq!(p.apply(900, 10), 13);
    assert_eq!(p.apply(501, 10), 13);
    assert_eq!(p.apply(500, 10), 10);
    assert_eq!(p.apply(100, 10), 10);
    assert_eq!(p.apply(99, 10), 6);
    assert_eq!(p.apply(99, 3), 0);
    assert_eq!(p.apply(90, 0), 0);
}
