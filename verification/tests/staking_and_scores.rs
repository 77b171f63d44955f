use minebtc::constants::PASSIVE_HASHBEAST_STAKING_MAX_MULTIPLIER;
use minebtc::math::{calc_hashpower_contribution, calc_weighted_amount, calculate_multiplier, leaderboard_score_for_mutation};

#[test]
fn lockup_multiplier_cannot_exceed_three_x() {
    let multiplier = calculate_multiplier(90, 7, 90, 100, 300).unwrap();
    assert_eq!(multiplier, 300);
    assert!(calculate_multiplier(91, 7, 90, 100, 300).is_err());
    assert!(calculate_multiplier(90, 7, 90, 100, 301).is_err());
}

#[test]
fn max_lockup_and_passive_hashbeasts_cap_staking_at_9x() {
    let deposit = 1_000_000u64;
    let weighted = calc_weighted_amount(deposit, 300).unwrap();
    let hashpower = calc_hashpower_contribution(weighted, PASSIVE_HASHBEAST_STAKING_MAX_MULTIPLIER).unwrap();

    assert_eq!(weighted, deposit * 3);
    assert_eq!(hashpower, deposit * 9);
}

#[test]
fn leaderboard_score_home_win_full_credit() {
    assert_eq!(leaderboard_score_for_mutation(100, true), 100);
    assert_eq!(leaderboard_score_for_mutation(1_000_000, true), 1_000_000);
    assert_eq!(leaderboard_score_for_mutation(0, true), 0);
}

#[test]
fn leaderboard_score_foreign_win_half_credit() {
    assert_eq!(leaderboard_score_for_mutation(100, false), 50);
    assert_eq!(leaderboard_score_for_mutation(1_000_000, false), 500_000);
    assert_eq!(leaderboard_score_for_mutation(0, false), 0);
}

#[test]
fn leaderboard_score_foreign_truncates_down() {
    assert_eq!(leaderboard_score_for_mutation(1, false), 0);
    assert_eq!(leaderboard_score_for_mutation(3, false), 1);
    assert_eq!(leaderboard_score_for_mutation(99, false), 49);
}

#[test]
fn leaderboard_score_home_never_loses_to_foreign_at_same_bonus() {
    for bonus in [0u64, 1, 2, 10, 100, 1_000_000, u64::MAX / 2] {
        let home = leaderboard_score_for_mutation(bonus, true);
        let foreign = leaderboard_score_for_mutation(bonus, false);
        assert!(home >= foreign, "home {} < foreign {} at bonus {}", home, foreign, bonus);
    }
}
