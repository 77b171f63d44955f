use minebtc::errors::ErrorCode;
use minebtc::gameplay::initialize_player;
use minebtc::staking::{
    add_degenbtc_position, add_lp_position, calculate_emergency_tax, int_stake_lp_tokens,
    int_unstake_lp_tokens, int_update_lp_staking_rewards, remove_degenbtc_position,
    remove_lp_position, HashpowerConfig, StakedPosition,
};
use minebtc::state::{FactionLane, FactionState, Key, PlayerData};

const DAY: i64 = 86_400;

fn player(faction_id: u8) -> PlayerData {
    let mut total = 0u64;
    let mut referrer = None;
    let owner = Key { w0: 1, w1: 2, w2: 3, w3: 4 };
    initialize_player(&mut total, 12, owner, 254, faction_id, None, &mut referrer).unwrap().0
}

fn lane() -> FactionLane {
    FactionLane { staked: 0, hashpower: 0, sol_reward_index: 0, dbtc_reward_index: 0 }
}

fn faction(faction_id: u8) -> FactionState {
    FactionState { faction_id, hashbeasts_staked: 0, hashbeasts_playing: 0, degenbtc: lane(), lp: lane() }
}

fn cfg() -> HashpowerConfig {
    HashpowerConfig { min_lockup_days: 7, max_lockup_days: 90, base_multiplier: 100, max_multiplier: 300 }
}

#[test]
fn position_slots_open_once_and_close() {
    let mut p = player(3);
    assert_eq!(add_degenbtc_position(&mut p, 4), Ok(()));
    assert_eq!(add_degenbtc_position(&mut p, 4), Ok(()));
    assert_eq!(p.degenbtc.position_indices, vec![4]);
    assert_eq!(add_degenbtc_position(&mut p, 10), Err(ErrorCode::InvalidParameters));
    assert!(p.lp.position_indices.is_empty());
    assert_eq!(remove_degenbtc_position(&mut p, 4), Ok(()));
    assert!(p.degenbtc.position_indices.is_empty());
    assert_eq!(remove_degenbtc_position(&mut p, 4), Err(ErrorCode::InvalidParameters));
}

#[test]
fn position_slots_are_capped() {
    let mut p = player(3);
    for i in 0..10u8 {
        assert_eq!(add_lp_position(&mut p, i), Ok(()));
    }
    assert_eq!(p.lp.position_indices.len(), 10);
    assert_eq!(remove_lp_position(&mut p, 9), Ok(()));
    assert_eq!(p.lp.position_indices, vec![0, 1, 2, 3, 4, 5, 6, 7, 8]);
}

#[test]
fn stake_then_unstake_after_lockup_restores_the_faction_totals() {
    let mut p = player(3);
    let mut f = faction(3);
    let now = 1_000i64;
    let out = int_stake_lp_tokens(&mut p, &mut f, 0, cfg(), 1_000_000, 90, 0, now, 9).unwrap();
    assert_eq!(out.position.multiplier, 300);
    assert_eq!(out.position.weighted_amount, 3_000_000);
    assert_eq!(out.position.lockup_end_timestamp, now + 90 * DAY);
    assert_eq!(out.position.position_type, 1);
    assert_eq!(out.hashpower_contribution, 3_000_000);
    assert_eq!(p.lp.position_indices, vec![0]);
    assert_eq!((p.lp.staked, p.lp.hashpower), (1_000_000, 3_000_000));
    assert_eq!((f.lp.staked, f.lp.hashpower), (1_000_000, 3_000_000));
    assert_eq!((f.degenbtc.staked, f.degenbtc.hashpower), (0, 0));

    // two lamports of rewards per unit of hashpower arrive
    f.lp.sol_reward_index = 2_000_000_000_000;
    let back = int_unstake_lp_tokens(&mut p, &mut f, &out.position, 0, now + 90 * DAY).unwrap();
    assert_eq!(back.penalty_amount, 0);
    assert_eq!(back.returned_amount, 1_000_000);
    assert_eq!(back.new_sol_rewards, 6_000_000);
    assert_eq!(p.pending_sol_rewards, 6_000_000);
    assert!(p.lp.position_indices.is_empty());
    assert_eq!((p.lp.staked, p.lp.hashpower), (0, 0));
    assert_eq!((f.lp.staked, f.lp.hashpower), (0, 0));
}

#[test]
fn early_unstake_pays_the_emergency_tax() {
    let mut p = player(3);
    let mut f = faction(3);
    let now = 1_000i64;
    let out = int_stake_lp_tokens(&mut p, &mut f, 0, cfg(), 1_000_000, 90, 2, now, 9).unwrap();
    // halfway through the lockup: half of the 50% penalty
    let back = int_unstake_lp_tokens(&mut p, &mut f, &out.position, 2, now + 45 * DAY).unwrap();
    assert_eq!(back.penalty_amount, 250_000);
    assert_eq!(back.returned_amount, 750_000);
}

#[test]
fn stake_requests_are_refused_in_order() {
    let mut p = player(3);
    let mut f = faction(3);
    assert_eq!(int_stake_lp_tokens(&mut p, &mut f, 0, cfg(), 0, 30, 0, 0, 0).unwrap_err(), ErrorCode::InvalidAmount);
    assert_eq!(int_stake_lp_tokens(&mut p, &mut f, 0, cfg(), 5, 6, 0, 0, 0).unwrap_err(), ErrorCode::InvalidParameters);
    let mut other = faction(4);
    assert_eq!(int_stake_lp_tokens(&mut p, &mut other, 0, cfg(), 5, 30, 0, 0, 0).unwrap_err(), ErrorCode::InvalidFactionId);
    assert_eq!(int_stake_lp_tokens(&mut p, &mut f, 7, cfg(), 5, 30, 0, 0, 0).unwrap_err(), ErrorCode::PositionAlreadyExists);
    assert_eq!(int_stake_lp_tokens(&mut p, &mut f, 0, cfg(), 5, 30, 10, 0, 0).unwrap_err(), ErrorCode::InvalidParameters);
}

#[test]
fn reward_accrual_moves_the_debts_even_without_hashpower() {
    let mut p = player(3);
    let mut f = faction(3);
    f.lp.sol_reward_index = 5;
    f.lp.dbtc_reward_index = 7;
    assert_eq!(int_update_lp_staking_rewards(&mut p, &f), Ok((0, 0)));
    assert_eq!((p.lp.sol_reward_debt, p.lp.dbtc_reward_debt), (5, 7));
    assert_eq!((p.degenbtc.sol_reward_debt, p.degenbtc.dbtc_reward_debt), (0, 0));
}

#[test]
fn emergency_tax_shrinks_with_the_remaining_lockup() {
    let position = StakedPosition {
        position_index: 0,
        position_type: 0,
        faction_id: 1,
        staked_amount: 1_000,
        weighted_amount: 1_000,
        lockup_duration: 10,
        start_timestamp: 0,
        lockup_end_timestamp: 100,
        multiplier: 100,
        bump: 0,
    };
    assert_eq!(calculate_emergency_tax(&position, 0, 50), Ok(500));
    assert_eq!(calculate_emergency_tax(&position, 75, 50), Ok(120));
    assert_eq!(calculate_emergency_tax(&position, 100, 50), Ok(0));
}

#[test]
fn emergency_tax_is_zero_when_the_time_left_does_not_fit_a_timestamp() {
    let position = StakedPosition {
        position_index: 0,
        position_type: 0,
        faction_id: 1,
        staked_amount: 1_000,
        weighted_amount: 1_000,
        lockup_duration: 10,
        start_timestamp: i64::MAX - 100,
        lockup_end_timestamp: i64::MAX,
        multiplier: 100,
        bump: 0,
    };
    assert_eq!(calculate_emergency_tax(&position, -10, 50), Ok(0));
    // a hundred times the time left overflows: refused as in the lockup math
    let long = StakedPosition { start_timestamp: 0, lockup_end_timestamp: i64::MAX / 50, ..position };
    assert_eq!(calculate_emergency_tax(&long, 0, 50), Err(ErrorCode::ArithmeticOverflow));
}

#[test]
fn unstaking_a_position_that_starts_later_charges_the_larger_tax() {
    let mut p = player(3);
    let mut f = faction(3);
    let start = 10 * DAY;
    let out = int_stake_lp_tokens(&mut p, &mut f, 0, cfg(), 1_000_000, 10, 1, start, 9).unwrap();
    // one day before the position starts: 110% of the lockup is left
    let back = int_unstake_lp_tokens(&mut p, &mut f, &out.position, 1, start - DAY).unwrap();
    assert_eq!(back.penalty_amount, 550_000);
    assert_eq!(back.returned_amount, 450_000);
}

#[test]
fn emergency_tax_rates_above_one_hundred_percent_are_computed_as_given() {
    let position = StakedPosition {
        position_index: 0,
        position_type: 0,
        faction_id: 1,
        staked_amount: 1_000,
        weighted_amount: 1_000,
        lockup_duration: 10,
        start_timestamp: 0,
        lockup_end_timestamp: 100,
        multiplier: 100,
        bump: 0,
    };
    assert_eq!(calculate_emergency_tax(&position, 0, 300), Ok(3_000));
    assert_eq!(calculate_emergency_tax(&position, 0, u64::MAX), Err(ErrorCode::ArithmeticOverflow));
}
