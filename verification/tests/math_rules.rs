use minebtc::errors::ErrorCode;
use minebtc::math::{
    calc_tickets_count, calculate_multiplier, calculate_staking_rewards, ceil_mul_div_u64,
    get_caller_compensation, get_ticket_caller_compensation, handle_fee, mul_div, mul_div_u128,
    mul_div_u64, mutation_accum_pct, mutation_bonus_weight, proportional_post_fee_share,
    scale_hashpower_by_multiplier, validate_min_sol_bet_per_position,
    validate_points_percentage_limit,
};

#[test]
fn mul_div_floors_and_refuses_zero_divisor() {
    assert_eq!(mul_div(7, 3, 2), Ok(10));
    assert_eq!(mul_div(u64::MAX, u64::MAX, 1), Ok((u64::MAX as u128) * (u64::MAX as u128)));
    assert_eq!(mul_div(1, 1, 0), Err(ErrorCode::ArithmeticOverflow));
}

#[test]
fn mul_div_u64_refuses_results_past_u64() {
    assert_eq!(mul_div_u64(1_000, 2_500, 10_000), Ok(250));
    assert_eq!(mul_div_u64(u64::MAX, 2, 1), Err(ErrorCode::ArithmeticOverflow));
    assert_eq!(mul_div_u64(5, 5, 0), Err(ErrorCode::ArithmeticOverflow));
}

#[test]
fn mul_div_u128_refuses_product_overflow() {
    assert_eq!(mul_div_u128(10, 10, 3), Ok(33));
    assert_eq!(mul_div_u128(u128::MAX, 2, 2), Err(ErrorCode::ArithmeticOverflow));
}

#[test]
fn ceil_mul_div_rounds_up_only_with_a_remainder() {
    assert_eq!(ceil_mul_div_u64(10, 1, 3), Ok(4));
    assert_eq!(ceil_mul_div_u64(9, 1, 3), Ok(3));
    assert_eq!(ceil_mul_div_u64(9, 1, 0), Err(ErrorCode::InvalidParameters));
}

#[test]
fn ticket_count_divides_down() {
    assert_eq!(calc_tickets_count(1_000, 300), 3);
    assert_eq!(calc_tickets_count(1_000, 0), 0);
}

#[test]
fn lockup_multiplier_interpolates_linearly() {
    // halfway from 10 to 110 days: halfway from 100 to 300
    assert_eq!(calculate_multiplier(60, 10, 110, 100, 300), Ok(200));
    assert_eq!(calculate_multiplier(10, 10, 110, 100, 300), Ok(100));
    assert!(calculate_multiplier(9, 10, 110, 100, 300).is_err());
}

#[test]
fn staking_rewards_scale_the_index_gain() {
    // 2 units of hashpower, index gain of 3 * 10^12 per point
    assert_eq!(calculate_staking_rewards(2, 5_000_000_000_000, 2_000_000_000_000), Ok(6));
    assert!(calculate_staking_rewards(2, 1, 2).is_err());
}

#[test]
fn hashpower_rescales_by_the_multiplier_ratio() {
    assert_eq!(scale_hashpower_by_multiplier(1_000, 2_000, 1_000), Ok(2_000));
    assert_eq!(scale_hashpower_by_multiplier(1_000, 2_000, 0), Err(ErrorCode::InvalidParameters));
}

#[test]
fn fee_split_keeps_the_whole_amount() {
    assert_eq!(handle_fee(1_000, 5), Ok((950, 50)));
    assert_eq!(handle_fee(1_000, 0), Ok((1_000, 0)));
    assert!(handle_fee(1_000, 101).is_err());
}

#[test]
fn post_fee_share_is_proportional() {
    assert_eq!(proportional_post_fee_share(900, 250, 1_000), Ok(225));
    assert_eq!(proportional_post_fee_share(0, 250, 1_000), Ok(0));
}

#[test]
fn mutation_tables_match_their_kinds() {
    assert_eq!(mutation_accum_pct(1), 69);
    assert_eq!(mutation_accum_pct(2), 42);
    assert_eq!(mutation_accum_pct(3), 30);
    assert_eq!(mutation_accum_pct(0), 10);
    assert_eq!(mutation_bonus_weight(1), 3);
    assert_eq!(mutation_bonus_weight(2), 2);
    assert_eq!(mutation_bonus_weight(3), 1);
}

#[test]
fn caller_compensation_is_a_capped_tenth_of_a_percent() {
    assert_eq!(get_caller_compensation(10_000_000), 10_000);
    assert_eq!(get_caller_compensation(1_000_000_000), 50_000);
    assert_eq!(get_ticket_caller_compensation(), 50_000);
}

#[test]
fn sol_bets_have_a_minimum() {
    assert_eq!(validate_min_sol_bet_per_position(1_000_000), Ok(()));
    assert_eq!(validate_min_sol_bet_per_position(999_999), Err(ErrorCode::BetBelowMinimum));
}

#[test]
fn ticket_points_stay_within_a_quarter_of_sol_bets() {
    // 1000 SOL-backed, 1100 total: 100 ticket-backed, room for 150 more
    assert_eq!(validate_points_percentage_limit(1_100, 1_000, 150), Ok(()));
    assert_eq!(validate_points_percentage_limit(1_100, 1_000, 151), Err(ErrorCode::TicketBetCapExceeded));
    assert_eq!(validate_points_percentage_limit(0, 0, 1), Err(ErrorCode::InvalidParameters));
    assert_eq!(validate_points_percentage_limit(5, 6, 1), Err(ErrorCode::ArithmeticOverflow));
}
