//! Checked fixed-point arithmetic shared by every reward, fee and pricing path.
use vstd::prelude::*;

use crate::constants::{
    BASE_MULTIPLIER, INDEX_PRECISION, MAX_CALLER_COMPENSATION, MAX_LOCKUP_MULTIPLIER, MIN_SOL_BET_PER_POSITION, MUTATION_BONUS_WEIGHT_EVOLUTION, MUTATION_BONUS_WEIGHT_POWER, MUTATION_BONUS_WEIGHT_TRAIT, M_HUNDRED, PASSIVE_HASHBEAST_STAKING_MAX_MULTIPLIER, TICKET_AUTOMINER_CALLER_COMPENSATION, TICKET_POINTS_CAP_PCT,
};
use crate::errors::ErrorCode;

verus! {

/// `floor(a * b / c)` over the integers.
pub open spec fn mul_div_spec(a: int, b: int, c: int) -> int {
    a * b / c
}

/// `ceil(a * b / c)` over the integers.
pub open spec fn ceil_mul_div_spec(a: int, b: int, c: int) -> int {
    (a * b + c - 1) / c
}

pub proof fn lemma_mul_u64_fits(a: u64, b: u64)
    ensures
        0 <= (a as int) * (b as int) <= (u64::MAX as int) * (u64::MAX as int),
        (u64::MAX as int) * (u64::MAX as int) < u128::MAX,
{
    assert(0 <= (a as int) * (b as int) <= (u64::MAX as int) * (u64::MAX as int))
        by (nonlinear_arith);
}

/// `x * r / d <= r` whenever `0 <= x <= d` and `d > 0`.
pub proof fn lemma_scaled_fraction_le(x: int, r: int, d: int)
    requires
        0 <= x <= d,
        0 < d,
        0 <= r,
    ensures
        0 <= x * r / d <= r,
{
    assert(x * r <= d * r) by (nonlinear_arith)
        requires
            0 <= x <= d,
            0 <= r,
    ;
    assert(0 <= x * r) by (nonlinear_arith)
        requires
            0 <= x,
            0 <= r,
    ;
    assert(x * r / d <= d * r / d) by (nonlinear_arith)
        requires
            x * r <= d * r,
            0 < d,
    ;
    assert(d * r / d == r) by (nonlinear_arith)
        requires
            0 < d,
    ;
    assert(0 <= x * r / d) by (nonlinear_arith)
        requires
            0 <= x * r,
            0 < d,
    ;
}

/// `floor(a * b / c)` in 128 bits. Fails only on a zero divisor.
pub fn mul_div(a: u64, b: u64, c: u64) -> (r: Result<u128, ErrorCode>)
    ensures
        c == 0 <==> r == Err::<u128, ErrorCode>(ErrorCode::ArithmeticOverflow),
        c != 0 ==> r == Ok::<u128, ErrorCode>(mul_div_spec(a as int, b as int, c as int) as u128),
        c != 0 ==> mul_div_spec(a as int, b as int, c as int) <= u128::MAX,
{
    if c == 0 {
        return Err(ErrorCode::ArithmeticOverflow);
    }
    proof {
        lemma_mul_u64_fits(a, b);
        assert(0 <= (a as int) * (b as int) / (c as int) <= (a as int) * (b as int))
            by (nonlinear_arith)
            requires
                0 <= (a as int) * (b as int),
                c > 0,
        ;
    }
    let p: u128 = (a as u128) * (b as u128);
    Ok(p / (c as u128))
}

/// `mul_div` narrowed to a `u64`, failing when the quotient does not fit.
pub fn mul_div_u64(a: u64, b: u64, c: u64) -> (r: Result<u64, ErrorCode>)
    ensures
        (c == 0 || mul_div_spec(a as int, b as int, c as int) > u64::MAX) <==> r
            == Err::<u64, ErrorCode>(ErrorCode::ArithmeticOverflow),
        (c != 0 && mul_div_spec(a as int, b as int, c as int) <= u64::MAX) ==> r == Ok::<
            u64,
            ErrorCode,
        >(mul_div_spec(a as int, b as int, c as int) as u64),
{
    let q = mul_div(a, b, c)?;
    if q > u64::MAX as u128 {
        return Err(ErrorCode::ArithmeticOverflow);
    }
    Ok(q as u64)
}

/// `floor(a * b / c)` on 128-bit operands. Fails when the product overflows
/// or the divisor is zero.
pub fn mul_div_u128(a: u128, b: u128, c: u128) -> (r: Result<u128, ErrorCode>)
    ensures
        ((a as int) * (b as int) > u128::MAX || c == 0) <==> r == Err::<u128, ErrorCode>(
            ErrorCode::ArithmeticOverflow,
        ),
        ((a as int) * (b as int) <= u128::MAX && c != 0) ==> r == Ok::<u128, ErrorCode>(
            mul_div_spec(a as int, b as int, c as int) as u128,
        ),
{
    let p = match a.checked_mul(b) {
        Some(p) => p,
        None => return Err(ErrorCode::ArithmeticOverflow),
    };
    if c == 0 {
        return Err(ErrorCode::ArithmeticOverflow);
    }
    proof {
        assert(0 <= (p as int) / (c as int) <= (p as int)) by (nonlinear_arith)
            requires
                c > 0,
                p >= 0,
        ;
    }
    Ok(p / c)
}

/// `ceil(a * b / c)`, failing with `InvalidParameters` on a zero divisor and
/// with `ArithmeticOverflow` when the result does not fit in a `u64`.
pub fn ceil_mul_div_u64(a: u64, b: u64, c: u64) -> (r: Result<u64, ErrorCode>)
    ensures
        c == 0 ==> r == Err::<u64, ErrorCode>(ErrorCode::InvalidParameters),
        c != 0 && ceil_mul_div_spec(a as int, b as int, c as int) > u64::MAX ==> r == Err::<
            u64,
            ErrorCode,
        >(ErrorCode::ArithmeticOverflow),
        c != 0 && ceil_mul_div_spec(a as int, b as int, c as int) <= u64::MAX ==> r == Ok::<
            u64,
            ErrorCode,
        >(ceil_mul_div_spec(a as int, b as int, c as int) as u64),
{
    if c == 0 {
        return Err(ErrorCode::InvalidParameters);
    }
    proof {
        lemma_mul_u64_fits(a, b);
    }
    let numerator: u128 = (a as u128) * (b as u128);
    let denominator: u128 = c as u128;
    let padded: u128 = numerator + (denominator - 1);
    proof {
        assert(0 <= (padded as int) / (c as int) <= (padded as int)) by (nonlinear_arith)
            requires
                c > 0,
                padded >= 0,
        ;
    }
    let value = padded / denominator;
    if value > u64::MAX as u128 {
        return Err(ErrorCode::ArithmeticOverflow);
    }
    Ok(value as u64)
}

/// The ceiling never rounds below the floor and exceeds it by at most one.
pub proof fn lemma_ceil_vs_floor(a: nat, b: nat, c: nat)
    requires
        c > 0,
    ensures
        mul_div_spec(a as int, b as int, c as int) <= ceil_mul_div_spec(a as int, b as int, c as int)
            <= mul_div_spec(a as int, b as int, c as int) + 1,
        (a * b) % c == 0 ==> ceil_mul_div_spec(a as int, b as int, c as int) == mul_div_spec(
            a as int,
            b as int,
            c as int,
        ),
{
    let p = (a * b) as int;
    let ci = c as int;
    assert(p / ci <= (p + ci - 1) / ci <= p / ci + 1) by (nonlinear_arith)
        requires
            ci > 0,
            p >= 0,
    {
        vstd::arithmetic::div_mod::lemma_fundamental_div_mod(p, ci);
        vstd::arithmetic::div_mod::lemma_fundamental_div_mod(p + ci - 1, ci);
    }
    if p % ci == 0 {
        vstd::arithmetic::div_mod::lemma_fundamental_div_mod(p, ci);
        vstd::arithmetic::div_mod::lemma_fundamental_div_mod(p + ci - 1, ci);
        assert((p + ci - 1) / ci == p / ci) by (nonlinear_arith)
            requires
                ci > 0,
                p >= 0,
                p % ci == 0,
                p == ci * (p / ci) + p % ci,
                p + ci - 1 == ci * ((p + ci - 1) / ci) + (p + ci - 1) % ci,
                0 <= (p + ci - 1) % ci < ci,
        ;
    }
}

/// Tickets granted for a price: one ticket per full `ticket_value`; none for
/// a zero ticket value.
pub fn calc_tickets_count(total_price: u64, ticket_value: u64) -> (r: u64)
    ensures
        ticket_value == 0 ==> r == 0,
        ticket_value != 0 ==> r == total_price / ticket_value,
{
    if ticket_value == 0 {
        return 0;
    }
    total_price / ticket_value
}

/// The lockup multiplier for `lockup_duration` days, interpolated linearly
/// from `base_multiplier` at `min_lockup` to `max_multiplier` at `max_lockup`.
pub open spec fn lockup_multiplier_spec(
    lockup_duration: int,
    min_lockup: int,
    max_lockup: int,
    base_multiplier: int,
    max_multiplier: int,
) -> int {
    if max_lockup == min_lockup {
        base_multiplier
    } else {
        base_multiplier + mul_div_spec(
            lockup_duration - min_lockup,
            max_multiplier - base_multiplier,
            max_lockup - min_lockup,
        )
    }
}

/// Whether the lockup parameters are accepted: ordered lockup bounds, a base
/// of at least 1.0x, a maximum between the base and 3.0x, and a duration
/// inside the bounds.
pub open spec fn lockup_params_valid(
    lockup_duration: u64,
    min_lockup: u64,
    max_lockup: u64,
    base_multiplier: u16,
    max_multiplier: u16,
) -> bool {
    &&& min_lockup <= max_lockup
    &&& base_multiplier >= M_HUNDRED
    &&& max_multiplier >= base_multiplier
    &&& max_multiplier <= MAX_LOCKUP_MULTIPLIER
    &&& min_lockup <= lockup_duration <= max_lockup
}

/// Multiplier (percent units, 100 = 1.0x) earned by a staking lockup.
pub fn calculate_multiplier(
    lockup_duration: u64,
    min_lockup: u64,
    max_lockup: u64,
    base_multiplier: u16,
    max_multiplier: u16,
) -> (r: Result<u16, ErrorCode>)
    ensures
        !lockup_params_valid(lockup_duration, min_lockup, max_lockup, base_multiplier, max_multiplier)
            <==> r == Err::<u16, ErrorCode>(ErrorCode::InvalidParameters),
        lockup_params_valid(lockup_duration, min_lockup, max_lockup, base_multiplier, max_multiplier)
            ==> r == Ok::<u16, ErrorCode>(
            lockup_multiplier_spec(
                lockup_duration as int,
                min_lockup as int,
                max_lockup as int,
                base_multiplier as int,
                max_multiplier as int,
            ) as u16,
        ),
        r matches Ok(m) ==> base_multiplier <= m <= max_multiplier && m <= MAX_LOCKUP_MULTIPLIER,
        lockup_params_valid(lockup_duration, min_lockup, max_lockup, base_multiplier, max_multiplier)
            ==> base_multiplier <= lockup_multiplier_spec(
            lockup_duration as int,
            min_lockup as int,
            max_lockup as int,
            base_multiplier as int,
            max_multiplier as int,
        ) <= max_multiplier,
{
    if !(min_lockup <= max_lockup) {
        return Err(ErrorCode::InvalidParameters);
    }
    if !(base_multiplier >= 100 && max_multiplier >= base_multiplier && max_multiplier <= 300) {
        return Err(ErrorCode::InvalidParameters);
    }
    if !(lockup_duration >= min_lockup && lockup_duration <= max_lockup) {
        return Err(ErrorCode::InvalidParameters);
    }
    let duration_range = max_lockup - min_lockup;
    let multiplier_range = max_multiplier - base_multiplier;
    if duration_range == 0 {
        return Ok(base_multiplier);
    }
    let duration_above_min = lockup_duration - min_lockup;
    proof {
        lemma_scaled_fraction_le(
            duration_above_min as int,
            multiplier_range as int,
            duration_range as int,
        );
        assert((duration_above_min as int) * (multiplier_range as int) <= (duration_range as int)
            * (multiplier_range as int)) by (nonlinear_arith)
            requires
                duration_above_min <= duration_range,
                multiplier_range >= 0,
        ;
        assert((duration_range as int) * (multiplier_range as int) <= (u64::MAX as int) * 300)
            by (nonlinear_arith)
            requires
                multiplier_range <= 300,
                duration_range <= u64::MAX,
        ;
    }
    let increase: u128 = (duration_above_min as u128) * (multiplier_range as u128) / (
    duration_range as u128);
    let increase16 = increase as u16;
    Ok(base_multiplier + increase16)
}

/// New rewards accrued on `user_weighted_amt` since the reward debt:
/// `amt * (index - debt) / INDEX_PRECISION`.
pub open spec fn staking_rewards_spec(user_weighted_amt: int, index: int, debt: int) -> int {
    mul_div_spec(user_weighted_amt, index - debt, INDEX_PRECISION as int)
}

/// Rewards earned by `user_weighted_amt` between a reward debt and the current
/// index. Fails when the debt is ahead of the index or the result overflows.
pub fn calculate_staking_rewards(
    user_weighted_amt: u64,
    accumulated_sol_per_point: u128,
    reward_debt: u128,
) -> (r: Result<u64, ErrorCode>)
    ensures
        r is Ok <==> (reward_debt <= accumulated_sol_per_point && (user_weighted_amt as int) * (
        accumulated_sol_per_point - reward_debt) <= u128::MAX && staking_rewards_spec(
            user_weighted_amt as int,
            accumulated_sol_per_point as int,
            reward_debt as int,
        ) <= u64::MAX),
        r is Err ==> r == Err::<u64, ErrorCode>(ErrorCode::ArithmeticOverflow),
        r matches Ok(v) ==> v == staking_rewards_spec(
            user_weighted_amt as int,
            accumulated_sol_per_point as int,
            reward_debt as int,
        ),
{
    if accumulated_sol_per_point < reward_debt {
        return Err(ErrorCode::ArithmeticOverflow);
    }
    let reward_diff = accumulated_sol_per_point - reward_debt;
    let new_rewards = mul_div_u128(user_weighted_amt as u128, reward_diff, INDEX_PRECISION as u128)?;
    if new_rewards > u64::MAX as u128 {
        return Err(ErrorCode::ArithmeticOverflow);
    }
    Ok(new_rewards as u64)
}

/// Lockup-weighted stake: `staked * lockup_multiplier / 100`.
pub fn calc_weighted_amount(staked_amount: u64, lockup_multiplier: u16) -> (r: Result<
    u64,
    ErrorCode,
>)
    ensures
        mul_div_spec(staked_amount as int, lockup_multiplier as int, M_HUNDRED as int) > u64::MAX
            <==> r == Err::<u64, ErrorCode>(ErrorCode::ArithmeticOverflow),
        mul_div_spec(staked_amount as int, lockup_multiplier as int, M_HUNDRED as int) <= u64::MAX
            ==> r == Ok::<u64, ErrorCode>(
            mul_div_spec(staked_amount as int, lockup_multiplier as int, M_HUNDRED as int) as u64,
        ),
{
    mul_div_u64(staked_amount, lockup_multiplier as u64, 100)
}

/// Hashpower of a weighted stake under the HashBeast multiplier:
/// `weighted * hashbeast_multiplier / 1000`.
pub fn calc_hashpower_contribution(weighted_amount: u64, hashbeast_multiplier: u16) -> (r: Result<
    u64,
    ErrorCode,
>)
    ensures
        mul_div_spec(weighted_amount as int, hashbeast_multiplier as int, BASE_MULTIPLIER as int)
            > u64::MAX <==> r == Err::<u64, ErrorCode>(ErrorCode::ArithmeticOverflow),
        mul_div_spec(weighted_amount as int, hashbeast_multiplier as int, BASE_MULTIPLIER as int)
            <= u64::MAX ==> r == Ok::<u64, ErrorCode>(
            mul_div_spec(
                weighted_amount as int,
                hashbeast_multiplier as int,
                BASE_MULTIPLIER as int,
            ) as u64,
        ),
{
    mul_div_u64(weighted_amount, hashbeast_multiplier as u64, 1000)
}

/// A full 3.0x lockup under the capped 3.0x HashBeast multiplier yields at
/// most nine times the deposit in hashpower.
pub proof fn lemma_staking_capped_at_nine_x(deposit: nat, lockup_multiplier: nat, hb_multiplier: nat)
    requires
        lockup_multiplier <= MAX_LOCKUP_MULTIPLIER,
        hb_multiplier <= PASSIVE_HASHBEAST_STAKING_MAX_MULTIPLIER,
    ensures
        mul_div_spec(
            mul_div_spec(deposit as int, lockup_multiplier as int, M_HUNDRED as int),
            hb_multiplier as int,
            BASE_MULTIPLIER as int,
        ) <= 9 * deposit,
{
    let w = mul_div_spec(deposit as int, lockup_multiplier as int, 100);
    assert(0 <= w <= 3 * deposit) by (nonlinear_arith)
        requires
            w == (deposit as int) * (lockup_multiplier as int) / 100,
            lockup_multiplier <= 300,
            deposit >= 0,
            lockup_multiplier >= 0,
    ;
    let h = mul_div_spec(w, hb_multiplier as int, 1000);
    assert(h <= 3 * w) by (nonlinear_arith)
        requires
            h == w * (hb_multiplier as int) / 1000,
            hb_multiplier <= 3000,
            w >= 0,
            hb_multiplier >= 0,
    ;
}

/// Scales a hashpower by `new_multiplier / old_multiplier`, rounding down.
pub fn scale_hashpower_by_multiplier(hashpower: u64, new_multiplier: u64, old_multiplier: u64) -> (r:
    Result<u64, ErrorCode>)
    ensures
        old_multiplier == 0 ==> r == Err::<u64, ErrorCode>(ErrorCode::InvalidParameters),
        old_multiplier != 0 && mul_div_spec(
            hashpower as int,
            new_multiplier as int,
            old_multiplier as int,
        ) > u64::MAX ==> r == Err::<u64, ErrorCode>(ErrorCode::ArithmeticOverflow),
        old_multiplier != 0 && mul_div_spec(
            hashpower as int,
            new_multiplier as int,
            old_multiplier as int,
        ) <= u64::MAX ==> r == Ok::<u64, ErrorCode>(
            mul_div_spec(hashpower as int, new_multiplier as int, old_multiplier as int) as u64,
        ),
{
    if old_multiplier == 0 {
        return Err(ErrorCode::InvalidParameters);
    }
    mul_div_u64(hashpower, new_multiplier, old_multiplier)
}

/// Splits a gross amount into `(net, fee)` with `fee = amount * pct / 100`.
pub fn handle_fee(amount: u64, protocol_fee_pct: u64) -> (r: Result<(u64, u64), ErrorCode>)
    ensures
        r is Ok <==> (amount as int) * (protocol_fee_pct as int) <= u64::MAX && (amount as int) * (
        protocol_fee_pct as int) / 100 <= amount,
        r is Err ==> r == Err::<(u64, u64), ErrorCode>(ErrorCode::ArithmeticOverflow),
        r matches Ok((net, fee)) ==> fee == (amount as int) * (protocol_fee_pct as int) / 100 && net
            + fee == amount,
{
    let product = match amount.checked_mul(protocol_fee_pct) {
        Some(p) => p,
        None => return Err(ErrorCode::ArithmeticOverflow),
    };
    let fee = product / 100;
    if fee > amount {
        return Err(ErrorCode::ArithmeticOverflow);
    }
    Ok((amount - fee, fee))
}

/// The share of a post-fee total that corresponds to `pre_fee_share` of a
/// pre-fee total; zero when any input is zero.
pub fn proportional_post_fee_share(post_fee_total: u64, pre_fee_share: u64, pre_fee_total: u64) -> (r:
    Result<u64, ErrorCode>)
    ensures
        (post_fee_total == 0 || pre_fee_share == 0 || pre_fee_total == 0) ==> r == Ok::<
            u64,
            ErrorCode,
        >(0),
        (post_fee_total != 0 && pre_fee_share != 0 && pre_fee_total != 0) ==> (mul_div_spec(
            post_fee_total as int,
            pre_fee_share as int,
            pre_fee_total as int,
        ) <= u64::MAX <==> r is Ok),
        (post_fee_total != 0 && pre_fee_share != 0 && pre_fee_total != 0) ==> (r matches Ok(v)
            ==> v == mul_div_spec(post_fee_total as int, pre_fee_share as int, pre_fee_total as int)),
        r is Err ==> r == Err::<u64, ErrorCode>(ErrorCode::ArithmeticOverflow),
{
    if post_fee_total == 0 || pre_fee_share == 0 || pre_fee_total == 0 {
        return Ok(0);
    }
    mul_div_u64(post_fee_total, pre_fee_share, pre_fee_total)
}

/// Leaderboard credit of a mutation bonus: full for a home win, half
/// (rounded down) for a win on a foreign country.
pub fn leaderboard_score_for_mutation(bonus: u64, is_home_win: bool) -> (r: u64)
    ensures
        is_home_win ==> r == bonus,
        !is_home_win ==> r == bonus / 2,
{
    if is_home_win {
        bonus
    } else {
        bonus / 2
    }
}

/// A home win never earns less leaderboard credit than a foreign win with the
/// same bonus.
pub proof fn lemma_home_credit_dominates(bonus: u64)
    ensures
        bonus / 2 <= bonus,
{
}

/// Per-mille share of a claim's degenBTC reward that accrues to the HashBeast,
/// by mutation type (1 Evolution, 2 Power, 3 Trait, else none).
pub fn mutation_accum_pct(mutation_type: u8) -> (r: u64)
    ensures
        mutation_type == 1 ==> r == 69,
        mutation_type == 2 ==> r == 42,
        mutation_type == 3 ==> r == 30,
        !(1 <= mutation_type <= 3) ==> r == 10,
{
    match mutation_type {
        1 => 69,
        2 => 42,
        3 => 30,
        _ => 10,
    }
}

/// Score weight of a mutation type in the faction-war bonus; zero for none.
pub fn mutation_bonus_weight(mutation_type: u8) -> (r: u64)
    ensures
        mutation_type == 1 ==> r == MUTATION_BONUS_WEIGHT_EVOLUTION,
        mutation_type == 2 ==> r == MUTATION_BONUS_WEIGHT_POWER,
        mutation_type == 3 ==> r == MUTATION_BONUS_WEIGHT_TRAIT,
        !(1 <= mutation_type <= 3) ==> r == 0,
{
    match mutation_type {
        1 => MUTATION_BONUS_WEIGHT_EVOLUTION,
        2 => MUTATION_BONUS_WEIGHT_POWER,
        3 => MUTATION_BONUS_WEIGHT_TRAIT,
        _ => 0,
    }
}

/// Keeper compensation of a SOL autominer: 0.1% of the round budget, capped.
pub fn get_caller_compensation(sol_per_round: u64) -> (r: u64)
    ensures
        r == if sol_per_round / 1000 < MAX_CALLER_COMPENSATION {
            sol_per_round / 1000
        } else {
            MAX_CALLER_COMPENSATION
        },
        r <= sol_per_round,
{
    let c = sol_per_round / 1000;
    if c < MAX_CALLER_COMPENSATION {
        c
    } else {
        MAX_CALLER_COMPENSATION
    }
}

/// Keeper reserve of a ticket autominer per round.
pub fn get_ticket_caller_compensation() -> (r: u64)
    ensures
        r == TICKET_AUTOMINER_CALLER_COMPENSATION,
{
    TICKET_AUTOMINER_CALLER_COMPENSATION
}

/// Accepts a SOL bet per position of at least the minimum.
pub fn validate_min_sol_bet_per_position(amount: u64) -> (r: Result<(), ErrorCode>)
    ensures
        amount >= MIN_SOL_BET_PER_POSITION <==> r is Ok,
        r is Err ==> r == Err::<(), ErrorCode>(ErrorCode::BetBelowMinimum),
{
    if amount >= MIN_SOL_BET_PER_POSITION {
        Ok(())
    } else {
        Err(ErrorCode::BetBelowMinimum)
    }
}

/// Whether adding `amount` ticket points keeps the round's ticket-backed
/// points within 25% of its SOL bets.
pub open spec fn points_within_limit(current_points_bets: int, current_sol_bets: int, amount: int)
    -> bool {
    current_points_bets - current_sol_bets + amount <= mul_div_spec(
        current_sol_bets,
        TICKET_POINTS_CAP_PCT as int,
        M_HUNDRED as int,
    )
}

/// The outcome of the ticket-points check: the ticket-backed points
/// (total points less SOL-backed points) plus `amount` must fit, the round
/// must already hold SOL bets, and the sum must stay within 25% of them.
pub open spec fn points_limit_result(current_points_bets: u64, current_sol_bets: u64, amount: u64)
    -> Result<(), ErrorCode> {
    if current_points_bets < current_sol_bets || current_points_bets - current_sol_bets + amount
        > u64::MAX {
        Err(ErrorCode::ArithmeticOverflow)
    } else if current_sol_bets == 0 {
        Err(ErrorCode::InvalidParameters)
    } else if points_within_limit(current_points_bets as int, current_sol_bets as int, amount as int) {
        Ok(())
    } else {
        Err(ErrorCode::TicketBetCapExceeded)
    }
}

/// Ticket bets may add points only while the ticket-backed points stay within
/// 25% of the SOL already bet in the round.
pub fn validate_points_percentage_limit(
    current_points_bets: u64,
    current_sol_bets: u64,
    amount: u64,
) -> (r: Result<(), ErrorCode>)
    ensures
        r == points_limit_result(current_points_bets, current_sol_bets, amount),
        current_points_bets < current_sol_bets || current_points_bets - current_sol_bets + amount
            > u64::MAX ==> r == Err::<(), ErrorCode>(ErrorCode::ArithmeticOverflow),
        current_points_bets >= current_sol_bets && current_points_bets - current_sol_bets + amount
            <= u64::MAX && current_sol_bets == 0 ==> r == Err::<(), ErrorCode>(
            ErrorCode::InvalidParameters,
        ),
        current_points_bets >= current_sol_bets && current_points_bets - current_sol_bets + amount
            <= u64::MAX && current_sol_bets > 0 ==> (r is Ok <==> points_within_limit(
            current_points_bets as int,
            current_sol_bets as int,
            amount as int,
        )),
        r is Err && current_points_bets >= current_sol_bets && current_points_bets - current_sol_bets
            + amount <= u64::MAX && current_sol_bets > 0 ==> r == Err::<(), ErrorCode>(
            ErrorCode::TicketBetCapExceeded,
        ),
{
    if current_points_bets < current_sol_bets {
        return Err(ErrorCode::ArithmeticOverflow);
    }
    let current_ticket_points = current_points_bets - current_sol_bets;
    let new_ticket_points = match current_ticket_points.checked_add(amount) {
        Some(v) => v,
        None => return Err(ErrorCode::ArithmeticOverflow),
    };
    if current_sol_bets == 0 {
        return Err(ErrorCode::InvalidParameters);
    }
    let max_allowed = mul_div_u64(current_sol_bets, 25, 100)?;
    if new_ticket_points <= max_allowed {
        Ok(())
    } else {
        Err(ErrorCode::TicketBetCapExceeded)
    }
}

} // verus!
