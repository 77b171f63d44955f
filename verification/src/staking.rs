//! Passive staking of degenBTC and LP tokens: position slots, lockup
//! weighting, reward-index accrual, early-withdrawal tax, and the stake and
//! unstake transitions of a player and their faction.
use anchor_spl::token_2022::spl_token_2022::extension::transfer_fee::TransferFeeConfig;
use anchor_spl::token_2022::spl_token_2022::extension::{BaseStateWithExtensions, StateWithExtensions};
use anchor_spl::token_2022::spl_token_2022::state::Mint as Token2022Mint;
use vstd::prelude::*;

use crate::constants::{
    DAY_IN_SECONDS, EMERGENCY_WITHDRAWAL_PENALTY_PCT, MAX_ALLOWED_POSITIONS, M_HUNDRED,
};
use crate::errors::ErrorCode;
use crate::math::{
    calc_hashpower_contribution, calc_weighted_amount, calculate_multiplier,
    calculate_staking_rewards, lockup_multiplier_spec, lockup_params_valid, mul_div_spec,
    staking_rewards_spec,
};
use crate::bets::ReferralRewards;
use crate::state::{FactionLane, FactionState, PlayerData, StakeLane};

verus! {

/// Which staking lane an operation works on.
#[derive(Debug, Clone, Copy, PartialEq, Eq, Structural)]
pub enum LaneKind {
    DegenBtc,
    Lp,
}

pub open spec fn player_lane(p: PlayerData, kind: LaneKind) -> StakeLane {
    match kind {
        LaneKind::DegenBtc => p.degenbtc,
        LaneKind::Lp => p.lp,
    }
}

pub open spec fn faction_lane(f: FactionState, kind: LaneKind) -> FactionLane {
    match kind {
        LaneKind::DegenBtc => f.degenbtc,
        LaneKind::Lp => f.lp,
    }
}

/// Rewards a lane has accrued since its debts: nothing without hashpower.
pub open spec fn lane_accrual(lane: StakeLane, fl: FactionLane) -> (int, int) {
    if lane.hashpower > 0 {
        (
            staking_rewards_spec(lane.hashpower as int, fl.sol_reward_index as int, lane.sol_reward_debt as int),
            staking_rewards_spec(lane.hashpower as int, fl.dbtc_reward_index as int, lane.dbtc_reward_debt as int),
        )
    } else {
        (0, 0)
    }
}

/// Whether a lane's accrual can be computed and credited.
pub open spec fn lane_accrual_ok(lane: StakeLane, fl: FactionLane, pending_sol: u64, pending_staking: u64) -> bool {
    lane.hashpower > 0 ==> {
        &&& lane.sol_reward_debt <= fl.sol_reward_index
        &&& (lane.hashpower as int) * (fl.sol_reward_index - lane.sol_reward_debt) <= u128::MAX
        &&& lane_accrual(lane, fl).0 <= u64::MAX
        &&& pending_sol + lane_accrual(lane, fl).0 <= u64::MAX
        &&& lane.dbtc_reward_debt <= fl.dbtc_reward_index
        &&& (lane.hashpower as int) * (fl.dbtc_reward_index - lane.dbtc_reward_debt) <= u128::MAX
        &&& lane_accrual(lane, fl).1 <= u64::MAX
        &&& pending_staking + lane_accrual(lane, fl).1 <= u64::MAX
    }
}

/// What an accrual of a lane's rewards returns and does to the player.
pub open spec fn lane_rewards_updated(p0: PlayerData, p1: PlayerData, f0: FactionState, kind: LaneKind, r: Result<(u64, u64), ErrorCode>) -> bool {
    &&& (r is Ok <==> lane_accrual_ok(player_lane(p0, kind), faction_lane(f0, kind), p0.pending_sol_rewards, p0.pending_staking_dbtc_rewards))
    &&& (r is Err ==> r == Err::<(u64, u64), ErrorCode>(ErrorCode::ArithmeticOverflow))
    &&& (r matches Ok((sol, dbtc)) ==> {
        let acc = lane_accrual(player_lane(p0, kind), faction_lane(f0, kind));
        let fl = faction_lane(f0, kind);
        &&& sol == acc.0 && dbtc == acc.1
        &&& p1.pending_sol_rewards == p0.pending_sol_rewards + sol
        &&& p1.pending_staking_dbtc_rewards == p0.pending_staking_dbtc_rewards + dbtc
        &&& player_lane(p1, kind) == (StakeLane {
            sol_reward_debt: fl.sol_reward_index,
            dbtc_reward_debt: fl.dbtc_reward_index,
            ..player_lane(p0, kind)
        })
        &&& player_lane(p1, other_lane(kind)) == player_lane(p0, other_lane(kind))
        &&& same_player_except_rewards(p1, p0)
    })
}

/// Credits a player's lane with the SOL and degenBTC it accrued since its
/// reward debts, then moves the debts up to the faction's current indexes
/// (also without hashpower, so an emptied lane cannot later earn rewards
/// from before it was refilled). Returns `(new_sol, new_dbtc)`.
pub fn update_staking_rewards(player: &mut PlayerData, faction: &FactionState, kind: LaneKind) -> (r: Result<(u64, u64), ErrorCode>)
    ensures
        lane_rewards_updated(*old(player), *final(player), *faction, kind, r),

{
    let (hashpower, sol_debt, dbtc_debt) = match kind {
        LaneKind::DegenBtc => (player.degenbtc.hashpower, player.degenbtc.sol_reward_debt, player.degenbtc.dbtc_reward_debt),
        LaneKind::Lp => (player.lp.hashpower, player.lp.sol_reward_debt, player.lp.dbtc_reward_debt),
    };
    let fl = match kind {
        LaneKind::DegenBtc => faction.degenbtc,
        LaneKind::Lp => faction.lp,
    };
    let mut new_sol: u64 = 0;
    let mut new_dbtc: u64 = 0;
    if hashpower > 0 {
        new_sol = calculate_staking_rewards(hashpower, fl.sol_reward_index, sol_debt)?;
        let pending_sol = match player.pending_sol_rewards.checked_add(new_sol) {
            Some(v) => v,
            None => return Err(ErrorCode::ArithmeticOverflow),
        };
        new_dbtc = calculate_staking_rewards(hashpower, fl.dbtc_reward_index, dbtc_debt)?;
        let pending_staking = match player.pending_staking_dbtc_rewards.checked_add(new_dbtc) {
            Some(v) => v,
            None => return Err(ErrorCode::ArithmeticOverflow),
        };
        player.pending_sol_rewards = pending_sol;
        player.pending_staking_dbtc_rewards = pending_staking;
    }
    match kind {
        LaneKind::DegenBtc => {
            player.degenbtc.sol_reward_debt = fl.sol_reward_index;
            player.degenbtc.dbtc_reward_debt = fl.dbtc_reward_index;
        },
        LaneKind::Lp => {
            player.lp.sol_reward_debt = fl.sol_reward_index;
            player.lp.dbtc_reward_debt = fl.dbtc_reward_index;
        },
    }
    Ok((new_sol, new_dbtc))
}

/// Accrues the player's degenBTC-lane staking rewards.
pub fn int_update_minebtc_staking_rewards(player: &mut PlayerData, faction: &FactionState) -> (r: Result<(u64, u64), ErrorCode>)
    ensures
        lane_rewards_updated(*old(player), *final(player), *faction, LaneKind::DegenBtc, r),
{
    update_staking_rewards(player, faction, LaneKind::DegenBtc)
}

/// Accrues the player's LP-lane staking rewards.
pub fn int_update_lp_staking_rewards(player: &mut PlayerData, faction: &FactionState) -> (r: Result<(u64, u64), ErrorCode>)
    ensures
        lane_rewards_updated(*old(player), *final(player), *faction, LaneKind::Lp, r),
{
    update_staking_rewards(player, faction, LaneKind::Lp)
}

pub open spec fn other_lane(kind: LaneKind) -> LaneKind {
    match kind {
        LaneKind::DegenBtc => LaneKind::Lp,
        LaneKind::Lp => LaneKind::DegenBtc,
    }
}

/// Every field other than the lanes and the pending staking rewards agrees.
pub open spec fn same_player_except_rewards(a: PlayerData, b: PlayerData) -> bool {
    a == (PlayerData {
        degenbtc: a.degenbtc,
        lp: a.lp,
        pending_sol_rewards: a.pending_sol_rewards,
        pending_staking_dbtc_rewards: a.pending_staking_dbtc_rewards,
        ..b
    })
}

/// Opening slot `index`: slots run below the cap, an open slot stays as it
/// is, a new one is appended when there is room; otherwise nothing changes.
pub open spec fn slot_opened(before: Seq<u8>, after: Seq<u8>, index: u8, r: Result<(), ErrorCode>) -> bool {
    &&& (r is Ok <==> index < MAX_ALLOWED_POSITIONS && (before.contains(index) || before.len() < MAX_ALLOWED_POSITIONS))
    &&& (r is Err ==> r == Err::<(), ErrorCode>(ErrorCode::InvalidParameters) && after == before)
    &&& (r is Ok && before.contains(index) ==> after == before)
    &&& (r is Ok && !before.contains(index) ==> after == before.push(index))
}

/// Closing slot `index`: its first occurrence leaves; an absent slot is
/// refused and nothing changes.
pub open spec fn slot_closed(before: Seq<u8>, after: Seq<u8>, index: u8, r: Result<(), ErrorCode>) -> bool {
    &&& (r is Ok <==> before.contains(index))
    &&& (r is Err ==> r == Err::<(), ErrorCode>(ErrorCode::InvalidParameters) && after == before)
    &&& (r is Ok ==> exists|k: int|
        0 <= k < before.len() && before[k] == index && (forall|j: int| 0 <= j < k ==> before[j] != index)
            && after == before.remove(k))
}

/// Opens position slot `index` in a lane: slots run below the cap, a slot
/// already open is left as is, and a new one needs a free place.
pub fn add_position(indices: &mut Vec<u8>, index: u8) -> (r: Result<(), ErrorCode>)
    ensures
        slot_opened(old(indices)@, final(indices)@, index, r),
{
    if index >= MAX_ALLOWED_POSITIONS {
        return Err(ErrorCode::InvalidParameters);
    }
    let n = indices.len();
    let mut i: usize = 0;
    while i < n
        invariant
            index < MAX_ALLOWED_POSITIONS,
            n == indices.len(),
            i <= n,
            indices@ == old(indices)@,
            forall|k: int| 0 <= k < i ==> indices@[k] != index,
        decreases n - i,
    {
        if indices[i] == index {
            proof {
                assert(indices@[i as int] == index);
                assert(indices@.contains(index));
            }
            return Ok(());
        }
        i += 1;
    }
    if n >= MAX_ALLOWED_POSITIONS as usize {
        return Err(ErrorCode::InvalidParameters);
    }
    indices.push(index);
    Ok(())
}

/// Closes position slot `index` (its first occurrence); an absent slot is
/// refused.
pub fn remove_position(indices: &mut Vec<u8>, index: u8) -> (r: Result<(), ErrorCode>)
    ensures
        slot_closed(old(indices)@, final(indices)@, index, r),
{
    let n = indices.len();
    let mut i: usize = 0;
    while i < n
        invariant
            n == indices.len(),
            i <= n,
            indices@ == old(indices)@,
            forall|k: int| 0 <= k < i ==> indices@[k] != index,
        decreases n - i,
    {
        if indices[i] == index {
            let ghost before = indices@;
            indices.remove(i);
            proof {
                assert(before[i as int] == index);
            }
            return Ok(());
        }
        i += 1;
    }
    Err(ErrorCode::InvalidParameters)
}

/// Every field of the player but the slots of `kind` agrees.
pub open spec fn only_slots_changed(a: PlayerData, b: PlayerData, kind: LaneKind) -> bool {
    &&& same_player_except_rewards(a, b)
    &&& a.pending_sol_rewards == b.pending_sol_rewards
    &&& a.pending_staking_dbtc_rewards == b.pending_staking_dbtc_rewards
    &&& player_lane(a, other_lane(kind)) == player_lane(b, other_lane(kind))
    &&& player_lane(a, kind) == (StakeLane { position_indices: player_lane(a, kind).position_indices, ..player_lane(b, kind) })
}

/// Opens slot `position_index` among the player's degenBTC positions.
pub fn add_degenbtc_position(player: &mut PlayerData, position_index: u8) -> (r: Result<(), ErrorCode>)
    ensures
        slot_opened(old(player).degenbtc.position_indices@, final(player).degenbtc.position_indices@, position_index, r),
        only_slots_changed(*final(player), *old(player), LaneKind::DegenBtc),
{
    add_position(&mut player.degenbtc.position_indices, position_index)
}

/// Closes slot `position_index` among the player's degenBTC positions.
pub fn remove_degenbtc_position(player: &mut PlayerData, position_index: u8) -> (r: Result<(), ErrorCode>)
    ensures
        slot_closed(old(player).degenbtc.position_indices@, final(player).degenbtc.position_indices@, position_index, r),
        only_slots_changed(*final(player), *old(player), LaneKind::DegenBtc),
{
    remove_position(&mut player.degenbtc.position_indices, position_index)
}

/// Opens slot `position_index` among the player's LP positions.
pub fn add_lp_position(player: &mut PlayerData, position_index: u8) -> (r: Result<(), ErrorCode>)
    ensures
        slot_opened(old(player).lp.position_indices@, final(player).lp.position_indices@, position_index, r),
        only_slots_changed(*final(player), *old(player), LaneKind::Lp),
{
    add_position(&mut player.lp.position_indices, position_index)
}

/// Closes slot `position_index` among the player's LP positions.
pub fn remove_lp_position(player: &mut PlayerData, position_index: u8) -> (r: Result<(), ErrorCode>)
    ensures
        slot_closed(old(player).lp.position_indices@, final(player).lp.position_indices@, position_index, r),
        only_slots_changed(*final(player), *old(player), LaneKind::Lp),
{
    remove_position(&mut player.lp.position_indices, position_index)
}

/// Opening a fresh slot and closing it again restores the lane's slots.
pub proof fn lemma_add_then_remove_position(before: Seq<u8>, index: u8)
    requires
        !before.contains(index),
    ensures
        before.push(index).contains(index),
        before.push(index).remove(before.len() as int) == before,
        forall|j: int| 0 <= j < before.len() ==> before.push(index)[j] != index,
{
    assert(before.push(index)[before.len() as int] == index);
    assert(before.push(index).remove(before.len() as int) =~= before);
    assert forall|j: int| 0 <= j < before.len() implies before.push(index)[j] != index by {
        if before.push(index)[j] == index {
            assert(before[j] == index);
        }
    }
}

/// A staking position account.
#[derive(Debug, Clone, Copy, PartialEq, Eq, Structural)]
pub struct StakedPosition {
    pub position_index: u8,
    pub position_type: u8,
    pub faction_id: u8,
    pub staked_amount: u64,
    pub weighted_amount: u64,
    pub lockup_duration: u64,
    pub start_timestamp: i64,
    pub lockup_end_timestamp: i64,
    pub multiplier: u16,
    pub bump: u8,
}

/// The lockup parameters of a hashpower configuration.
#[derive(Debug, Clone, Copy, PartialEq, Eq, Structural)]
pub struct HashpowerConfig {
    pub min_lockup_days: u64,
    pub max_lockup_days: u64,
    pub base_multiplier: u16,
    pub max_multiplier: u16,
}

/// Whether a lockup of `lockup_days` starting at `start` ends within the
/// timestamp range.
pub open spec fn lockup_end_fits(start: i64, lockup_days: u64) -> bool {
    lockup_days * DAY_IN_SECONDS <= i64::MAX && start + lockup_days * DAY_IN_SECONDS <= i64::MAX
}

/// A position opened at `start` for `lockup_days` days.
pub fn init_position(
    position_type: u8,
    faction_id: u8,
    position_index: u8,
    staked_amount: u64,
    weighted_amount: u64,
    lockup_duration: u64,
    start: i64,
    multiplier: u16,
    bump: u8,
) -> (r: Result<StakedPosition, ErrorCode>)
    ensures
        r is Ok <==> lockup_end_fits(start, lockup_duration),
        r is Err ==> r == Err::<StakedPosition, ErrorCode>(ErrorCode::ArithmeticOverflow),
        r matches Ok(p) ==> p == (StakedPosition {
            position_index,
            position_type,
            faction_id,
            staked_amount,
            weighted_amount,
            lockup_duration,
            start_timestamp: start,
            lockup_end_timestamp: (start + lockup_duration * DAY_IN_SECONDS) as i64,
            multiplier,
            bump,
        }),
{
    let seconds = match lockup_duration.checked_mul(DAY_IN_SECONDS) {
        Some(v) => v,
        None => return Err(ErrorCode::ArithmeticOverflow),
    };
    if seconds > i64::MAX as u64 {
        return Err(ErrorCode::ArithmeticOverflow);
    }
    let seconds_i64 = seconds as i64;
    let end = match start.checked_add(seconds_i64) {
        Some(v) => v,
        None => return Err(ErrorCode::ArithmeticOverflow),
    };
    Ok(
        StakedPosition {
            position_index,
            position_type,
            faction_id,
            staked_amount,
            weighted_amount,
            lockup_duration,
            start_timestamp: start,
            lockup_end_timestamp: end,
            multiplier,
            bump,
        },
    )
}

/// The early-withdrawal tax of a position at `now`: nothing once the lockup
/// has ended (or when the time left does not fit a timestamp); otherwise
/// `tax_pct` scaled by the share of the lockup still remaining (whole
/// percents, rounded down), applied to the stake.
pub open spec fn emergency_tax_spec(staked: int, start: int, end: int, now: int, tax_pct: int) -> int {
    let total = end - start;
    let remaining = if end - now > i64::MAX { 0 } else { end - now };
    if remaining <= 0 || total <= 0 {
        0
    } else {
        let pct = 100 * remaining / total;
        mul_div_spec(staked, mul_div_spec(tax_pct, pct, 100), 100)
    }
}

/// Whether the early-withdrawal tax can be computed: the lockup's length
/// fits a timestamp, a hundred times the time left fits one where it is
/// used, and the tax fits 64 bits.
pub open spec fn emergency_tax_ok(position: StakedPosition, now: i64, tax_pct: u64) -> bool {
    let total = position.lockup_end_timestamp - position.start_timestamp;
    let remaining = position.lockup_end_timestamp - now;
    &&& i64::MIN <= total <= i64::MAX
    &&& (0 < remaining <= i64::MAX && total > 0 ==> 100 * remaining <= i64::MAX
        && (tax_pct as int) * (100 * remaining / total) / 100 <= u64::MAX)
    &&& emergency_tax_spec(
        position.staked_amount as int,
        position.start_timestamp as int,
        position.lockup_end_timestamp as int,
        now as int,
        tax_pct as int,
    ) <= u64::MAX
}

/// Whether an early exit's tax, once computed, is covered by the stake
/// (a tax beyond the stake is only possible for a position that starts
/// after `now`).
pub open spec fn early_exit_tax_covered(position: StakedPosition, now: i64) -> bool {
    now < position.lockup_end_timestamp && emergency_tax_ok(position, now, EMERGENCY_WITHDRAWAL_PENALTY_PCT)
        ==> emergency_tax_spec(
        position.staked_amount as int,
        position.start_timestamp as int,
        position.lockup_end_timestamp as int,
        now as int,
        EMERGENCY_WITHDRAWAL_PENALTY_PCT as int,
    ) <= position.staked_amount
}

/// Computes the early-withdrawal tax; see `emergency_tax_spec`. Fails only
/// when the lockup's length leaves the `i64` range or a hundred times the
/// time left does.
pub fn calculate_emergency_tax(position: &StakedPosition, now: i64, tax_pct: u64) -> (r: Result<u64, ErrorCode>)
    ensures
        r is Ok <==> emergency_tax_ok(*position, now, tax_pct),
        r is Err ==> r == Err::<u64, ErrorCode>(ErrorCode::ArithmeticOverflow),
        r matches Ok(v) ==> v == emergency_tax_spec(
            position.staked_amount as int,
            position.start_timestamp as int,
            position.lockup_end_timestamp as int,
            now as int,
            tax_pct as int,
        ),
{
    let end = position.lockup_end_timestamp as i128;
    let start = position.start_timestamp as i128;
    let total = end - start;
    if total > i64::MAX as i128 || total < i64::MIN as i128 {
        return Err(ErrorCode::ArithmeticOverflow);
    }
    let remaining = end - (now as i128);
    if remaining <= 0 || total <= 0 || remaining > i64::MAX as i128 {
        return Ok(0);
    }
    if remaining > (i64::MAX / 100) as i128 {
        return Err(ErrorCode::ArithmeticOverflow);
    }
    let pct = (100 * remaining / total) as u64;
    proof {
        assert(0 <= (100 * remaining as int) / (total as int) <= 100 * remaining as int) by (nonlinear_arith)
            requires
                remaining > 0,
                total > 0,
        ;
        assert((tax_pct as int) * (pct as int) <= (u64::MAX as int) * (u64::MAX as int)) by (nonlinear_arith)
            requires
                tax_pct <= u64::MAX,
                pct <= u64::MAX,
        ;
        assert(0 <= (tax_pct as int) * (pct as int) / 100) by (nonlinear_arith);
    }
    let penalty_pct_wide = (tax_pct as u128) * (pct as u128) / 100;
    if penalty_pct_wide > u64::MAX as u128 {
        return Err(ErrorCode::ArithmeticOverflow);
    }
    let penalty_pct = penalty_pct_wide as u64;
    proof {
        lemma_scaled_penalty_fits(position.staked_amount as int, penalty_pct as int);
    }
    let penalty = (position.staked_amount as u128) * (penalty_pct as u128) / 100;
    if penalty > u64::MAX as u128 {
        return Err(ErrorCode::ArithmeticOverflow);
    }
    Ok(penalty as u64)
}

pub proof fn lemma_scaled_penalty_fits(staked: int, pct: int)
    requires
        0 <= staked <= u64::MAX,
        0 <= pct <= u64::MAX,
    ensures
        staked * pct <= u128::MAX,
        0 <= staked * pct / 100,
{
    assert(staked * pct <= (u64::MAX as int) * (u64::MAX as int)) by (nonlinear_arith)
        requires
            0 <= staked <= u64::MAX,
            0 <= pct <= u64::MAX,
    ;
    assert(0 <= staked * pct / 100) by (nonlinear_arith)
        requires
            0 <= staked,
            0 <= pct,
    ;
}

/// Within the lockup, the tax never exceeds `tax_pct` percent of the stake.
pub proof fn lemma_emergency_tax_bounded(staked: nat, start: int, end: int, now: int, tax_pct: nat)
    requires
        start <= now,
        tax_pct <= 100,
    ensures
        emergency_tax_spec(staked as int, start, end, now, tax_pct as int) <= staked * tax_pct / 100,
        now >= end ==> emergency_tax_spec(staked as int, start, end, now, tax_pct as int) == 0,
{
    let total = end - start;
    let remaining = end - now;
    if remaining > 0 && total > 0 {
        let pct = 100 * remaining / total;
        assert(pct <= 100) by (nonlinear_arith)
            requires
                0 < remaining <= total,
                pct == 100 * remaining / total,
        ;
        assert(tax_pct * pct / 100 <= tax_pct) by (nonlinear_arith)
            requires
                0 <= pct <= 100,
                tax_pct >= 0,
        ;
        let p2 = tax_pct * pct / 100;
        assert(staked * p2 / 100 <= staked * tax_pct / 100) by (nonlinear_arith)
            requires
                0 <= p2 <= tax_pct,
                staked >= 0,
        ;
    }
}


/// One transfer-fee setting of a Token-2022 mint.
#[derive(Debug, Clone, Copy, PartialEq, Eq, Structural)]
pub struct TransferFee {
    pub epoch: u64,
    pub maximum_fee: u64,
    pub transfer_fee_basis_points: u16,
}

/// The older and the newer transfer-fee settings of a Token-2022 mint, and
/// the fees withheld on it.
#[derive(Debug, Clone, Copy, PartialEq, Eq, Structural)]
pub struct TransferFeeSchedule {
    pub older: TransferFee,
    pub newer: TransferFee,
    /// Fees withheld on the mint itself, waiting to be withdrawn.
    pub withheld_amount: u64,
}

/// The transfer-fee configuration stored in a Token-2022 mint account's
/// data, if it unpacks as a mint with that extension.
pub uninterp spec fn mint_transfer_fee_schedule(mint_data: Seq<u8>) -> Option<TransferFeeSchedule>;

/// Unpacks a Token-2022 mint (`StateWithExtensions::<Mint>::unpack`) and
/// reads its `TransferFeeConfig` extension (`get_extension`): the two fee
/// settings and the withheld amount, both from spl-token-2022 as anchor-spl
/// re-exports it. The contract only names the
/// result as a function of the bytes; `None` stands for either lookup
/// failing.
#[verifier::external_body]
fn read_transfer_fee_schedule(mint_data: &[u8]) -> (r: Option<TransferFeeSchedule>)
    ensures
        r == mint_transfer_fee_schedule(mint_data@),
{
    let mint = StateWithExtensions::<Token2022Mint>::unpack(mint_data).ok()?;
    let config = mint.get_extension::<TransferFeeConfig>().ok()?;
    let (older, newer) = (&config.older_transfer_fee, &config.newer_transfer_fee);
    Some(TransferFeeSchedule {
        older: TransferFee { epoch: u64::from(older.epoch), maximum_fee: u64::from(older.maximum_fee), transfer_fee_basis_points: u16::from(older.transfer_fee_basis_points) },
        newer: TransferFee { epoch: u64::from(newer.epoch), maximum_fee: u64::from(newer.maximum_fee), transfer_fee_basis_points: u16::from(newer.transfer_fee_basis_points) },
        withheld_amount: u64::from(config.withheld_amount),
    })
}

/// The setting in force at `epoch`: the newer one from its epoch on.
pub open spec fn epoch_fee(s: TransferFeeSchedule, epoch: u64) -> TransferFee {
    if epoch >= s.newer.epoch {
        s.newer
    } else {
        s.older
    }
}

/// The fee of a transfer of `amount` under setting `f`: the basis points
/// rounded up, capped at the maximum fee; nothing at zero rate or amount;
/// undefined (`None`) when the rounded fee leaves the `u64` range.
pub open spec fn transfer_fee_of(f: TransferFee, amount: u64) -> Option<u64> {
    if f.transfer_fee_basis_points == 0 || amount == 0 {
        Some(0)
    } else {
        let raw = ((amount as int) * (f.transfer_fee_basis_points as int) + 9_999) / 10_000;
        if raw > u64::MAX {
            None
        } else if raw <= f.maximum_fee {
            Some(raw as u64)
        } else {
            Some(f.maximum_fee)
        }
    }
}

/// Computes `transfer_fee_of`.
pub fn calculate_transfer_fee(f: TransferFee, amount: u64) -> (r: Option<u64>)
    ensures
        r == transfer_fee_of(f, amount),
{
    if f.transfer_fee_basis_points == 0 || amount == 0 {
        return Some(0);
    }
    proof {
        assert((amount as int) * (f.transfer_fee_basis_points as int) <= (u64::MAX as int) * 65_535) by (nonlinear_arith)
            requires
                f.transfer_fee_basis_points <= 65_535,
        ;
        assert((amount as int) * (f.transfer_fee_basis_points as int) >= 0) by (nonlinear_arith);
    }
    let numerator = (amount as u128) * (f.transfer_fee_basis_points as u128);
    let raw = (numerator + 9_999) / 10_000;
    if raw > u64::MAX as u128 {
        return None;
    }
    let raw64 = raw as u64;
    if raw64 <= f.maximum_fee {
        Some(raw64)
    } else {
        Some(f.maximum_fee)
    }
}

/// What a Token-2022 transfer of a gross amount delivers.
#[derive(Debug, Clone, Copy, PartialEq, Eq, Structural)]
pub struct TransferFeeInfo {
    pub transfer_fee_basis_points: u16,
    pub max_fee: u64,
    pub fee_amount: u64,
    pub post_fee_amount: u64,
}

/// The fee and net amount of transferring `amount` under a mint's fee
/// schedule at `epoch`: the setting in force then, its fee, and what is
/// left; refused when the fee does not fit or exceeds the amount.
pub open spec fn fee_info_from_schedule(s: TransferFeeSchedule, amount: u64, epoch: u64) -> Result<TransferFeeInfo, ErrorCode> {
    let f = epoch_fee(s, epoch);
    match transfer_fee_of(f, amount) {
        None => Err(ErrorCode::ArithmeticOverflow),
        Some(fee) => if fee > amount {
            Err(ErrorCode::ArithmeticOverflow)
        } else {
            Ok(TransferFeeInfo {
                transfer_fee_basis_points: f.transfer_fee_basis_points,
                max_fee: f.maximum_fee,
                fee_amount: fee,
                post_fee_amount: (amount - fee) as u64,
            })
        },
    }
}

/// The fee and net amount of transferring `amount` of a Token-2022 mint at
/// `epoch`: refused as `InvalidMint` when the mint carries no transfer-fee
/// configuration.
pub open spec fn transfer_fee_info_spec(mint_data: Seq<u8>, amount: u64, epoch: u64) -> Result<TransferFeeInfo, ErrorCode> {
    match mint_transfer_fee_schedule(mint_data) {
        None => Err(ErrorCode::InvalidMint),
        Some(s) => fee_info_from_schedule(s, amount, epoch),
    }
}

/// Computes `fee_info_from_schedule` once the mint's schedule is read.
pub fn transfer_fee_info_from_schedule(schedule: TransferFeeSchedule, amount: u64, epoch: u64) -> (r: Result<TransferFeeInfo, ErrorCode>)
    ensures
        r == fee_info_from_schedule(schedule, amount, epoch),
{
    let f = if epoch >= schedule.newer.epoch {
        schedule.newer
    } else {
        schedule.older
    };
    let fee = match calculate_transfer_fee(f, amount) {
        Some(v) => v,
        None => return Err(ErrorCode::ArithmeticOverflow),
    };
    if fee > amount {
        return Err(ErrorCode::ArithmeticOverflow);
    }
    Ok(
        TransferFeeInfo {
            transfer_fee_basis_points: f.transfer_fee_basis_points,
            max_fee: f.maximum_fee,
            fee_amount: fee,
            post_fee_amount: amount - fee,
        },
    )
}

/// The transfer fee of `amount` of a Token-2022 mint at `epoch`, reading
/// the mint's fee schedule from its account data.
pub fn get_token2022_transfer_fee_info(mint_data: &[u8], amount: u64, epoch: u64) -> (r: Result<TransferFeeInfo, ErrorCode>)
    ensures
        r == transfer_fee_info_spec(mint_data@, amount, epoch),
{
    match read_transfer_fee_schedule(mint_data) {
        Some(s) => transfer_fee_info_from_schedule(s, amount, epoch),
        None => Err(ErrorCode::InvalidMint),
    }
}

/// The amount a stake of `amount` credits: the post-fee amount of a
/// Token-2022 degenBTC transfer, or the amount itself for LP tokens.
pub open spec fn credited_amount(kind: LaneKind, mint_data: Seq<u8>, amount: u64, epoch: u64) -> Result<u64, ErrorCode> {
    match kind {
        LaneKind::DegenBtc => match transfer_fee_info_spec(mint_data, amount, epoch) {
            Ok(info) => Ok(info.post_fee_amount),
            Err(e) => Err(e),
        },
        LaneKind::Lp => Ok(amount),
    }
}

/// The pieces of a new position: credited amount, lockup multiplier,
/// weighted amount and hashpower contribution.
pub open spec fn stake_amounts(credited: u64, cfg: HashpowerConfig, lockup: u64, hb_multiplier: u16) -> (int, int, int) {
    let mult = lockup_multiplier_spec(lockup as int, cfg.min_lockup_days as int, cfg.max_lockup_days as int, cfg.base_multiplier as int, cfg.max_multiplier as int);
    let weighted = mul_div_spec(credited as int, mult, M_HUNDRED as int);
    let contribution = mul_div_spec(weighted, hb_multiplier as int, 1000);
    (mult, weighted, contribution)
}

/// Whether a stake request succeeds.
pub open spec fn stake_ok(
    player: PlayerData,
    faction: FactionState,
    existing_staked: u64,
    cfg: HashpowerConfig,
    kind: LaneKind,
    amount: u64,
    lockup: u64,
    index: u8,
    now: i64,
    mint_data: Seq<u8>,
    epoch: u64,
) -> bool {
    let lane = player_lane(player, kind);
    let fl = faction_lane(faction, kind);
    &&& amount > 0
    &&& cfg.min_lockup_days <= lockup <= cfg.max_lockup_days
    &&& faction.faction_id == player.faction_id
    &&& existing_staked == 0
    &&& credited_amount(kind, mint_data, amount, epoch) is Ok
    &&& credited_amount(kind, mint_data, amount, epoch)->Ok_0 > 0
    &&& index < MAX_ALLOWED_POSITIONS
    &&& (lane.position_indices@.contains(index) || lane.position_indices@.len() < MAX_ALLOWED_POSITIONS)
    &&& lockup_params_valid(lockup, cfg.min_lockup_days, cfg.max_lockup_days, cfg.base_multiplier, cfg.max_multiplier)
    &&& ({
        let credited = credited_amount(kind, mint_data, amount, epoch)->Ok_0;
        let (mult, weighted, contribution) = stake_amounts(credited, cfg, lockup, player.hashbeast_multiplier);
        &&& weighted <= u64::MAX
        &&& lane_accrual_ok(lane, fl, player.pending_sol_rewards, player.pending_staking_dbtc_rewards)
        &&& lockup_end_fits(now, lockup)
        &&& contribution <= u64::MAX
        &&& lane.hashpower + contribution <= u64::MAX
        &&& lane.staked + credited <= u64::MAX
        &&& fl.staked + credited <= u64::MAX
        &&& fl.hashpower + contribution <= u64::MAX
    })
}

/// What a successful stake opened and accrued.
#[derive(Debug, Clone, Copy, PartialEq, Eq, Structural)]
pub struct StakeOutcome {
    pub position: StakedPosition,
    pub hashpower_contribution: u64,
    pub new_sol_rewards: u64,
    pub new_dbtc_rewards: u64,
}

fn credit_lane(lane: &mut StakeLane, fl: &mut FactionLane, credited: u64, contribution: u64) -> (r: Result<(), ErrorCode>)
    ensures
        r is Ok <==> (old(lane).hashpower + contribution <= u64::MAX && old(lane).staked + credited <= u64::MAX
            && old(fl).staked + credited <= u64::MAX && old(fl).hashpower + contribution <= u64::MAX),
        r is Err ==> r == Err::<(), ErrorCode>(ErrorCode::ArithmeticOverflow),
        r is Ok ==> *final(lane) == (StakeLane { hashpower: (old(lane).hashpower + contribution) as u64, staked: (old(lane).staked + credited) as u64, ..*old(lane) })
            && *final(fl) == (FactionLane { staked: (old(fl).staked + credited) as u64, hashpower: (old(fl).hashpower + contribution) as u64, ..*old(fl) }),
{
    let hp = match lane.hashpower.checked_add(contribution) {
        Some(v) => v,
        None => return Err(ErrorCode::ArithmeticOverflow),
    };
    let st = match lane.staked.checked_add(credited) {
        Some(v) => v,
        None => return Err(ErrorCode::ArithmeticOverflow),
    };
    let fst = match fl.staked.checked_add(credited) {
        Some(v) => v,
        None => return Err(ErrorCode::ArithmeticOverflow),
    };
    let fhp = match fl.hashpower.checked_add(contribution) {
        Some(v) => v,
        None => return Err(ErrorCode::ArithmeticOverflow),
    };
    lane.hashpower = hp;
    lane.staked = st;
    fl.staked = fst;
    fl.hashpower = fhp;
    Ok(())
}

/// What a stake request returns and does to the player and the faction.
pub open spec fn stake_result(
    p0: PlayerData,
    p1: PlayerData,
    f0: FactionState,
    f1: FactionState,
    existing_staked: u64,
    cfg: HashpowerConfig,
    kind: LaneKind,
    amount: u64,
    lockup: u64,
    index: u8,
    now: i64,
    bump: u8,
    mint_data: Seq<u8>,
    epoch: u64,
    r: Result<StakeOutcome, ErrorCode>,
) -> bool {
    &&& (amount == 0 ==> r == Err::<StakeOutcome, ErrorCode>(ErrorCode::InvalidAmount))
    &&& (amount > 0 && !(cfg.min_lockup_days <= lockup <= cfg.max_lockup_days) ==> r == Err::<StakeOutcome, ErrorCode>(ErrorCode::InvalidParameters))
    &&& (amount > 0 && cfg.min_lockup_days <= lockup <= cfg.max_lockup_days && f0.faction_id != p0.faction_id
        ==> r == Err::<StakeOutcome, ErrorCode>(ErrorCode::InvalidFactionId))
    &&& (amount > 0 && cfg.min_lockup_days <= lockup <= cfg.max_lockup_days && f0.faction_id == p0.faction_id && existing_staked != 0
        ==> r == Err::<StakeOutcome, ErrorCode>(ErrorCode::PositionAlreadyExists))
    &&& (r is Ok <==> stake_ok(p0, f0, existing_staked, cfg, kind, amount, lockup, index, now, mint_data, epoch))
    &&& (r matches Ok(out) ==> {
        let credited = credited_amount(kind, mint_data, amount, epoch)->Ok_0;
        let (mult, weighted, contribution) = stake_amounts(credited, cfg, lockup, p0.hashbeast_multiplier);
        let lane = player_lane(p0, kind);
        let fl = faction_lane(f0, kind);
        let acc = lane_accrual(lane, fl);
        &&& out.position == (StakedPosition {
            position_index: index,
            position_type: if kind == LaneKind::DegenBtc { 0u8 } else { 1u8 },
            faction_id: f0.faction_id,
            staked_amount: credited,
            weighted_amount: weighted as u64,
            lockup_duration: lockup,
            start_timestamp: now,
            lockup_end_timestamp: (now + lockup * DAY_IN_SECONDS) as i64,
            multiplier: mult as u16,
            bump,
        })
        &&& out.hashpower_contribution == contribution
        &&& out.new_sol_rewards == acc.0 && out.new_dbtc_rewards == acc.1
        &&& p1.pending_sol_rewards == p0.pending_sol_rewards + acc.0
        &&& p1.pending_staking_dbtc_rewards == p0.pending_staking_dbtc_rewards + acc.1
        &&& player_lane(p1, kind).position_indices@ == (if lane.position_indices@.contains(index) {
            lane.position_indices@
        } else {
            lane.position_indices@.push(index)
        })
        &&& player_lane(p1, kind).hashpower == lane.hashpower + contribution
        &&& player_lane(p1, kind).staked == lane.staked + credited
        &&& player_lane(p1, kind).sol_reward_debt == fl.sol_reward_index
        &&& player_lane(p1, kind).dbtc_reward_debt == fl.dbtc_reward_index
        &&& player_lane(p1, other_lane(kind)) == player_lane(p0, other_lane(kind))
        &&& same_player_except_rewards(p1, p0)
        &&& faction_lane(f1, kind) == (FactionLane { staked: (fl.staked + credited) as u64, hashpower: (fl.hashpower + contribution) as u64, ..fl })
        &&& faction_lane(f1, other_lane(kind)) == faction_lane(f0, other_lane(kind))
        &&& f1.faction_id == f0.faction_id
        &&& f1.hashbeasts_staked == f0.hashbeasts_staked
    })
}

/// Stakes `amount` in a lane of the player's home faction for `lockup`
/// days at position slot `index`: the credited amount (after the Token-2022
/// transfer fee for degenBTC) is weighted by the lockup multiplier and then
/// by the HashBeast multiplier; pending rewards are accrued first.
pub fn stake_tokens(
    player: &mut PlayerData,
    faction: &mut FactionState,
    existing_staked: u64,
    cfg: HashpowerConfig,
    kind: LaneKind,
    amount: u64,
    lockup: u64,
    index: u8,
    now: i64,
    bump: u8,
    mint_data: &[u8],
    epoch: u64,
) -> (r: Result<StakeOutcome, ErrorCode>)
    ensures
        stake_result(*old(player), *final(player), *old(faction), *final(faction), existing_staked, cfg, kind, amount, lockup, index, now, bump, mint_data@, epoch, r),

{
    if amount == 0 {
        return Err(ErrorCode::InvalidAmount);
    }
    if !(lockup >= cfg.min_lockup_days && lockup <= cfg.max_lockup_days) {
        return Err(ErrorCode::InvalidParameters);
    }
    if faction.faction_id != player.faction_id {
        return Err(ErrorCode::InvalidFactionId);
    }
    if existing_staked != 0 {
        return Err(ErrorCode::PositionAlreadyExists);
    }
    let credited = match kind {
        LaneKind::DegenBtc => {
            let info = get_token2022_transfer_fee_info(mint_data, amount, epoch)?;
            if info.post_fee_amount == 0 {
                return Err(ErrorCode::InvalidAmount);
            }
            info.post_fee_amount
        },
        LaneKind::Lp => amount,
    };
    match kind {
        LaneKind::DegenBtc => add_position(&mut player.degenbtc.position_indices, index)?,
        LaneKind::Lp => add_position(&mut player.lp.position_indices, index)?,
    }
    let mult = calculate_multiplier(lockup, cfg.min_lockup_days, cfg.max_lockup_days, cfg.base_multiplier, cfg.max_multiplier)?;
    let weighted = calc_weighted_amount(credited, mult)?;
    let ghost p_mid = *player;
    let (new_sol, new_dbtc) = update_staking_rewards(player, faction, kind)?;
    let position_type: u8 = match kind {
        LaneKind::DegenBtc => 0,
        LaneKind::Lp => 1,
    };
    let position = init_position(position_type, faction.faction_id, index, credited, weighted, lockup, now, mult, bump)?;
    let contribution = calc_hashpower_contribution(weighted, player.hashbeast_multiplier)?;
    match kind {
        LaneKind::DegenBtc => credit_lane(&mut player.degenbtc, &mut faction.degenbtc, credited, contribution)?,
        LaneKind::Lp => credit_lane(&mut player.lp, &mut faction.lp, credited, contribution)?,
    }
    Ok(StakeOutcome { position, hashpower_contribution: contribution, new_sol_rewards: new_sol, new_dbtc_rewards: new_dbtc })
}


/// What an unstake returns and accrues.
#[derive(Debug, Clone, Copy, PartialEq, Eq, Structural)]
pub struct UnstakeOutcome {
    pub returned_amount: u64,
    pub penalty_amount: u64,
    pub hashpower_contribution: u64,
    pub new_sol_rewards: u64,
    pub new_dbtc_rewards: u64,
}

/// Whether an unstake of `position` at slot `index` succeeds (after the
/// account checks).
pub open spec fn unstake_ok(player: PlayerData, faction: FactionState, position: StakedPosition, kind: LaneKind, now: i64) -> bool {
    let lane = player_lane(player, kind);
    let fl = faction_lane(faction, kind);
    let contribution = mul_div_spec(position.weighted_amount as int, player.hashbeast_multiplier as int, 1000);
    &&& lane_accrual_ok(lane, fl, player.pending_sol_rewards, player.pending_staking_dbtc_rewards)
    &&& contribution <= u64::MAX
    &&& fl.staked >= position.staked_amount
    &&& fl.hashpower >= contribution
    &&& lane.hashpower >= contribution
    &&& lane.staked >= position.staked_amount
    &&& (now < position.lockup_end_timestamp ==> emergency_tax_ok(position, now, EMERGENCY_WITHDRAWAL_PENALTY_PCT))
}

fn debit_lane(lane: &mut StakeLane, fl: &mut FactionLane, staked: u64, contribution: u64) -> (r: Result<(), ErrorCode>)
    ensures
        r is Ok <==> (old(fl).staked >= staked && old(fl).hashpower >= contribution && old(lane).hashpower >= contribution
            && old(lane).staked >= staked),
        r is Err ==> r == Err::<(), ErrorCode>(ErrorCode::ArithmeticOverflow),
        r is Ok ==> *final(lane) == (StakeLane { hashpower: (old(lane).hashpower - contribution) as u64, staked: (old(lane).staked - staked) as u64, ..*old(lane) })
            && *final(fl) == (FactionLane { staked: (old(fl).staked - staked) as u64, hashpower: (old(fl).hashpower - contribution) as u64, ..*old(fl) }),
{
    if fl.staked < staked || fl.hashpower < contribution || lane.hashpower < contribution || lane.staked < staked {
        return Err(ErrorCode::ArithmeticOverflow);
    }
    fl.staked = fl.staked - staked;
    fl.hashpower = fl.hashpower - contribution;
    lane.hashpower = lane.hashpower - contribution;
    lane.staked = lane.staked - staked;
    Ok(())
}

/// What an unstake returns and does to the player and the faction.
pub open spec fn unstake_result(
    p0: PlayerData,
    p1: PlayerData,
    f0: FactionState,
    f1: FactionState,
    position: StakedPosition,
    kind: LaneKind,
    index: u8,
    now: i64,
    r: Result<UnstakeOutcome, ErrorCode>,
) -> bool {
    &&& ({
        let lane = player_lane(p0, kind);
        if position.faction_id != f0.faction_id || p0.faction_id != f0.faction_id {
            r == Err::<UnstakeOutcome, ErrorCode>(ErrorCode::InvalidFactionId)
        } else if position.staked_amount == 0 {
            r == Err::<UnstakeOutcome, ErrorCode>(ErrorCode::InvalidAmount)
        } else if position.position_index != index || !lane.position_indices@.contains(index) {
            r == Err::<UnstakeOutcome, ErrorCode>(ErrorCode::InvalidParameters)
        } else {
            (r is Ok <==> unstake_ok(p0, f0, position, kind, now))
                && (r is Err ==> r == Err::<UnstakeOutcome, ErrorCode>(ErrorCode::ArithmeticOverflow))
        }
    })
    &&& (r matches Ok(out) ==> {
        let lane = player_lane(p0, kind);
        let fl = faction_lane(f0, kind);
        let acc = lane_accrual(lane, fl);
        let contribution = mul_div_spec(position.weighted_amount as int, p0.hashbeast_multiplier as int, 1000);
        let penalty = if now < position.lockup_end_timestamp {
            emergency_tax_spec(position.staked_amount as int, position.start_timestamp as int, position.lockup_end_timestamp as int, now as int, EMERGENCY_WITHDRAWAL_PENALTY_PCT as int)
        } else {
            0
        };
        &&& out.penalty_amount == penalty
        &&& out.returned_amount == position.staked_amount - penalty
        &&& out.hashpower_contribution == contribution
        &&& out.new_sol_rewards == acc.0 && out.new_dbtc_rewards == acc.1
        &&& p1.pending_sol_rewards == p0.pending_sol_rewards + acc.0
        &&& p1.pending_staking_dbtc_rewards == p0.pending_staking_dbtc_rewards + acc.1
        &&& player_lane(p1, kind).hashpower == lane.hashpower - contribution
        &&& player_lane(p1, kind).staked == lane.staked - position.staked_amount
        &&& player_lane(p1, kind).sol_reward_debt == fl.sol_reward_index
        &&& player_lane(p1, kind).dbtc_reward_debt == fl.dbtc_reward_index
        &&& exists|k: int| 0 <= k < lane.position_indices@.len() && lane.position_indices@[k] == index
            && player_lane(p1, kind).position_indices@ == lane.position_indices@.remove(k)
        &&& player_lane(p1, other_lane(kind)) == player_lane(p0, other_lane(kind))
        &&& same_player_except_rewards(p1, p0)
        &&& faction_lane(f1, kind) == (FactionLane { staked: (fl.staked - position.staked_amount) as u64, hashpower: (fl.hashpower - contribution) as u64, ..fl })
        &&& faction_lane(f1, other_lane(kind)) == faction_lane(f0, other_lane(kind))
        &&& f1.faction_id == f0.faction_id
        &&& f1.hashbeasts_staked == f0.hashbeasts_staked
    })
}

/// Closes a staking position: accrues pending rewards, removes the
/// position's stake and its hashpower (at the current HashBeast multiplier)
/// from the player and the faction, frees its slot, and charges the
/// early-withdrawal tax while the lockup is still running.
pub fn unstake_tokens(
    player: &mut PlayerData,
    faction: &mut FactionState,
    position: &StakedPosition,
    kind: LaneKind,
    index: u8,
    now: i64,
) -> (r: Result<UnstakeOutcome, ErrorCode>)
    requires
        early_exit_tax_covered(*position, now),
    ensures
        unstake_result(*old(player), *final(player), *old(faction), *final(faction), *position, kind, index, now, r),

{
    if position.faction_id != faction.faction_id {
        return Err(ErrorCode::InvalidFactionId);
    }
    if player.faction_id != faction.faction_id {
        return Err(ErrorCode::InvalidFactionId);
    }
    if position.staked_amount == 0 {
        return Err(ErrorCode::InvalidAmount);
    }
    if position.position_index != index {
        return Err(ErrorCode::InvalidParameters);
    }
    let held = match kind {
        LaneKind::DegenBtc => slot_is_open(&player.degenbtc.position_indices, index),
        LaneKind::Lp => slot_is_open(&player.lp.position_indices, index),
    };
    if !held {
        return Err(ErrorCode::InvalidParameters);
    }
    let (new_sol, new_dbtc) = update_staking_rewards(player, faction, kind)?;
    let staked = position.staked_amount;
    let contribution = calc_hashpower_contribution(position.weighted_amount, player.hashbeast_multiplier)?;
    match kind {
        LaneKind::DegenBtc => debit_lane(&mut player.degenbtc, &mut faction.degenbtc, staked, contribution)?,
        LaneKind::Lp => debit_lane(&mut player.lp, &mut faction.lp, staked, contribution)?,
    }
    match kind {
        LaneKind::DegenBtc => remove_position(&mut player.degenbtc.position_indices, index)?,
        LaneKind::Lp => remove_position(&mut player.lp.position_indices, index)?,
    }
    let mut penalty: u64 = 0;
    if now < position.lockup_end_timestamp {
        penalty = calculate_emergency_tax(position, now, EMERGENCY_WITHDRAWAL_PENALTY_PCT)?;
    }
    Ok(
        UnstakeOutcome {
            returned_amount: staked - penalty,
            penalty_amount: penalty,
            hashpower_contribution: contribution,
            new_sol_rewards: new_sol,
            new_dbtc_rewards: new_dbtc,
        },
    )
}

/// Stakes degenBTC (Token-2022, credited after its transfer fee) in the
/// player's home faction.
pub fn int_stake_minebtc(
    player: &mut PlayerData,
    faction: &mut FactionState,
    existing_staked: u64,
    cfg: HashpowerConfig,
    amount: u64,
    lockup: u64,
    position_index: u8,
    now: i64,
    bump: u8,
    mint_data: &[u8],
    epoch: u64,
) -> (r: Result<StakeOutcome, ErrorCode>)
    ensures
        stake_result(*old(player), *final(player), *old(faction), *final(faction), existing_staked, cfg, LaneKind::DegenBtc, amount, lockup, position_index, now, bump, mint_data@, epoch, r),
{
    stake_tokens(player, faction, existing_staked, cfg, LaneKind::DegenBtc, amount, lockup, position_index, now, bump, mint_data, epoch)
}

/// Stakes LP tokens (credited in full) in the player's home faction.
pub fn int_stake_lp_tokens(
    player: &mut PlayerData,
    faction: &mut FactionState,
    existing_staked: u64,
    cfg: HashpowerConfig,
    amount: u64,
    lockup: u64,
    position_index: u8,
    now: i64,
    bump: u8,
) -> (r: Result<StakeOutcome, ErrorCode>)
    ensures
        stake_result(*old(player), *final(player), *old(faction), *final(faction), existing_staked, cfg, LaneKind::Lp, amount, lockup, position_index, now, bump, Seq::empty(), 0, r),
{
    let no_mint: [u8; 0] = [];
    let r = stake_tokens(player, faction, existing_staked, cfg, LaneKind::Lp, amount, lockup, position_index, now, bump, &no_mint, 0);
    proof {
        assert(no_mint@ =~= Seq::<u8>::empty());
    }
    r
}

/// Closes a degenBTC staking position.
pub fn int_unstake_minebtc(player: &mut PlayerData, faction: &mut FactionState, position: &StakedPosition, position_index: u8, now: i64) -> (r: Result<UnstakeOutcome, ErrorCode>)
    requires
        early_exit_tax_covered(*position, now),
    ensures
        unstake_result(*old(player), *final(player), *old(faction), *final(faction), *position, LaneKind::DegenBtc, position_index, now, r),
{
    unstake_tokens(player, faction, position, LaneKind::DegenBtc, position_index, now)
}

/// Closes an LP staking position.
pub fn int_unstake_lp_tokens(player: &mut PlayerData, faction: &mut FactionState, position: &StakedPosition, position_index: u8, now: i64) -> (r: Result<UnstakeOutcome, ErrorCode>)
    requires
        early_exit_tax_covered(*position, now),
    ensures
        unstake_result(*old(player), *final(player), *old(faction), *final(faction), *position, LaneKind::Lp, position_index, now, r),
{
    unstake_tokens(player, faction, position, LaneKind::Lp, position_index, now)
}

/// Staking and, once the lockup has run out, unstaking the position again
/// returns the whole credited stake with no penalty and gives the player's
/// lane and the faction back their stake and hashpower; a slot that was
/// free before is free again.
pub proof fn lemma_stake_unstake_roundtrip(
    p0: PlayerData,
    p1: PlayerData,
    p2: PlayerData,
    f0: FactionState,
    f1: FactionState,
    f2: FactionState,
    existing_staked: u64,
    cfg: HashpowerConfig,
    kind: LaneKind,
    amount: u64,
    lockup: u64,
    index: u8,
    start: i64,
    end: i64,
    bump: u8,
    mint_data: Seq<u8>,
    epoch: u64,
    out: StakeOutcome,
    back: UnstakeOutcome,
)
    requires
        stake_result(p0, p1, f0, f1, existing_staked, cfg, kind, amount, lockup, index, start, bump, mint_data, epoch, Ok(out)),
        unstake_result(p1, p2, f1, f2, out.position, kind, index, end, Ok(back)),
        end >= out.position.lockup_end_timestamp,
    ensures
        back.penalty_amount == 0,
        back.returned_amount == out.position.staked_amount,
        back.hashpower_contribution == out.hashpower_contribution,
        player_lane(p2, kind).staked == player_lane(p0, kind).staked,
        player_lane(p2, kind).hashpower == player_lane(p0, kind).hashpower,
        faction_lane(f2, kind).staked == faction_lane(f0, kind).staked,
        faction_lane(f2, kind).hashpower == faction_lane(f0, kind).hashpower,
        !player_lane(p0, kind).position_indices@.contains(index) ==> player_lane(p2, kind).position_indices@
            == player_lane(p0, kind).position_indices@,
{
    assert(stake_ok(p0, f0, existing_staked, cfg, kind, amount, lockup, index, start, mint_data, epoch));
    let lane0 = player_lane(p0, kind).position_indices@;
    if !lane0.contains(index) {
        let lane1 = player_lane(p1, kind).position_indices@;
        assert(lane1 == lane0.push(index));
        let k = choose|k: int| 0 <= k < lane1.len() && lane1[k] == index
            && player_lane(p2, kind).position_indices@ == lane1.remove(k);
        if k < lane0.len() {
            assert(lane0[k] == index);
        }
        assert(k == lane0.len());
        lemma_add_then_remove_position(lane0, index);
    }
}

/// Whether position slot `index` is open.
pub fn slot_is_open(indices: &Vec<u8>, index: u8) -> (b: bool)
    ensures
        b == indices@.contains(index),
{
    let n = indices.len();
    let mut i: usize = 0;
    while i < n
        invariant
            n == indices.len(),
            i <= n,
            forall|k: int| 0 <= k < i ==> indices@[k] != index,
        decreases n - i,
    {
        if indices[i] == index {
            proof {
                assert(indices@[i as int] == index);
            }
            return true;
        }
        i += 1;
    }
    false
}

/// The fees withheld on a Token-2022 mint, or `InvalidMint` when its data
/// carries no transfer-fee configuration.
pub open spec fn mint_withheld_spec(mint_data: Seq<u8>) -> Result<u64, ErrorCode> {
    match mint_transfer_fee_schedule(mint_data) {
        None => Err(ErrorCode::InvalidMint),
        Some(s) => Ok(s.withheld_amount),
    }
}

/// Reads the fees withheld on a Token-2022 mint.
pub fn mint_withheld_amount(mint_data: &[u8]) -> (r: Result<u64, ErrorCode>)
    ensures
        r == mint_withheld_spec(mint_data@),
{
    match read_transfer_fee_schedule(mint_data) {
        Some(s) => Ok(s.withheld_amount),
        None => Err(ErrorCode::InvalidMint),
    }
}

/// What a staking claim pays out: the SOL and the staking degenBTC pending
/// after both lanes accrue.
#[derive(Debug, Clone, Copy, PartialEq, Eq, Structural)]
pub struct StakingPayout {
    pub sol: u64,
    pub dbtc: u64,
}

/// Claims a player's staking rewards in their home faction: both lanes
/// accrue first, then all pending SOL and staking degenBTC is paid out (and
/// the degenBTC counted in `total_distributed`); there must be something to
/// pay.
pub fn claim_staking_rewards(player: &mut PlayerData, faction: &FactionState, total_distributed: &mut u64) -> (r: Result<StakingPayout, ErrorCode>)
    ensures
        old(player).faction_id != faction.faction_id ==> r == Err::<StakingPayout, ErrorCode>(ErrorCode::InvalidFactionId),
        old(player).faction_id == faction.faction_id ==> {
            let acc_d = lane_accrual(old(player).degenbtc, faction.degenbtc);
            let acc_l = lane_accrual(old(player).lp, faction.lp);
            let sol = old(player).pending_sol_rewards + acc_d.0 + acc_l.0;
            let dbtc = old(player).pending_staking_dbtc_rewards + acc_d.1 + acc_l.1;
            let accrue_ok = lane_accrual_ok(old(player).degenbtc, faction.degenbtc, old(player).pending_sol_rewards, old(player).pending_staking_dbtc_rewards)
                && lane_accrual_ok(old(player).lp, faction.lp, (old(player).pending_sol_rewards + acc_d.0) as u64,
                    (old(player).pending_staking_dbtc_rewards + acc_d.1) as u64);
            &&& !accrue_ok ==> r == Err::<StakingPayout, ErrorCode>(ErrorCode::ArithmeticOverflow)
            &&& accrue_ok && sol == 0 && dbtc == 0 ==> r == Err::<StakingPayout, ErrorCode>(ErrorCode::InsufficientFunds)
            &&& accrue_ok && (sol > 0 || dbtc > 0) && dbtc > 0 && *old(total_distributed) + dbtc > u64::MAX
                ==> r == Err::<StakingPayout, ErrorCode>(ErrorCode::ArithmeticOverflow)
            &&& accrue_ok && (sol > 0 || dbtc > 0) && *old(total_distributed) + dbtc <= u64::MAX ==> {
                &&& r == Ok::<StakingPayout, ErrorCode>(StakingPayout { sol: sol as u64, dbtc: dbtc as u64 })
                &&& final(player).pending_sol_rewards == 0
                &&& final(player).pending_staking_dbtc_rewards == 0
                &&& final(player).degenbtc == (StakeLane { sol_reward_debt: faction.degenbtc.sol_reward_index,
                    dbtc_reward_debt: faction.degenbtc.dbtc_reward_index, ..old(player).degenbtc })
                &&& final(player).lp == (StakeLane { sol_reward_debt: faction.lp.sol_reward_index,
                    dbtc_reward_debt: faction.lp.dbtc_reward_index, ..old(player).lp })
                &&& *final(total_distributed) == *old(total_distributed) + dbtc
                &&& same_player_except_rewards(*final(player), *old(player))
            }
        },
{
    if faction.faction_id != player.faction_id {
        return Err(ErrorCode::InvalidFactionId);
    }
    update_staking_rewards(player, faction, LaneKind::DegenBtc)?;
    update_staking_rewards(player, faction, LaneKind::Lp)?;
    let sol = player.pending_sol_rewards;
    let dbtc = player.pending_staking_dbtc_rewards;
    if sol == 0 && dbtc == 0 {
        return Err(ErrorCode::InsufficientFunds);
    }
    if dbtc > 0 {
        *total_distributed = match total_distributed.checked_add(dbtc) {
            Some(v) => v,
            None => return Err(ErrorCode::ArithmeticOverflow),
        };
    }
    player.pending_sol_rewards = 0;
    player.pending_staking_dbtc_rewards = 0;
    Ok(StakingPayout { sol, dbtc })
}

/// Claims a referrer's pending SOL commissions: what the commission account
/// holds above its rent-exempt minimum is paid, up to what is pending; the
/// rest stays pending.
pub fn claim_referral_rewards(rewards: &mut ReferralRewards, lamports: u64, rent_exempt_min: u64) -> (r: Result<u64, ErrorCode>)
    ensures
        ({
            let withdrawable = if lamports >= rent_exempt_min { lamports - rent_exempt_min } else { 0 };
            let paid = if old(rewards).pending_sol_rewards <= withdrawable { old(rewards).pending_sol_rewards as int } else { withdrawable };
            &&& (old(rewards).pending_sol_rewards == 0 || paid == 0) ==> r == Err::<u64, ErrorCode>(ErrorCode::InsufficientFunds)
            &&& (old(rewards).pending_sol_rewards > 0 && paid > 0) ==> r == Ok::<u64, ErrorCode>(paid as u64)
                && *final(rewards) == (ReferralRewards { pending_sol_rewards: (old(rewards).pending_sol_rewards - paid) as u64, ..*old(rewards) })
        }),
{
    let pending = rewards.pending_sol_rewards;
    if pending == 0 {
        return Err(ErrorCode::InsufficientFunds);
    }
    let withdrawable = lamports.saturating_sub(rent_exempt_min);
    let amount = if pending <= withdrawable { pending } else { withdrawable };
    if amount == 0 {
        return Err(ErrorCode::InsufficientFunds);
    }
    rewards.pending_sol_rewards = pending - amount;
    Ok(amount)
}

} // verus!
