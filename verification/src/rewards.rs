//! Round rewards: what a settled round pays each position, the HODL bonus on
//! degenBTC claims, the claim-time mutation of the gameplay HashBeast and
//! its effect on the faction war's scores, and the losers' lootbox draw.
use vstd::prelude::*;

use crate::autominer::{autominer_settle_ok, autominer_settled, settle_autominer_claim, AutominerPayout, AutominerVault};
use crate::bets::{GameSession, UserFactionWarBets, UserGameBet};
use crate::constants::{
    BASE_MULTIPLIER, DIRECTION_COUNT, GAMEPLAY_MAX_MULTIPLIER, INDEX_PRECISION, LOOTBOX_QUEUE_SIZE, MAX_POSITIONS_PER_BET, NUM_FACTIONS,
    MUTATION_BONUS_WEIGHT_EVOLUTION, MUTATION_BONUS_WEIGHT_POWER, MUTATION_BONUS_WEIGHT_TRAIT, REFERRAL_BONUS_PCT,
};
use crate::errors::ErrorCode;
use crate::floor::LootboxQueue;
use crate::math::{leaderboard_score_for_mutation, mul_div, mul_div_spec, mul_div_u128, mutation_accum_pct, mutation_bonus_weight};
use crate::placement::{referrer_account_error, validate_referrer_rewards_account, ReferrerAccount};
use crate::hashbeast::{hashbeast_metadata_address, HashBeastMetadata, HASHBEAST_METADATA_SEED};
use crate::state::{cell, cell_index, find_program_address, program_id, Key, PlayerData};

verus! {

/// The settled outcome of a round that the claims read: the winning
/// faction and direction, the reward indexes and pools, the jackpot, and the
/// inputs of the claim-time mutation roll.
#[derive(Debug, Clone)]
pub struct RoundResult {
    pub winning_faction_id: u8,
    pub winning_direction: u8,
    pub sol_rewards_index: u128,
    pub dbtc_rewards_index: u128,
    /// degenBTC pool per direction for the winning faction's other directions.
    pub dbtc_same_faction_direction_pools: Vec<u64>,
    pub jackpot_hit: bool,
    pub jackpot_rewards_index: u128,
    pub jackpot_faction_id: u8,
    pub winning_faction_volume_at_round: u64,
    pub entropy_slot_used: u64,
    pub round_start_slot: u64,
    pub entropy_hash: [u8; 32],
    /// Claim-time mutations so far, per faction.
    pub mutations_per_faction: Vec<u8>,
    pub total_mutations_this_round: u8,
}

impl RoundResult {
    pub open spec fn wf(self) -> bool {
        &&& self.dbtc_same_faction_direction_pools.len() == DIRECTION_COUNT
        &&& self.mutations_per_faction.len() == NUM_FACTIONS
    }
}

/// Whether the parallel position vectors of a round bet have one length.
pub open spec fn same_lengths(b: UserGameBet) -> bool {
    let len = b.faction_ids.len();
    &&& b.directions.len() == len
    &&& b.sol_bets.len() == len
    &&& b.points_bets.len() == len
    &&& b.wgtd_points_bets.len() == len
}

/// Refuses a round bet whose position vectors disagree in length
/// (`InvalidState`) or exceed the position cap (`InvalidParameters`).
pub fn require_user_game_bet_vectors_aligned(b: &UserGameBet) -> (r: Result<(), ErrorCode>)
    ensures
        !same_lengths(*b) ==> r == Err::<(), ErrorCode>(ErrorCode::InvalidState),
        same_lengths(*b) && b.faction_ids.len() > MAX_POSITIONS_PER_BET ==> r == Err::<(), ErrorCode>(ErrorCode::InvalidParameters),
        r is Ok <==> b.aligned(),
{
    let len = b.faction_ids.len();
    if !(b.directions.len() == len && b.sol_bets.len() == len && b.points_bets.len() == len
        && b.wgtd_points_bets.len() == len) {
        return Err(ErrorCode::InvalidState);
    }
    if len > MAX_POSITIONS_PER_BET {
        return Err(ErrorCode::InvalidParameters);
    }
    Ok(())
}

/// The weighted points of the positions `0..n` that are on faction `f`.
pub open spec fn wgtd_on_faction(b: UserGameBet, f: u8, n: int) -> int
    decreases n,
{
    if n <= 0 {
        0
    } else {
        wgtd_on_faction(b, f, n - 1) + if b.faction_ids@[n - 1] == f { b.wgtd_points_bets@[n - 1] as int } else { 0 }
    }
}

proof fn lemma_wgtd_on_faction_mono(b: UserGameBet, f: u8, i: int, n: int)
    requires
        0 <= i <= n,
    ensures
        wgtd_on_faction(b, f, i) <= wgtd_on_faction(b, f, n),
    decreases n - i,
{
    if i < n {
        lemma_wgtd_on_faction_mono(b, f, i, n - 1);
    }
}

/// A user's weighted points on faction `f`, over every direction.
pub fn total_wgtd_points_for_faction(b: &UserGameBet, f: u8) -> (r: Result<u64, ErrorCode>)
    ensures
        !b.aligned() ==> r == Err::<u64, ErrorCode>(if !same_lengths(*b) { ErrorCode::InvalidState } else { ErrorCode::InvalidParameters }),
        b.aligned() ==> r == (if wgtd_on_faction(*b, f, b.faction_ids.len() as int) <= u64::MAX {
            Ok::<u64, ErrorCode>(wgtd_on_faction(*b, f, b.faction_ids.len() as int) as u64)
        } else {
            Err(ErrorCode::ArithmeticOverflow)
        }),
{
    require_user_game_bet_vectors_aligned(b)?;
    let mut total: u64 = 0;
    let mut i: usize = 0;
    while i < b.faction_ids.len()
        invariant
            b.aligned(),
            i <= b.faction_ids.len(),
            total == wgtd_on_faction(*b, f, i as int),
        decreases b.faction_ids.len() - i,
    {
        if b.faction_ids[i] == f {
            total = match total.checked_add(b.wgtd_points_bets[i]) {
                Some(v) => v,
                None => {
                    proof {
                        lemma_wgtd_on_faction_mono(*b, f, i as int + 1, b.faction_ids.len() as int);
                    }
                    return Err(ErrorCode::ArithmeticOverflow);
                },
            };
        }
        i += 1;
    }
    Ok(total)
}

/// `amount * index / INDEX_PRECISION` when the product fits 128 bits and
/// the result fits 64 bits.
pub open spec fn index_reward(amount: u64, index: u128) -> Option<int> {
    if (amount as int) * (index as int) > u128::MAX {
        None
    } else if mul_div_spec(amount as int, index as int, INDEX_PRECISION as int) > u64::MAX {
        None
    } else {
        Some(mul_div_spec(amount as int, index as int, INDEX_PRECISION as int))
    }
}

/// Computes `index_reward`.
fn index_reward_u64(amount: u64, index: u128) -> (r: Result<u64, ErrorCode>)
    ensures
        r == (match index_reward(amount, index) {
            Some(v) => Ok::<u64, ErrorCode>(v as u64),
            None => Err(ErrorCode::ArithmeticOverflow),
        }),
{
    let wide = mul_div_u128(amount as u128, index, INDEX_PRECISION as u128)?;
    if wide > u64::MAX as u128 {
        return Err(ErrorCode::ArithmeticOverflow);
    }
    Ok(wide as u64)
}

/// What position `i` of a round bet earns on top of `acc` (SOL, degenBTC):
/// the exact winning (faction, direction) earns SOL and degenBTC by the
/// round's indexes; another direction of the winning faction shares that
/// direction's degenBTC pool by weighted points; any position on the
/// jackpot faction shares the jackpot. A position off the faction table or
/// the direction table is refused.
pub open spec fn position_step(b: UserGameBet, o: RoundResult, wgtd_table: Seq<u64>, i: int, acc: (int, int))
    -> Result<(int, int), ErrorCode> {
    let f = b.faction_ids@[i];
    let d = b.directions@[i];
    let p = b.points_bets@[i];
    let w = b.wgtd_points_bets@[i];
    let exact = f == o.winning_faction_id && d == o.winning_direction;
    let same = f == o.winning_faction_id && d != o.winning_direction;
    let pool = o.dbtc_same_faction_direction_pools@[d as int];
    let cell_wgtd = wgtd_table[cell(f as int, d as int)];
    let sol = if exact && o.sol_rewards_index > 0 && p > 0 { index_reward(p, o.sol_rewards_index) } else { Some(0int) };
    let dbtc = if exact && o.dbtc_rewards_index > 0 && w > 0 {
        index_reward(w, o.dbtc_rewards_index)
    } else if same && pool > 0 && cell_wgtd > 0 && w > 0 {
        if mul_div_spec(w as int, pool as int, cell_wgtd as int) > u64::MAX {
            None
        } else {
            Some(mul_div_spec(w as int, pool as int, cell_wgtd as int))
        }
    } else {
        Some(0int)
    };
    let jackpot = if o.jackpot_hit && o.jackpot_rewards_index > 0 && f == o.jackpot_faction_id && w > 0 {
        index_reward(w, o.jackpot_rewards_index)
    } else {
        Some(0int)
    };
    if f >= NUM_FACTIONS {
        Err(ErrorCode::InvalidFactionId)
    } else if d >= DIRECTION_COUNT {
        Err(ErrorCode::InvalidState)
    } else if sol is None || dbtc is None || jackpot is None {
        Err(ErrorCode::ArithmeticOverflow)
    } else if acc.0 + sol->0 > u64::MAX || acc.1 + dbtc->0 > u64::MAX || acc.1 + dbtc->0 + jackpot->0 > u64::MAX {
        Err(ErrorCode::ArithmeticOverflow)
    } else {
        Ok((acc.0 + sol->0, acc.1 + dbtc->0 + jackpot->0))
    }
}

/// The rewards of the positions `0..n`, or the first refusal.
pub open spec fn rewards_fold(b: UserGameBet, o: RoundResult, wgtd_table: Seq<u64>, n: int) -> Result<(int, int), ErrorCode>
    decreases n,
{
    if n <= 0 {
        Ok((0int, 0int))
    } else {
        match rewards_fold(b, o, wgtd_table, n - 1) {
            Ok(acc) => position_step(b, o, wgtd_table, n - 1, acc),
            Err(e) => Err(e),
        }
    }
}

/// The SOL and degenBTC a round bet won, position by position.
pub fn calculate_round_rewards(b: &UserGameBet, session: &GameSession, o: &RoundResult) -> (r: Result<(u64, u64), ErrorCode>)
    requires
        session.wf(),
        o.wf(),
    ensures
        !b.aligned() ==> r == Err::<(u64, u64), ErrorCode>(if !same_lengths(*b) { ErrorCode::InvalidState } else { ErrorCode::InvalidParameters }),
        b.aligned() ==> r == (match rewards_fold(*b, *o, session.wgtd_points_bets_by_faction_direction@, b.faction_ids.len() as int) {
            Ok(acc) => Ok::<(u64, u64), ErrorCode>((acc.0 as u64, acc.1 as u64)),
            Err(e) => Err(e),
        }),
        r matches Ok(v) ==> rewards_fold(*b, *o, session.wgtd_points_bets_by_faction_direction@, b.faction_ids.len() as int)
            == Ok::<(int, int), ErrorCode>((v.0 as int, v.1 as int)),
{
    require_user_game_bet_vectors_aligned(b)?;
    let ghost table = session.wgtd_points_bets_by_faction_direction@;
    let mut sol_total: u64 = 0;
    let mut dbtc_total: u64 = 0;
    let mut i: usize = 0;
    while i < b.faction_ids.len()
        invariant
            b.aligned(),
            session.wf(),
            o.wf(),
            table == session.wgtd_points_bets_by_faction_direction@,
            i <= b.faction_ids.len(),
            rewards_fold(*b, *o, table, i as int) == Ok::<(int, int), ErrorCode>((sol_total as int, dbtc_total as int)),
        decreases b.faction_ids.len() - i,
    {
        proof {
            lemma_fold_err_sticks(*b, *o, table, i as int + 1, b.faction_ids.len() as int);
        }
        let f = b.faction_ids[i];
        let d = b.directions[i];
        if f as usize >= NUM_FACTIONS {
            return Err(ErrorCode::InvalidFactionId);
        }
        if d as usize >= DIRECTION_COUNT {
            return Err(ErrorCode::InvalidState);
        }
        let p = b.points_bets[i];
        let w = b.wgtd_points_bets[i];
        let is_winning_faction = f == o.winning_faction_id;
        let is_winning_direction = d == o.winning_direction;
        if is_winning_faction && is_winning_direction {
            if o.sol_rewards_index > 0 && p > 0 {
                let sol = index_reward_u64(p, o.sol_rewards_index)?;
                sol_total = match sol_total.checked_add(sol) {
                    Some(v) => v,
                    None => return Err(ErrorCode::ArithmeticOverflow),
                };
            }
            if o.dbtc_rewards_index > 0 && w > 0 {
                let dbtc = index_reward_u64(w, o.dbtc_rewards_index)?;
                dbtc_total = match dbtc_total.checked_add(dbtc) {
                    Some(v) => v,
                    None => return Err(ErrorCode::ArithmeticOverflow),
                };
            }
        } else if is_winning_faction {
            let pool = o.dbtc_same_faction_direction_pools[d as usize];
            let cell_wgtd = session.wgtd_points_bets_by_faction_direction[cell_index(f as usize, d as usize)];
            if pool > 0 && cell_wgtd > 0 && w > 0 {
                let wide = mul_div(w, pool, cell_wgtd)?;
                if wide > u64::MAX as u128 {
                    return Err(ErrorCode::ArithmeticOverflow);
                }
                dbtc_total = match dbtc_total.checked_add(wide as u64) {
                    Some(v) => v,
                    None => return Err(ErrorCode::ArithmeticOverflow),
                };
            }
        }
        if o.jackpot_hit && o.jackpot_rewards_index > 0 && f == o.jackpot_faction_id && w > 0 {
            let jackpot = index_reward_u64(w, o.jackpot_rewards_index)?;
            dbtc_total = match dbtc_total.checked_add(jackpot) {
                Some(v) => v,
                None => return Err(ErrorCode::ArithmeticOverflow),
            };
        }
        i += 1;
    }
    Ok((sol_total, dbtc_total))
}

/// A position on the jackpot faction shares the jackpot whatever its
/// direction: when the jackpot hit, a position on the jackpot faction with
/// weighted points that earns nothing else (not the exact winning cell, no
/// same-faction pool on its direction) adds exactly its weighted points
/// times the jackpot index (over the index precision) to the degenBTC won,
/// and no SOL.
pub proof fn lemma_jackpot_pays_any_direction(b: UserGameBet, o: RoundResult, wgtd_table: Seq<u64>, i: int, acc: (int, int))
    requires
        0 <= i,
        rewards_fold(b, o, wgtd_table, i) == Ok::<(int, int), ErrorCode>(acc),
        0 <= acc.0 <= u64::MAX,
        0 <= acc.1,
        b.faction_ids@[i] < NUM_FACTIONS,
        b.directions@[i] < DIRECTION_COUNT,
        o.jackpot_hit,
        o.jackpot_rewards_index > 0,
        b.faction_ids@[i] == o.jackpot_faction_id,
        b.wgtd_points_bets@[i] > 0,
        !(b.faction_ids@[i] == o.winning_faction_id && b.directions@[i] == o.winning_direction),
        b.faction_ids@[i] == o.winning_faction_id ==> o.dbtc_same_faction_direction_pools@[b.directions@[i] as int] == 0,
        (b.wgtd_points_bets@[i] as int) * (o.jackpot_rewards_index as int) <= u128::MAX,
        acc.1 + (b.wgtd_points_bets@[i] as int) * (o.jackpot_rewards_index as int) / (INDEX_PRECISION as int) <= u64::MAX,
    ensures
        rewards_fold(b, o, wgtd_table, i + 1) == Ok::<(int, int), ErrorCode>((acc.0,
            acc.1 + (b.wgtd_points_bets@[i] as int) * (o.jackpot_rewards_index as int) / (INDEX_PRECISION as int))),
{
    let w = b.wgtd_points_bets@[i] as int;
    let j = o.jackpot_rewards_index as int;
    assert(0 <= w * j / (INDEX_PRECISION as int)) by (nonlinear_arith)
        requires
            w >= 0,
            j >= 0,
    ;
}

proof fn lemma_fold_err_sticks(b: UserGameBet, o: RoundResult, table: Seq<u64>, i: int, n: int)
    requires
        0 <= i <= n,
    ensures
        rewards_fold(b, o, table, i) is Err ==> rewards_fold(b, o, table, n) == rewards_fold(b, o, table, i),
    decreases n - i,
{
    if i < n {
        lemma_fold_err_sticks(b, o, table, i, n - 1);
    }
}

/// The pool of gameplay degenBTC waiting to be withdrawn, and the HODL-tax
/// index that pays the holders the tax of those who withdraw early.
#[derive(Debug, Clone, Copy, PartialEq, Eq, Structural)]
pub struct HodlPool {
    pub hodl_tax_index: u128,
    pub total_dbtc_claimable: u64,
}

/// The HODL bonus a player has accrued since their last sync: their pending
/// gameplay degenBTC times the index growth, or `None` when the index went
/// backwards or the bonus does not fit.
pub open spec fn hodl_accrual(pool: HodlPool, player: PlayerData) -> Option<int> {
    let growth = pool.hodl_tax_index - player.hodl_tax_index;
    let product = (player.pending_dbtc_rewards as int) * growth;
    if growth < 0 || product > u128::MAX || product / (INDEX_PRECISION as int) > u64::MAX {
        None
    } else {
        Some(product / (INDEX_PRECISION as int))
    }
}

/// Whether crediting `rewards` (plus the accrued HODL bonus) fits every
/// counter it lands in.
pub open spec fn claimable_credit_ok(pool: HodlPool, player: PlayerData, rewards: u64) -> bool {
    match hodl_accrual(pool, player) {
        None => false,
        Some(bonus) => {
            &&& rewards + bonus <= u64::MAX
            &&& pool.total_dbtc_claimable + rewards + bonus <= u64::MAX
            &&& player.pending_dbtc_rewards + rewards + bonus <= u64::MAX
            &&& player.unrefined_dbtc_rewards + bonus <= u64::MAX
        },
    }
}

/// What crediting `rewards` (and the accrued hodl bonus) does to the pool
/// and the player, and returns.
pub open spec fn claimable_credited(pool0: HodlPool, pool1: HodlPool, p0: PlayerData, p1: PlayerData, rewards: u64, r: Result<u64, ErrorCode>) -> bool {
    &&& (r is Ok <==> claimable_credit_ok(pool0, p0, rewards))
    &&& (r is Err ==> r == Err::<u64, ErrorCode>(ErrorCode::ArithmeticOverflow) && pool1 == pool0 && p1 == p0)
    &&& (r matches Ok(bonus) ==> {
        &&& hodl_accrual(pool0, p0) == Some(bonus as int)
        &&& pool1 == (HodlPool {
            total_dbtc_claimable: (pool0.total_dbtc_claimable + rewards + bonus) as u64,
            ..pool0
        })
        &&& p1.hodl_tax_index == pool0.hodl_tax_index
        &&& p1.pending_dbtc_rewards == p0.pending_dbtc_rewards + rewards + bonus
        &&& p1.unrefined_dbtc_rewards == p0.unrefined_dbtc_rewards + bonus
        &&& p1 == (PlayerData {
            hodl_tax_index: p1.hodl_tax_index,
            pending_dbtc_rewards: p1.pending_dbtc_rewards,
            unrefined_dbtc_rewards: p1.unrefined_dbtc_rewards,
            ..p0
        })
    })
}

/// Credits `rewards` of gameplay degenBTC to a player, first realizing the
/// HODL bonus their pending amount earned since the last sync; both go into
/// the pool's claimable total. Returns the bonus.
pub fn add_to_total_claimable(pool: &mut HodlPool, player: &mut PlayerData, rewards: u64) -> (r: Result<u64, ErrorCode>)
    ensures
        claimable_credited(*old(pool), *final(pool), *old(player), *final(player), rewards, r),

{
    if pool.hodl_tax_index < player.hodl_tax_index {
        return Err(ErrorCode::ArithmeticOverflow);
    }
    let growth = pool.hodl_tax_index - player.hodl_tax_index;
    let wide = mul_div_u128(player.pending_dbtc_rewards as u128, growth, INDEX_PRECISION as u128)?;
    if wide > u64::MAX as u128 {
        return Err(ErrorCode::ArithmeticOverflow);
    }
    let bonus = wide as u64;
    let total_new = match rewards.checked_add(bonus) {
        Some(v) => v,
        None => return Err(ErrorCode::ArithmeticOverflow),
    };
    let claimable = match pool.total_dbtc_claimable.checked_add(total_new) {
        Some(v) => v,
        None => return Err(ErrorCode::ArithmeticOverflow),
    };
    let pending = match player.pending_dbtc_rewards.checked_add(total_new) {
        Some(v) => v,
        None => return Err(ErrorCode::ArithmeticOverflow),
    };
    let unrefined = match player.unrefined_dbtc_rewards.checked_add(bonus) {
        Some(v) => v,
        None => return Err(ErrorCode::ArithmeticOverflow),
    };
    pool.total_dbtc_claimable = claimable;
    player.hodl_tax_index = pool.hodl_tax_index;
    player.pending_dbtc_rewards = pending;
    player.unrefined_dbtc_rewards = unrefined;
    Ok(bonus)
}

/// Credits a round's degenBTC winnings to the player through the HODL pool.
pub fn update_player_rewards(pool: &mut HodlPool, player: &mut PlayerData, total_dbtc_reward: u64) -> (r: Result<(), ErrorCode>)
    ensures
        r is Ok <==> claimable_credit_ok(*old(pool), *old(player), total_dbtc_reward),
        r is Ok ==> {
            let bonus = hodl_accrual(*old(pool), *old(player))->0;
            &&& final(pool).total_dbtc_claimable == old(pool).total_dbtc_claimable + total_dbtc_reward + bonus
            &&& final(pool).hodl_tax_index == old(pool).hodl_tax_index
            &&& final(player).hodl_tax_index == old(pool).hodl_tax_index
            &&& final(player).pending_dbtc_rewards == old(player).pending_dbtc_rewards + total_dbtc_reward + bonus
            &&& final(player).unrefined_dbtc_rewards == old(player).unrefined_dbtc_rewards + bonus
            &&& *final(player) == (PlayerData {
                hodl_tax_index: final(player).hodl_tax_index,
                pending_dbtc_rewards: final(player).pending_dbtc_rewards,
                unrefined_dbtc_rewards: final(player).unrefined_dbtc_rewards,
                ..*old(player)
            })
        },
{
    add_to_total_claimable(pool, player, total_dbtc_reward)?;
    Ok(())
}

/// What a withdrawal of gameplay degenBTC pays: the HODL bonus synced first,
/// the amount withdrawn from the pool, the HODL tax kept in it for the
/// others, the referred user's bonus, and the total sent to the user.
#[derive(Debug, Clone, Copy, PartialEq, Eq, Structural)]
pub struct DbtcWithdrawal {
    pub synced_bonus: u64,
    pub base_pending: u64,
    pub hodl_tax: u64,
    pub referral_bonus: u64,
    pub amount_to_user: u64,
}

/// The HODL tax of withdrawing `base` while `remaining` stays claimable by
/// others: `hodl_tax_pct` percent, or nothing when nobody else is left.
pub open spec fn hodl_tax_spec(base: u64, remaining: int, hodl_tax_pct: u8) -> int {
    if remaining > 0 {
        mul_div_spec(base as int, hodl_tax_pct as int, 100)
    } else {
        0
    }
}

/// Whether a withdrawal goes through once the sync succeeded and something
/// is pending: the pool holds the pending amount, the tax fits and leaves a
/// rest, the referrer (if any) is valid, and the counters take the payout.
pub open spec fn withdrawal_ok(
    pool: HodlPool,
    player: PlayerData,
    hodl_tax_pct: u8,
    referrer: Option<ReferrerAccount>,
    total_distributed: u64,
) -> bool {
    let base = player.pending_dbtc_rewards;
    let remaining = pool.total_dbtc_claimable - base;
    let tax = hodl_tax_spec(base, remaining, hodl_tax_pct);
    let has_ref = !player.referral_code.is_zero();
    let bonus = if has_ref { mul_div_spec(base - tax, REFERRAL_BONUS_PCT as int, 100) } else { 0 };
    &&& remaining >= 0
    &&& tax <= base
    &&& has_ref ==> referrer_account_error(player.referral_code, referrer) is None
    &&& base - tax + bonus <= u64::MAX
    &&& total_distributed + base - tax + bonus <= u64::MAX
    &&& tax > 0 ==> pool.hodl_tax_index + mul_div_spec(tax, INDEX_PRECISION as int, remaining) <= u128::MAX
}

/// Why a withdrawal of `base` that cannot go through is refused: a bad
/// referral account where the amounts add up and one is owed, an overflow
/// otherwise.
pub open spec fn withdrawal_error(pool: HodlPool, base: u64, hodl_tax_pct: u8, referral_code: Key, referrer: Option<ReferrerAccount>) -> ErrorCode {
    let remaining = pool.total_dbtc_claimable - base;
    let tax = hodl_tax_spec(base, remaining, hodl_tax_pct);
    if remaining >= 0 && tax <= base && !referral_code.is_zero() && referrer_account_error(referral_code, referrer) is Some {
        referrer_account_error(referral_code, referrer)->Some_0
    } else {
        ErrorCode::ArithmeticOverflow
    }
}

/// Withdraws a player's gameplay degenBTC. The HODL bonus is synced first;
/// while others still hold claimable degenBTC, a HODL tax of
/// `hodl_tax_pct`% stays behind and raises the HODL index for them; a
/// referred player gets a 1% bonus on what they take. The player's pending
/// and bonus counters are cleared.
pub fn withdraw_dbtc_rewards(
    pool: &mut HodlPool,
    player: &mut PlayerData,
    hodl_tax_pct: u8,
    referrer: &Option<ReferrerAccount>,
    total_distributed: &mut u64,
) -> (r: Result<DbtcWithdrawal, ErrorCode>)
    ensures
        !claimable_credit_ok(*old(pool), *old(player), 0) ==> r == Err::<DbtcWithdrawal, ErrorCode>(ErrorCode::ArithmeticOverflow),
        claimable_credit_ok(*old(pool), *old(player), 0) ==> {
            let bonus = hodl_accrual(*old(pool), *old(player))->0;
            let synced_pool = HodlPool { total_dbtc_claimable: (old(pool).total_dbtc_claimable + bonus) as u64, ..*old(pool) };
            let synced_pending = old(player).pending_dbtc_rewards + bonus;
            &&& synced_pending == 0 ==> r == Err::<DbtcWithdrawal, ErrorCode>(ErrorCode::InsufficientFunds)
            &&& synced_pending > 0 ==> (r is Ok <==> withdrawal_ok(synced_pool,
                PlayerData { pending_dbtc_rewards: synced_pending as u64, ..*old(player) }, hodl_tax_pct, *referrer, *old(total_distributed)))
            &&& synced_pending > 0 && r is Err ==> r == Err::<DbtcWithdrawal, ErrorCode>(
                withdrawal_error(synced_pool, synced_pending as u64, hodl_tax_pct, old(player).referral_code, *referrer))
        },
        r matches Ok(w) ==> {
            let bonus = hodl_accrual(*old(pool), *old(player))->0;
            let remaining = old(pool).total_dbtc_claimable + bonus - w.base_pending;
            &&& w.synced_bonus == bonus
            &&& w.base_pending == old(player).pending_dbtc_rewards + bonus
            &&& w.hodl_tax == hodl_tax_spec(w.base_pending, remaining, hodl_tax_pct)
            &&& w.referral_bonus == (if old(player).referral_code.is_zero() { 0 } else {
                mul_div_spec(w.base_pending - w.hodl_tax, REFERRAL_BONUS_PCT as int, 100) })
            &&& w.amount_to_user == w.base_pending - w.hodl_tax + w.referral_bonus
            &&& final(pool).total_dbtc_claimable == remaining
            &&& final(pool).hodl_tax_index == old(pool).hodl_tax_index
                + (if w.hodl_tax > 0 { mul_div_spec(w.hodl_tax as int, INDEX_PRECISION as int, remaining) } else { 0 })
            &&& final(player).pending_dbtc_rewards == 0
            &&& final(player).unrefined_dbtc_rewards == 0
            &&& final(player).hodl_tax_index == old(pool).hodl_tax_index
            &&& *final(total_distributed) == *old(total_distributed) + w.amount_to_user
            &&& *final(player) == (PlayerData {
                hodl_tax_index: final(player).hodl_tax_index,
                pending_dbtc_rewards: 0,
                unrefined_dbtc_rewards: 0,
                ..*old(player)
            })
        },
{
    let synced_bonus = add_to_total_claimable(pool, player, 0)?;
    if player.pending_dbtc_rewards == 0 {
        return Err(ErrorCode::InsufficientFunds);
    }
    let base = player.pending_dbtc_rewards;
    if pool.total_dbtc_claimable < base {
        return Err(ErrorCode::ArithmeticOverflow);
    }
    let remaining = pool.total_dbtc_claimable - base;
    let mut tax: u64 = 0;
    if remaining > 0 {
        let wide = mul_div(base, hodl_tax_pct as u64, 100)?;
        if wide > u64::MAX as u128 {
            return Err(ErrorCode::ArithmeticOverflow);
        }
        tax = wide as u64;
    }
    if tax > base {
        return Err(ErrorCode::ArithmeticOverflow);
    }
    let base_claimable = base - tax;
    let has_ref = !player.referral_code.is_default();
    let mut referral_bonus: u64 = 0;
    if has_ref {
        validate_referrer_rewards_account(player.referral_code, referrer)?;
        let wide = mul_div(base_claimable, REFERRAL_BONUS_PCT, 100)?;
        proof {
            assert(mul_div_spec(base_claimable as int, 1, 100) <= base_claimable) by (nonlinear_arith);
        }
        referral_bonus = wide as u64;
    }
    let amount_to_user = match base_claimable.checked_add(referral_bonus) {
        Some(v) => v,
        None => return Err(ErrorCode::ArithmeticOverflow),
    };
    let distributed = match total_distributed.checked_add(amount_to_user) {
        Some(v) => v,
        None => return Err(ErrorCode::ArithmeticOverflow),
    };
    let mut index = pool.hodl_tax_index;
    if tax > 0 {
        let increment = mul_div(tax, INDEX_PRECISION, remaining)?;
        index = match index.checked_add(increment) {
            Some(v) => v,
            None => return Err(ErrorCode::ArithmeticOverflow),
        };
    }
    pool.total_dbtc_claimable = remaining;
    pool.hodl_tax_index = index;
    player.pending_dbtc_rewards = 0;
    player.unrefined_dbtc_rewards = 0;
    *total_distributed = distributed;
    Ok(DbtcWithdrawal { synced_bonus, base_pending: base, hodl_tax: tax, referral_bonus, amount_to_user })
}

/// The HODL tax left behind is never handed out twice: what the index
/// increment pays the remaining holders together is at most the tax, and
/// each holder's share is at most their proportional part of it.
pub proof fn lemma_hodl_redistribution_bounded(tax: u64, remaining: u64, holder: u64)
    requires
        remaining > 0,
        holder <= remaining,
    ensures
        ({
            let inc = mul_div_spec(tax as int, INDEX_PRECISION as int, remaining as int);
            &&& mul_div_spec(remaining as int, inc, INDEX_PRECISION as int) <= tax
            &&& mul_div_spec(holder as int, inc, INDEX_PRECISION as int) <= mul_div_spec(tax as int, holder as int, remaining as int)
        }),
{
    let p = INDEX_PRECISION as int;
    let t = tax as int;
    let rem = remaining as int;
    let h = holder as int;
    let inc = t * p / rem;
    assert(inc * rem <= t * p) by (nonlinear_arith)
        requires
            rem > 0,
            inc == t * p / rem,
    ;
    assert(rem * inc / p <= t) by (nonlinear_arith)
        requires
            p > 0,
            inc * rem <= t * p,
    {
        assert(rem * inc <= t * p);
        assert(rem * inc / p <= t * p / p);
    }
    assert(inc >= 0) by (nonlinear_arith)
        requires
            t >= 0,
            p > 0,
            rem > 0,
            inc == t * p / rem,
    ;
    assert(h * inc / p <= t * h / rem) by (nonlinear_arith)
        requires
            p > 0,
            rem > 0,
            0 <= h,
            inc >= 0,
            inc * rem <= t * p,
    {
        assert(h * inc * rem <= h * t * p);
        let q = h * inc / p;
        assert(q * p <= h * inc);
        assert(q * p * rem <= h * inc * rem);
        assert(q * rem * p <= t * h * p);
        assert(q * rem <= t * h);
        assert(q <= t * h / rem);
    }
}

/// The inputs of a claim-time mutation roll for the winning faction.
#[derive(Debug, Clone, Copy, PartialEq, Eq, Structural)]
pub struct ClaimMutationRoll {
    pub faction_id: u8,
    pub stake: u64,
    pub faction_volume: u64,
    pub chance_boost_bps: u64,
    pub entropy_slot: u64,
    pub total_sol_bets: u64,
    pub total_points_bets: u64,
    pub total_wgtd_points_bets: u64,
    pub faction_mutation_count: u8,
    pub cycle_rounds_elapsed: u16,
    pub cycle_mutations_triggered: u16,
}

/// The SOL of the positions `0..n` on faction `f`, on direction `d` when
/// `exact`, on the other directions otherwise.
pub open spec fn sol_on_faction(b: UserGameBet, f: u8, d: u8, exact: bool, n: int) -> int
    decreases n,
{
    if n <= 0 {
        0
    } else {
        sol_on_faction(b, f, d, exact, n - 1) + if b.faction_ids@[n - 1] == f && (b.directions@[n - 1] == d) == exact {
            b.sol_bets@[n - 1] as int
        } else {
            0
        }
    }
}

proof fn lemma_sol_on_faction_mono(b: UserGameBet, f: u8, d: u8, exact: bool, i: int, n: int)
    requires
        0 <= i <= n,
    ensures
        0 <= sol_on_faction(b, f, d, exact, i) <= sol_on_faction(b, f, d, exact, n),
    decreases n - i,
{
    if i < n {
        lemma_sol_on_faction_mono(b, f, d, exact, i, n - 1);
    } else {
        lemma_sol_on_faction_nonneg(b, f, d, exact, n);
    }
}

proof fn lemma_sol_on_faction_nonneg(b: UserGameBet, f: u8, d: u8, exact: bool, n: int)
    ensures
        0 <= sol_on_faction(b, f, d, exact, n),
    decreases n,
{
    if n > 0 {
        lemma_sol_on_faction_nonneg(b, f, d, exact, n - 1);
    }
}

/// The mutation roll a winning claim is entitled to: none without a
/// winning faction or without stake on it; the stake counts SOL on the
/// exact winning cell in full and on the faction's other directions for a
/// quarter.
pub open spec fn mutation_roll_plan(b: UserGameBet, session: GameSession, o: RoundResult) -> Result<Option<ClaimMutationRoll>, ErrorCode> {
    if !b.aligned() {
        Err(if !same_lengths(b) { ErrorCode::InvalidState } else { ErrorCode::InvalidParameters })
    } else if o.winning_faction_id >= NUM_FACTIONS {
        Ok(None)
    } else {
        let n = b.faction_ids.len() as int;
        let exact = sol_on_faction(b, o.winning_faction_id, o.winning_direction, true, n);
        let other = sol_on_faction(b, o.winning_faction_id, o.winning_direction, false, n);
        let stake = exact + other / 4;
        if exact > u64::MAX || other > u64::MAX || stake > u64::MAX {
            Err(ErrorCode::ArithmeticOverflow)
        } else if stake == 0 {
            Ok(None)
        } else {
            Ok(Some(ClaimMutationRoll {
                faction_id: o.winning_faction_id,
                stake: stake as u64,
                faction_volume: o.winning_faction_volume_at_round,
                chance_boost_bps: if exact > 0 { 12_000 } else { 5_000 },
                entropy_slot: if o.entropy_slot_used >= o.round_start_slot { o.entropy_slot_used } else { o.round_start_slot },
                total_sol_bets: session.total_sol_bets,
                total_points_bets: session.total_points_bets,
                total_wgtd_points_bets: session.total_wgtd_points_bets,
                faction_mutation_count: o.mutations_per_faction@[o.winning_faction_id as int],
                cycle_rounds_elapsed: 1,
                cycle_mutations_triggered: o.total_mutations_this_round as u16,
            }))
        }
    }
}

/// The roll a winning claim earns: its stake is the SOL on the exact
/// winning direction plus a quarter of the SOL on the winning faction's
/// other directions, boosted more for an exact hit. No roll without stake or
/// without a winning faction on the table.
pub fn build_round_claim_mutation_roll(b: &UserGameBet, session: &GameSession, o: &RoundResult) -> (r: Result<Option<ClaimMutationRoll>, ErrorCode>)
    requires
        o.wf(),
    ensures
        r == mutation_roll_plan(*b, *session, *o),
{
    require_user_game_bet_vectors_aligned(b)?;
    let win = o.winning_faction_id;
    if win as usize >= NUM_FACTIONS {
        return Ok(None);
    }
    let ghost n = b.faction_ids.len() as int;
    let mut exact_sol: u64 = 0;
    let mut other_sol: u64 = 0;
    let mut i: usize = 0;
    while i < b.faction_ids.len()
        invariant
            b.aligned(),
            win == o.winning_faction_id,
            win < NUM_FACTIONS,
            n == b.faction_ids.len(),
            i <= b.faction_ids.len(),
            exact_sol == sol_on_faction(*b, win, o.winning_direction, true, i as int),
            other_sol == sol_on_faction(*b, win, o.winning_direction, false, i as int),
        decreases b.faction_ids.len() - i,
    {
        proof {
            lemma_sol_on_faction_mono(*b, win, o.winning_direction, true, i as int + 1, n);
            lemma_sol_on_faction_mono(*b, win, o.winning_direction, false, i as int + 1, n);
        }
        if b.faction_ids[i] == win {
            let sol = b.sol_bets[i];
            if b.directions[i] == o.winning_direction {
                exact_sol = match exact_sol.checked_add(sol) {
                    Some(v) => v,
                    None => return Err(ErrorCode::ArithmeticOverflow),
                };
            } else {
                other_sol = match other_sol.checked_add(sol) {
                    Some(v) => v,
                    None => return Err(ErrorCode::ArithmeticOverflow),
                };
            }
        }
        i += 1;
    }
    let stake = match exact_sol.checked_add(other_sol / 4) {
        Some(v) => v,
        None => return Err(ErrorCode::ArithmeticOverflow),
    };
    if stake == 0 {
        return Ok(None);
    }
    let chance_boost_bps: u64 = if exact_sol > 0 { 12_000 } else { 5_000 };
    let entropy_slot = if o.entropy_slot_used >= o.round_start_slot { o.entropy_slot_used } else { o.round_start_slot };
    Ok(Some(ClaimMutationRoll {
        faction_id: win,
        stake,
        faction_volume: o.winning_faction_volume_at_round,
        chance_boost_bps,
        entropy_slot,
        total_sol_bets: session.total_sol_bets,
        total_points_bets: session.total_points_bets,
        total_wgtd_points_bets: session.total_wgtd_points_bets,
        faction_mutation_count: o.mutations_per_faction[win as usize],
        cycle_rounds_elapsed: 1,
        cycle_mutations_triggered: o.total_mutations_this_round as u16,
    }))
}

/// What counting a claim-time mutation does to the round result.
pub open spec fn mutation_recorded(o0: RoundResult, o1: RoundResult, faction_id: usize, mutation_type: u8) -> bool {
    &&& (o1.wf())
    &&& (mutation_type == 0 ==> o1.mutations_per_faction@ == o0.mutations_per_faction@
        && o1.total_mutations_this_round == o0.total_mutations_this_round)
    &&& (mutation_type != 0 ==> o1.mutations_per_faction@ == o0.mutations_per_faction@.update(faction_id as int,
        if o0.mutations_per_faction@[faction_id as int] < 255 { (o0.mutations_per_faction@[faction_id as int] + 1) as u8 } else { 255u8 })
        && o1.total_mutations_this_round == (if o0.total_mutations_this_round < 255 {
            (o0.total_mutations_this_round + 1) as u8 } else { 255u8 }))
    &&& (o1.winning_faction_id == o0.winning_faction_id)
    &&& (o1.winning_direction == o0.winning_direction)
    &&& (o1.dbtc_same_faction_direction_pools@ == o0.dbtc_same_faction_direction_pools@)
    &&& (o1 == (RoundResult {
        mutations_per_faction: o1.mutations_per_faction,
        total_mutations_this_round: o1.total_mutations_this_round,
        ..o0
    }))
}

/// Counts a claim-time mutation on the round, saturating at 255 so that a
/// busy round never blocks a winner's claim.
pub fn record_round_claim_mutation(o: &mut RoundResult, faction_id: usize, mutation_type: u8)
    requires
        old(o).wf(),
        faction_id < NUM_FACTIONS,
    ensures
        mutation_recorded(*old(o), *final(o), faction_id, mutation_type),

{
    if mutation_type == 0 {
        return;
    }
    let count = o.mutations_per_faction[faction_id];
    o.mutations_per_faction.set(faction_id, count.saturating_add(1));
    o.total_mutations_this_round = o.total_mutations_this_round.saturating_add(1);
}

/// What a claim-time mutation roll produced: the XP gained and, when a
/// mutation fired (1 Evolution, 2 Power, 3 Trait), the multiplier increase,
/// the XP it consumed and the new DNA.
#[derive(Debug, Clone, Copy)]
pub struct MutationOutcome {
    pub xp_gained: u64,
    pub mutation_type: Option<u8>,
    pub multiplier_increase: u32,
    pub xp_consumed: u64,
    pub new_dna: [u8; 32],
}

/// Whether a claim may roll a mutation at all: progression is on, the roll
/// has stake, and the bet's gameplay HashBeast is the player's current one.
pub open spec fn mutation_roll_eligible(expected: Key, player: PlayerData, rpg_progression: bool, stake: u64) -> bool {
    &&& rpg_progression
    &&& stake != 0
    &&& !expected.is_zero()
    &&& expected == player.gameplay_hashbeast
}

/// The kinds of claim-time mutation.
#[derive(Debug, Clone, Copy, PartialEq, Eq, Structural)]
pub enum MutationType {
    Evolution,
    Power,
    Trait,
}

/// The number a mutation kind is recorded by (0 stands for none).
pub fn mutation_type_to_u8(t: MutationType) -> (r: u8)
    ensures
        r == (match t {
            MutationType::Evolution => 1u8,
            MutationType::Power => 2u8,
            MutationType::Trait => 3u8,
        }),
{
    match t {
        MutationType::Evolution => 1,
        MutationType::Power => 2,
        MutationType::Trait => 3,
    }
}

/// What a claim-time mutation roll returns and does to the player.
pub open spec fn mutation_rolled(expected: Key, p0: PlayerData, p1: PlayerData, rpg_progression: bool, stake: u64, outcome: MutationOutcome, r: Result<u8, ErrorCode>) -> bool {
    &&& (!mutation_roll_eligible(expected, p0, rpg_progression, stake) ==> r == Ok::<u8, ErrorCode>(0) && p1 == p0)
    &&& (mutation_roll_eligible(expected, p0, rpg_progression, stake) ==> {
        let xp = p0.gameplay_hashbeast_xp + outcome.xp_gained;
        let mult = p0.active_multiplier + outcome.multiplier_increase;
        if xp > u64::MAX {
            r == Err::<u8, ErrorCode>(ErrorCode::ArithmeticOverflow)
        } else {
            match outcome.mutation_type {
                None => r == Ok::<u8, ErrorCode>(0) && p1 == (PlayerData { gameplay_hashbeast_xp: xp as u64, ..p0 }),
                Some(t) => if mult > u32::MAX {
                    r == Err::<u8, ErrorCode>(ErrorCode::ArithmeticOverflow)
                } else {
                    r == Ok::<u8, ErrorCode>(t) && p1 == (PlayerData {
                        gameplay_hashbeast_xp: (if xp >= outcome.xp_consumed { xp - outcome.xp_consumed } else { 0 }) as u64,
                        active_multiplier: (if mult <= GAMEPLAY_MAX_MULTIPLIER { mult } else { GAMEPLAY_MAX_MULTIPLIER as int }) as u32,
                        gameplay_hashbeast_dna: outcome.new_dna,
                        ..p0
                    })
                },
            }
        }
    })
}

/// Applies a claim-time mutation outcome to the player's gameplay
/// HashBeast: XP is always gained; a mutation raises the multiplier (capped
/// at 4.2x), consumes XP and sets the new DNA. Returns the mutation type, 0
/// for none.
pub fn roll_claim_mutation(
    expected: Key,
    player: &mut PlayerData,
    rpg_progression: bool,
    stake: u64,
    outcome: MutationOutcome,
) -> (r: Result<u8, ErrorCode>)
    ensures
        mutation_rolled(expected, *old(player), *final(player), rpg_progression, stake, outcome, r),

{
    if !rpg_progression || stake == 0 || expected.is_default() || expected != player.gameplay_hashbeast
        || player.gameplay_hashbeast.is_default() {
        return Ok(0);
    }
    let xp = match player.gameplay_hashbeast_xp.checked_add(outcome.xp_gained) {
        Some(v) => v,
        None => return Err(ErrorCode::ArithmeticOverflow),
    };
    match outcome.mutation_type {
        Some(t) => {
            let mult = match player.active_multiplier.checked_add(outcome.multiplier_increase) {
                Some(v) => v,
                None => return Err(ErrorCode::ArithmeticOverflow),
            };
            player.active_multiplier = if mult <= GAMEPLAY_MAX_MULTIPLIER { mult } else { GAMEPLAY_MAX_MULTIPLIER };
            player.gameplay_hashbeast_xp = xp.saturating_sub(outcome.xp_consumed);
            player.gameplay_hashbeast_dna = outcome.new_dna;
            Ok(t)
        },
        None => {
            player.gameplay_hashbeast_xp = xp;
            Ok(0)
        },
    }
}

/// What a claim does to the gameplay HashBeast's metadata, and returns.
pub open spec fn hashbeast_synced(expected: Key, player: PlayerData, md0: Option<(Key, HashBeastMetadata)>, md1: Option<(Key, HashBeastMetadata)>, accumulated_add: u64, claim_won: bool, r: Result<(), ErrorCode>) -> bool {
    &&& (!claim_won || expected.is_zero() || expected != player.gameplay_hashbeast ==> r is Ok && md1 == md0)
    &&& (claim_won && !expected.is_zero() && expected == player.gameplay_hashbeast ==> match md0 {
        None => r == Err::<(), ErrorCode>(ErrorCode::HashBeastMetadataNotFound),
        Some((address, m)) => if m.mint != expected {
            r == Err::<(), ErrorCode>(ErrorCode::HashBeastMetadataNotFound)
        } else if hashbeast_metadata_address(expected) != Some(address) {
            r == Err::<(), ErrorCode>(ErrorCode::InvalidAccount)
        } else if m.accumulated_val + accumulated_add > u64::MAX {
            r == Err::<(), ErrorCode>(ErrorCode::ArithmeticOverflow)
        } else {
            r is Ok && md1 == Some((address, HashBeastMetadata {
                accumulated_val: (m.accumulated_val + accumulated_add) as u64,
                dna: player.gameplay_hashbeast_dna,
                xp: player.gameplay_hashbeast_xp,
                multiplier: player.active_multiplier,
                ..m
            }))
        },
    })
}

/// Copies the player's gameplay HashBeast state (DNA, XP, multiplier) onto
/// its record after a winning claim, adding `accumulated_add` to its
/// accumulated value. The record (address, contents) must be the
/// HashBeast's own. Nothing happens for a losing claim or a bet made with
/// another (or no) HashBeast.
pub fn sync_claim_hashbeast_state(
    expected: Key,
    player: &PlayerData,
    metadata: &mut Option<(Key, HashBeastMetadata)>,
    accumulated_add: u64,
    claim_won: bool,
) -> (r: Result<(), ErrorCode>)
    ensures
        hashbeast_synced(expected, *player, *old(metadata), *final(metadata), accumulated_add, claim_won, r),

{
    if !claim_won || expected.is_default() || expected != player.gameplay_hashbeast || player.gameplay_hashbeast.is_default() {
        return Ok(());
    }
    match metadata {
        None => Err(ErrorCode::HashBeastMetadataNotFound),
        Some((address, m)) => {
            if m.mint != expected {
                return Err(ErrorCode::HashBeastMetadataNotFound);
            }
            if find_program_address(HASHBEAST_METADATA_SEED.as_slice(), expected.to_bytes().as_slice(), program_id()) != Some(*address) {
                return Err(ErrorCode::InvalidAccount);
            }
            let acc = match m.accumulated_val.checked_add(accumulated_add) {
                Some(v) => v,
                None => return Err(ErrorCode::ArithmeticOverflow),
            };
            m.accumulated_val = acc;
            m.dna = player.gameplay_hashbeast_dna;
            m.xp = player.gameplay_hashbeast_xp;
            m.multiplier = player.active_multiplier;
            Ok(())
        },
    }
}

/// The scoring side of a faction war: its stage and active countries, each
/// country's leaderboard score and HashBeast-mutation score, and each
/// country's best player so far.
#[derive(Debug, Clone)]
pub struct WarScores {
    pub war_id: u64,
    pub stage: u8,
    pub faction_count: u8,
    pub gameplay_scores: Vec<u64>,
    pub faction_mutation_score: Vec<u64>,
    pub mvp_user: Vec<Key>,
    pub mvp_score: Vec<u64>,
}

impl WarScores {
    pub open spec fn wf(self) -> bool {
        &&& self.faction_count <= NUM_FACTIONS
        &&& self.gameplay_scores.len() == NUM_FACTIONS
        &&& self.faction_mutation_score.len() == NUM_FACTIONS
        &&& self.mvp_user.len() == NUM_FACTIONS
        &&& self.mvp_score.len() == NUM_FACTIONS
    }
}

/// The faction-war weight of a mutation type (1 Evolution, 2 Power,
/// 3 Trait); zero for none.
pub open spec fn bonus_weight_spec(t: u8) -> int {
    if t == 1 {
        MUTATION_BONUS_WEIGHT_EVOLUTION as int
    } else if t == 2 {
        MUTATION_BONUS_WEIGHT_POWER as int
    } else if t == 3 {
        MUTATION_BONUS_WEIGHT_TRAIT as int
    } else {
        0
    }
}

/// The mutation bonus of a claim: the user's weighted points on the winning
/// faction scaled by their gameplay multiplier, times the mutation's weight.
pub open spec fn mutation_bonus_spec(user_wgtd: int, active_multiplier: u32, t: u8) -> int {
    (user_wgtd * active_multiplier / BASE_MULTIPLIER as int) * bonus_weight_spec(t)
}

/// Whether a mutation counts for the war at all: a real mutation, an open
/// war, and a winning country among the war's countries.
pub open spec fn mutation_bonus_gated(t: u8, war: WarScores, winner: u8) -> bool {
    &&& bonus_weight_spec(t) > 0
    &&& war.stage == 0
    &&& winner < war.faction_count
}

/// Computes `mutation_bonus_spec` when it fits 64 bits.
fn compute_mutation_bonus(user_wgtd: u64, active_multiplier: u32, t: u8) -> (r: Option<u64>)
    ensures
        r == (if mutation_bonus_spec(user_wgtd as int, active_multiplier, t) <= u64::MAX {
            Some(mutation_bonus_spec(user_wgtd as int, active_multiplier, t) as u64)
        } else {
            None::<u64>
        }),
{
    let weight = mutation_bonus_weight(t);
    proof {
        assert((user_wgtd as int) * (active_multiplier as int) <= (u64::MAX as int) * (u32::MAX as int)) by (nonlinear_arith)
            requires
                user_wgtd <= u64::MAX,
                active_multiplier <= u32::MAX,
        ;
        assert((user_wgtd as int) * (active_multiplier as int) >= 0) by (nonlinear_arith);
    }
    let scaled: u128 = (user_wgtd as u128) * (active_multiplier as u128) / 1000;
    proof {
        assert(scaled * (weight as int) <= (u128::MAX as int)) by (nonlinear_arith)
            requires
                scaled <= (u64::MAX as int) * (u32::MAX as int),
                weight <= 3,
        ;
        assert(weight as int == bonus_weight_spec(t));
    }
    let bonus_wide: u128 = scaled * (weight as u128);
    if bonus_wide > u64::MAX as u128 {
        return None;
    }
    Some(bonus_wide as u64)
}

/// What scoring a mutation bonus does to the war scores, the user's war
/// bets and the player, and returns.
pub open spec fn bonus_applied(t: u8, b: UserGameBet, winner: u8, war_id: u64, war0: WarScores, war1: WarScores, uwb0: UserFactionWarBets, uwb1: UserFactionWarBets, p0: PlayerData, p1: PlayerData, owner: Key, r: Result<(), ErrorCode>) -> bool {
    &&& (war1.wf())
    &&& (!mutation_bonus_gated(t, war0, winner) ==> r is Ok && war1 == war0 && uwb1 == uwb0
        && p1 == p0)
    &&& (mutation_bonus_gated(t, war0, winner) && !b.aligned() ==> r is Ok && war1 == war0 && uwb1 == uwb0
        && p1 == p0)
    &&& (mutation_bonus_gated(t, war0, winner) && b.aligned() ==> {
        let wgtd = wgtd_on_faction(b, winner, b.faction_ids.len() as int);
        let bonus = mutation_bonus_spec(wgtd, p0.active_multiplier, t);
        let home = winner == p0.faction_id;
        let add = if home { bonus } else { bonus / 2 };
        let w = winner as int;
        let base_score = if p0.current_war_score_cycle_id == war_id { p0.current_war_score as int } else { 0 };
        let new_score = base_score + bonus;
        if wgtd > u64::MAX {
            r == Err::<(), ErrorCode>(ErrorCode::ArithmeticOverflow)
        } else if wgtd == 0 {
            r is Ok && war1 == war0 && uwb1 == uwb0 && p1 == p0
        } else if bonus > u64::MAX {
            r == Err::<(), ErrorCode>(ErrorCode::ArithmeticOverflow)
        } else if add == 0 {
            r is Ok && war1 == war0 && uwb1 == uwb0 && p1 == p0
        } else if war0.gameplay_scores@[w] + add > u64::MAX {
            r == Err::<(), ErrorCode>(ErrorCode::ArithmeticOverflow)
        } else if !home {
            r is Ok && war1.gameplay_scores@ == war0.gameplay_scores@.update(w, (war0.gameplay_scores@[w] + add) as u64)
                && war1.faction_mutation_score@ == war0.faction_mutation_score@
                && war1.mvp_user@ == war0.mvp_user@ && war1.mvp_score@ == war0.mvp_score@
                && uwb1 == uwb0 && p1 == p0
        } else if war0.faction_mutation_score@[w] + bonus > u64::MAX || new_score > u64::MAX {
            r == Err::<(), ErrorCode>(ErrorCode::ArithmeticOverflow)
        } else if uwb0.owner != owner || uwb0.war_id != war_id {
            r == Err::<(), ErrorCode>(ErrorCode::InvalidAccount)
        } else if uwb0.mutation_score + bonus > u64::MAX {
            r == Err::<(), ErrorCode>(ErrorCode::ArithmeticOverflow)
        } else {
            &&& r is Ok
            &&& war1.gameplay_scores@ == war0.gameplay_scores@.update(w, (war0.gameplay_scores@[w] + add) as u64)
            &&& war1.faction_mutation_score@ == war0.faction_mutation_score@.update(w, (war0.faction_mutation_score@[w] + bonus) as u64)
            &&& p1.current_war_score == new_score
            &&& p1.current_war_score_cycle_id == war_id
            &&& p1 == (PlayerData {
                current_war_score: p1.current_war_score,
                current_war_score_cycle_id: war_id,
                ..p0
            })
            &&& (new_score > war0.mvp_score@[w] ==> war1.mvp_user@ == war0.mvp_user@.update(w, owner)
                && war1.mvp_score@ == war0.mvp_score@.update(w, new_score as u64))
            &&& (new_score <= war0.mvp_score@[w] ==> war1.mvp_user@ == war0.mvp_user@
                && war1.mvp_score@ == war0.mvp_score@)
            &&& uwb1.mutation_score == uwb0.mutation_score + bonus
            &&& uwb1 == (UserFactionWarBets { mutation_score: uwb1.mutation_score, ..uwb0 })
        }
    })
    &&& (war1.war_id == war0.war_id && war1.stage == war0.stage && war1.faction_count == war0.faction_count)
}

/// Credits a claim-time mutation to the faction war. A mutation on the
/// player's home country adds the full bonus to the country's leaderboard
/// score and mutation score, to the player's war score (which may make them
/// the country's best player) and to their war record; a mutation on a
/// foreign country only adds half the bonus to that country's leaderboard.
/// Mutations after the war closed, on a bet whose position vectors are
/// malformed, or without points on the winner, count for nothing.
#[verifier::rlimit(40)]
pub fn apply_mutation_bonus_score(
    mutation_type: u8,
    b: &UserGameBet,
    winner: u8,
    war_id: u64,
    war: &mut WarScores,
    uwb: &mut UserFactionWarBets,
    player: &mut PlayerData,
    owner: Key,
) -> (r: Result<(), ErrorCode>)
    requires
        old(war).wf(),
    ensures
        bonus_applied(mutation_type, *b, winner, war_id, *old(war), *final(war), *old(uwb), *final(uwb), *old(player), *final(player), owner, r),

{
    proof {
        lemma_wgtd_on_faction_mono(*b, winner, 0, b.faction_ids.len() as int);
        let wgtd = wgtd_on_faction(*b, winner, b.faction_ids.len() as int);
        let mult = player.active_multiplier;
        let wt = bonus_weight_spec(mutation_type);
        assert((wgtd * mult / 1000) * wt >= 0) by (nonlinear_arith)
            requires
                wgtd >= 0,
                mult >= 0,
                wt >= 0,
        ;
    }
    let weight = mutation_bonus_weight(mutation_type);
    if mutation_type == 0 || weight == 0 {
        return Ok(());
    }
    if war.stage != 0 {
        return Ok(());
    }
    if winner >= war.faction_count {
        return Ok(());
    }
    if require_user_game_bet_vectors_aligned(b).is_err() {
        return Ok(());
    }
    let user_wgtd = total_wgtd_points_for_faction(b, winner)?;
    if user_wgtd == 0 {
        return Ok(());
    }
    let bonus = match compute_mutation_bonus(user_wgtd, player.active_multiplier, mutation_type) {
        Some(v) => v,
        None => return Err(ErrorCode::ArithmeticOverflow),
    };
    if bonus == 0 {
        return Ok(());
    }
    let w = winner as usize;
    let home = winner == player.faction_id;
    let add = leaderboard_score_for_mutation(bonus, home);
    if add == 0 {
        return Ok(());
    }
    let score = match war.gameplay_scores[w].checked_add(add) {
        Some(v) => v,
        None => return Err(ErrorCode::ArithmeticOverflow),
    };
    if !home {
        war.gameplay_scores.set(w, score);
        return Ok(());
    }
    let fms = match war.faction_mutation_score[w].checked_add(bonus) {
        Some(v) => v,
        None => return Err(ErrorCode::ArithmeticOverflow),
    };
    let base_score = if player.current_war_score_cycle_id == war_id { player.current_war_score } else { 0 };
    let new_score = match base_score.checked_add(bonus) {
        Some(v) => v,
        None => return Err(ErrorCode::ArithmeticOverflow),
    };
    if uwb.owner != owner || uwb.war_id != war_id {
        return Err(ErrorCode::InvalidAccount);
    }
    let user_score = match uwb.mutation_score.checked_add(bonus) {
        Some(v) => v,
        None => return Err(ErrorCode::ArithmeticOverflow),
    };
    war.gameplay_scores.set(w, score);
    war.faction_mutation_score.set(w, fms);
    player.current_war_score = new_score;
    player.current_war_score_cycle_id = war_id;
    if new_score > war.mvp_score[w] {
        war.mvp_user.set(w, owner);
        war.mvp_score.set(w, new_score);
    }
    uwb.mutation_score = user_score;
    Ok(())
}

/// Domain tag of the losers' lootbox draw.
pub const LOSER_ROLL_TAG: [u8; 18] = [
    109, 105, 110, 101, 98, 116, 99, 45, 108, 111, 115, 101, 114, 45, 114, 111, 108, 108,
];

/// The Keccak-256 digest of `data`.
pub uninterp spec fn keccak256(data: Seq<u8>) -> Seq<u8>;

/// Keccak-256 of `data` with `keccak::hashv` (solana-keccak-hasher, as
/// anchor_lang re-exports it), given one slice; hashv feeds its slices to
/// one hasher in turn, so this is the digest of the bytes. The contract
/// names the digest as a function of the bytes.
#[verifier::external_body]
#[allow(deprecated)]
pub(crate) fn keccak_digest(data: &[u8]) -> (r: [u8; 32])
    ensures
        r@ == keccak256(data@),
{
    anchor_lang::solana_program::keccak::hashv(&[data]).to_bytes()
}

/// The 8 little-endian bytes of `x`.
pub open spec fn le_bytes_u64(x: u64) -> Seq<u8> {
    Seq::new(8, |k: int| ((x >> ((k * 8) as u64)) & 0xff) as u8)
}

/// Computes `le_bytes_u64`.
pub fn u64_le_bytes(x: u64) -> (r: Vec<u8>)
    ensures
        r@ == le_bytes_u64(x),
{
    let mut out: Vec<u8> = Vec::new();
    let mut k: usize = 0;
    while k < 8
        invariant
            k <= 8,
            out.len() == k,
            forall|a: int| 0 <= a < k ==> #[trigger] out@[a] == le_bytes_u64(x)[a],
        decreases 8 - k,
    {
        let shift: u64 = (k as u64) * 8;
        out.push(((x >> shift) & 0xff) as u8);
        k += 1;
    }
    assert(out@ =~= le_bytes_u64(x));
    out
}

/// Appends `data` to `out`.
fn append_bytes(out: &mut Vec<u8>, data: &[u8])
    ensures
        final(out)@ == old(out)@ + data@,
{
    let mut i: usize = 0;
    while i < data.len()
        invariant
            i <= data.len(),
            out@ == old(out)@ + data@.take(i as int),
        decreases data.len() - i,
    {
        out.push(data[i]);
        i += 1;
        assert(out@ =~= old(out)@ + data@.take(i as int));
    }
    assert(data@.take(data.len() as int) =~= data@);
}

/// The bytes the losers' draw hashes: the tag, the round's entropy, the
/// round id, the user, the queue head and the queue depth.
pub open spec fn loser_roll_preimage(entropy_hash: Seq<u8>, round_id: u64, user: Key, head: Key, depth: u8) -> Seq<u8> {
    LOSER_ROLL_TAG@ + entropy_hash + le_bytes_u64(round_id) + user.bytes() + head.bytes() + seq![depth]
}

/// A loser's lootbox reservation, as stored.
#[derive(Debug, Clone, Copy, PartialEq, Eq, Structural)]
pub struct LootboxReservation {
    pub user: Key,
    pub asset: Key,
    pub faction_id: u8,
}

/// The state of the user's reservation account before the draw: absent (a
/// fresh system account), stored by this program, or anything else.
#[derive(Debug, Clone, Copy, PartialEq, Eq, Structural)]
pub enum ReservationAccount {
    Empty,
    Stored(LootboxReservation),
    Foreign,
}

/// How a losers' draw ended.
#[derive(Debug, Clone, Copy, PartialEq, Eq, Structural)]
pub enum LoserRoll {
    /// Not eligible: a winner, a pending reservation, an empty queue, no
    /// points on the home country, or no chance.
    Skipped,
    /// Drew `roll` at or above the threshold.
    Missed { roll: u64 },
    /// Won the asset at `index` of the queue, now reserved for the user.
    Won { roll: u64, index: u64, reservation: LootboxReservation },
}

/// The draw value and the pick of a digest: the first two bytes (little
/// endian) modulo 10 000, and the next four modulo the queue depth.
pub open spec fn roll_of(digest: Seq<u8>) -> int {
    (digest[0] + 256 * digest[1]) % 10_000
}

pub open spec fn pick_of(digest: Seq<u8>, depth: int) -> int {
    (digest[2] + 256 * digest[3] + 65_536 * digest[4] + 16_777_216 * digest[5]) % depth
}

/// Whether a losing claimant may draw at all, after the account checks.
pub open spec fn loser_roll_eligible(claim_won: bool, account: ReservationAccount, q: LootboxQueue, home_wgtd: int, threshold_bps: u64) -> bool {
    &&& !claim_won
    &&& !(account matches ReservationAccount::Stored(c) && !c.asset.is_zero())
    &&& q.filled_count > 0
    &&& home_wgtd > 0
    &&& threshold_bps > 0
}

/// The queue after the asset at `pick` leaves: the later slots move up one
/// and the freed last slot is cleared.
pub open spec fn queue_after_pick(slots: Seq<Key>, filled: int, pick: int) -> Seq<Key> {
    Seq::new(slots.len(), |i: int|
        if i < pick { slots[i] } else if i < filled - 1 { slots[i + 1] } else if i == filled - 1 { Key { w0: 0, w1: 0, w2: 0, w3: 0 } } else { slots[i] })
}

/// What a losing claim's lootbox roll returns and does to the lootbox
/// queue.
pub open spec fn loser_rolled(claim_won: bool, b: UserGameBet, player: PlayerData, q0: LootboxQueue, q1: LootboxQueue, account: ReservationAccount, threshold_bps: u64, entropy_hash: [u8; 32], user: Key, round_id: u64, r: Result<LoserRoll, ErrorCode>) -> bool {
    &&& (q1.wf())
    &&& (q1.faction_id == q0.faction_id)
    &&& (claim_won ==> r == Ok::<LoserRoll, ErrorCode>(LoserRoll::Skipped) && q1 == q0)
    &&& (!claim_won && account == ReservationAccount::Foreign ==> r == Err::<LoserRoll, ErrorCode>(ErrorCode::InvalidAccount))
    &&& (!claim_won && (account matches ReservationAccount::Stored(c) && !c.user.is_zero() && c.user != user)
        ==> r == Err::<LoserRoll, ErrorCode>(ErrorCode::InvalidOwner))
    &&& (r matches Ok(LoserRoll::Skipped) ==> q1 == q0)
    &&& (r matches Ok(LoserRoll::Missed { roll }) ==> q1 == q0 && roll >= threshold_bps
        && roll == roll_of(keccak256(loser_roll_preimage(entropy_hash@, round_id, user, q0.slots@[0], q0.filled_count))))
    &&& (r matches Ok(LoserRoll::Won { roll, index, reservation }) ==> {
        let digest = keccak256(loser_roll_preimage(entropy_hash@, round_id, user, q0.slots@[0], q0.filled_count));
        &&& roll < threshold_bps
        &&& roll == roll_of(digest)
        &&& index == pick_of(digest, q0.filled_count as int)
        &&& reservation == (LootboxReservation { user, asset: q0.slots@[index as int], faction_id: player.faction_id })
        &&& q1.filled_count == q0.filled_count - 1
        &&& q1.slots@ == queue_after_pick(q0.slots@, q0.filled_count as int, index as int)
    })
    &&& (!claim_won && account != ReservationAccount::Foreign
        && !(account matches ReservationAccount::Stored(c) && !c.user.is_zero() && c.user != user) ==> {
        if account matches ReservationAccount::Stored(c) && !c.asset.is_zero() {
            r == Ok::<LoserRoll, ErrorCode>(LoserRoll::Skipped)
        } else if q0.filled_count == 0 {
            r == Ok::<LoserRoll, ErrorCode>(LoserRoll::Skipped)
        } else if !b.aligned() {
            r == Err::<LoserRoll, ErrorCode>(if !same_lengths(b) { ErrorCode::InvalidState } else { ErrorCode::InvalidParameters })
        } else {
            let home = wgtd_on_faction(b, player.faction_id, b.faction_ids.len() as int);
            if home > u64::MAX {
                r == Err::<LoserRoll, ErrorCode>(ErrorCode::ArithmeticOverflow)
            } else {
                r is Ok && (r matches Ok(LoserRoll::Skipped) <==> !loser_roll_eligible(claim_won, account, q0, home, threshold_bps))
            }
        }
    })
    &&& (r is Err ==> q1 == q0)
}

/// The losers' lootbox draw of a claim. A losing claimant with weighted
/// points on their home country, no pending reservation and a non-empty
/// queue draws against `threshold_bps` (the chance for the queue's depth)
/// with a digest of the round's entropy, the round, the user and the queue;
/// a win takes a digest-picked asset out of the queue (the rest move up) and
/// reserves it for the user.
pub fn maybe_run_loser_lootbox_roll(
    claim_won: bool,
    b: &UserGameBet,
    player: &PlayerData,
    q: &mut LootboxQueue,
    account: ReservationAccount,
    threshold_bps: u64,
    entropy_hash: &[u8; 32],
    user: Key,
    round_id: u64,
) -> (r: Result<LoserRoll, ErrorCode>)
    requires
        old(q).wf(),
    ensures
        loser_rolled(claim_won, *b, *player, *old(q), *final(q), account, threshold_bps, *entropy_hash, user, round_id, r),

{
    if claim_won {
        return Ok(LoserRoll::Skipped);
    }
    let pending_asset = match account {
        ReservationAccount::Foreign => return Err(ErrorCode::InvalidAccount),
        ReservationAccount::Stored(c) => {
            if !c.user.is_default() && c.user != user {
                return Err(ErrorCode::InvalidOwner);
            }
            !c.asset.is_default()
        },
        ReservationAccount::Empty => false,
    };
    if pending_asset {
        return Ok(LoserRoll::Skipped);
    }
    if q.filled_count == 0 {
        return Ok(LoserRoll::Skipped);
    }
    proof {
        lemma_wgtd_on_faction_mono(*b, player.faction_id, 0, b.faction_ids.len() as int);
    }
    let home_wgtd = total_wgtd_points_for_faction(b, player.faction_id)?;
    if home_wgtd == 0 || threshold_bps == 0 {
        return Ok(LoserRoll::Skipped);
    }
    let mut preimage: Vec<u8> = Vec::new();
    append_bytes(&mut preimage, LOSER_ROLL_TAG.as_slice());
    append_bytes(&mut preimage, entropy_hash.as_slice());
    let round_bytes = u64_le_bytes(round_id);
    append_bytes(&mut preimage, round_bytes.as_slice());
    let user_bytes = user.to_bytes();
    append_bytes(&mut preimage, user_bytes.as_slice());
    let head_bytes = q.slots[0].to_bytes();
    append_bytes(&mut preimage, head_bytes.as_slice());
    let depth = q.filled_count;
    preimage.push(depth);
    proof {
        assert(preimage@ =~= loser_roll_preimage(entropy_hash@, round_id, user, old(q).slots@[0], old(q).filled_count));
    }
    let digest = keccak_digest(preimage.as_slice());
    Ok(draw_from_digest(&digest, threshold_bps, q, user, player.faction_id))
}

/// The losers' draw once its digest is known: the roll (first two digest
/// bytes, little endian, modulo 10 000) misses at or above
/// `threshold_bps`; below it, the asset at the picked index (next four
/// bytes modulo the queue depth) leaves the queue, the later ones move up,
/// and it is reserved for `user` of country `faction_id`.
pub fn draw_from_digest(digest: &[u8; 32], threshold_bps: u64, q: &mut LootboxQueue, user: Key, faction_id: u8) -> (r: LoserRoll)
    requires
        old(q).wf(),
        old(q).filled_count > 0,
    ensures
        final(q).wf(),
        final(q).faction_id == old(q).faction_id,
        roll_of(digest@) >= threshold_bps ==> r == (LoserRoll::Missed { roll: roll_of(digest@) as u64 }) && *final(q) == *old(q),
        roll_of(digest@) < threshold_bps ==> ({
            let index = pick_of(digest@, old(q).filled_count as int);
            &&& r == (LoserRoll::Won {
                roll: roll_of(digest@) as u64,
                index: index as u64,
                reservation: (LootboxReservation { user, asset: old(q).slots@[index], faction_id }),
            })
            &&& final(q).filled_count == old(q).filled_count - 1
            &&& final(q).slots@ == queue_after_pick(old(q).slots@, old(q).filled_count as int, index)
        }),
{
    let roll: u64 = (digest[0] as u64 + 256 * (digest[1] as u64)) % 10_000;
    if roll >= threshold_bps {
        return LoserRoll::Missed { roll };
    }
    let depth = q.filled_count;
    let raw_pick: u64 = digest[2] as u64 + 256 * (digest[3] as u64) + 65_536 * (digest[4] as u64) + 16_777_216 * (digest[5] as u64);
    let pick = (raw_pick % (depth as u64)) as usize;
    let won = q.slots[pick];
    let last = depth as usize - 1;
    let ghost before = q.slots@;
    let ghost fid = q.faction_id;
    let mut i = pick;
    while i < last
        invariant
            q.faction_id == fid,
            q.slots.len() == LOOTBOX_QUEUE_SIZE,
            pick <= i <= last,
            last < LOOTBOX_QUEUE_SIZE,
            before.len() == LOOTBOX_QUEUE_SIZE,
            forall|a: int| 0 <= a < i ==> #[trigger] q.slots@[a] == (if a < pick { before[a] } else { before[a + 1] }),
            forall|a: int| i <= a < LOOTBOX_QUEUE_SIZE ==> #[trigger] q.slots@[a] == before[a],
        decreases last - i,
    {
        let next = q.slots[i + 1];
        q.slots.set(i, next);
        i += 1;
    }
    q.slots.set(last, Key::zero());
    q.filled_count = depth - 1;
    proof {
        assert(q.slots@ =~= queue_after_pick(before, depth as int, pick as int));
    }
    LoserRoll::Won {
        roll,
        index: pick as u64,
        reservation: LootboxReservation { user, asset: won, faction_id },
    }
}

/// What a round claim produced: the SOL and degenBTC won, the claim-time
/// mutation (0 for none), the HODL bonus realized with the credit, the part
/// of the degenBTC reward accrued on the HashBeast, and the losers' draw.
#[derive(Debug, Clone, Copy, PartialEq, Eq, Structural)]
pub struct RoundClaim {
    pub sol_reward: u64,
    pub dbtc_reward: u64,
    pub mutation_type: u8,
    pub hodl_bonus: u64,
    pub accumulated_add: u64,
    pub loser_roll: LoserRoll,
}

/// The first reason, if any, to refuse a round claim before its rewards are
/// computed: the round is not over, is another round, or the accounts are
/// not the claimant's.
pub open spec fn round_claim_error(round_id: u64, owner: Key, session: GameSession, b: UserGameBet, player: PlayerData) -> Option<ErrorCode> {
    if session.stage != 2 {
        Some(ErrorCode::InvalidStage)
    } else if round_id != b.round_id || round_id != session.round_id {
        Some(ErrorCode::InvalidRound)
    } else if player.owner != owner || b.owner != owner {
        Some(ErrorCode::InvalidOwner)
    } else {
        None
    }
}

/// The claim-time inputs that come from outside the accounts: the
/// progression switch, the mutation roll's outcome, the losers' chance for
/// the queue's depth, and the state of the claimant's reservation account.
#[derive(Debug, Clone, Copy)]
pub struct ClaimInputs {
    pub rpg_progression: bool,
    pub outcome: MutationOutcome,
    pub loser_threshold_bps: u64,
    pub reservation: ReservationAccount,
}

/// The claim-time mutation step of a claim: a winning claim without an
/// earlier mutation rolls one when it is entitled to (recording it on the
/// bet and the round); otherwise nothing changes and the bet's mutation
/// stands.
pub open spec fn claim_mutation_step(
    won: bool,
    b0: UserGameBet,
    session: GameSession,
    o0: RoundResult,
    inputs: ClaimInputs,
    t: u8,
    o1: RoundResult,
    b1: UserGameBet,
    p0: PlayerData,
    p1: PlayerData,
) -> bool {
    if won && b0.mutation_type == 0 {
        match mutation_roll_plan(b0, session, o0) {
            Ok(Some(roll)) => mutation_rolled(b0.gameplay_hashbeast, p0, p1, inputs.rpg_progression, roll.stake, inputs.outcome, Ok(t))
                && b1 == (UserGameBet { mutation_type: t, ..b0 })
                && mutation_recorded(o0, o1, roll.faction_id as usize, t),
            Ok(None) => t == 0 && p1 == p0 && b1 == b0 && o1 == o0,
            Err(_) => false,
        }
    } else {
        t == b0.mutation_type && p1 == p0 && b1 == b0 && o1 == o0
    }
}

/// The effects of a successful claim `c`, step by step through the player
/// (`p0` to `p4`): the claim-time mutation roll (on a win without an earlier
/// mutation), the credit of degenBTC with the hodl bonus, the gameplay
/// HashBeast's metadata, the war bonus of a mutation, the losing claim's
/// lootbox roll, and one pending claim fewer.
pub open spec fn claim_effects(
    round_id: u64,
    owner: Key,
    session: GameSession,
    inputs: ClaimInputs,
    c: RoundClaim,
    o0: RoundResult,
    o1: RoundResult,
    b0: UserGameBet,
    b1: UserGameBet,
    p0: PlayerData,
    p1: PlayerData,
    p2: PlayerData,
    p3: PlayerData,
    p4: PlayerData,
    pool0: HodlPool,
    pool1: HodlPool,
    md0: Option<(Key, HashBeastMetadata)>,
    md1: Option<(Key, HashBeastMetadata)>,
    war0: WarScores,
    war1: WarScores,
    uwb0: UserFactionWarBets,
    uwb1: UserFactionWarBets,
    q0: LootboxQueue,
    q1: LootboxQueue,
) -> bool {
    let won = c.sol_reward > 0 || c.dbtc_reward > 0;
    &&& claim_mutation_step(won, b0, session, o0, inputs, c.mutation_type, o1, b1, p0, p1)
    &&& claimable_credited(pool0, pool1, p1, p2, c.dbtc_reward, Ok(c.hodl_bonus))
    &&& hashbeast_synced(b0.gameplay_hashbeast, p2, md0, md1, c.accumulated_add, won, Ok(()))
    &&& bonus_applied(c.mutation_type, b1, o1.winning_faction_id, session.war_id_when_played, war0, war1, uwb0, uwb1, p2, p3, owner, Ok(()))
    &&& loser_rolled(won, b1, p3, q0, q1, inputs.reservation, inputs.loser_threshold_bps, o1.entropy_hash, owner, round_id, Ok(c.loser_roll))
    &&& p3.pending_round_claims > 0
    &&& p4 == (PlayerData { pending_round_claims: (p3.pending_round_claims - 1) as u64, ..p3 })
}

/// Whether a round claim that passed its account checks goes through: its
/// rewards fold, and every later step (the mutation roll, the HODL credit,
/// the HashBeast sync, the war bonus, the losers' draw, and consuming a
/// pending claim) succeeds in turn on what the steps before it left.
#[verifier::opaque]
pub open spec fn round_claim_goes_through(
    round_id: u64,
    owner: Key,
    session: GameSession,
    inputs: ClaimInputs,
    o0: RoundResult,
    b0: UserGameBet,
    p0: PlayerData,
    pool0: HodlPool,
    md0: Option<(Key, HashBeastMetadata)>,
    war0: WarScores,
    uwb0: UserFactionWarBets,
    q0: LootboxQueue,
) -> bool {
    exists|c: RoundClaim, o1: RoundResult, b1: UserGameBet, p1: PlayerData, p2: PlayerData, p3: PlayerData, p4: PlayerData,
        pool1: HodlPool, md1: Option<(Key, HashBeastMetadata)>, war1: WarScores, uwb1: UserFactionWarBets, q1: LootboxQueue|
        #[trigger] claim_effects(round_id, owner, session, inputs, c, o0, o1, b0, b1, p0, p1, p2, p3, p4, pool0, pool1, md0, md1,
            war0, war1, uwb0, uwb1, q0, q1)
        && rewards_fold(b0, o0, session.wgtd_points_bets_by_faction_direction@, b0.faction_ids.len() as int)
            == Ok::<(int, int), ErrorCode>((c.sol_reward as int, c.dbtc_reward as int))
        && c.accumulated_add == (if c.dbtc_reward > 0 { mul_div_spec(c.dbtc_reward as int, mutation_accum_spec(c.mutation_type), 1000) } else { 0 })
}

/// What claiming a round returns and does to the bet, the player and the
/// hodl pool.
pub open spec fn round_claimed(
    round_id: u64,
    owner: Key,
    session: GameSession,
    o0: RoundResult,
    b0: UserGameBet,
    b1: UserGameBet,
    player0: PlayerData,
    player1: PlayerData,
    pool0: HodlPool,
    pool1: HodlPool,
    r: Result<RoundClaim, ErrorCode>,
) -> bool {
    &&& (round_claim_error(round_id, owner, session, b0, player0) matches Some(e) ==> r == Err::<RoundClaim, ErrorCode>(e))
    &&& (round_claim_error(round_id, owner, session, b0, player0) is None && !b0.aligned()
        ==> r == Err::<RoundClaim, ErrorCode>(if !same_lengths(b0) { ErrorCode::InvalidState } else { ErrorCode::InvalidParameters }))
    &&& (round_claim_error(round_id, owner, session, b0, player0) is None && b0.aligned()
        && rewards_fold(b0, o0, session.wgtd_points_bets_by_faction_direction@, b0.faction_ids.len() as int) is Err
        ==> r == Err::<RoundClaim, ErrorCode>(
            rewards_fold(b0, o0, session.wgtd_points_bets_by_faction_direction@, b0.faction_ids.len() as int)->Err_0))
    &&& (r matches Ok(c) ==> {
        let won = rewards_fold(b0, o0, session.wgtd_points_bets_by_faction_direction@, b0.faction_ids.len() as int);
        &&& won == Ok::<(int, int), ErrorCode>((c.sol_reward as int, c.dbtc_reward as int))
        &&& (!(c.sol_reward > 0 || c.dbtc_reward > 0) || b0.mutation_type != 0) ==> c.mutation_type == b0.mutation_type
        &&& b1.mutation_type == c.mutation_type
        &&& hodl_accrual(pool0, player0) == Some(c.hodl_bonus as int)
        &&& pool1.total_dbtc_claimable == pool0.total_dbtc_claimable + c.dbtc_reward + c.hodl_bonus
        &&& pool1.hodl_tax_index == pool0.hodl_tax_index
        &&& player1.pending_dbtc_rewards == player0.pending_dbtc_rewards + c.dbtc_reward + c.hodl_bonus
        &&& player1.hodl_tax_index == pool0.hodl_tax_index
        &&& player1.pending_round_claims == player0.pending_round_claims - 1
        &&& c.accumulated_add == (if c.dbtc_reward > 0 { mul_div_spec(c.dbtc_reward as int, mutation_accum_spec(c.mutation_type), 1000) } else { 0 })
        &&& (c.sol_reward > 0 || c.dbtc_reward > 0) ==> c.loser_roll == LoserRoll::Skipped
    })
}

/// A successful chain of claim steps shows that the claim goes through.
proof fn lemma_claim_goes_through(
    round_id: u64,
    owner: Key,
    session: GameSession,
    inputs: ClaimInputs,
    c: RoundClaim,
    o0: RoundResult,
    o1: RoundResult,
    b0: UserGameBet,
    b1: UserGameBet,
    p0: PlayerData,
    p1: PlayerData,
    p2: PlayerData,
    p3: PlayerData,
    p4: PlayerData,
    pool0: HodlPool,
    pool1: HodlPool,
    md0: Option<(Key, HashBeastMetadata)>,
    md1: Option<(Key, HashBeastMetadata)>,
    war0: WarScores,
    war1: WarScores,
    uwb0: UserFactionWarBets,
    uwb1: UserFactionWarBets,
    q0: LootboxQueue,
    q1: LootboxQueue,
)
    requires
        claim_effects(round_id, owner, session, inputs, c, o0, o1, b0, b1, p0, p1, p2, p3, p4, pool0, pool1, md0, md1, war0, war1,
            uwb0, uwb1, q0, q1),
        rewards_fold(b0, o0, session.wgtd_points_bets_by_faction_direction@, b0.faction_ids.len() as int)
            == Ok::<(int, int), ErrorCode>((c.sol_reward as int, c.dbtc_reward as int)),
        c.accumulated_add == (if c.dbtc_reward > 0 { mul_div_spec(c.dbtc_reward as int, mutation_accum_spec(c.mutation_type), 1000) } else { 0 }),
    ensures
        round_claim_goes_through(round_id, owner, session, inputs, o0, b0, p0, pool0, md0, war0, uwb0, q0),
{
    reveal(round_claim_goes_through);
}

/// A successful chain of claim steps, when there is one.
proof fn claim_witness(
    round_id: u64,
    owner: Key,
    session: GameSession,
    inputs: ClaimInputs,
    o0: RoundResult,
    b0: UserGameBet,
    p0: PlayerData,
    pool0: HodlPool,
    md0: Option<(Key, HashBeastMetadata)>,
    war0: WarScores,
    uwb0: UserFactionWarBets,
    q0: LootboxQueue,
) -> (w: (RoundClaim, RoundResult, UserGameBet, PlayerData, PlayerData, PlayerData, PlayerData, HodlPool,
    Option<(Key, HashBeastMetadata)>, WarScores, UserFactionWarBets, LootboxQueue))
    requires
        round_claim_goes_through(round_id, owner, session, inputs, o0, b0, p0, pool0, md0, war0, uwb0, q0),
    ensures
        claim_effects(round_id, owner, session, inputs, w.0, o0, w.1, b0, w.2, p0, w.3, w.4, w.5, w.6, pool0, w.7, md0, w.8,
            war0, w.9, uwb0, w.10, q0, w.11),
        rewards_fold(b0, o0, session.wgtd_points_bets_by_faction_direction@, b0.faction_ids.len() as int)
            == Ok::<(int, int), ErrorCode>((w.0.sol_reward as int, w.0.dbtc_reward as int)),
        w.0.accumulated_add == (if w.0.dbtc_reward > 0 { mul_div_spec(w.0.dbtc_reward as int, mutation_accum_spec(w.0.mutation_type), 1000) } else { 0 }),
{
    reveal(round_claim_goes_through);
    let (c, o1, b1, p1, p2, p3, p4, pool1, md1, war1, uwb1, q1) = choose|c: RoundClaim, o1: RoundResult, b1: UserGameBet,
        p1: PlayerData, p2: PlayerData, p3: PlayerData, p4: PlayerData, pool1: HodlPool, md1: Option<(Key, HashBeastMetadata)>,
        war1: WarScores, uwb1: UserFactionWarBets, q1: LootboxQueue|
        #[trigger] claim_effects(round_id, owner, session, inputs, c, o0, o1, b0, b1, p0, p1, p2, p3, p4, pool0, pool1, md0, md1,
            war0, war1, uwb0, uwb1, q0, q1)
        && rewards_fold(b0, o0, session.wgtd_points_bets_by_faction_direction@, b0.faction_ids.len() as int)
            == Ok::<(int, int), ErrorCode>((c.sol_reward as int, c.dbtc_reward as int))
        && c.accumulated_add == (if c.dbtc_reward > 0 { mul_div_spec(c.dbtc_reward as int, mutation_accum_spec(c.mutation_type), 1000) } else { 0 });
    (c, o1, b1, p1, p2, p3, p4, pool1, md1, war1, uwb1, q1)
}

/// A claim whose rewards do not fold does not go through.
proof fn lemma_claim_stops_at_fold(
    round_id: u64,
    owner: Key,
    session: GameSession,
    inputs: ClaimInputs,
    o0: RoundResult,
    b0: UserGameBet,
    p0: PlayerData,
    pool0: HodlPool,
    md0: Option<(Key, HashBeastMetadata)>,
    war0: WarScores,
    uwb0: UserFactionWarBets,
    q0: LootboxQueue,
    e: ErrorCode,
)
    requires
        rewards_fold(b0, o0, session.wgtd_points_bets_by_faction_direction@, b0.faction_ids.len() as int) == Err::<(int, int), ErrorCode>(e),
    ensures
        !round_claim_goes_through(round_id, owner, session, inputs, o0, b0, p0, pool0, md0, war0, uwb0, q0),
{
    if round_claim_goes_through(round_id, owner, session, inputs, o0, b0, p0, pool0, md0, war0, uwb0, q0) {
        let w = claim_witness(round_id, owner, session, inputs, o0, b0, p0, pool0, md0, war0, uwb0, q0);
    }
}

/// A winning claim whose mutation roll cannot be planned does not go through.
proof fn lemma_claim_stops_at_roll_plan(
    round_id: u64,
    owner: Key,
    session: GameSession,
    inputs: ClaimInputs,
    o0: RoundResult,
    b0: UserGameBet,
    p0: PlayerData,
    pool0: HodlPool,
    md0: Option<(Key, HashBeastMetadata)>,
    war0: WarScores,
    uwb0: UserFactionWarBets,
    q0: LootboxQueue,
    sol: u64,
    dbtc: u64,
)
    requires
        rewards_fold(b0, o0, session.wgtd_points_bets_by_faction_direction@, b0.faction_ids.len() as int) == Ok::<(int, int), ErrorCode>((sol as int, dbtc as int)),
        sol > 0 || dbtc > 0,
        b0.mutation_type == 0,
        mutation_roll_plan(b0, session, o0) is Err,
    ensures
        !round_claim_goes_through(round_id, owner, session, inputs, o0, b0, p0, pool0, md0, war0, uwb0, q0),
{
    if round_claim_goes_through(round_id, owner, session, inputs, o0, b0, p0, pool0, md0, war0, uwb0, q0) {
        let w = claim_witness(round_id, owner, session, inputs, o0, b0, p0, pool0, md0, war0, uwb0, q0);
    }
}

/// A winning claim whose mutation roll fails does not go through.
proof fn lemma_claim_stops_at_roll(
    round_id: u64,
    owner: Key,
    session: GameSession,
    inputs: ClaimInputs,
    o0: RoundResult,
    b0: UserGameBet,
    p0: PlayerData,
    pool0: HodlPool,
    md0: Option<(Key, HashBeastMetadata)>,
    war0: WarScores,
    uwb0: UserFactionWarBets,
    q0: LootboxQueue,
    sol: u64,
    dbtc: u64,
    roll: ClaimMutationRoll,
    pa: PlayerData,
    e: ErrorCode,
)
    requires
        rewards_fold(b0, o0, session.wgtd_points_bets_by_faction_direction@, b0.faction_ids.len() as int) == Ok::<(int, int), ErrorCode>((sol as int, dbtc as int)),
        sol > 0 || dbtc > 0,
        b0.mutation_type == 0,
        mutation_roll_plan(b0, session, o0) == Ok::<Option<ClaimMutationRoll>, ErrorCode>(Some(roll)),
        mutation_rolled(b0.gameplay_hashbeast, p0, pa, inputs.rpg_progression, roll.stake, inputs.outcome, Err(e)),
    ensures
        !round_claim_goes_through(round_id, owner, session, inputs, o0, b0, p0, pool0, md0, war0, uwb0, q0),
{
    if round_claim_goes_through(round_id, owner, session, inputs, o0, b0, p0, pool0, md0, war0, uwb0, q0) {
        let w = claim_witness(round_id, owner, session, inputs, o0, b0, p0, pool0, md0, war0, uwb0, q0);
    }
}

/// A claim whose HODL credit fails does not go through.
proof fn lemma_claim_stops_at_credit(
    round_id: u64,
    owner: Key,
    session: GameSession,
    inputs: ClaimInputs,
    o0: RoundResult,
    b0: UserGameBet,
    p0: PlayerData,
    pool0: HodlPool,
    md0: Option<(Key, HashBeastMetadata)>,
    war0: WarScores,
    uwb0: UserFactionWarBets,
    q0: LootboxQueue,
    sol: u64,
    dbtc: u64,
    t: u8,
    o1: RoundResult,
    b1: UserGameBet,
    p1: PlayerData,
    pool1: HodlPool,
    p2: PlayerData,
    e: ErrorCode,
)
    requires
        rewards_fold(b0, o0, session.wgtd_points_bets_by_faction_direction@, b0.faction_ids.len() as int) == Ok::<(int, int), ErrorCode>((sol as int, dbtc as int)),
        claim_mutation_step(sol > 0 || dbtc > 0, b0, session, o0, inputs, t, o1, b1, p0, p1),
        claimable_credited(pool0, pool1, p1, p2, dbtc, Err(e)),
    ensures
        !round_claim_goes_through(round_id, owner, session, inputs, o0, b0, p0, pool0, md0, war0, uwb0, q0),
{
    if round_claim_goes_through(round_id, owner, session, inputs, o0, b0, p0, pool0, md0, war0, uwb0, q0) {
        let w = claim_witness(round_id, owner, session, inputs, o0, b0, p0, pool0, md0, war0, uwb0, q0);
    }
}

/// A claim whose HashBeast sync fails does not go through.
proof fn lemma_claim_stops_at_sync(
    round_id: u64,
    owner: Key,
    session: GameSession,
    inputs: ClaimInputs,
    o0: RoundResult,
    b0: UserGameBet,
    p0: PlayerData,
    pool0: HodlPool,
    md0: Option<(Key, HashBeastMetadata)>,
    war0: WarScores,
    uwb0: UserFactionWarBets,
    q0: LootboxQueue,
    sol: u64,
    dbtc: u64,
    t: u8,
    o1: RoundResult,
    b1: UserGameBet,
    p1: PlayerData,
    pool1: HodlPool,
    p2: PlayerData,
    bonus: u64,
    md1: Option<(Key, HashBeastMetadata)>,
    e: ErrorCode,
)
    requires
        rewards_fold(b0, o0, session.wgtd_points_bets_by_faction_direction@, b0.faction_ids.len() as int) == Ok::<(int, int), ErrorCode>((sol as int, dbtc as int)),
        claim_mutation_step(sol > 0 || dbtc > 0, b0, session, o0, inputs, t, o1, b1, p0, p1),
        claimable_credited(pool0, pool1, p1, p2, dbtc, Ok(bonus)),
        hashbeast_synced(b0.gameplay_hashbeast, p2, md0, md1, (if dbtc > 0 { mul_div_spec(dbtc as int, mutation_accum_spec(t), 1000) } else { 0 }) as u64, sol > 0 || dbtc > 0, Err(e)),
    ensures
        !round_claim_goes_through(round_id, owner, session, inputs, o0, b0, p0, pool0, md0, war0, uwb0, q0),
{
    if round_claim_goes_through(round_id, owner, session, inputs, o0, b0, p0, pool0, md0, war0, uwb0, q0) {
        let w = claim_witness(round_id, owner, session, inputs, o0, b0, p0, pool0, md0, war0, uwb0, q0);
    }
}

/// A claim whose war bonus fails does not go through.
proof fn lemma_claim_stops_at_bonus(
    round_id: u64,
    owner: Key,
    session: GameSession,
    inputs: ClaimInputs,
    o0: RoundResult,
    b0: UserGameBet,
    p0: PlayerData,
    pool0: HodlPool,
    md0: Option<(Key, HashBeastMetadata)>,
    war0: WarScores,
    uwb0: UserFactionWarBets,
    q0: LootboxQueue,
    sol: u64,
    dbtc: u64,
    t: u8,
    o1: RoundResult,
    b1: UserGameBet,
    p1: PlayerData,
    pool1: HodlPool,
    p2: PlayerData,
    bonus: u64,
    md1: Option<(Key, HashBeastMetadata)>,
    war1: WarScores,
    uwb1: UserFactionWarBets,
    p3: PlayerData,
    e: ErrorCode,
)
    requires
        rewards_fold(b0, o0, session.wgtd_points_bets_by_faction_direction@, b0.faction_ids.len() as int) == Ok::<(int, int), ErrorCode>((sol as int, dbtc as int)),
        claim_mutation_step(sol > 0 || dbtc > 0, b0, session, o0, inputs, t, o1, b1, p0, p1),
        claimable_credited(pool0, pool1, p1, p2, dbtc, Ok(bonus)),
        hashbeast_synced(b0.gameplay_hashbeast, p2, md0, md1, (if dbtc > 0 { mul_div_spec(dbtc as int, mutation_accum_spec(t), 1000) } else { 0 }) as u64, sol > 0 || dbtc > 0, Ok(())),
        bonus_applied(t, b1, o1.winning_faction_id, session.war_id_when_played, war0, war1, uwb0, uwb1, p2, p3, owner, Err(e)),
    ensures
        !round_claim_goes_through(round_id, owner, session, inputs, o0, b0, p0, pool0, md0, war0, uwb0, q0),
{
    if round_claim_goes_through(round_id, owner, session, inputs, o0, b0, p0, pool0, md0, war0, uwb0, q0) {
        let w = claim_witness(round_id, owner, session, inputs, o0, b0, p0, pool0, md0, war0, uwb0, q0);
    }
}

/// A claim whose losers' draw fails does not go through.
proof fn lemma_claim_stops_at_loser_roll(
    round_id: u64,
    owner: Key,
    session: GameSession,
    inputs: ClaimInputs,
    o0: RoundResult,
    b0: UserGameBet,
    p0: PlayerData,
    pool0: HodlPool,
    md0: Option<(Key, HashBeastMetadata)>,
    war0: WarScores,
    uwb0: UserFactionWarBets,
    q0: LootboxQueue,
    sol: u64,
    dbtc: u64,
    t: u8,
    o1: RoundResult,
    b1: UserGameBet,
    p1: PlayerData,
    pool1: HodlPool,
    p2: PlayerData,
    bonus: u64,
    md1: Option<(Key, HashBeastMetadata)>,
    war1: WarScores,
    uwb1: UserFactionWarBets,
    p3: PlayerData,
    q1: LootboxQueue,
    e: ErrorCode,
)
    requires
        rewards_fold(b0, o0, session.wgtd_points_bets_by_faction_direction@, b0.faction_ids.len() as int) == Ok::<(int, int), ErrorCode>((sol as int, dbtc as int)),
        claim_mutation_step(sol > 0 || dbtc > 0, b0, session, o0, inputs, t, o1, b1, p0, p1),
        claimable_credited(pool0, pool1, p1, p2, dbtc, Ok(bonus)),
        hashbeast_synced(b0.gameplay_hashbeast, p2, md0, md1, (if dbtc > 0 { mul_div_spec(dbtc as int, mutation_accum_spec(t), 1000) } else { 0 }) as u64, sol > 0 || dbtc > 0, Ok(())),
        bonus_applied(t, b1, o1.winning_faction_id, session.war_id_when_played, war0, war1, uwb0, uwb1, p2, p3, owner, Ok(())),
        loser_rolled(sol > 0 || dbtc > 0, b1, p3, q0, q1, inputs.reservation, inputs.loser_threshold_bps, o1.entropy_hash, owner, round_id, Err(e)),
    ensures
        !round_claim_goes_through(round_id, owner, session, inputs, o0, b0, p0, pool0, md0, war0, uwb0, q0),
{
    if round_claim_goes_through(round_id, owner, session, inputs, o0, b0, p0, pool0, md0, war0, uwb0, q0) {
        let w = claim_witness(round_id, owner, session, inputs, o0, b0, p0, pool0, md0, war0, uwb0, q0);
    }
}

/// A claim without a pending round claim to consume does not go through.
proof fn lemma_claim_stops_without_pending(
    round_id: u64,
    owner: Key,
    session: GameSession,
    inputs: ClaimInputs,
    o0: RoundResult,
    b0: UserGameBet,
    p0: PlayerData,
    pool0: HodlPool,
    md0: Option<(Key, HashBeastMetadata)>,
    war0: WarScores,
    uwb0: UserFactionWarBets,
    q0: LootboxQueue,
    sol: u64,
    dbtc: u64,
    t: u8,
    o1: RoundResult,
    b1: UserGameBet,
    p1: PlayerData,
    pool1: HodlPool,
    p2: PlayerData,
    bonus: u64,
    md1: Option<(Key, HashBeastMetadata)>,
    war1: WarScores,
    uwb1: UserFactionWarBets,
    p3: PlayerData,
    q1: LootboxQueue,
    lr: LoserRoll,
)
    requires
        rewards_fold(b0, o0, session.wgtd_points_bets_by_faction_direction@, b0.faction_ids.len() as int) == Ok::<(int, int), ErrorCode>((sol as int, dbtc as int)),
        claim_mutation_step(sol > 0 || dbtc > 0, b0, session, o0, inputs, t, o1, b1, p0, p1),
        claimable_credited(pool0, pool1, p1, p2, dbtc, Ok(bonus)),
        hashbeast_synced(b0.gameplay_hashbeast, p2, md0, md1, (if dbtc > 0 { mul_div_spec(dbtc as int, mutation_accum_spec(t), 1000) } else { 0 }) as u64, sol > 0 || dbtc > 0, Ok(())),
        bonus_applied(t, b1, o1.winning_faction_id, session.war_id_when_played, war0, war1, uwb0, uwb1, p2, p3, owner, Ok(())),
        loser_rolled(sol > 0 || dbtc > 0, b1, p3, q0, q1, inputs.reservation, inputs.loser_threshold_bps, o1.entropy_hash, owner, round_id, Ok(lr)),
        p3.pending_round_claims == 0,
    ensures
        !round_claim_goes_through(round_id, owner, session, inputs, o0, b0, p0, pool0, md0, war0, uwb0, q0),
{
    if round_claim_goes_through(round_id, owner, session, inputs, o0, b0, p0, pool0, md0, war0, uwb0, q0) {
        let w = claim_witness(round_id, owner, session, inputs, o0, b0, p0, pool0, md0, war0, uwb0, q0);
    }
}

/// Claims a user's rewards of a settled round: computes what each position
/// won, rolls the claim-time mutation of the gameplay HashBeast for a
/// winning claim (once per bet), credits the degenBTC through the HODL pool,
/// accrues a per-mutation share of it on the HashBeast, credits the
/// mutation to the faction war, gives a loser the lootbox draw, and consumes
/// one pending round claim. The SOL is paid out by the caller. The claim
/// goes through exactly when the account checks pass and every step does.
#[verifier::rlimit(100)]
#[verifier::spinoff_prover]
pub fn claim_round_rewards(
    round_id: u64,
    owner: Key,
    session: &GameSession,
    o: &mut RoundResult,
    b: &mut UserGameBet,
    player: &mut PlayerData,
    pool: &mut HodlPool,
    metadata: &mut Option<(Key, HashBeastMetadata)>,
    war: &mut WarScores,
    uwb: &mut UserFactionWarBets,
    q: &mut LootboxQueue,
    inputs: ClaimInputs,
) -> (r: Result<RoundClaim, ErrorCode>)
    requires
        session.wf(),
        old(o).wf(),
        old(war).wf(),
        old(q).wf(),
    ensures
        round_claimed(round_id, owner, *session, *old(o), *old(b), *final(b), *old(player), *final(player), *old(pool), *final(pool), r),
        r is Ok <==> round_claim_error(round_id, owner, *session, *old(b), *old(player)) is None && old(b).aligned()
            && round_claim_goes_through(round_id, owner, *session, inputs, *old(o), *old(b), *old(player), *old(pool), *old(metadata), *old(war), *old(uwb), *old(q)),
        r matches Ok(c) ==> exists|p1: PlayerData, p2: PlayerData, p3: PlayerData| #[trigger] claim_effects(round_id, owner, *session,
            inputs, c, *old(o), *final(o), *old(b), *final(b), *old(player), p1, p2, p3, *final(player), *old(pool), *final(pool),
            *old(metadata), *final(metadata), *old(war), *final(war), *old(uwb), *final(uwb), *old(q), *final(q)),
{
    if session.stage != 2 {
        return Err(ErrorCode::InvalidStage);
    }
    if round_id != b.round_id || round_id != session.round_id {
        return Err(ErrorCode::InvalidRound);
    }
    if player.owner != owner || b.owner != owner {
        return Err(ErrorCode::InvalidOwner);
    }
    let (sol_reward, dbtc_reward) = match calculate_round_rewards(b, session, o) {
        Ok(v) => v,
        Err(e) => {
            proof {
                if old(b).aligned() {
                    lemma_claim_stops_at_fold(round_id, owner, *session, inputs, *old(o), *old(b), *old(player), *old(pool), *old(metadata), *old(war), *old(uwb), *old(q), e);
                }
            }
            return Err(e);
        },
    };
    let claim_won = sol_reward > 0 || dbtc_reward > 0;
    let mutation_type = if claim_won && b.mutation_type == 0 {
        match build_round_claim_mutation_roll(b, session, o) {
            Err(e) => {
                proof {
                    lemma_claim_stops_at_roll_plan(round_id, owner, *session, inputs, *old(o), *old(b), *old(player), *old(pool), *old(metadata), *old(war), *old(uwb), *old(q), sol_reward, dbtc_reward);
                }
                return Err(e);
            },
            Ok(Some(roll)) => {
                let t = match roll_claim_mutation(b.gameplay_hashbeast, player, inputs.rpg_progression, roll.stake, inputs.outcome) {
                    Ok(t) => t,
                    Err(e) => {
                        proof {
                            lemma_claim_stops_at_roll(round_id, owner, *session, inputs, *old(o), *old(b), *old(player), *old(pool), *old(metadata), *old(war), *old(uwb), *old(q), sol_reward, dbtc_reward, roll, *player, e);
                        }
                        return Err(e);
                    },
                };
                b.mutation_type = t;
                record_round_claim_mutation(o, roll.faction_id as usize, t);
                t
            },
            Ok(None) => 0,
        }
    } else {
        b.mutation_type
    };
    let ghost o1 = *o;
    let ghost b1 = *b;
    let ghost p1 = *player;
    let ghost pool0 = *pool;
    assert(claim_mutation_step(claim_won, *old(b), *session, *old(o), inputs, mutation_type, o1, b1, *old(player), p1));
    let hodl_bonus = match add_to_total_claimable(pool, player, dbtc_reward) {
        Ok(v) => v,
        Err(e) => {
            proof {
                lemma_claim_stops_at_credit(round_id, owner, *session, inputs, *old(o), *old(b), *old(player), *old(pool), *old(metadata), *old(war), *old(uwb), *old(q), sol_reward, dbtc_reward, mutation_type, o1, b1, p1, *pool, *player, e);
            }
            return Err(e);
        },
    };
    let ghost p2 = *player;
    let ghost pool1 = *pool;
    let accum_pct = mutation_accum_pct(mutation_type);
    let accumulated_add: u64 = if dbtc_reward > 0 {
        proof {
            assert(mul_div_spec(dbtc_reward as int, accum_pct as int, 1000) <= dbtc_reward) by (nonlinear_arith)
                requires
                    accum_pct <= 69,
            ;
        }
        let wide = match mul_div(dbtc_reward, accum_pct, 1000) {
            Ok(v) => v,
            Err(e) => return Err(e),
        };
        wide as u64
    } else {
        0
    };
    assert(accumulated_add == (if dbtc_reward > 0 { mul_div_spec(dbtc_reward as int, mutation_accum_spec(mutation_type), 1000) } else { 0 }) as u64);
    match sync_claim_hashbeast_state(b.gameplay_hashbeast, player, metadata, accumulated_add, claim_won) {
        Ok(()) => {},
        Err(e) => {
            proof {
                lemma_claim_stops_at_sync(round_id, owner, *session, inputs, *old(o), *old(b), *old(player), *old(pool), *old(metadata), *old(war), *old(uwb), *old(q), sol_reward, dbtc_reward, mutation_type, o1, b1, p1, pool1, p2, hodl_bonus, *metadata, e);
            }
            return Err(e);
        },
    }
    let ghost md1 = *metadata;
    match apply_mutation_bonus_score(mutation_type, b, o.winning_faction_id, session.war_id_when_played, war, uwb, player, owner) {
        Ok(()) => {},
        Err(e) => {
            proof {
                lemma_claim_stops_at_bonus(round_id, owner, *session, inputs, *old(o), *old(b), *old(player), *old(pool), *old(metadata), *old(war), *old(uwb), *old(q), sol_reward, dbtc_reward, mutation_type, o1, b1, p1, pool1, p2, hodl_bonus, md1, *war, *uwb,
                    *player, e);
            }
            return Err(e);
        },
    }
    let ghost war1 = *war;
    let ghost uwb1 = *uwb;
    let ghost p3 = *player;
    let loser_roll = match maybe_run_loser_lootbox_roll(claim_won, b, player, q, inputs.reservation, inputs.loser_threshold_bps,
        &o.entropy_hash, owner, round_id) {
        Ok(v) => v,
        Err(e) => {
            proof {
                lemma_claim_stops_at_loser_roll(round_id, owner, *session, inputs, *old(o), *old(b), *old(player), *old(pool), *old(metadata), *old(war), *old(uwb), *old(q), sol_reward, dbtc_reward, mutation_type, o1, b1, p1, pool1, p2, hodl_bonus, md1, war1,
                    uwb1, p3, *q, e);
            }
            return Err(e);
        },
    };
    let pending = match player.pending_round_claims.checked_sub(1) {
        Some(p) => p,
        None => {
            proof {
                lemma_claim_stops_without_pending(round_id, owner, *session, inputs, *old(o), *old(b), *old(player), *old(pool), *old(metadata), *old(war), *old(uwb), *old(q), sol_reward, dbtc_reward, mutation_type, o1, b1, p1, pool1, p2, hodl_bonus, md1,
                    war1, uwb1, p3, *q, loser_roll);
            }
            return Err(ErrorCode::ArithmeticOverflow);
        },
    };
    player.pending_round_claims = pending;
    let claim = RoundClaim { sol_reward, dbtc_reward, mutation_type, hodl_bonus, accumulated_add, loser_roll };
    proof {
        assert(claim_effects(round_id, owner, *session, inputs, claim, *old(o), *o, *old(b), *b, *old(player), p1, p2, p3, *player,
            *old(pool), *pool, *old(metadata), *metadata, *old(war), *war, *old(uwb), *uwb, *old(q), *q));
        lemma_claim_goes_through(round_id, owner, *session, inputs, claim, *old(o), *o, *old(b), *b, *old(player), p1, p2, p3, *player,
            *old(pool), *pool, *old(metadata), *metadata, *old(war), *war, *old(uwb), *uwb, *old(q), *q);
    }
    Ok(claim)
}

/// The per-mille share of a claim's degenBTC that accrues on the HashBeast,
/// by mutation type.
pub open spec fn mutation_accum_spec(t: u8) -> int {
    if t == 1 {
        69
    } else if t == 2 {
        42
    } else if t == 3 {
        30
    } else {
        10
    }
}

/// Claims the rewards of an autominer's bet of a settled round (the keeper
/// may call it): the round claim as for the owner, then the SOL side of the
/// autominer, which parks the payable winnings for a reload or pays them to
/// the owner; `prize_available` is what the prize pot holds above its rent
/// floor. The claim goes through exactly when the round claim does and the
/// vault can settle it.
pub fn claim_autominer_rewards(
    round_id: u64,
    vault: &mut AutominerVault,
    session: &GameSession,
    o: &mut RoundResult,
    b: &mut UserGameBet,
    player: &mut PlayerData,
    pool: &mut HodlPool,
    metadata: &mut Option<(Key, HashBeastMetadata)>,
    war: &mut WarScores,
    uwb: &mut UserFactionWarBets,
    q: &mut LootboxQueue,
    inputs: ClaimInputs,
    prize_available: u64,
) -> (r: Result<(RoundClaim, AutominerPayout), ErrorCode>)
    requires
        session.wf(),
        old(o).wf(),
        old(war).wf(),
        old(q).wf(),
    ensures
        round_claim_error(round_id, old(vault).owner, *session, *old(b), *old(player)) matches Some(e)
            ==> r == Err::<(RoundClaim, AutominerPayout), ErrorCode>(e),
        round_claim_error(round_id, old(vault).owner, *session, *old(b), *old(player)) is None && !old(b).aligned()
            ==> r == Err::<(RoundClaim, AutominerPayout), ErrorCode>(if !same_lengths(*old(b)) { ErrorCode::InvalidState } else { ErrorCode::InvalidParameters }),
        round_claim_error(round_id, old(vault).owner, *session, *old(b), *old(player)) is None && old(b).aligned()
            && rewards_fold(*old(b), *old(o), session.wgtd_points_bets_by_faction_direction@, old(b).faction_ids.len() as int) is Err ==> r == Err::<(RoundClaim, AutominerPayout), ErrorCode>(rewards_fold(*old(b), *old(o), session.wgtd_points_bets_by_faction_direction@, old(b).faction_ids.len() as int)->Err_0),
        r is Ok <==> round_claim_error(round_id, old(vault).owner, *session, *old(b), *old(player)) is None && old(b).aligned()
            && round_claim_goes_through(round_id, old(vault).owner, *session, inputs, *old(o), *old(b), *old(player), *old(pool),
                *old(metadata), *old(war), *old(uwb), *old(q))
            && autominer_settle_ok(*old(vault), (rewards_fold(*old(b), *old(o), session.wgtd_points_bets_by_faction_direction@, old(b).faction_ids.len() as int)->Ok_0.0) as u64, prize_available),
        r matches Ok((c, p)) ==> round_claimed(round_id, old(vault).owner, *session, *old(o), *old(b), *final(b), *old(player),
            *final(player), *old(pool), *final(pool), Ok(c))
            && autominer_settled(*old(vault), *final(vault), c.sol_reward, prize_available, Ok(p)),
        r matches Ok((c, p)) ==> exists|p1: PlayerData, p2: PlayerData, p3: PlayerData| #[trigger] claim_effects(round_id,
            old(vault).owner, *session, inputs, c, *old(o), *final(o), *old(b), *final(b), *old(player), p1, p2, p3, *final(player),
            *old(pool), *final(pool), *old(metadata), *final(metadata), *old(war), *final(war), *old(uwb), *final(uwb), *old(q), *final(q)),
{
    let owner = vault.owner;
    let c = claim_round_rewards(round_id, owner, session, o, b, player, pool, metadata, war, uwb, q, inputs)?;
    let p = settle_autominer_claim(vault, c.sol_reward, prize_available)?;
    Ok((c, p))
}

/// What the prize-pot vault can pay of `amount` while staying rent-exempt:
/// the vault must hold its rent floor, and the payout is capped at what
/// lies above it.
pub fn prize_pot_payout(amount: u64, vault_balance: u64, rent_floor: u64) -> (r: Result<u64, ErrorCode>)
    ensures
        vault_balance < rent_floor ==> r == Err::<u64, ErrorCode>(ErrorCode::InsufficientFunds),
        vault_balance >= rent_floor ==> r == Ok::<u64, ErrorCode>(
            if amount <= vault_balance - rent_floor { amount } else { (vault_balance - rent_floor) as u64 },
        ),
{
    if vault_balance < rent_floor {
        return Err(ErrorCode::InsufficientFunds);
    }
    let max_payable = vault_balance - rent_floor;
    if amount > max_payable {
        Ok(max_payable)
    } else {
        Ok(amount)
    }
}

} // verus!
