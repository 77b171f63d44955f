//! degenBTC transfer-tax accounting: the tax configuration, the split of
//! the tax withdrawn from the mint, and the release of a settled faction
//! war's treasury share to one faction's stakers.
use vstd::prelude::*;

use crate::constants::{BASIS_POINTS_DENOMINATOR, INDEX_PRECISION, LUCKY_DRAW_BPS, M_HUNDRED, NUM_FACTIONS, RANK_WEIGHTED_BPS};
use crate::errors::ErrorCode;
use crate::math::{mul_div, mul_div_spec, proportional_post_fee_share};
use crate::staking::{get_token2022_transfer_fee_info, mint_withheld_amount, mint_withheld_spec, transfer_fee_info_spec};
use crate::state::{derived_address, find_program_address, game_program, program_id, FactionState, Key};
use vstd::utf8::encode_utf8;

verus! {

/// Seed of a faction's state account, derived from the faction's name.
pub const FACTION_STATE_SEED: [u8; 13] = [102, 97, 99, 116, 105, 111, 110, 95, 115, 116, 97, 116, 101];

/// How the degenBTC transfer tax is split: `treasury_pct` to the faction
/// treasury, `burn_pct` burned, the rest back to the mining vault.
#[derive(Debug, Clone, Copy, PartialEq, Eq, Structural)]
pub struct TaxConfig {
    pub bump: u8,
    pub treasury_pct: u8,
    pub burn_pct: u8,
    pub total_burnt: u64,
    pub unassigned_war_treasury_amount: u64,
    pub withdraw_withheld_authority: Key,
    pub faction_treasury_vault: Key,
}

/// Whether the treasury and burn percentages leave a non-negative rest.
pub open spec fn tax_split_valid(treasury_pct: u8, burn_pct: u8) -> bool {
    treasury_pct + burn_pct <= M_HUNDRED
}

/// Refuses a treasury and burn split above 100%.
pub fn validate_tax_split(treasury_pct: u8, burn_pct: u8) -> (r: Result<(), ErrorCode>)
    ensures
        r == (if tax_split_valid(treasury_pct, burn_pct) { Ok::<(), ErrorCode>(()) } else { Err(ErrorCode::InvalidAmount) }),
{
    let total: u64 = treasury_pct as u64 + burn_pct as u64;
    if total <= M_HUNDRED {
        Ok(())
    } else {
        Err(ErrorCode::InvalidAmount)
    }
}

/// A fresh tax configuration, with nothing burnt or queued yet.
pub fn initialize_tax_config(
    treasury_pct: u8,
    burn_pct: u8,
    bump: u8,
    withdraw_withheld_authority: Key,
    faction_treasury_vault: Key,
) -> (r: Result<TaxConfig, ErrorCode>)
    ensures
        !tax_split_valid(treasury_pct, burn_pct) ==> r == Err::<TaxConfig, ErrorCode>(ErrorCode::InvalidAmount),
        tax_split_valid(treasury_pct, burn_pct) ==> r == Ok::<TaxConfig, ErrorCode>(TaxConfig {
            bump,
            treasury_pct,
            burn_pct,
            total_burnt: 0,
            unassigned_war_treasury_amount: 0,
            withdraw_withheld_authority,
            faction_treasury_vault,
        }),
{
    validate_tax_split(treasury_pct, burn_pct)?;
    Ok(TaxConfig {
        bump,
        treasury_pct,
        burn_pct,
        total_burnt: 0,
        unassigned_war_treasury_amount: 0,
        withdraw_withheld_authority,
        faction_treasury_vault,
    })
}

/// Sets new treasury and burn percentages.
pub fn update_tax_config(cfg: &mut TaxConfig, treasury_pct: u8, burn_pct: u8) -> (r: Result<(), ErrorCode>)
    ensures
        !tax_split_valid(treasury_pct, burn_pct) ==> r == Err::<(), ErrorCode>(ErrorCode::InvalidAmount) && *final(cfg) == *old(cfg),
        tax_split_valid(treasury_pct, burn_pct) ==> r is Ok && *final(cfg) == (TaxConfig { treasury_pct, burn_pct, ..*old(cfg) }),
{
    validate_tax_split(treasury_pct, burn_pct)?;
    cfg.treasury_pct = treasury_pct;
    cfg.burn_pct = burn_pct;
    Ok(())
}

/// What a transfer of `amount` of the degenBTC mint delivers at `epoch`
/// (nothing for nothing).
pub open spec fn post_fee_spec(mint_data: Seq<u8>, amount: u64, epoch: u64) -> Result<u64, ErrorCode> {
    if amount == 0 {
        Ok(0)
    } else {
        match transfer_fee_info_spec(mint_data, amount, epoch) {
            Ok(info) => Ok(info.post_fee_amount),
            Err(e) => Err(e),
        }
    }
}

/// What a transfer of `amount` delivers after the mint's transfer fee.
pub fn post_fee_amount(mint_data: &[u8], amount: u64, epoch: u64) -> (r: Result<u64, ErrorCode>)
    ensures
        r == post_fee_spec(mint_data@, amount, epoch),
        r matches Ok(v) ==> v <= amount,
{
    if amount == 0 {
        return Ok(0);
    }
    match get_token2022_transfer_fee_info(mint_data, amount, epoch) {
        Ok(info) => Ok(info.post_fee_amount),
        Err(e) => Err(e),
    }
}

/// The part of a faction war that takes the treasury tax: its id, its stage
/// (0 while open, 1 once settled) and the tax attributed to it so far.
#[derive(Debug, Clone, Copy, PartialEq, Eq, Structural)]
pub struct WarTreasury {
    pub war_id: u64,
    pub stage: u8,
    pub faction_count: u8,
    pub treasury_reward_base_amount: u64,
}

/// One tax distribution: what was withdrawn from the mint, the faction
/// treasury part, the burned part and the part back to the vault, and what
/// the treasury transfer delivered and where it was credited.
#[derive(Debug, Clone, Copy, PartialEq, Eq, Structural)]
pub struct TaxSplit {
    pub total: u64,
    pub treasury_amount: u64,
    pub burn_amount: u64,
    pub vault_return: u64,
    pub treasury_credit: u64,
    pub credited_to_active_war: bool,
}

/// The treasury and burn parts of `withheld` under `cfg`.
pub open spec fn tax_parts(withheld: u64, cfg: TaxConfig) -> (int, int) {
    (mul_div_spec(withheld as int, cfg.treasury_pct as int, M_HUNDRED as int),
     mul_div_spec(withheld as int, cfg.burn_pct as int, M_HUNDRED as int))
}

/// Whether a distribution of `withheld` tax goes through: the war is the
/// current one, both parts fit and leave a rest, the treasury transfer's
/// delivered amount is known, and the counters it lands in take it.
pub open spec fn tax_distribution_ok(
    cfg: TaxConfig,
    war: WarTreasury,
    current_war_id: u64,
    war_id: u64,
    withheld: u64,
    mint_data: Seq<u8>,
    epoch: u64,
) -> bool {
    let (t, b) = tax_parts(withheld, cfg);
    &&& current_war_id == war_id
    &&& t <= u64::MAX
    &&& b <= u64::MAX
    &&& t + b <= withheld
    &&& post_fee_spec(mint_data, t as u64, epoch) is Ok
    &&& cfg.total_burnt + b <= u64::MAX
    &&& {
        let credit = post_fee_spec(mint_data, t as u64, epoch)->Ok_0;
        credit > 0 ==> if war.war_id == current_war_id && war.stage == 0 {
            war.treasury_reward_base_amount + credit <= u64::MAX
        } else {
            cfg.unassigned_war_treasury_amount + credit <= u64::MAX
        }
    }
}

/// Splits the tax withheld on the degenBTC mint (read from its data) into
/// the faction treasury, burn and vault parts. The delivered treasury amount
/// is attributed to the open current war, or queued for the next one; the
/// burned amount is added to the running total. Nothing happens when no tax
/// is withheld.
pub fn internal_crank_distribute_tax(
    cfg: &mut TaxConfig,
    war: &mut WarTreasury,
    current_war_id: u64,
    war_id: u64,
    mint_data: &[u8],
    epoch: u64,
) -> (r: Result<Option<TaxSplit>, ErrorCode>)
    ensures
        mint_withheld_spec(mint_data@) matches Err(e) ==> r == Err::<Option<TaxSplit>, ErrorCode>(e),
        mint_withheld_spec(mint_data@) == Ok::<u64, ErrorCode>(0) ==> r == Ok::<Option<TaxSplit>, ErrorCode>(None)
            && *final(cfg) == *old(cfg) && *final(war) == *old(war),
        mint_withheld_spec(mint_data@) matches Ok(w) && w > 0 && current_war_id != war_id
            ==> r == Err::<Option<TaxSplit>, ErrorCode>(ErrorCode::InvalidParameters),
        mint_withheld_spec(mint_data@) is Ok && mint_withheld_spec(mint_data@)->Ok_0 > 0
            ==> (r is Ok <==> tax_distribution_ok(*old(cfg), *old(war), current_war_id, war_id, mint_withheld_spec(mint_data@)->Ok_0,
                mint_data@, epoch)),
        r matches Ok(Some(split)) ==> {
            let (t, b) = tax_parts(split.total, *old(cfg));
            let active = old(war).war_id == current_war_id && old(war).stage == 0;
            &&& mint_withheld_spec(mint_data@) == Ok::<u64, ErrorCode>(split.total)
            &&& split.total > 0
            &&& split.treasury_amount == t
            &&& split.burn_amount == b
            &&& split.treasury_amount + split.burn_amount + split.vault_return == split.total
            &&& post_fee_spec(mint_data@, split.treasury_amount, epoch) == Ok::<u64, ErrorCode>(split.treasury_credit)
            &&& split.treasury_credit <= split.treasury_amount
            &&& split.credited_to_active_war == (split.treasury_credit > 0 && active)
            &&& final(cfg).total_burnt == old(cfg).total_burnt + split.burn_amount
            &&& final(war).treasury_reward_base_amount == old(war).treasury_reward_base_amount
                + (if split.credited_to_active_war { split.treasury_credit } else { 0 })
            &&& final(cfg).unassigned_war_treasury_amount == old(cfg).unassigned_war_treasury_amount
                + (if split.treasury_credit > 0 && !active { split.treasury_credit } else { 0 })
            &&& *final(cfg) == (TaxConfig {
                total_burnt: final(cfg).total_burnt,
                unassigned_war_treasury_amount: final(cfg).unassigned_war_treasury_amount,
                ..*old(cfg)
            })
            &&& *final(war) == (WarTreasury { treasury_reward_base_amount: final(war).treasury_reward_base_amount, ..*old(war) })
        },
{
    let withheld = mint_withheld_amount(mint_data)?;
    if withheld == 0 {
        return Ok(None);
    }
    if current_war_id != war_id {
        return Err(ErrorCode::InvalidParameters);
    }
    let t_wide = mul_div(withheld, cfg.treasury_pct as u64, M_HUNDRED)?;
    if t_wide > u64::MAX as u128 {
        return Err(ErrorCode::ArithmeticOverflow);
    }
    let treasury_amount = t_wide as u64;
    let b_wide = mul_div(withheld, cfg.burn_pct as u64, M_HUNDRED)?;
    if b_wide > u64::MAX as u128 {
        return Err(ErrorCode::ArithmeticOverflow);
    }
    let burn_amount = b_wide as u64;
    if treasury_amount > withheld || burn_amount > withheld - treasury_amount {
        return Err(ErrorCode::ArithmeticOverflow);
    }
    let vault_return = withheld - treasury_amount - burn_amount;
    let credit = post_fee_amount(mint_data, treasury_amount, epoch)?;
    let mut total_burnt = cfg.total_burnt;
    if burn_amount > 0 {
        total_burnt = match total_burnt.checked_add(burn_amount) {
            Some(v) => v,
            None => return Err(ErrorCode::ArithmeticOverflow),
        };
    }
    let mut credited_to_active_war = false;
    if credit > 0 {
        if war.war_id == current_war_id && war.stage == 0 {
            let base = match war.treasury_reward_base_amount.checked_add(credit) {
                Some(v) => v,
                None => return Err(ErrorCode::ArithmeticOverflow),
            };
            war.treasury_reward_base_amount = base;
            credited_to_active_war = true;
        } else {
            let queued = match cfg.unassigned_war_treasury_amount.checked_add(credit) {
                Some(v) => v,
                None => return Err(ErrorCode::ArithmeticOverflow),
            };
            cfg.unassigned_war_treasury_amount = queued;
        }
    }
    cfg.total_burnt = total_burnt;
    Ok(Some(TaxSplit {
        total: withheld,
        treasury_amount,
        burn_amount,
        vault_return,
        treasury_credit: credit,
        credited_to_active_war,
    }))
}

/// Every tax distribution accounts for each withheld token exactly once:
/// treasury, burn and vault parts add up to what was withdrawn, and a valid
/// configuration always leaves a rest.
pub proof fn lemma_tax_split_conserves(withheld: u64, cfg: TaxConfig)
    requires
        tax_split_valid(cfg.treasury_pct, cfg.burn_pct),
    ensures
        ({
            let (t, b) = tax_parts(withheld, cfg);
            &&& 0 <= t && 0 <= b
            &&& t + b <= withheld
            &&& t + b + (withheld - t - b) == withheld
        }),
{
    let w = withheld as int;
    let tp = cfg.treasury_pct as int;
    let bp = cfg.burn_pct as int;
    assert(w * tp / 100 + w * bp / 100 <= w) by (nonlinear_arith)
        requires
            0 <= w,
            0 <= tp,
            0 <= bp,
            tp + bp <= 100,
    {
        assert(w * tp / 100 + w * bp / 100 <= (w * tp + w * bp) / 100);
        assert(w * tp + w * bp == w * (tp + bp));
        assert(w * (tp + bp) <= w * 100);
        assert((w * (tp + bp)) / 100 <= (w * 100) / 100);
    }
    assert(w * tp / 100 >= 0 && w * bp / 100 >= 0) by (nonlinear_arith)
        requires
            0 <= w,
            0 <= tp,
            0 <= bp,
    ;
}

/// The rank-weighted reward of the faction at `rank` (0 is first) among
/// `active` factions: the rank pool shared by points `active - rank` out of
/// `1 + 2 + ... + active`.
pub open spec fn rank_reward_spec(base: u64, active: int, rank: int) -> int {
    let pool = base * RANK_WEIGHTED_BPS / BASIS_POINTS_DENOMINATOR as int;
    let total_points = active * (active + 1) / 2;
    if total_points > 0 {
        pool * (active - rank) / total_points
    } else {
        0
    }
}

/// The rank that wins the lucky draw of war `war_id`: one of the ranks from
/// the sixth on, picked by the war id; with six or fewer active factions the
/// range starts at the last rank.
pub open spec fn lucky_rank_spec(active: int, war_id: u64) -> int {
    let last = if active >= 1 { active - 1 } else { 0 };
    let start = if 5 <= last { 5 } else { last };
    let count = if active >= start { active - start } else { 0 };
    if count > 0 {
        start + war_id % (count as u64)
    } else {
        last
    }
}

/// The lucky-draw reward of the faction at `rank`.
pub open spec fn lucky_reward_spec(base: u64, active: int, rank: int, war_id: u64) -> int {
    if rank == lucky_rank_spec(active, war_id) {
        base * LUCKY_DRAW_BPS / BASIS_POINTS_DENOMINATOR as int
    } else {
        0
    }
}

/// The settlement record of a faction war that the treasury claim reads and
/// marks: each faction's final rank, and which factions have claimed.
#[derive(Debug, Clone)]
pub struct WarSettlement {
    pub final_ranks: Vec<u8>,
    pub treasury_claimed_bitmap: u16,
}

/// One faction's treasury claim: its rank, the pre-fee reward, what its
/// degenBTC and LP stakers are credited, what is left unassigned (no
/// stakers), the amount moved out of the treasury and what it delivered.
#[derive(Debug, Clone, Copy, PartialEq, Eq, Structural)]
pub struct TreasuryClaim {
    pub rank: u8,
    pub pre_fee_reward: u64,
    pub total_transfer: u64,
    pub reward_amount: u64,
    pub dbtc_share: u64,
    pub lp_share: u64,
    pub reborn_amount: u64,
}

/// The pre-fee split of a faction's reward between its degenBTC and LP
/// stakers: halves when both lanes have hashpower, all to the one that has,
/// and (0, 0) when neither has.
pub open spec fn staker_split(reward: u64, dbtc_active: bool, lp_active: bool) -> (int, int) {
    if dbtc_active && lp_active {
        ((reward / 2) as int, reward - reward / 2)
    } else if dbtc_active {
        (reward as int, 0)
    } else if lp_active {
        (0, reward as int)
    } else {
        (0, 0)
    }
}

/// The first reason, if any, to refuse a faction's treasury claim before
/// any amount is computed: the war is not settled, is another war, the
/// faction is not among the active ones or the supported ones, the faction
/// state is not the canonical one for the faction's name, or the faction
/// already claimed.
pub open spec fn treasury_claim_error(
    war: WarTreasury,
    war_id: u64,
    faction_id: u8,
    faction_state_key: Key,
    supported_factions: Seq<String>,
    claimed_bitmap: u16,
) -> Option<ErrorCode> {
    let active = war.faction_count as int;
    if war.stage != 1 {
        Some(ErrorCode::FactionWarNotSettled)
    } else if war.war_id != war_id {
        Some(ErrorCode::InvalidState)
    } else if faction_id >= active || active > supported_factions.len() {
        Some(ErrorCode::InvalidFactionId)
    } else if derived_address(FACTION_STATE_SEED@, encode_utf8(supported_factions[faction_id as int]@), game_program())
        != Some(faction_state_key) {
        Some(ErrorCode::InvalidAccount)
    } else if faction_id >= NUM_FACTIONS {
        Some(ErrorCode::InvalidFactionId)
    } else if claimed_bitmap & (1u16 << faction_id) != 0 {
        Some(ErrorCode::FactionWarRewardsAlreadyClaimed)
    } else {
        None
    }
}

/// The pre-fee reward of the faction at `rank`: its rank-weighted share
/// plus the lucky draw when it wins it.
pub open spec fn treasury_reward_spec(base: u64, active: int, rank: int, war_id: u64) -> int {
    rank_reward_spec(base, active, rank) + lucky_reward_spec(base, active, rank, war_id)
}

/// Whether a faction's treasury claim, past the checks of
/// `treasury_claim_error`, goes through: its rank is among the active ones,
/// the delivered amount of the transfer is known, the treasury holds the
/// transfer, and the reward indexes take the credit.
pub open spec fn treasury_claim_ok(
    war: WarTreasury,
    war_id: u64,
    rank: int,
    fs: FactionState,
    treasury_balance: u64,
    mint_data: Seq<u8>,
    epoch: u64,
) -> bool {
    let active = war.faction_count as int;
    let reward = treasury_reward_spec(war.treasury_reward_base_amount, active, rank, war_id);
    let (d, l) = staker_split(reward as u64, fs.degenbtc.hashpower > 0, fs.lp.hashpower > 0);
    &&& rank < active
    &&& reward > 0 ==> {
        &&& post_fee_spec(mint_data, reward as u64, epoch) is Ok
        &&& treasury_balance >= reward
        &&& {
            let post = post_fee_spec(mint_data, reward as u64, epoch)->Ok_0;
            let ds = mul_div_spec(post as int, d, reward);
            let ls = mul_div_spec(post as int, l, reward);
            &&& (ds > 0 && fs.degenbtc.hashpower > 0) ==> fs.degenbtc.dbtc_reward_index
                + mul_div_spec(ds, INDEX_PRECISION as int, fs.degenbtc.hashpower as int) <= u128::MAX
            &&& (ls > 0 && fs.lp.hashpower > 0) ==> fs.lp.dbtc_reward_index
                + mul_div_spec(ls, INDEX_PRECISION as int, fs.lp.hashpower as int) <= u128::MAX
        }
    }
}

proof fn lemma_reward_fits(base: u64, active: int, rank: int, war_id: u64)
    requires
        0 <= rank < active,
    ensures
        0 <= rank_reward_spec(base, active, rank),
        0 <= treasury_reward_spec(base, active, rank, war_id) <= base,
{
    let b = base as int;
    let pool = b * 8_000 / 10_000;
    let total = active * (active + 1) / 2;
    let points = active - rank;
    assert(0 <= pool) by (nonlinear_arith)
        requires
            b >= 0,
            pool == b * 8_000 / 10_000,
    ;
    assert(active <= total) by (nonlinear_arith)
        requires
            active >= 1,
            total == active * (active + 1) / 2,
    ;
    assert(0 <= pool * points / total <= pool) by (nonlinear_arith)
        requires
            0 <= pool,
            1 <= points <= total,
    {
        assert(pool * points <= pool * total);
        assert(pool * points / total <= pool * total / total);
    }
    assert(pool + b * 2_000 / 10_000 <= b) by (nonlinear_arith)
        requires
            b >= 0,
            pool == b * 8_000 / 10_000,
    ;
    assert(b * 2_000 / 10_000 >= 0) by (nonlinear_arith)
        requires
            b >= 0,
    ;
}

proof fn lemma_shares_fit(post: int, d: int, l: int, total: int)
    requires
        0 <= post,
        0 <= d,
        0 <= l,
        d + l <= total,
        0 < total,
    ensures
        0 <= post * d / total,
        0 <= post * l / total,
        post * d / total + post * l / total <= post,
{
    assert(post * d / total + post * l / total <= post) by (nonlinear_arith)
        requires
            0 <= post,
            0 <= d,
            0 <= l,
            d + l <= total,
            0 < total,
    {
        assert(post * d / total + post * l / total <= (post * d + post * l) / total);
        assert(post * d + post * l == post * (d + l));
        assert(post * (d + l) <= post * total);
        assert(post * (d + l) / total <= post * total / total);
    }
    assert(0 <= post * d / total && 0 <= post * l / total) by (nonlinear_arith)
        requires
            0 <= post,
            0 <= d,
            0 <= l,
            0 < total,
    ;
}

/// What a successful treasury claim `c` pays and does to the faction's
/// reward indexes and the war's settlement.
pub open spec fn treasury_claim_paid(war: WarTreasury, war_id: u64, s0: WarSettlement, s1: WarSettlement, fs0: FactionState, fs1: FactionState, mint_data: Seq<u8>, epoch: u64, c: TreasuryClaim) -> bool {
    let fid = fs0.faction_id;
    let active = war.faction_count as int;
    let rank = s0.final_ranks@[fid as int];
    let reward = treasury_reward_spec(war.treasury_reward_base_amount, active, rank as int, war_id);
    let (d, l) = staker_split(reward as u64, fs0.degenbtc.hashpower > 0, fs0.lp.hashpower > 0);
    &&& c.rank == rank
    &&& c.pre_fee_reward == reward
    &&& c.total_transfer == reward
    &&& (reward > 0 ==> post_fee_spec(mint_data, reward as u64, epoch) == Ok::<u64, ErrorCode>(c.reward_amount))
    &&& (reward == 0 ==> c.reward_amount == 0)
    &&& c.dbtc_share == (if reward > 0 { mul_div_spec(c.reward_amount as int, d, reward) } else { 0 })
    &&& c.lp_share == (if reward > 0 { mul_div_spec(c.reward_amount as int, l, reward) } else { 0 })
    &&& c.dbtc_share + c.lp_share + c.reborn_amount == c.reward_amount
    &&& fs1.degenbtc.dbtc_reward_index == fs0.degenbtc.dbtc_reward_index
        + (if c.dbtc_share > 0 && fs0.degenbtc.hashpower > 0 {
            mul_div_spec(c.dbtc_share as int, INDEX_PRECISION as int, fs0.degenbtc.hashpower as int)
        } else { 0 })
    &&& fs1.lp.dbtc_reward_index == fs0.lp.dbtc_reward_index
        + (if c.lp_share > 0 && fs0.lp.hashpower > 0 {
            mul_div_spec(c.lp_share as int, INDEX_PRECISION as int, fs0.lp.hashpower as int)
        } else { 0 })
    &&& fs1 == (FactionState {
        degenbtc: crate::state::FactionLane { dbtc_reward_index: fs1.degenbtc.dbtc_reward_index, ..fs0.degenbtc },
        lp: crate::state::FactionLane { dbtc_reward_index: fs1.lp.dbtc_reward_index, ..fs0.lp },
        ..fs0
    })
    &&& s1.treasury_claimed_bitmap == s0.treasury_claimed_bitmap | (1u16 << fid)
    &&& s1.final_ranks@ == s0.final_ranks@
}

/// Releases one faction's share of a settled war's faction-treasury tax to
/// its stakers: 80% of the war's treasury base by rank points (first place
/// the most, every active faction some), plus 20% to the one lower-ranked
/// faction that wins the lucky draw. The reward is split between the
/// degenBTC and LP stakers (halves when both stake), moved out of the
/// treasury, and the delivered amounts are added to the faction's reward
/// indexes; a faction without stakers leaves it unassigned. The faction is
/// marked as claimed.
#[verifier::rlimit(50)]
pub fn internal_claim_faction_treasury_for_faction_war(
    war: &WarTreasury,
    settlement: &mut WarSettlement,
    fs: &mut FactionState,
    faction_state_key: Key,
    supported_factions: &Vec<String>,
    war_id: u64,
    treasury_balance: u64,
    mint_data: &[u8],
    epoch: u64,
) -> (r: Result<TreasuryClaim, ErrorCode>)
    requires
        old(settlement).final_ranks.len() == NUM_FACTIONS,
    ensures
        treasury_claim_error(*war, war_id, old(fs).faction_id, faction_state_key, supported_factions@, old(settlement).treasury_claimed_bitmap)
            matches Some(e) ==> r == Err::<TreasuryClaim, ErrorCode>(e),
        treasury_claim_error(*war, war_id, old(fs).faction_id, faction_state_key, supported_factions@, old(settlement).treasury_claimed_bitmap) is None
            ==> (r is Ok <==> treasury_claim_ok(*war, war_id, old(settlement).final_ranks@[old(fs).faction_id as int] as int, *old(fs),
                treasury_balance, mint_data@, epoch)),
        treasury_claim_error(*war, war_id, old(fs).faction_id, faction_state_key, supported_factions@, old(settlement).treasury_claimed_bitmap) is None
            && old(settlement).final_ranks@[old(fs).faction_id as int] >= war.faction_count
            ==> r == Err::<TreasuryClaim, ErrorCode>(ErrorCode::InvalidState),
        r is Err ==> *final(fs) == *old(fs) && *final(settlement) == *old(settlement),
        r matches Ok(c) ==> treasury_claim_paid(*war, war_id, *old(settlement), *final(settlement), *old(fs), *final(fs), mint_data@, epoch, c),
{
    let fid = fs.faction_id;
    if war.stage != 1 {
        return Err(ErrorCode::FactionWarNotSettled);
    }
    if war.war_id != war_id {
        return Err(ErrorCode::InvalidState);
    }
    let active = war.faction_count as usize;
    if fid as usize >= active || active > supported_factions.len() {
        return Err(ErrorCode::InvalidFactionId);
    }
    let name = supported_factions[fid as usize].as_str().as_bytes();
    if find_program_address(FACTION_STATE_SEED.as_slice(), name, program_id()) != Some(faction_state_key) {
        return Err(ErrorCode::InvalidAccount);
    }
    if fid as usize >= NUM_FACTIONS {
        return Err(ErrorCode::InvalidFactionId);
    }
    let bit: u16 = 1u16 << fid;
    if settlement.treasury_claimed_bitmap & bit != 0 {
        return Err(ErrorCode::FactionWarRewardsAlreadyClaimed);
    }
    let rank = settlement.final_ranks[fid as usize] as usize;
    if rank >= active {
        return Err(ErrorCode::InvalidState);
    }
    let base = war.treasury_reward_base_amount;
    proof {
        lemma_reward_fits(base, active as int, rank as int, war_id);
    }
    let pool: u128 = (base as u128) * 8_000 / 10_000;
    proof {
        assert((active as int) * (active as int + 1) <= 255 * 256) by (nonlinear_arith)
            requires
                0 <= active <= 255,
        ;
    }
    let total_points: u128 = (active as u128) * (active as u128 + 1) / 2;
    let points: u128 = (active - rank) as u128;
    proof {
        assert(pool * points <= (u64::MAX as int) * 256) by (nonlinear_arith)
            requires
                pool <= u64::MAX,
                points <= 256,
        ;
    }
    let rank_reward: u128 = if total_points > 0 { pool * points / total_points } else { 0 };
    let last: usize = if active >= 1 { active - 1 } else { 0 };
    let start: usize = if 5 <= last { 5 } else { last };
    let count: usize = if active >= start { active - start } else { 0 };
    let lucky_rank: usize = if count > 0 { start + (war_id % (count as u64)) as usize } else { last };
    let lucky_reward: u128 = if rank == lucky_rank { (base as u128) * 2_000 / 10_000 } else { 0 };
    let reward: u64 = (rank_reward + lucky_reward) as u64;
    assert(reward == treasury_reward_spec(base, active as int, rank as int, war_id));
    if reward == 0 {
        settlement.treasury_claimed_bitmap = settlement.treasury_claimed_bitmap | bit;
        return Ok(TreasuryClaim {
            rank: rank as u8,
            pre_fee_reward: 0,
            total_transfer: 0,
            reward_amount: 0,
            dbtc_share: 0,
            lp_share: 0,
            reborn_amount: 0,
        });
    }
    let dbtc_active = fs.degenbtc.hashpower > 0;
    let lp_active = fs.lp.hashpower > 0;
    let (pre_dbtc, pre_lp): (u64, u64) = if dbtc_active && lp_active {
        (reward / 2, reward - reward / 2)
    } else if dbtc_active {
        (reward, 0)
    } else if lp_active {
        (0, reward)
    } else {
        (0, 0)
    };
    let post = post_fee_amount(mint_data, reward, epoch)?;
    proof {
        lemma_shares_fit(post as int, pre_dbtc as int, pre_lp as int, reward as int);
    }
    let dbtc_share = proportional_post_fee_share(post, pre_dbtc, reward)?;
    let lp_share = proportional_post_fee_share(post, pre_lp, reward)?;
    let reborn_amount = post - dbtc_share - lp_share;
    if treasury_balance < reward {
        return Err(ErrorCode::InsufficientFunds);
    }
    let mut dbtc_index = fs.degenbtc.dbtc_reward_index;
    if dbtc_share > 0 && fs.degenbtc.hashpower > 0 {
        let add = mul_div(dbtc_share, INDEX_PRECISION, fs.degenbtc.hashpower)?;
        dbtc_index = match dbtc_index.checked_add(add) {
            Some(v) => v,
            None => return Err(ErrorCode::ArithmeticOverflow),
        };
    }
    let mut lp_index = fs.lp.dbtc_reward_index;
    if lp_share > 0 && fs.lp.hashpower > 0 {
        let add = mul_div(lp_share, INDEX_PRECISION, fs.lp.hashpower)?;
        lp_index = match lp_index.checked_add(add) {
            Some(v) => v,
            None => return Err(ErrorCode::ArithmeticOverflow),
        };
    }
    fs.degenbtc.dbtc_reward_index = dbtc_index;
    fs.lp.dbtc_reward_index = lp_index;
    settlement.treasury_claimed_bitmap = settlement.treasury_claimed_bitmap | bit;
    Ok(TreasuryClaim {
        rank: rank as u8,
        pre_fee_reward: reward,
        total_transfer: reward,
        reward_amount: post,
        dbtc_share,
        lp_share,
        reborn_amount,
    })
}

/// A faction's treasury share of a war is paid once: after a successful
/// claim its bit is set, so every later claim of the same war is refused.
pub proof fn lemma_treasury_claimed_once(bitmap: u16, faction_id: u8)
    requires
        faction_id < 16,
    ensures
        (bitmap | (1u16 << faction_id)) & (1u16 << faction_id) != 0,
{
    assert((bitmap | (1u16 << faction_id)) & (1u16 << faction_id) != 0) by (bit_vector)
        requires
            faction_id < 16,
    ;
}

/// Each faction is paid its treasury share of a war at most once: a claim
/// that passes the checks sets the faction's bit, and with that bit set
/// (whatever other factions claim afterwards) every later claim of the same
/// war for the faction is refused as already claimed.
pub proof fn lemma_treasury_paid_at_most_once(
    war: WarTreasury,
    war_id: u64,
    faction_id: u8,
    faction_state_key: Key,
    supported_factions: Seq<String>,
    bitmap: u16,
    later_claims: u16,
)
    requires
        treasury_claim_error(war, war_id, faction_id, faction_state_key, supported_factions, bitmap) is None,
    ensures
        treasury_claim_error(war, war_id, faction_id, faction_state_key, supported_factions,
            (bitmap | (1u16 << faction_id)) | later_claims) == Some(ErrorCode::FactionWarRewardsAlreadyClaimed),
{
    assert(((bitmap | (1u16 << faction_id)) | later_claims) & (1u16 << faction_id) != 0) by (bit_vector)
        requires
            faction_id < 16,
    ;
}

/// A treasury claim assigns the whole delivered reward to the stakers
/// whenever the faction has any: with degenBTC stakers only, they get all of
/// it; with LP stakers only, those do; with both, the halves leave at most
/// one base unit to rounding. Only a faction without stakers leaves the
/// reward unassigned.
pub proof fn lemma_treasury_reward_goes_to_stakers(
    war: WarTreasury,
    war_id: u64,
    s0: WarSettlement,
    s1: WarSettlement,
    fs0: FactionState,
    fs1: FactionState,
    mint_data: Seq<u8>,
    epoch: u64,
    c: TreasuryClaim,
)
    requires
        treasury_claim_paid(war, war_id, s0, s1, fs0, fs1, mint_data, epoch, c),
    ensures
        fs0.degenbtc.hashpower > 0 && fs0.lp.hashpower == 0 ==> c.dbtc_share == c.reward_amount && c.lp_share == 0 && c.reborn_amount == 0,
        fs0.degenbtc.hashpower == 0 && fs0.lp.hashpower > 0 ==> c.lp_share == c.reward_amount && c.dbtc_share == 0 && c.reborn_amount == 0,
        fs0.degenbtc.hashpower > 0 && fs0.lp.hashpower > 0 ==> c.reborn_amount <= 1,
        fs0.degenbtc.hashpower == 0 && fs0.lp.hashpower == 0 ==> c.reborn_amount == c.reward_amount,
{
    let r = c.pre_fee_reward as int;
    let post = c.reward_amount as int;
    if r > 0 {
        assert(post <= r);
        assert(post * r / r == post) by (nonlinear_arith)
            requires
                r > 0,
        ;
        assert(post * 0 / r == 0) by (nonlinear_arith)
            requires
                r > 0,
        ;
        let h = r / 2;
        assert(post * h / r + post * (r - h) / r >= post - 1) by (nonlinear_arith)
            requires
                r > 0,
                post >= 0,
                h == r / 2,
        {
            assert(post * h / r * r > post * h - r);
            assert(post * (r - h) / r * r > post * (r - h) - r);
            assert((post * h / r + post * (r - h) / r) * r > post * r - 2 * r);
        }
    }
}

/// A better rank never earns a smaller rank-weighted share.
pub proof fn lemma_rank_reward_monotone(base: u64, active: int, r1: int, r2: int)
    requires
        0 <= r1 <= r2 < active,
    ensures
        rank_reward_spec(base, active, r1) >= rank_reward_spec(base, active, r2),
{
    let b = base as int;
    let pool = b * 8_000 / 10_000;
    let total = active * (active + 1) / 2;
    assert(0 <= pool) by (nonlinear_arith)
        requires
            b >= 0,
            pool == b * 8_000 / 10_000,
    ;
    if total > 0 {
        assert(pool * (active - r1) / total >= pool * (active - r2) / total) by (nonlinear_arith)
            requires
                0 <= pool,
                active - r1 >= active - r2 >= 0,
                total > 0,
        {
            assert(pool * (active - r1) >= pool * (active - r2));
        }
    }
}

} // verus!
