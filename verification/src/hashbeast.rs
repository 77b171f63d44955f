//! HashBeasts: the passive staking multiplier, genesis-mint caps and
//! tickets, breeding rules and price split, rebirth, and the HashBeast stake
//! and unstake transitions.
use vstd::prelude::*;

use crate::constants::{
    BASE_MULTIPLIER, BASIS_POINTS_DENOMINATOR, BREED_DBTC_BURN_BPS, INDEX_PRECISION, BREED_FLOOR_MULTIPLIER_BPS,
    BREED_SOL_FEE_RECIPIENT_BPS, BREED_SOL_SHARE_BPS, DBTC_BASE_UNITS, LOOTBOX_QUEUE_SIZE,
    MAX_INVENTORY, MAX_MINT_BATCH, MAX_REBIRTH_COUNT, MAX_STAKED_HASHBEASTS, MAX_TICKET_TYPES,
    NUM_FACTIONS, PASSIVE_HASHBEAST_STAKING_MAX_MULTIPLIER, SWEEP_MIN_ANCHOR_LAMPORTS,
    TICKET_TIER_COUNT,
};
use crate::errors::ErrorCode;
use crate::floor::{push_lootbox, LootboxQueue, RebornEntry, RebornStatus};
use crate::math::{calc_tickets_count, ceil_mul_div_spec, ceil_mul_div_u64, mul_div, mul_div_spec, scale_hashpower_by_multiplier};
use crate::placement::{referral_bps, referrer_account_error, validate_referrer_rewards_account, ReferrerAccount};
use crate::bets::referral_bps_spec;
use crate::staking::{lane_accrual, lane_accrual_ok, update_staking_rewards, LaneKind};
use crate::state::{derived_address, find_program_address, game_program, program_id, FactionLane, FactionState, Key, PlayerData, StakeLane};

verus! {

/// The effective passive multiplier of a raw multiplier sum: the HashBeast
/// part above 1.0x is spread over all staking slots, and the result is
/// capped at 3.0x.
pub open spec fn capped_multiplier_spec(raw: u64) -> int {
    let above = if raw >= BASE_MULTIPLIER { raw - BASE_MULTIPLIER } else { 0 };
    let smoothed = BASE_MULTIPLIER + above / (MAX_STAKED_HASHBEASTS as int);
    if smoothed <= PASSIVE_HASHBEAST_STAKING_MAX_MULTIPLIER {
        smoothed
    } else {
        PASSIVE_HASHBEAST_STAKING_MAX_MULTIPLIER as int
    }
}

pub fn capped_player_multiplier(raw: u64) -> (r: u16)
    ensures
        r == capped_multiplier_spec(raw),
        BASE_MULTIPLIER <= r <= PASSIVE_HASHBEAST_STAKING_MAX_MULTIPLIER,
{
    let above = raw.saturating_sub(BASE_MULTIPLIER as u64);
    let smoothed: u64 = 1000 + above / 3;
    if smoothed <= 3000 {
        smoothed as u16
    } else {
        3000
    }
}

pub proof fn lemma_capped_range(raw: u64)
    ensures
        BASE_MULTIPLIER <= capped_multiplier_spec(raw) <= PASSIVE_HASHBEAST_STAKING_MAX_MULTIPLIER,
{
}

/// Adds a staked HashBeast's multiplier to the raw sum; returns the new raw
/// sum and the effective multiplier.
pub fn add_hashbeast_multiplier(existing_raw: u64, hashbeast_multiplier: u32) -> (r: Result<(u64, u16), ErrorCode>)
    ensures
        existing_raw + hashbeast_multiplier > u64::MAX <==> r == Err::<(u64, u16), ErrorCode>(ErrorCode::ArithmeticOverflow),
        existing_raw + hashbeast_multiplier <= u64::MAX ==> r == Ok::<(u64, u16), ErrorCode>((
            (existing_raw + hashbeast_multiplier) as u64,
            capped_multiplier_spec((existing_raw + hashbeast_multiplier) as u64) as u16,
        )),
{
    let raw = match existing_raw.checked_add(hashbeast_multiplier as u64) {
        Some(v) => v,
        None => return Err(ErrorCode::ArithmeticOverflow),
    };
    Ok((raw, capped_player_multiplier(raw)))
}

/// Removes an unstaked HashBeast's multiplier from the raw sum, never below
/// 1.0x; returns the new raw sum and the effective multiplier.
pub fn remove_hashbeast_multiplier(existing_raw: u64, hashbeast_multiplier: u32) -> (r: Result<(u64, u16), ErrorCode>)
    ensures
        existing_raw < hashbeast_multiplier <==> r == Err::<(u64, u16), ErrorCode>(ErrorCode::InvalidState),
        existing_raw >= hashbeast_multiplier ==> r == Ok::<(u64, u16), ErrorCode>({
            let reduced = (existing_raw - hashbeast_multiplier) as u64;
            let raw = if reduced >= BASE_MULTIPLIER { reduced } else { BASE_MULTIPLIER as u64 };
            (raw, capped_multiplier_spec(raw) as u16)
        }),
{
    if existing_raw < hashbeast_multiplier as u64 {
        return Err(ErrorCode::InvalidState);
    }
    let reduced = existing_raw - hashbeast_multiplier as u64;
    let raw = if reduced >= BASE_MULTIPLIER as u64 {
        reduced
    } else {
        BASE_MULTIPLIER as u64
    };
    Ok((raw, capped_player_multiplier(raw)))
}

/// Staking a HashBeast and unstaking it again restores the raw sum and the
/// effective multiplier exactly, even when the cap was hit in between.
pub proof fn lemma_multiplier_roundtrip(raw: u64, m: u32)
    requires
        raw >= BASE_MULTIPLIER,
        raw + m <= u64::MAX,
    ensures
        ({
            let up = (raw + m) as u64;
            let reduced = (up - m) as u64;
            let back = if reduced >= BASE_MULTIPLIER { reduced } else { BASE_MULTIPLIER as u64 };
            back == raw && capped_multiplier_spec(back) == capped_multiplier_spec(raw)
        }),
{
}

/// Whether two HashBeasts share a known (non-zero) parent.
pub open spec fn shares_known_parent_spec(a_mom: Key, a_dad: Key, b_mom: Key, b_dad: Key) -> bool {
    (!a_mom.is_zero() && (a_mom == b_mom || a_mom == b_dad)) || (!a_dad.is_zero() && (a_dad == b_mom
        || a_dad == b_dad))
}

pub fn shares_known_parent(a: &HashBeastMetadata, b: &HashBeastMetadata) -> (r: bool)
    ensures
        r == shares_known_parent_spec(a.mom, a.dad, b.mom, b.dad),
{
    (!a.mom.is_default() && (a.mom == b.mom || a.mom == b.dad)) || (!a.dad.is_default() && (a.dad == b.mom
        || a.dad == b.dad))
}

/// The rebirth generation of a HashBeast: the larger of its recorded count
/// and the count encoded in its DNA.
pub fn metadata_rebirth_count(recorded: u8, dna_count: u8) -> (r: u8)
    ensures
        r == if recorded >= dna_count { recorded } else { dna_count },
{
    if recorded >= dna_count {
        recorded
    } else {
        dna_count
    }
}

/// Refuses a genesis batch that would take a faction past its cap.
pub fn validate_genesis_faction_cap(st: &GenesisMintState, faction_id: u8, mint_count: u8) -> (r: Result<(), ErrorCode>)
    requires
        st.genesis_mints_by_faction.len() == NUM_FACTIONS,
    ensures
        faction_id >= NUM_FACTIONS ==> r == Err::<(), ErrorCode>(ErrorCode::InvalidFactionId),
        faction_id < NUM_FACTIONS && st.genesis_mints_by_faction@[faction_id as int] + mint_count > u16::MAX
            ==> r == Err::<(), ErrorCode>(ErrorCode::ArithmeticOverflow),
        faction_id < NUM_FACTIONS && st.genesis_mints_by_faction@[faction_id as int] + mint_count <= u16::MAX
            ==> (r is Ok <==> st.genesis_mints_by_faction@[faction_id as int] + mint_count <= st.max_genesis_mints_per_faction),
        r is Err && faction_id < NUM_FACTIONS && st.genesis_mints_by_faction@[faction_id as int] + mint_count <= u16::MAX
            ==> r == Err::<(), ErrorCode>(ErrorCode::InvalidParameters),
{
    if faction_id as usize >= NUM_FACTIONS {
        return Err(ErrorCode::InvalidFactionId);
    }
    let current = st.genesis_mints_by_faction[faction_id as usize];
    let next = match current.checked_add(mint_count as u16) {
        Some(v) => v,
        None => return Err(ErrorCode::ArithmeticOverflow),
    };
    if next <= st.max_genesis_mints_per_faction {
        Ok(())
    } else {
        Err(ErrorCode::InvalidParameters)
    }
}

/// The first slot holding `value`, if any.
pub open spec fn first_index_of(s: Seq<u64>, value: u64) -> Option<int> {
    if s.contains(value) {
        Some(choose|i: int| 0 <= i < s.len() && s[i] == value && forall|j: int| 0 <= j < i ==> s[j] != value)
    } else {
        None
    }
}

/// What crediting the tickets of a `price` paid at tier `tier_index` does to
/// a player's ticket table (`ft`: the tier values held, `ftr`: what remains
/// of each) and returns.
pub open spec fn tickets_added(
    ft0: Seq<u64>,
    ftr0: Seq<u64>,
    ft1: Seq<u64>,
    ftr1: Seq<u64>,
    tier_values: Seq<u64>,
    tier_index: u8,
    price: u64,
    r: Result<u64, ErrorCode>,
) -> bool {
    &&& ft1.len() == ftr1.len()
    &&& (tier_index >= tier_values.len() || tier_values.len() != TICKET_TIER_COUNT ==> r == Err::<u64, ErrorCode>(ErrorCode::InvalidParameters))
    &&& (tier_index < tier_values.len() && tier_values.len() == TICKET_TIER_COUNT ==> {
        let value = tier_values[tier_index as int];
        let count = if value == 0 { 0 } else { price / value };
        match first_index_of(ft0, value) {
            Some(j) => r == Ok::<u64, ErrorCode>(count as u64) && ft1 == ft0
                && ftr1 == ftr0.update(j, (ftr0[j] + count) as u64),
            None => if ft0.len() < MAX_TICKET_TYPES {
                r == Ok::<u64, ErrorCode>(count as u64) && ft1 == ft0.push(value)
                    && ftr1 == ftr0.push(count as u64)
            } else {
                r == Err::<u64, ErrorCode>(ErrorCode::InvalidParameters)
            },
        }
    })
}

/// Credits the tickets a purchase of `price` earns in the chosen tier (one
/// per full tier value): added to the matching ticket slot, or to a new slot
/// while fewer than the maximum kinds are held. Returns the ticket count.
pub fn add_tickets_to_player(
    free_tickets: &mut Vec<u64>,
    free_tickets_remaining: &mut Vec<u64>,
    tier_values: &Vec<u64>,
    tier_index: u8,
    price: u64,
) -> (r: Result<u64, ErrorCode>)
    requires
        old(free_tickets).len() == old(free_tickets_remaining).len(),
        tier_index < tier_values.len() ==> forall|j: int|
            0 <= j < old(free_tickets).len() && #[trigger] old(free_tickets)@[j] == tier_values@[tier_index as int]
                ==> old(free_tickets_remaining)@[j] + (if tier_values@[tier_index as int] == 0 { 0 } else { price / tier_values@[tier_index as int] }) <= u64::MAX,
    ensures
        tickets_added(old(free_tickets)@, old(free_tickets_remaining)@, final(free_tickets)@, final(free_tickets_remaining)@, tier_values@,
            tier_index, price, r),

{
    if tier_index as usize >= tier_values.len() {
        return Err(ErrorCode::InvalidParameters);
    }
    if tier_values.len() != TICKET_TIER_COUNT {
        return Err(ErrorCode::InvalidParameters);
    }
    let value = tier_values[tier_index as usize];
    let count = calc_tickets_count(price, value);
    let n = free_tickets.len();
    let mut i: usize = 0;
    while i < n
        invariant
            tier_index < tier_values.len(),
            tier_values.len() == TICKET_TIER_COUNT,
            value == tier_values@[tier_index as int],
            count == (if value == 0 { 0 } else { price / value }),
            forall|j: int|
                0 <= j < old(free_tickets).len() && #[trigger] old(free_tickets)@[j] == tier_values@[tier_index as int]
                    ==> old(free_tickets_remaining)@[j] + (if tier_values@[tier_index as int] == 0 { 0 } else { price / tier_values@[tier_index as int] }) <= u64::MAX,
            n == free_tickets.len(),
            free_tickets@ == old(free_tickets)@,
            free_tickets_remaining@ == old(free_tickets_remaining)@,
            n == free_tickets_remaining.len(),
            i <= n,
            forall|k: int| 0 <= k < i ==> free_tickets@[k] != value,
        decreases n - i,
    {
        if free_tickets[i] == value {
            proof {
                assert(old(free_tickets)@.contains(value));
                let j = choose|j: int| 0 <= j < old(free_tickets)@.len() && old(free_tickets)@[j] == value
                    && forall|k: int| 0 <= k < j ==> old(free_tickets)@[k] != value;
                assert(j == i) by {
                    if j < i {
                        assert(free_tickets@[j] != value);
                    }
                    if i < j {
                        assert(old(free_tickets)@[i as int] != value);
                    }
                }
            }
            let updated = free_tickets_remaining[i] + count;
            free_tickets_remaining.set(i, updated);
            return Ok(count);
        }
        i += 1;
    }
    if n >= MAX_TICKET_TYPES {
        return Err(ErrorCode::InvalidParameters);
    }
    free_tickets.push(value);
    free_tickets_remaining.push(count);
    Ok(count)
}

/// Replaces a player's old hashpower by the new one in the faction totals.
pub fn update_faction_hashpower(
    total_degenbtc: u64,
    total_lp: u64,
    old_degenbtc: u64,
    new_degenbtc: u64,
    old_lp: u64,
    new_lp: u64,
) -> (r: Result<(u64, u64), ErrorCode>)
    ensures
        total_degenbtc < old_degenbtc ==> r == Err::<(u64, u64), ErrorCode>(ErrorCode::InvalidState),
        total_degenbtc >= old_degenbtc && total_degenbtc - old_degenbtc + new_degenbtc > u64::MAX
            ==> r == Err::<(u64, u64), ErrorCode>(ErrorCode::ArithmeticOverflow),
        total_degenbtc >= old_degenbtc && total_degenbtc - old_degenbtc + new_degenbtc <= u64::MAX && total_lp < old_lp
            ==> r == Err::<(u64, u64), ErrorCode>(ErrorCode::InvalidState),
        total_degenbtc >= old_degenbtc && total_degenbtc - old_degenbtc + new_degenbtc <= u64::MAX && total_lp >= old_lp
            && total_lp - old_lp + new_lp > u64::MAX ==> r == Err::<(u64, u64), ErrorCode>(ErrorCode::ArithmeticOverflow),
        total_degenbtc >= old_degenbtc && total_degenbtc - old_degenbtc + new_degenbtc <= u64::MAX && total_lp >= old_lp
            && total_lp - old_lp + new_lp <= u64::MAX ==> r == Ok::<(u64, u64), ErrorCode>((
            (total_degenbtc - old_degenbtc + new_degenbtc) as u64,
            (total_lp - old_lp + new_lp) as u64,
        )),
{
    if total_degenbtc < old_degenbtc {
        return Err(ErrorCode::InvalidState);
    }
    let d = match (total_degenbtc - old_degenbtc).checked_add(new_degenbtc) {
        Some(v) => v,
        None => return Err(ErrorCode::ArithmeticOverflow),
    };
    if total_lp < old_lp {
        return Err(ErrorCode::InvalidState);
    }
    let l = match (total_lp - old_lp).checked_add(new_lp) {
        Some(v) => v,
        None => return Err(ErrorCode::ArithmeticOverflow),
    };
    Ok((d, l))
}

/// The sum of a sequence of prices.
pub open spec fn sum_prices(s: Seq<u64>) -> int
    decreases s.len(),
{
    if s.len() == 0 {
        0
    } else {
        sum_prices(s.drop_last()) + s.last()
    }
}

/// Whether a genesis batch of `mint_count` is within the per-batch limit
/// and the genesis supply, with the three ticket tiers configured.
pub open spec fn mint_batch_error(genesis_mints: u64, genesis_mint_limit: u64, total_minted: u64, tiers: nat, mint_count: u64) -> Option<ErrorCode> {
    if !(0 < mint_count <= MAX_MINT_BATCH) {
        Some(ErrorCode::InvalidParameters)
    } else if genesis_mints + mint_count > u64::MAX {
        Some(ErrorCode::ArithmeticOverflow)
    } else if genesis_mints + mint_count > genesis_mint_limit {
        Some(ErrorCode::InvalidParameters)
    } else if tiers != TICKET_TIER_COUNT {
        Some(ErrorCode::InvalidParameters)
    } else if total_minted + mint_count > u64::MAX {
        Some(ErrorCode::ArithmeticOverflow)
    } else {
        None
    }
}

/// The total cost of a genesis batch whose successive bonding-curve prices
/// are `prices` (with `total_minted` HashBeasts minted so far), and the
/// tickets each tier would grant for it: `(tier value, tickets)` per tier.
pub fn int_simulate_mint_cost(
    genesis_mints: u64,
    genesis_mint_limit: u64,
    total_minted: u64,
    tier_values: &Vec<u64>,
    prices: &Vec<u64>,
    mint_count: u64,
) -> (r: Result<(u64, Vec<(u64, u64)>), ErrorCode>)
    requires
        prices.len() == mint_count,
    ensures
        mint_batch_error(genesis_mints, genesis_mint_limit, total_minted, tier_values.len() as nat, mint_count) matches Some(e)
            ==> r == Err::<(u64, Vec<(u64, u64)>), ErrorCode>(e),
        mint_batch_error(genesis_mints, genesis_mint_limit, total_minted, tier_values.len() as nat, mint_count) is None
            ==> (r is Ok <==> sum_prices(prices@) <= u64::MAX),
        r is Err && mint_batch_error(genesis_mints, genesis_mint_limit, total_minted, tier_values.len() as nat, mint_count) is None
            ==> r == Err::<(u64, Vec<(u64, u64)>), ErrorCode>(ErrorCode::ArithmeticOverflow),
        r matches Ok((total, tickets)) ==> total == sum_prices(prices@) && tickets.len() == tier_values.len()
            && forall|i: int| 0 <= i < tickets.len() ==> #[trigger] tickets@[i] == (
                tier_values@[i],
                if tier_values@[i] == 0 { 0 } else { (total / tier_values@[i]) as u64 },
            ),
{
    if !(mint_count > 0 && mint_count <= MAX_MINT_BATCH) {
        return Err(ErrorCode::InvalidParameters);
    }
    let after = match genesis_mints.checked_add(mint_count) {
        Some(v) => v,
        None => return Err(ErrorCode::ArithmeticOverflow),
    };
    if after > genesis_mint_limit {
        return Err(ErrorCode::InvalidParameters);
    }
    if tier_values.len() != TICKET_TIER_COUNT {
        return Err(ErrorCode::InvalidParameters);
    }
    if total_minted.checked_add(mint_count).is_none() {
        return Err(ErrorCode::ArithmeticOverflow);
    }
    let mut total: u64 = 0;
    let mut i: usize = 0;
    proof {
        assert forall|k: int| 0 <= k <= prices.len() implies sum_prices(prices@.take(0)) <= sum_prices(#[trigger] prices@.take(k)) by {
            lemma_sum_prices_prefix_le(prices@, 0, k);
        }
    }
    while i < prices.len()
        invariant
            mint_batch_error(genesis_mints, genesis_mint_limit, total_minted, tier_values.len() as nat, mint_count) is None,
            i <= prices.len(),
            total == sum_prices(prices@.take(i as int)),
            forall|k: int| i <= k <= prices.len() ==> sum_prices(prices@.take(i as int)) <= sum_prices(#[trigger] prices@.take(k)),
        decreases prices.len() - i,
    {
        proof {
            assert(prices@.take(i + 1).drop_last() =~= prices@.take(i as int));
        }
        total = match total.checked_add(prices[i]) {
            Some(v) => v,
            None => {
                proof {
                    assert(prices@.take(prices.len() as int) =~= prices@);
                    lemma_sum_prices_prefix_le(prices@, i + 1, prices.len() as int);
                }
                return Err(ErrorCode::ArithmeticOverflow);
            },
        };
        i += 1;
        proof {
            assert forall|k: int| i <= k <= prices.len() implies sum_prices(prices@.take(i as int)) <= sum_prices(#[trigger] prices@.take(k)) by {
                lemma_sum_prices_prefix_le(prices@, i as int, k);
            }
        }
    }
    proof {
        assert(prices@.take(prices.len() as int) =~= prices@);
    }
    let mut tickets: Vec<(u64, u64)> = Vec::new();
    let mut t: usize = 0;
    while t < tier_values.len()
        invariant
            t <= tier_values.len(),
            tickets.len() == t,
            forall|j: int| 0 <= j < t ==> #[trigger] tickets@[j] == (
                tier_values@[j],
                if tier_values@[j] == 0 { 0 } else { (total / tier_values@[j]) as u64 },
            ),
        decreases tier_values.len() - t,
    {
        let value = tier_values[t];
        tickets.push((value, calc_tickets_count(total, value)));
        t += 1;
    }
    Ok((total, tickets))
}

pub proof fn lemma_sum_prices_prefix_le(s: Seq<u64>, i: int, k: int)
    requires
        0 <= i <= k <= s.len(),
    ensures
        sum_prices(s.take(i)) <= sum_prices(s.take(k)),
    decreases k - i,
{
    if i < k {
        lemma_sum_prices_prefix_le(s, i, k - 1);
        assert(s.take(k).drop_last() =~= s.take(k - 1));
    }
}


/// A HashBeast's game record.
#[derive(Debug, Clone, Copy)]
pub struct HashBeastMetadata {
    pub mint: Key,
    pub mom: Key,
    pub dad: Key,
    pub breed_count: u8,
    pub rebirth_count: u8,
    pub cooldown_end: i64,
    pub accumulated_val: u64,
    pub dna: [u8; 32],
    pub incubated_player_data: Key,
    pub multiplier: u32,
    pub faction_id: u8,
    pub last_update_ts: i64,
    pub created_at: i64,
    pub xp: u64,
    pub bump: u8,
}

/// Everything a breeding request is checked against besides the parents.
#[derive(Debug, Clone, Copy)]
pub struct BreedContext {
    pub is_paused: bool,
    pub breeding_allowed: bool,
    pub genesis_mints: u64,
    pub genesis_mint_limit: u64,
    pub mom_asset: Key,
    pub dad_asset: Key,
    pub user: Key,
    pub player_owner: Key,
    pub mom_owner: Key,
    pub dad_owner: Key,
    pub mom_dna_rebirth_count: u8,
    pub dad_dna_rebirth_count: u8,
    pub max_breed_count: u8,
    pub now: i64,
}

pub open spec fn max_u8(a: u8, b: u8) -> u8 {
    if a >= b {
        a
    } else {
        b
    }
}

/// The first reason, if any, to refuse breeding `mom` with `dad`, in the
/// order the rules are checked: the game, two distinct assets, breeding
/// open after the genesis sell-out, the breeder's account, parents not
/// staked, one country, no close lineage, one rebirth generation, breeds
/// left, cooldowns over, and both parents the breeder's.
pub open spec fn breed_pair_error(c: BreedContext, mom: HashBeastMetadata, dad: HashBeastMetadata) -> Option<ErrorCode> {
    if c.is_paused {
        Some(ErrorCode::GamePaused)
    } else if c.mom_asset == c.dad_asset {
        Some(ErrorCode::InvalidParameters)
    } else if !c.breeding_allowed {
        Some(ErrorCode::BreedingNotAllowed)
    } else if c.genesis_mints < c.genesis_mint_limit {
        Some(ErrorCode::GenesisNotSoldOut)
    } else if c.player_owner != c.user {
        Some(ErrorCode::Unauthorized)
    } else if !mom.incubated_player_data.is_zero() || !dad.incubated_player_data.is_zero() {
        Some(ErrorCode::HashBeastAlreadyAtGuard)
    } else if mom.faction_id != dad.faction_id {
        Some(ErrorCode::InvalidFactionId)
    } else if mom.mint == dad.mint || mom.mom == dad.mint || mom.dad == dad.mint || dad.mom == mom.mint
        || dad.dad == mom.mint || shares_known_parent_spec(mom.mom, mom.dad, dad.mom, dad.dad) {
        Some(ErrorCode::InvalidBreedingPair)
    } else if max_u8(mom.rebirth_count, c.mom_dna_rebirth_count) != max_u8(dad.rebirth_count, c.dad_dna_rebirth_count) {
        Some(ErrorCode::RebirthLevelMismatch)
    } else if mom.breed_count >= c.max_breed_count || dad.breed_count >= c.max_breed_count {
        Some(ErrorCode::MaxBreedCountReached)
    } else if mom.cooldown_end > c.now || dad.cooldown_end > c.now {
        Some(ErrorCode::CooldownNotEnded)
    } else if c.mom_owner != c.user || c.dad_owner != c.user {
        Some(ErrorCode::NftNotOwnedByUser)
    } else {
        None
    }
}

/// Checks a breeding pair; returns the parents' rebirth generation, which
/// the offspring inherits.
pub fn check_breeding_pair(c: BreedContext, mom: &HashBeastMetadata, dad: &HashBeastMetadata) -> (r: Result<u8, ErrorCode>)
    ensures
        r == (match breed_pair_error(c, *mom, *dad) {
            Some(e) => Err::<u8, ErrorCode>(e),
            None => Ok(max_u8(mom.rebirth_count, c.mom_dna_rebirth_count)),
        }),
{
    if c.is_paused {
        return Err(ErrorCode::GamePaused);
    }
    if c.mom_asset == c.dad_asset {
        return Err(ErrorCode::InvalidParameters);
    }
    if !c.breeding_allowed {
        return Err(ErrorCode::BreedingNotAllowed);
    }
    if c.genesis_mints < c.genesis_mint_limit {
        return Err(ErrorCode::GenesisNotSoldOut);
    }
    if c.player_owner != c.user {
        return Err(ErrorCode::Unauthorized);
    }
    if !mom.incubated_player_data.is_default() || !dad.incubated_player_data.is_default() {
        return Err(ErrorCode::HashBeastAlreadyAtGuard);
    }
    if mom.faction_id != dad.faction_id {
        return Err(ErrorCode::InvalidFactionId);
    }
    if mom.mint == dad.mint || mom.mom == dad.mint || mom.dad == dad.mint || dad.mom == mom.mint
        || dad.dad == mom.mint || shares_known_parent(mom, dad) {
        return Err(ErrorCode::InvalidBreedingPair);
    }
    let mom_gen = metadata_rebirth_count(mom.rebirth_count, c.mom_dna_rebirth_count);
    let dad_gen = metadata_rebirth_count(dad.rebirth_count, c.dad_dna_rebirth_count);
    if mom_gen != dad_gen {
        return Err(ErrorCode::RebirthLevelMismatch);
    }
    if mom.breed_count >= c.max_breed_count || dad.breed_count >= c.max_breed_count {
        return Err(ErrorCode::MaxBreedCountReached);
    }
    if mom.cooldown_end > c.now || dad.cooldown_end > c.now {
        return Err(ErrorCode::CooldownNotEnded);
    }
    if c.mom_owner != c.user || c.dad_owner != c.user {
        return Err(ErrorCode::NftNotOwnedByUser);
    }
    Ok(mom_gen)
}

/// How a breeding price is paid.
#[derive(Debug, Clone, Copy, PartialEq, Eq, Structural)]
pub struct BreedPayment {
    pub floor_min_price: u64,
    pub breed_cost: u64,
    pub sol_due: u64,
    pub sol_fee_recipient: u64,
    pub sol_treasury: u64,
    pub dbtc_due: u64,
    pub dbtc_burn: u64,
    pub dbtc_to_vault: u64,
}

/// The payment of a breed: the price is the bonding-curve price but at
/// least 1.5x the floor anchor; half (rounded up) is paid in SOL, a quarter
/// of it (rounded up) to the fee recipient and the rest to the treasury;
/// the other half is paid in degenBTC at its SOL price (rounded up), half of
/// it (rounded up) burned and the rest returned to the emission vault.
pub open spec fn breed_payment_result(curve_price: u64, floor_anchor: u64, dbtc_price: u64) -> Result<BreedPayment, ErrorCode> {
    let floor_min = ceil_mul_div_spec(floor_anchor as int, BREED_FLOOR_MULTIPLIER_BPS as int, BASIS_POINTS_DENOMINATOR as int);
    let cost = if curve_price >= floor_min { curve_price as int } else { floor_min };
    let sol_due = ceil_mul_div_spec(cost, BREED_SOL_SHARE_BPS as int, BASIS_POINTS_DENOMINATOR as int);
    let dbtc_value = cost - sol_due;
    let dbtc_due = ceil_mul_div_spec(dbtc_value, DBTC_BASE_UNITS as int, dbtc_price as int);
    let fee = ceil_mul_div_spec(sol_due, BREED_SOL_FEE_RECIPIENT_BPS as int, BASIS_POINTS_DENOMINATOR as int);
    let burn = ceil_mul_div_spec(dbtc_due, BREED_DBTC_BURN_BPS as int, BASIS_POINTS_DENOMINATOR as int);
    if floor_anchor < SWEEP_MIN_ANCHOR_LAMPORTS {
        Err(ErrorCode::BreedFloorAnchorUnavailable)
    } else if floor_min > u64::MAX {
        Err(ErrorCode::ArithmeticOverflow)
    } else if dbtc_price == 0 {
        Err(ErrorCode::DbtcPriceUnavailable)
    } else if dbtc_due > u64::MAX {
        Err(ErrorCode::ArithmeticOverflow)
    } else if dbtc_due == 0 {
        Err(ErrorCode::InvalidAmount)
    } else {
        Ok(BreedPayment {
            floor_min_price: floor_min as u64,
            breed_cost: cost as u64,
            sol_due: sol_due as u64,
            sol_fee_recipient: fee as u64,
            sol_treasury: (sol_due - fee) as u64,
            dbtc_due: dbtc_due as u64,
            dbtc_burn: burn as u64,
            dbtc_to_vault: (dbtc_due - burn) as u64,
        })
    }
}

proof fn lemma_ceil_div_bounds(v: int, p: int)
    requires
        v >= 0,
        p > 0,
    ensures
        ceil_mul_div_spec(v, DBTC_BASE_UNITS as int, p) * p >= v * DBTC_BASE_UNITS,
        (ceil_mul_div_spec(v, DBTC_BASE_UNITS as int, p) - 1) * p < v * DBTC_BASE_UNITS,
{
    let n = v * 1_000_000;
    let q = (n + p - 1) / p;
    assert(q * p >= n && (q - 1) * p < n) by (nonlinear_arith)
        requires
            n >= 0,
            p > 0,
            q == (n + p - 1) / p,
    ;
}

/// The degenBTC half of a breed is converted at the degenBTC price, rounded
/// up: the degenBTC due is worth at least the SOL value it stands for, one
/// base unit less would fall short, and so a dearer degenBTC never asks for
/// more of it.
pub proof fn lemma_breed_dbtc_due_converts_at_price(curve_price: u64, floor_anchor: u64, dbtc_price: u64, dearer_price: u64)
    requires
        dbtc_price <= dearer_price,
    ensures
        breed_payment_result(curve_price, floor_anchor, dbtc_price) matches Ok(p) ==> {
            &&& (p.dbtc_due as int) * (dbtc_price as int) >= (p.breed_cost - p.sol_due) * DBTC_BASE_UNITS
            &&& (p.dbtc_due - 1) * (dbtc_price as int) < (p.breed_cost - p.sol_due) * DBTC_BASE_UNITS
        },
        breed_payment_result(curve_price, floor_anchor, dbtc_price) is Ok && breed_payment_result(curve_price, floor_anchor, dearer_price) is Ok
            ==> breed_payment_result(curve_price, floor_anchor, dearer_price)->Ok_0.dbtc_due
                <= breed_payment_result(curve_price, floor_anchor, dbtc_price)->Ok_0.dbtc_due,
{
    let floor_min = ceil_mul_div_spec(floor_anchor as int, BREED_FLOOR_MULTIPLIER_BPS as int, BASIS_POINTS_DENOMINATOR as int);
    let cost = if curve_price >= floor_min { curve_price as int } else { floor_min };
    let sol_due = ceil_mul_div_spec(cost, BREED_SOL_SHARE_BPS as int, BASIS_POINTS_DENOMINATOR as int);
    let v = cost - sol_due;
    if breed_payment_result(curve_price, floor_anchor, dbtc_price) is Ok {
        assert(floor_min >= 0) by (nonlinear_arith)
            requires
                floor_min == ((floor_anchor as int) * 15_000 + 9_999) / 10_000,
                floor_anchor >= 0,
        ;
        lemma_ceil_share_le(cost, BREED_SOL_SHARE_BPS as int);
        lemma_ceil_div_bounds(v, dbtc_price as int);
        if breed_payment_result(curve_price, floor_anchor, dearer_price) is Ok {
            lemma_ceil_div_bounds(v, dearer_price as int);
            let a = ceil_mul_div_spec(v, DBTC_BASE_UNITS as int, dbtc_price as int);
            let b = ceil_mul_div_spec(v, DBTC_BASE_UNITS as int, dearer_price as int);
            assert(a >= 0) by (nonlinear_arith)
                requires
                    a == (v * 1_000_000 + (dbtc_price as int) - 1) / (dbtc_price as int),
                    v >= 0,
                    dbtc_price > 0,
            ;
            assert(a * (dbtc_price as int) <= a * (dearer_price as int)) by (nonlinear_arith)
                requires
                    a >= 0,
                    dbtc_price <= dearer_price,
            ;
            assert(b <= a) by (nonlinear_arith)
                requires
                    a * (dearer_price as int) >= v * 1_000_000,
                    (b - 1) * (dearer_price as int) < v * 1_000_000,
                    dearer_price > 0,
            ;
            assert(breed_payment_result(curve_price, floor_anchor, dbtc_price)->Ok_0.dbtc_due == a);
            assert(breed_payment_result(curve_price, floor_anchor, dearer_price)->Ok_0.dbtc_due == b);
        }
    }
}

proof fn lemma_ceil_share_le(x: int, bps: int)
    requires
        0 <= x,
        0 <= bps <= 10_000,
    ensures
        0 <= ceil_mul_div_spec(x, bps, 10_000) <= x,
{
    assert(0 <= (x * bps + 10_000 - 1) / 10_000 <= x) by (nonlinear_arith)
        requires
            0 <= x,
            0 <= bps <= 10_000,
    ;
}

/// Computes the breed payment; see `breed_payment_result`.
pub fn breed_payment(curve_price: u64, floor_anchor: u64, dbtc_price: u64) -> (r: Result<BreedPayment, ErrorCode>)
    ensures
        r == breed_payment_result(curve_price, floor_anchor, dbtc_price),
        r matches Ok(p) ==> p.breed_cost >= p.floor_min_price && p.sol_fee_recipient + p.sol_treasury == p.sol_due
            && p.dbtc_burn + p.dbtc_to_vault == p.dbtc_due,
{
    if floor_anchor < SWEEP_MIN_ANCHOR_LAMPORTS {
        return Err(ErrorCode::BreedFloorAnchorUnavailable);
    }
    let floor_min = match ceil_mul_div_u64(floor_anchor, BREED_FLOOR_MULTIPLIER_BPS, BASIS_POINTS_DENOMINATOR) {
        Ok(v) => v,
        Err(e) => return Err(e),
    };
    let cost = if curve_price >= floor_min {
        curve_price
    } else {
        floor_min
    };
    proof {
        lemma_ceil_share_le(cost as int, 5_000);
        lemma_ceil_share_le(cost as int, 2_500);
    }
    let sol_due = match ceil_mul_div_u64(cost, BREED_SOL_SHARE_BPS, BASIS_POINTS_DENOMINATOR) {
        Ok(v) => v,
        Err(e) => return Err(e),
    };
    let dbtc_value = cost - sol_due;
    if dbtc_price == 0 {
        return Err(ErrorCode::DbtcPriceUnavailable);
    }
    let dbtc_due = match ceil_mul_div_u64(dbtc_value, DBTC_BASE_UNITS, dbtc_price) {
        Ok(v) => v,
        Err(e) => return Err(e),
    };
    if dbtc_due == 0 {
        return Err(ErrorCode::InvalidAmount);
    }
    proof {
        lemma_ceil_share_le(sol_due as int, 2_500);
        lemma_ceil_share_le(dbtc_due as int, 5_000);
    }
    let fee = match ceil_mul_div_u64(sol_due, BREED_SOL_FEE_RECIPIENT_BPS, BASIS_POINTS_DENOMINATOR) {
        Ok(v) => v,
        Err(e) => return Err(e),
    };
    let burn = match ceil_mul_div_u64(dbtc_due, BREED_DBTC_BURN_BPS, BASIS_POINTS_DENOMINATOR) {
        Ok(v) => v,
        Err(e) => return Err(e),
    };
    Ok(
        BreedPayment {
            floor_min_price: floor_min,
            breed_cost: cost,
            sol_due,
            sol_fee_recipient: fee,
            sol_treasury: sol_due - fee,
            dbtc_due,
            dbtc_burn: burn,
            dbtc_to_vault: dbtc_due - burn,
        },
    )
}

/// Breeding never prices below 1.5x the floor anchor.
pub proof fn lemma_breed_cost_above_floor(curve_price: u64, floor_anchor: u64, dbtc_price: u64)
    requires
        breed_payment_result(curve_price, floor_anchor, dbtc_price) is Ok,
    ensures
        breed_payment_result(curve_price, floor_anchor, dbtc_price)->Ok_0.breed_cost * 10_000 >= floor_anchor as int
            * BREED_FLOOR_MULTIPLIER_BPS,
        breed_payment_result(curve_price, floor_anchor, dbtc_price)->Ok_0.breed_cost >= curve_price,
{
    let fm = ceil_mul_div_spec(floor_anchor as int, 15_000, 10_000);
    assert(fm * 10_000 >= (floor_anchor as int) * 15_000) by (nonlinear_arith)
        requires
            fm == ((floor_anchor as int) * 15_000 + 10_000 - 1) / 10_000,
            floor_anchor >= 0,
    ;
}

/// The record of a newly created HashBeast: no breeds, no cooldown, no
/// accumulated value, not at a guard post, the base multiplier, no XP, and
/// created and last updated at `now`.
pub open spec fn new_hashbeast(mint: Key, mom: Key, dad: Key, rebirth_count: u8, dna: [u8; 32], faction_id: u8, now: i64, bump: u8) -> HashBeastMetadata {
    HashBeastMetadata {
        mint,
        mom,
        dad,
        breed_count: 0,
        rebirth_count,
        cooldown_end: 0,
        accumulated_val: 0,
        dna,
        incubated_player_data: Key { w0: 0, w1: 0, w2: 0, w3: 0 },
        multiplier: BASE_MULTIPLIER,
        faction_id,
        last_update_ts: now,
        created_at: now,
        xp: 0,
        bump,
    }
}

/// Builds the record of a newly created HashBeast.
pub fn fresh_hashbeast(mint: Key, mom: Key, dad: Key, rebirth_count: u8, dna: [u8; 32], faction_id: u8, now: i64, bump: u8) -> (m: HashBeastMetadata)
    ensures
        m == new_hashbeast(mint, mom, dad, rebirth_count, dna, faction_id, now, bump),
{
    HashBeastMetadata {
        mint,
        mom,
        dad,
        breed_count: 0,
        rebirth_count,
        cooldown_end: 0,
        accumulated_val: 0,
        dna,
        incubated_player_data: Key::zero(),
        multiplier: BASE_MULTIPLIER,
        faction_id,
        last_update_ts: now,
        created_at: now,
        xp: 0,
        bump,
    }
}

/// The cooldown after a parent's `breed_count`-th breed: the configured
/// schedule, or two weeks past its end.
pub open spec fn breed_cooldown(schedule: Seq<i64>, breed_count: u8) -> i64 {
    if breed_count < schedule.len() {
        schedule[breed_count as int]
    } else {
        1_209_600
    }
}

/// Records a breed on both parents (one more breed, a new cooldown from
/// `now`) and counts the offspring among the minted HashBeasts.
pub fn apply_breed(
    mom: &mut HashBeastMetadata,
    dad: &mut HashBeastMetadata,
    now: i64,
    cooldowns: &Vec<i64>,
    total_minted: &mut u64,
) -> (r: Result<(), ErrorCode>)
    ensures
        r is Ok <==> (old(mom).breed_count < u8::MAX && now + breed_cooldown(cooldowns@, old(mom).breed_count) <= i64::MAX
            && now + breed_cooldown(cooldowns@, old(mom).breed_count) >= i64::MIN
            && old(dad).breed_count < u8::MAX && now + breed_cooldown(cooldowns@, old(dad).breed_count) <= i64::MAX
            && now + breed_cooldown(cooldowns@, old(dad).breed_count) >= i64::MIN
            && *old(total_minted) < u64::MAX),
        r is Err ==> r == Err::<(), ErrorCode>(ErrorCode::ArithmeticOverflow) && *final(mom) == *old(mom) && *final(dad) == *old(dad)
            && *final(total_minted) == *old(total_minted),
        r is Ok ==> *final(mom) == (HashBeastMetadata {
                breed_count: (old(mom).breed_count + 1) as u8,
                cooldown_end: (now + breed_cooldown(cooldowns@, old(mom).breed_count)) as i64,
                ..*old(mom)
            })
            && *final(dad) == (HashBeastMetadata {
                breed_count: (old(dad).breed_count + 1) as u8,
                cooldown_end: (now + breed_cooldown(cooldowns@, old(dad).breed_count)) as i64,
                ..*old(dad)
            })
            && *final(total_minted) == *old(total_minted) + 1,
{
    let mom_cd: i64 = if (mom.breed_count as usize) < cooldowns.len() {
        cooldowns[mom.breed_count as usize]
    } else {
        1_209_600
    };
    let dad_cd: i64 = if (dad.breed_count as usize) < cooldowns.len() {
        cooldowns[dad.breed_count as usize]
    } else {
        1_209_600
    };
    let mom_count = match mom.breed_count.checked_add(1) {
        Some(v) => v,
        None => return Err(ErrorCode::ArithmeticOverflow),
    };
    let mom_end = match now.checked_add(mom_cd) {
        Some(v) => v,
        None => return Err(ErrorCode::ArithmeticOverflow),
    };
    let dad_count = match dad.breed_count.checked_add(1) {
        Some(v) => v,
        None => return Err(ErrorCode::ArithmeticOverflow),
    };
    let dad_end = match now.checked_add(dad_cd) {
        Some(v) => v,
        None => return Err(ErrorCode::ArithmeticOverflow),
    };
    let minted = match total_minted.checked_add(1) {
        Some(v) => v,
        None => return Err(ErrorCode::ArithmeticOverflow),
    };
    mom.breed_count = mom_count;
    mom.cooldown_end = mom_end;
    dad.breed_count = dad_count;
    dad.cooldown_end = dad_end;
    *total_minted = minted;
    Ok(())
}

/// Breeds `mom` and `dad` into a new HashBeast: checks the pair, prices the
/// breed from the curve price and the floor anchor (paid in SOL and
/// degenBTC), then counts the breed on both parents, starts their
/// cooldowns and counts the offspring as minted. Returns the offspring's
/// record (asset `offspring_asset`, DNA `offspring_dna`, the mom's rebirth
/// level and country) and the payment.
pub fn int_breed_hashbeasts(
    c: BreedContext,
    mom: &mut HashBeastMetadata,
    dad: &mut HashBeastMetadata,
    curve_price: u64,
    floor_anchor: u64,
    dbtc_price: u64,
    cooldowns: &Vec<i64>,
    total_minted: &mut u64,
    offspring_asset: Key,
    offspring_dna: [u8; 32],
    offspring_bump: u8,
) -> (r: Result<(HashBeastMetadata, BreedPayment), ErrorCode>)
    ensures
        match breed_pair_error(c, *old(mom), *old(dad)) {
            Some(e) => r == Err::<(HashBeastMetadata, BreedPayment), ErrorCode>(e),
            None => match breed_payment_result(curve_price, floor_anchor, dbtc_price) {
                Err(e) => r == Err::<(HashBeastMetadata, BreedPayment), ErrorCode>(e),
                Ok(p) => {
                    &&& (r is Ok <==> (old(mom).breed_count < u8::MAX && old(dad).breed_count < u8::MAX
                        && i64::MIN <= c.now + breed_cooldown(cooldowns@, old(mom).breed_count) <= i64::MAX
                        && i64::MIN <= c.now + breed_cooldown(cooldowns@, old(dad).breed_count) <= i64::MAX
                        && *old(total_minted) < u64::MAX))
                    &&& (r is Err ==> r == Err::<(HashBeastMetadata, BreedPayment), ErrorCode>(ErrorCode::ArithmeticOverflow))
                    &&& (r is Ok ==> r == Ok::<(HashBeastMetadata, BreedPayment), ErrorCode>((new_hashbeast(offspring_asset, old(mom).mint, old(dad).mint,
                            max_u8(old(mom).rebirth_count, c.mom_dna_rebirth_count), offspring_dna, old(mom).faction_id, c.now, offspring_bump), p))
                        && *final(mom) == (HashBeastMetadata {
                            breed_count: (old(mom).breed_count + 1) as u8,
                            cooldown_end: (c.now + breed_cooldown(cooldowns@, old(mom).breed_count)) as i64,
                            ..*old(mom)
                        })
                        && *final(dad) == (HashBeastMetadata {
                            breed_count: (old(dad).breed_count + 1) as u8,
                            cooldown_end: (c.now + breed_cooldown(cooldowns@, old(dad).breed_count)) as i64,
                            ..*old(dad)
                        })
                        && *final(total_minted) == *old(total_minted) + 1)
                },
            },
        },
        r is Err ==> *final(mom) == *old(mom) && *final(dad) == *old(dad) && *final(total_minted) == *old(total_minted),
{
    let level = check_breeding_pair(c, mom, dad)?;
    let payment = breed_payment(curve_price, floor_anchor, dbtc_price)?;
    let offspring = fresh_hashbeast(offspring_asset, mom.mint, dad.mint, level, offspring_dna, mom.faction_id, c.now, offspring_bump);
    apply_breed(mom, dad, c.now, cooldowns, total_minted)?;
    Ok((offspring, payment))
}

/// What becomes of a HashBeast sent to rebirth.
#[derive(Debug, Clone, Copy, PartialEq, Eq, Structural)]
pub enum RebirthPath {
    /// Reborn one generation up into its country's lootbox queue, with the
    /// inventory's record of it.
    Lootbox { next_rebirth_count: u8, entry: RebornEntry },
    /// Burned (queue full, inventory full, or generation cap reached).
    Burn,
}

/// A HashBeast's record after a rebirth: generation `next`, fresh DNA, and
/// its gameplay state back to a newborn's (no parents, breeds, cooldown,
/// accumulated value or XP, the base multiplier), updated at `now`.
pub open spec fn reborn_metadata(m: HashBeastMetadata, dna: [u8; 32], next: u8, now: i64) -> HashBeastMetadata {
    HashBeastMetadata {
        mom: Key { w0: 0, w1: 0, w2: 0, w3: 0 },
        dad: Key { w0: 0, w1: 0, w2: 0, w3: 0 },
        breed_count: 0,
        rebirth_count: next,
        cooldown_end: 0,
        accumulated_val: 0,
        dna,
        multiplier: BASE_MULTIPLIER,
        last_update_ts: now,
        xp: 0,
        ..m
    }
}

/// The inventory's record of an asset reborn into its country's lootbox
/// queue.
pub open spec fn lootbox_entry(asset: Key, faction_id: u8) -> RebornEntry {
    RebornEntry { asset, faction_id, status: RebornStatus::Lootbox, listing_price: 0, original_buy_price: 0, expire_count: 0 }
}

/// Rebirths the HashBeast of `asset`: its accumulated value is paid out
/// first (counted as distributed); then, when its country's lootbox queue
/// and the inventory have room and its generation (the larger of the
/// recorded one and the one in its DNA) is below the cap, it is reborn one
/// generation up with `new_dna` and queued, counting one more inventory
/// asset; otherwise it is burned and the queue and inventory stay as they
/// were.
pub fn int_rebirth_hashbeast(
    metadata: &mut HashBeastMetadata,
    asset: Key,
    dna_rebirth_count: u8,
    new_dna: [u8; 32],
    now: i64,
    total_distributed: &mut u64,
    queue: &mut LootboxQueue,
    inventory_total: &mut u64,
) -> (r: Result<RebirthPath, ErrorCode>)
    requires
        old(queue).wf(),
    ensures
        !old(metadata).incubated_player_data.is_zero() ==> r == Err::<RebirthPath, ErrorCode>(ErrorCode::HashBeastAlreadyAtGuard),
        old(metadata).incubated_player_data.is_zero() && old(metadata).accumulated_val > 0
            && *old(total_distributed) + old(metadata).accumulated_val > u64::MAX
            ==> r == Err::<RebirthPath, ErrorCode>(ErrorCode::ArithmeticOverflow),
        r is Err ==> *final(metadata) == *old(metadata) && *final(total_distributed) == *old(total_distributed)
            && *final(queue) == *old(queue) && *final(inventory_total) == *old(inventory_total),
        old(metadata).incubated_player_data.is_zero() && *old(total_distributed) + old(metadata).accumulated_val <= u64::MAX ==> {
            let c = max_u8(old(metadata).rebirth_count, dna_rebirth_count);
            let k = old(queue).filled_count;
            &&& *final(total_distributed) == *old(total_distributed) + old(metadata).accumulated_val
            &&& final(queue).wf()
            &&& if k < LOOTBOX_QUEUE_SIZE && *old(inventory_total) < MAX_INVENTORY && c < MAX_REBIRTH_COUNT {
                &&& r == Ok::<RebirthPath, ErrorCode>(RebirthPath::Lootbox {
                    next_rebirth_count: (c + 1) as u8,
                    entry: lootbox_entry(asset, old(metadata).faction_id),
                })
                &&& *final(metadata) == reborn_metadata(*old(metadata), new_dna, (c + 1) as u8, now)
                &&& final(queue).slots@ == old(queue).slots@.update(k as int, asset)
                &&& final(queue).filled_count == k + 1
                &&& final(queue).faction_id == old(queue).faction_id
                &&& *final(inventory_total) == *old(inventory_total) + 1
            } else {
                &&& r == Ok::<RebirthPath, ErrorCode>(RebirthPath::Burn)
                &&& *final(metadata) == *old(metadata)
                &&& *final(queue) == *old(queue)
                &&& *final(inventory_total) == *old(inventory_total)
            }
        },
{
    if !metadata.incubated_player_data.is_default() {
        return Err(ErrorCode::HashBeastAlreadyAtGuard);
    }
    let accumulated_val = metadata.accumulated_val;
    let distributed = match total_distributed.checked_add(accumulated_val) {
        Some(v) => v,
        None => return Err(ErrorCode::ArithmeticOverflow),
    };
    *total_distributed = distributed;
    let c = metadata_rebirth_count(metadata.rebirth_count, dna_rebirth_count);
    if (queue.filled_count as usize) < LOOTBOX_QUEUE_SIZE && *inventory_total < MAX_INVENTORY && c < MAX_REBIRTH_COUNT {
        let next = c + 1;
        metadata.mom = Key::zero();
        metadata.dad = Key::zero();
        metadata.breed_count = 0;
        metadata.rebirth_count = next;
        metadata.cooldown_end = 0;
        metadata.accumulated_val = 0;
        metadata.dna = new_dna;
        metadata.multiplier = BASE_MULTIPLIER;
        metadata.last_update_ts = now;
        metadata.xp = 0;
        push_lootbox(queue, asset);
        *inventory_total = *inventory_total + 1;
        let entry = RebornEntry {
            asset,
            faction_id: metadata.faction_id,
            status: RebornStatus::Lootbox,
            listing_price: 0,
            original_buy_price: 0,
            expire_count: 0,
        };
        Ok(RebirthPath::Lootbox { next_rebirth_count: next, entry })
    } else {
        Ok(RebirthPath::Burn)
    }
}

/// The sum of loaded multipliers.
pub open spec fn sum_multipliers(s: Seq<(Key, Key, u32)>) -> int
    decreases s.len(),
{
    if s.len() == 0 {
        0
    } else {
        sum_multipliers(s.drop_last()) + s.last().2
    }
}

/// Seed of a HashBeast's metadata account, derived from its mint.
pub const HASHBEAST_METADATA_SEED: [u8; 18] = [
    104, 97, 115, 104, 98, 101, 97, 115, 116, 95, 109, 101, 116, 97, 100, 97, 116, 97,
];

/// The address of the metadata account of the HashBeast `mint`.
pub open spec fn hashbeast_metadata_address(mint: Key) -> Option<Key> {
    derived_address(HASHBEAST_METADATA_SEED@, mint.bytes(), game_program())
}

/// Whether the loaded HashBeast records (metadata address, mint,
/// multiplier) are exactly the expected mints, each once, each read from
/// its own metadata account.
pub open spec fn loaded_match(expected: Seq<Key>, loaded: Seq<(Key, Key, u32)>) -> bool {
    &&& loaded.len() == expected.len()
    &&& forall|i: int| 0 <= i < loaded.len() ==> hashbeast_metadata_address(#[trigger] loaded[i].1) == Some(loaded[i].0)
    &&& forall|i: int| 0 <= i < loaded.len() ==> expected.contains(#[trigger] loaded[i].1)
    &&& forall|i: int, j: int| 0 <= i < j < loaded.len() ==> loaded[i].1 != loaded[j].1
    &&& forall|k: int| 0 <= k < expected.len() ==> exists|i: int| 0 <= i < loaded.len() && loaded[i].1 == #[trigger] expected[k]
}

/// The first reason, scanning the first `n` loaded HashBeasts in order, to
/// refuse them: an account that is not the metadata address of its mint, a
/// mint the player has not staked, a mint loaded twice, or a raw sum past
/// `u64`.
pub open spec fn multiplier_scan_error(expected: Seq<Key>, loaded: Seq<(Key, Key, u32)>, n: int) -> Option<ErrorCode>
    decreases n,
{
    if n <= 0 {
        None
    } else {
        match multiplier_scan_error(expected, loaded, n - 1) {
            Some(e) => Some(e),
            None => {
                let e = loaded[n - 1];
                if hashbeast_metadata_address(e.1) != Some(e.0) {
                    Some(ErrorCode::InvalidAccount)
                } else if !expected.contains(e.1) {
                    Some(ErrorCode::InvalidParameters)
                } else if exists|a: int| 0 <= a < n - 1 && #[trigger] loaded[a].1 == e.1 {
                    Some(ErrorCode::InvalidParameters)
                } else if BASE_MULTIPLIER + sum_multipliers(loaded.take(n)) > u64::MAX {
                    Some(ErrorCode::ArithmeticOverflow)
                } else {
                    None
                }
            },
        }
    }
}

/// The raw multiplier of a player's staked HashBeasts (the base plus each
/// one's multiplier), or why the loaded accounts are refused.
pub open spec fn raw_multiplier_result(expected: Seq<Key>, loaded: Seq<(Key, Key, u32)>) -> Result<u64, ErrorCode> {
    if loaded.len() != expected.len() {
        Err(ErrorCode::InvalidParameters)
    } else {
        match multiplier_scan_error(expected, loaded, loaded.len() as int) {
            Some(e) => Err(e),
            None => if forall|k: int| 0 <= k < expected.len() ==> exists|b: int| 0 <= b < loaded.len() && loaded[b].1 == #[trigger] expected[k] {
                Ok((BASE_MULTIPLIER + sum_multipliers(loaded)) as u64)
            } else {
                Err(ErrorCode::InvalidParameters)
            },
        }
    }
}

proof fn lemma_scan_error_sticks(expected: Seq<Key>, loaded: Seq<(Key, Key, u32)>, n: int, m: int)
    requires
        0 <= n <= m,
        multiplier_scan_error(expected, loaded, n) is Some,
    ensures
        multiplier_scan_error(expected, loaded, m) == multiplier_scan_error(expected, loaded, n),
    decreases m - n,
{
    if m > n {
        lemma_scan_error_sticks(expected, loaded, n, m - 1);
    }
}

/// The raw multiplier sum of the player's staked HashBeasts: 1.0x plus each
/// loaded record's multiplier, where the records must be exactly the staked
/// mints, each once, each at its mint's metadata address.
pub fn staked_raw_multiplier(expected: &Vec<Key>, loaded: &Vec<(Key, Key, u32)>) -> (r: Result<u64, ErrorCode>)
    ensures
        r is Ok ==> loaded_match(expected@, loaded@) && BASE_MULTIPLIER + sum_multipliers(loaded@) <= u64::MAX
            && r == Ok::<u64, ErrorCode>((BASE_MULTIPLIER + sum_multipliers(loaded@)) as u64),
        loaded_match(expected@, loaded@) && BASE_MULTIPLIER + sum_multipliers(loaded@) <= u64::MAX ==> r is Ok,
        r == raw_multiplier_result(expected@, loaded@),
{
    proof {
        lemma_sum_multipliers_nonneg(loaded@);
    }
    if loaded.len() != expected.len() {
        return Err(ErrorCode::InvalidParameters);
    }
    let mut seen: Vec<Key> = Vec::new();
    let mut raw: u64 = 1000;
    let mut i: usize = 0;
    proof {
        assert(loaded@.skip(0) =~= loaded@);
        assert(loaded@.take(0) =~= Seq::<(Key, Key, u32)>::empty());
        assert(seen@ =~= loaded@.take(0).map_values(|e: (Key, Key, u32)| e.1));
    }
    while i < loaded.len()
        invariant
            loaded.len() == expected.len(),
            i <= loaded.len(),
            seen@ == loaded@.take(i as int).map_values(|e: (Key, Key, u32)| e.1),
            raw == BASE_MULTIPLIER + sum_multipliers(loaded@.take(i as int)),
            forall|a: int| 0 <= a < i ==> expected@.contains(#[trigger] loaded@[a].1),
            forall|a: int| 0 <= a < i ==> hashbeast_metadata_address(#[trigger] loaded@[a].1) == Some(loaded@[a].0),
            forall|a: int, b: int| 0 <= a < b < i ==> loaded@[a].1 != loaded@[b].1,
            (loaded_match(expected@, loaded@) && BASE_MULTIPLIER + sum_multipliers(loaded@) <= u64::MAX) ==> raw + sum_multipliers(loaded@.skip(i as int)) == BASE_MULTIPLIER + sum_multipliers(loaded@),
            multiplier_scan_error(expected@, loaded@, i as int) is None,
        decreases loaded.len() - i,
    {
        let (address, mint, m) = loaded[i];
        proof {
            assert(loaded@.take(i + 1).drop_last() =~= loaded@.take(i as int));
        }
        if find_program_address(HASHBEAST_METADATA_SEED.as_slice(), mint.to_bytes().as_slice(), program_id()) != Some(address) {
            proof {
                assert(multiplier_scan_error(expected@, loaded@, i + 1) == Some(ErrorCode::InvalidAccount));
                lemma_scan_error_sticks(expected@, loaded@, i + 1, loaded.len() as int);
            }
            return Err(ErrorCode::InvalidAccount);
        }
        if !key_in(expected, mint) {
            proof {
                assert(!expected@.contains(loaded@[i as int].1));
                assert(multiplier_scan_error(expected@, loaded@, i + 1) == Some(ErrorCode::InvalidParameters));
                lemma_scan_error_sticks(expected@, loaded@, i + 1, loaded.len() as int);
            }
            return Err(ErrorCode::InvalidParameters);
        }
        if key_in(&seen, mint) {
            proof {
                let k = choose|k: int| 0 <= k < seen@.len() && seen@[k] == mint;
                assert(seen@.len() == i);
                assert(loaded@.take(i as int)[k] == loaded@[k]);
                assert(seen@[k] == loaded@.take(i as int)[k].1);
                assert(loaded@[k].1 == mint);
                assert(loaded@[i as int].1 == mint);
                assert(k < i);
                assert(multiplier_scan_error(expected@, loaded@, i + 1) == Some(ErrorCode::InvalidParameters));
                lemma_scan_error_sticks(expected@, loaded@, i + 1, loaded.len() as int);
            }
            return Err(ErrorCode::InvalidParameters);
        }
        proof {
            assert forall|a: int| 0 <= a < i implies loaded@[a].1 != mint by {
                assert(seen@[a] == loaded@.take(i as int)[a].1);
                assert(loaded@.take(i as int)[a] == loaded@[a]);
            }
        }
        proof {
            lemma_sum_split(loaded@, i as int);
        }
        raw = match raw.checked_add(m as u64) {
            Some(v) => v,
            None => {
                proof {
                    lemma_sum_skip_nonneg(loaded@, i as int + 1);
                    assert(multiplier_scan_error(expected@, loaded@, i + 1) == Some(ErrorCode::ArithmeticOverflow));
                    lemma_scan_error_sticks(expected@, loaded@, i + 1, loaded.len() as int);
                }
                return Err(ErrorCode::ArithmeticOverflow);
            },
        };
        seen.push(mint);
        i += 1;
        proof {
            assert(seen@ =~= loaded@.take(i as int).map_values(|e: (Key, Key, u32)| e.1));
            assert(multiplier_scan_error(expected@, loaded@, i as int) is None);
        }
    }
    proof {
        assert(loaded@.take(loaded.len() as int) =~= loaded@);
    }
    let mut k: usize = 0;
    while k < expected.len()
        invariant
            loaded.len() == expected.len(),
            seen@ == loaded@.map_values(|e: (Key, Key, u32)| e.1),
            k <= expected.len(),
            forall|a: int| 0 <= a < k ==> exists|b: int| 0 <= b < loaded@.len() && loaded@[b].1 == #[trigger] expected@[a],
            multiplier_scan_error(expected@, loaded@, loaded.len() as int) is None,
            raw == BASE_MULTIPLIER + sum_multipliers(loaded@),
        decreases expected.len() - k,
    {
        if !key_in(&seen, expected[k]) {
            proof {
                if loaded_match(expected@, loaded@) {
                    let b = choose|b: int| 0 <= b < loaded@.len() && loaded@[b].1 == #[trigger] expected@[k as int];
                    assert(seen@[b] == loaded@[b].1);
                    assert(seen@.contains(expected@[k as int]));
                }
                assert forall|b: int| 0 <= b < loaded@.len() implies loaded@[b].1 != expected@[k as int] by {
                    assert(seen@[b] == loaded@[b].1);
                }
            }
            return Err(ErrorCode::InvalidParameters);
        }
        proof {
            let b = choose|b: int| 0 <= b < seen@.len() && seen@[b] == expected@[k as int];
            assert(loaded@[b].1 == expected@[k as int]);
        }
        k += 1;
    }
    Ok(raw)
}

pub proof fn lemma_sum_multipliers_nonneg(s: Seq<(Key, Key, u32)>)
    ensures
        sum_multipliers(s) >= 0,
    decreases s.len(),
{
    if s.len() > 0 {
        lemma_sum_multipliers_nonneg(s.drop_last());
    }
}

proof fn lemma_sum_split(s: Seq<(Key, Key, u32)>, i: int)
    requires
        0 <= i < s.len(),
    ensures
        sum_multipliers(s.skip(i)) == s[i].2 + sum_multipliers(s.skip(i + 1)),
        sum_multipliers(s.take(i + 1)) == sum_multipliers(s.take(i)) + s[i].2,
    decreases s.len() - i,
{
    assert(s.take(i + 1).drop_last() =~= s.take(i));
    if i + 1 == s.len() {
        assert(s.skip(i + 1).len() == 0);
        assert(s.skip(i).drop_last() =~= s.skip(i + 1));
    } else {
        lemma_sum_split(s, i + 1);
        assert(s.skip(i).drop_last() =~= s.drop_last().skip(i));
        assert(s.skip(i + 1).drop_last() =~= s.drop_last().skip(i + 1));
        lemma_sum_split(s.drop_last(), i);
    }
}

proof fn lemma_sum_skip_nonneg(s: Seq<(Key, Key, u32)>, i: int)
    requires
        0 <= i <= s.len(),
    ensures
        sum_multipliers(s.skip(i)) >= 0,
    decreases s.len() - i,
{
    if i < s.len() {
        lemma_sum_split(s, i);
        lemma_sum_skip_nonneg(s, i + 1);
    } else {
        assert(s.skip(i).len() == 0);
    }
}

/// Whether `k` is in `v`.
pub fn key_in(v: &Vec<Key>, k: Key) -> (b: bool)
    ensures
        b == v@.contains(k),
{
    let mut i: usize = 0;
    while i < v.len()
        invariant
            i <= v.len(),
            forall|a: int| 0 <= a < i ==> v@[a] != k,
        decreases v.len() - i,
    {
        if v[i] == k {
            proof {
                assert(v@[i as int] == k);
            }
            return true;
        }
        i += 1;
    }
    false
}


/// The multipliers around a HashBeast stake: the raw sum before, the
/// effective multiplier before and after.
pub open spec fn stake_multipliers(loaded: Seq<(Key, Key, u32)>, m: u32) -> (int, int, int) {
    let raw = BASE_MULTIPLIER + sum_multipliers(loaded);
    (raw, capped_multiplier_spec(raw as u64), capped_multiplier_spec((raw + m) as u64))
}

/// Whether staking a HashBeast succeeds once the account checks pass: both
/// lanes accrue, the loaded records are the staked ones and agree with the
/// stored multiplier, and every rescaled total fits.
pub open spec fn hb_stake_ok(player: PlayerData, faction: FactionState, m: u32, loaded: Seq<(Key, Key, u32)>) -> bool {
    let acc_d = lane_accrual(player.degenbtc, faction.degenbtc);
    let (raw, old_eff, new_eff) = stake_multipliers(loaded, m);
    let hp_d = mul_div_spec(player.degenbtc.hashpower as int, new_eff, old_eff);
    let hp_l = mul_div_spec(player.lp.hashpower as int, new_eff, old_eff);
    &&& lane_accrual_ok(player.degenbtc, faction.degenbtc, player.pending_sol_rewards, player.pending_staking_dbtc_rewards)
    &&& lane_accrual_ok(player.lp, faction.lp, (player.pending_sol_rewards + acc_d.0) as u64, (player.pending_staking_dbtc_rewards + acc_d.1) as u64)
    &&& loaded_match(player.staked_hashbeasts@, loaded)
    &&& raw <= u64::MAX
    &&& player.hashbeast_multiplier == old_eff
    &&& raw + m <= u64::MAX
    &&& hp_d <= u64::MAX
    &&& hp_l <= u64::MAX
    &&& faction.degenbtc.hashpower >= player.degenbtc.hashpower
    &&& faction.degenbtc.hashpower - player.degenbtc.hashpower + hp_d <= u64::MAX
    &&& faction.lp.hashpower >= player.lp.hashpower
    &&& faction.lp.hashpower - player.lp.hashpower + hp_l <= u64::MAX
    &&& faction.hashbeasts_staked < u64::MAX
}

/// What staking HashBeast `h0` does to the player, the faction and its
/// record, against the loaded records of the HashBeasts staked before.
pub open spec fn hb_staked(p0: PlayerData, p1: PlayerData, f0: FactionState, f1: FactionState, h0: HashBeastMetadata, h1: HashBeastMetadata, loaded: Seq<(Key, Key, u32)>, now: i64) -> bool {
    let acc_d = lane_accrual(p0.degenbtc, f0.degenbtc);
    let acc_l = lane_accrual(p0.lp, f0.lp);
    let (raw, old_eff, new_eff) = stake_multipliers(loaded, h0.multiplier);
    let hp_d = mul_div_spec(p0.degenbtc.hashpower as int, new_eff, old_eff);
    let hp_l = mul_div_spec(p0.lp.hashpower as int, new_eff, old_eff);
    &&& p1.staked_hashbeasts@ == p0.staked_hashbeasts@.push(h0.mint)
    &&& p1.hashbeast_multiplier == new_eff
    &&& p1.degenbtc.hashpower == hp_d
    &&& p1.lp.hashpower == hp_l
    &&& p1.degenbtc.staked == p0.degenbtc.staked
    &&& p1.lp.staked == p0.lp.staked
    &&& p1.degenbtc.sol_reward_debt == f0.degenbtc.sol_reward_index
    &&& p1.degenbtc.dbtc_reward_debt == f0.degenbtc.dbtc_reward_index
    &&& p1.lp.sol_reward_debt == f0.lp.sol_reward_index
    &&& p1.lp.dbtc_reward_debt == f0.lp.dbtc_reward_index
    &&& p1.pending_sol_rewards == p0.pending_sol_rewards + acc_d.0 + acc_l.0
    &&& p1.pending_staking_dbtc_rewards == p0.pending_staking_dbtc_rewards + acc_d.1 + acc_l.1
    &&& f1.degenbtc.hashpower == f0.degenbtc.hashpower - p0.degenbtc.hashpower + hp_d
    &&& f1.lp.hashpower == f0.lp.hashpower - p0.lp.hashpower + hp_l
    &&& f1.hashbeasts_staked == f0.hashbeasts_staked + 1
    &&& h1.incubated_player_data == p0.owner
    &&& h1.last_update_ts == now
    &&& p1 == (PlayerData {
        staked_hashbeasts: p1.staked_hashbeasts,
        hashbeast_multiplier: p1.hashbeast_multiplier,
        degenbtc: StakeLane {
            hashpower: p1.degenbtc.hashpower,
            sol_reward_debt: p1.degenbtc.sol_reward_debt,
            dbtc_reward_debt: p1.degenbtc.dbtc_reward_debt,
            ..p0.degenbtc
        },
        lp: StakeLane {
            hashpower: p1.lp.hashpower,
            sol_reward_debt: p1.lp.sol_reward_debt,
            dbtc_reward_debt: p1.lp.dbtc_reward_debt,
            ..p0.lp
        },
        pending_sol_rewards: p1.pending_sol_rewards,
        pending_staking_dbtc_rewards: p1.pending_staking_dbtc_rewards,
        ..p0
    })
    &&& f1 == (FactionState {
        degenbtc: FactionLane { hashpower: f1.degenbtc.hashpower, ..f0.degenbtc },
        lp: FactionLane { hashpower: f1.lp.hashpower, ..f0.lp },
        hashbeasts_staked: f1.hashbeasts_staked,
        ..f0
    })
    &&& h1 == (HashBeastMetadata { incubated_player_data: h1.incubated_player_data, last_update_ts: now, ..h0 })
}

/// Stakes a HashBeast as a passive booster: it must be the user's, not
/// staked already, in the player's home faction, with a free slot. Pending
/// rewards of both lanes are accrued first; the effective multiplier is
/// recomputed from the loaded records of the staked HashBeasts plus this
/// one, and both lanes' hashpower (and the faction totals) are rescaled by
/// new/old multiplier.
pub fn int_stake_hashbeast(
    player: &mut PlayerData,
    faction: &mut FactionState,
    hb: &mut HashBeastMetadata,
    nft_owner: Key,
    user: Key,
    loaded: &Vec<(Key, Key, u32)>,
    now: i64,
) -> (r: Result<(), ErrorCode>)
    ensures
        nft_owner != user ==> r == Err::<(), ErrorCode>(ErrorCode::NftNotOwnedByUser),
        nft_owner == user && !old(hb).incubated_player_data.is_zero() ==> r == Err::<(), ErrorCode>(ErrorCode::HashBeastAlreadyAtGuard),
        nft_owner == user && old(hb).incubated_player_data.is_zero() && old(player).faction_id != old(faction).faction_id
            ==> r == Err::<(), ErrorCode>(ErrorCode::InvalidFactionId),
        nft_owner == user && old(hb).incubated_player_data.is_zero() && old(player).faction_id == old(faction).faction_id
            && old(player).staked_hashbeasts.len() >= MAX_STAKED_HASHBEASTS ==> r == Err::<(), ErrorCode>(ErrorCode::InvalidParameters),
        nft_owner == user && old(hb).incubated_player_data.is_zero() && old(player).faction_id == old(faction).faction_id
            && old(player).staked_hashbeasts.len() < MAX_STAKED_HASHBEASTS ==> (r is Ok <==> hb_stake_ok(*old(player), *old(faction), old(hb).multiplier, loaded@)),
        r is Ok ==> hb_staked(*old(player), *final(player), *old(faction), *final(faction), *old(hb), *final(hb), loaded@, now),
{
    if nft_owner != user {
        return Err(ErrorCode::NftNotOwnedByUser);
    }
    if !hb.incubated_player_data.is_default() {
        return Err(ErrorCode::HashBeastAlreadyAtGuard);
    }
    if player.faction_id != faction.faction_id {
        return Err(ErrorCode::InvalidFactionId);
    }
    if player.staked_hashbeasts.len() >= MAX_STAKED_HASHBEASTS {
        return Err(ErrorCode::InvalidParameters);
    }
    update_staking_rewards(player, faction, LaneKind::DegenBtc)?;
    update_staking_rewards(player, faction, LaneKind::Lp)?;
    let raw = match staked_raw_multiplier(&player.staked_hashbeasts, loaded) {
        Ok(v) => v,
        Err(e) => return Err(e),
    };
    let old_multiplier = capped_player_multiplier(raw);
    if player.hashbeast_multiplier != old_multiplier {
        return Err(ErrorCode::InvalidState);
    }
    proof {
        lemma_sum_multipliers_nonneg(loaded@);
        assert(raw == BASE_MULTIPLIER + sum_multipliers(loaded@));
        assert(stake_multipliers(loaded@, old(hb).multiplier).0 == raw);
        assert(old(hb).multiplier == hb.multiplier);
    }
    let (_new_raw, new_multiplier) = match add_hashbeast_multiplier(raw, hb.multiplier) {
        Ok(v) => v,
        Err(e) => {
            proof {
                assert(raw + hb.multiplier > u64::MAX);
                assert(!hb_stake_ok(*old(player), *old(faction), old(hb).multiplier, loaded@));
            }
            return Err(e);
        },
    };
    proof {
        lemma_capped_range(raw);
        lemma_capped_range((raw + hb.multiplier) as u64);
    }
    player.staked_hashbeasts.push(hb.mint);
    player.hashbeast_multiplier = new_multiplier;
    let old_d = player.degenbtc.hashpower;
    let old_l = player.lp.hashpower;
    let new_d = scale_hashpower_by_multiplier(old_d, new_multiplier as u64, old_multiplier as u64)?;
    let new_l = scale_hashpower_by_multiplier(old_l, new_multiplier as u64, old_multiplier as u64)?;
    player.degenbtc.hashpower = new_d;
    player.lp.hashpower = new_l;
    let (fd, fl) = update_faction_hashpower(faction.degenbtc.hashpower, faction.lp.hashpower, old_d, new_d, old_l, new_l)?;
    let staked_count = match faction.hashbeasts_staked.checked_add(1) {
        Some(v) => v,
        None => return Err(ErrorCode::ArithmeticOverflow),
    };
    faction.degenbtc.hashpower = fd;
    faction.lp.hashpower = fl;
    faction.hashbeasts_staked = staked_count;
    hb.incubated_player_data = player.owner;
    hb.last_update_ts = now;
    Ok(())
}


/// The first slot of `s` that holds `k` (meaningful when `s` contains `k`).
pub open spec fn first_key_index(s: Seq<Key>, k: Key) -> int {
    choose|i: int| 0 <= i < s.len() && s[i] == k && forall|j: int| 0 <= j < i ==> s[j] != k
}

/// The first slot of `v` that holds `k`, if any.
pub fn position_of_key(v: &Vec<Key>, k: Key) -> (r: Option<usize>)
    ensures
        r is None <==> !v@.contains(k),
        r matches Some(i) ==> i < v.len() && i == first_key_index(v@, k),
{
    let mut i: usize = 0;
    while i < v.len()
        invariant
            i <= v.len(),
            forall|a: int| 0 <= a < i ==> v@[a] != k,
        decreases v.len() - i,
    {
        if v[i] == k {
            proof {
                let j = first_key_index(v@, k);
                assert(0 <= i < v@.len() && v@[i as int] == k && forall|a: int| 0 <= a < i ==> v@[a] != k);
                assert(j == i) by {
                    if j < i {
                        assert(v@[j] != k);
                    }
                    if i < j {
                        assert(v@[i as int] != k);
                    }
                }
            }
            return Some(i);
        }
        i += 1;
    }
    None
}

/// The multipliers around a HashBeast unstake: the raw sum before (the
/// remaining records plus the leaving one), the effective multiplier before
/// and after.
pub open spec fn unstake_multipliers(loaded: Seq<(Key, Key, u32)>, m: u32) -> (int, int, int) {
    let remaining = BASE_MULTIPLIER + sum_multipliers(loaded);
    (remaining + m, capped_multiplier_spec((remaining + m) as u64), capped_multiplier_spec(remaining as u64))
}

/// Whether unstaking the HashBeast `mint` succeeds once the account checks
/// pass: both lanes accrue, the loaded records are the HashBeasts that stay
/// and agree with the stored multiplier, and every rescaled total fits.
pub open spec fn hb_unstake_ok(player: PlayerData, faction: FactionState, mint: Key, m: u32, loaded: Seq<(Key, Key, u32)>) -> bool {
    let acc_d = lane_accrual(player.degenbtc, faction.degenbtc);
    let (raw, old_eff, new_eff) = unstake_multipliers(loaded, m);
    let hp_d = mul_div_spec(player.degenbtc.hashpower as int, new_eff, old_eff);
    let hp_l = mul_div_spec(player.lp.hashpower as int, new_eff, old_eff);
    let staked = player.staked_hashbeasts@;
    &&& lane_accrual_ok(player.degenbtc, faction.degenbtc, player.pending_sol_rewards, player.pending_staking_dbtc_rewards)
    &&& lane_accrual_ok(player.lp, faction.lp, (player.pending_sol_rewards + acc_d.0) as u64, (player.pending_staking_dbtc_rewards + acc_d.1) as u64)
    &&& loaded_match(staked.remove(first_key_index(staked, mint)), loaded)
    &&& raw <= u64::MAX
    &&& player.hashbeast_multiplier == old_eff
    &&& hp_d <= u64::MAX
    &&& hp_l <= u64::MAX
    &&& faction.degenbtc.hashpower >= player.degenbtc.hashpower
    &&& faction.degenbtc.hashpower - player.degenbtc.hashpower + hp_d <= u64::MAX
    &&& faction.lp.hashpower >= player.lp.hashpower
    &&& faction.lp.hashpower - player.lp.hashpower + hp_l <= u64::MAX
    &&& faction.hashbeasts_staked >= 1
}

/// What unstaking HashBeast `h0` does to the player, the faction and its
/// record, against the loaded records of the other staked HashBeasts.
pub open spec fn hb_unstaked(p0: PlayerData, p1: PlayerData, f0: FactionState, f1: FactionState, h0: HashBeastMetadata, h1: HashBeastMetadata, loaded: Seq<(Key, Key, u32)>, now: i64) -> bool {
    let acc_d = lane_accrual(p0.degenbtc, f0.degenbtc);
    let acc_l = lane_accrual(p0.lp, f0.lp);
    let (raw, old_eff, new_eff) = unstake_multipliers(loaded, h0.multiplier);
    let hp_d = mul_div_spec(p0.degenbtc.hashpower as int, new_eff, old_eff);
    let hp_l = mul_div_spec(p0.lp.hashpower as int, new_eff, old_eff);
    let staked = p0.staked_hashbeasts@;
    &&& p1.staked_hashbeasts@ == staked.remove(first_key_index(staked, h0.mint))
    &&& p1.hashbeast_multiplier == new_eff
    &&& p1.degenbtc.hashpower == hp_d
    &&& p1.lp.hashpower == hp_l
    &&& p1.degenbtc.staked == p0.degenbtc.staked
    &&& p1.lp.staked == p0.lp.staked
    &&& p1.degenbtc.sol_reward_debt == f0.degenbtc.sol_reward_index
    &&& p1.degenbtc.dbtc_reward_debt == f0.degenbtc.dbtc_reward_index
    &&& p1.lp.sol_reward_debt == f0.lp.sol_reward_index
    &&& p1.lp.dbtc_reward_debt == f0.lp.dbtc_reward_index
    &&& p1.pending_sol_rewards == p0.pending_sol_rewards + acc_d.0 + acc_l.0
    &&& p1.pending_staking_dbtc_rewards == p0.pending_staking_dbtc_rewards + acc_d.1 + acc_l.1
    &&& f1.degenbtc.hashpower == f0.degenbtc.hashpower - p0.degenbtc.hashpower + hp_d
    &&& f1.lp.hashpower == f0.lp.hashpower - p0.lp.hashpower + hp_l
    &&& f1.hashbeasts_staked == f0.hashbeasts_staked - 1
    &&& h1.incubated_player_data.is_zero()
    &&& h1.last_update_ts == now
    &&& p1 == (PlayerData {
        staked_hashbeasts: p1.staked_hashbeasts,
        hashbeast_multiplier: p1.hashbeast_multiplier,
        degenbtc: StakeLane {
            hashpower: p1.degenbtc.hashpower,
            sol_reward_debt: p1.degenbtc.sol_reward_debt,
            dbtc_reward_debt: p1.degenbtc.dbtc_reward_debt,
            ..p0.degenbtc
        },
        lp: StakeLane {
            hashpower: p1.lp.hashpower,
            sol_reward_debt: p1.lp.sol_reward_debt,
            dbtc_reward_debt: p1.lp.dbtc_reward_debt,
            ..p0.lp
        },
        pending_sol_rewards: p1.pending_sol_rewards,
        pending_staking_dbtc_rewards: p1.pending_staking_dbtc_rewards,
        ..p0
    })
    &&& f1 == (FactionState {
        degenbtc: FactionLane { hashpower: f1.degenbtc.hashpower, ..f0.degenbtc },
        lp: FactionLane { hashpower: f1.lp.hashpower, ..f0.lp },
        hashbeasts_staked: f1.hashbeasts_staked,
        ..f0
    })
    &&& h1 == (HashBeastMetadata { incubated_player_data: h1.incubated_player_data, last_update_ts: now, ..h0 })
}

/// Unstakes a passive HashBeast: the asset must sit in custody, be staked,
/// in the player's home faction, in the player's list, by this player.
/// Pending rewards of both lanes are accrued first; the effective multiplier
/// before and after is recomputed from the loaded records of the HashBeasts
/// that stay plus the leaving one, and both lanes' hashpower (and the
/// faction totals) are rescaled by new/old multiplier.
pub fn int_unstake_hashbeast(
    player: &mut PlayerData,
    faction: &mut FactionState,
    hb: &mut HashBeastMetadata,
    nft_owner: Key,
    custody: Key,
    loaded: &Vec<(Key, Key, u32)>,
    now: i64,
) -> (r: Result<(), ErrorCode>)
    ensures
        nft_owner != custody ==> r == Err::<(), ErrorCode>(ErrorCode::HashBeastNotAtGuard),
        nft_owner == custody && old(hb).incubated_player_data.is_zero() ==> r == Err::<(), ErrorCode>(ErrorCode::HashBeastNotAtGuard),
        nft_owner == custody && !old(hb).incubated_player_data.is_zero() && old(player).faction_id != old(faction).faction_id
            ==> r == Err::<(), ErrorCode>(ErrorCode::InvalidFactionId),
        nft_owner == custody && !old(hb).incubated_player_data.is_zero() && old(player).faction_id == old(faction).faction_id
            && !old(player).staked_hashbeasts@.contains(old(hb).mint) ==> r == Err::<(), ErrorCode>(ErrorCode::InvalidParameters),
        nft_owner == custody && !old(hb).incubated_player_data.is_zero() && old(player).faction_id == old(faction).faction_id
            && old(player).staked_hashbeasts@.contains(old(hb).mint) && old(hb).incubated_player_data != old(player).owner
            ==> r == Err::<(), ErrorCode>(ErrorCode::Unauthorized),
        nft_owner == custody && !old(hb).incubated_player_data.is_zero() && old(player).faction_id == old(faction).faction_id
            && old(player).staked_hashbeasts@.contains(old(hb).mint) && old(hb).incubated_player_data == old(player).owner
            ==> (r is Ok <==> hb_unstake_ok(*old(player), *old(faction), old(hb).mint, old(hb).multiplier, loaded@)),
        r is Ok ==> hb_unstaked(*old(player), *final(player), *old(faction), *final(faction), *old(hb), *final(hb), loaded@, now),
{
    if nft_owner != custody {
        return Err(ErrorCode::HashBeastNotAtGuard);
    }
    if hb.incubated_player_data.is_default() {
        return Err(ErrorCode::HashBeastNotAtGuard);
    }
    if player.faction_id != faction.faction_id {
        return Err(ErrorCode::InvalidFactionId);
    }
    let index = match position_of_key(&player.staked_hashbeasts, hb.mint) {
        Some(i) => i,
        None => return Err(ErrorCode::InvalidParameters),
    };
    if hb.incubated_player_data != player.owner {
        return Err(ErrorCode::Unauthorized);
    }
    update_staking_rewards(player, faction, LaneKind::DegenBtc)?;
    update_staking_rewards(player, faction, LaneKind::Lp)?;
    let mut remaining = player.staked_hashbeasts.clone();
    proof {
        assert(remaining@ == old(player).staked_hashbeasts@);
    }
    remaining.remove(index);
    let remaining_raw = match staked_raw_multiplier(&remaining, loaded) {
        Ok(v) => v,
        Err(e) => return Err(e),
    };
    proof {
        lemma_sum_multipliers_nonneg(loaded@);
        assert(old(hb).multiplier == hb.multiplier);
    }
    let current_raw = match remaining_raw.checked_add(hb.multiplier as u64) {
        Some(v) => v,
        None => return Err(ErrorCode::ArithmeticOverflow),
    };
    let old_multiplier = capped_player_multiplier(current_raw);
    if player.hashbeast_multiplier != old_multiplier {
        return Err(ErrorCode::InvalidState);
    }
    player.staked_hashbeasts.remove(index);
    let (_new_raw, new_multiplier) = match remove_hashbeast_multiplier(current_raw, hb.multiplier) {
        Ok(v) => v,
        Err(e) => return Err(e),
    };
    proof {
        lemma_capped_range(current_raw);
        lemma_capped_range(remaining_raw);
    }
    player.hashbeast_multiplier = new_multiplier;
    let old_d = player.degenbtc.hashpower;
    let old_l = player.lp.hashpower;
    let new_d = scale_hashpower_by_multiplier(old_d, new_multiplier as u64, old_multiplier as u64)?;
    let new_l = scale_hashpower_by_multiplier(old_l, new_multiplier as u64, old_multiplier as u64)?;
    player.degenbtc.hashpower = new_d;
    player.lp.hashpower = new_l;
    let (fd, fl) = update_faction_hashpower(faction.degenbtc.hashpower, faction.lp.hashpower, old_d, new_d, old_l, new_l)?;
    let staked_count = match faction.hashbeasts_staked.checked_sub(1) {
        Some(v) => v,
        None => return Err(ErrorCode::InvalidState),
    };
    faction.degenbtc.hashpower = fd;
    faction.lp.hashpower = fl;
    faction.hashbeasts_staked = staked_count;
    hb.incubated_player_data = Key::zero();
    hb.last_update_ts = now;
    Ok(())
}

/// A HashBeast just staked can be unstaked again: right after a successful
/// stake (with the faction's reward indexes as the stake left them), the
/// HashBeast is at the player's guard, in the player's staked list, and
/// unstaking it against the same records of the other staked HashBeasts
/// passes every check of `int_unstake_hashbeast`.
pub proof fn lemma_hashbeast_unstake_after_stake(
    p0: PlayerData,
    p1: PlayerData,
    f0: FactionState,
    f1: FactionState,
    h0: HashBeastMetadata,
    h1: HashBeastMetadata,
    loaded: Seq<(Key, Key, u32)>,
    staked_at: i64,
)
    requires
        h0.incubated_player_data.is_zero(),
        !p0.owner.is_zero(),
        p0.faction_id == f0.faction_id,
        !p0.staked_hashbeasts@.contains(h0.mint),
        hb_stake_ok(p0, f0, h0.multiplier, loaded),
        hb_staked(p0, p1, f0, f1, h0, h1, loaded, staked_at),
    ensures
        !h1.incubated_player_data.is_zero(),
        h1.incubated_player_data == p1.owner,
        p1.faction_id == f1.faction_id,
        p1.staked_hashbeasts@.contains(h1.mint),
        hb_unstake_ok(p1, f1, h1.mint, h1.multiplier, loaded),
{
    lemma_hashbeast_stake_roundtrip(p0.staked_hashbeasts@, h0.mint, loaded, h0.multiplier, p0.degenbtc.hashpower);
    lemma_hashbeast_stake_roundtrip(p0.staked_hashbeasts@, h0.mint, loaded, h0.multiplier, p0.lp.hashpower);
    let pushed = p0.staked_hashbeasts@.push(h0.mint);
    assert(pushed[pushed.len() - 1] == h0.mint);
    assert(p1.staked_hashbeasts@.contains(h1.mint));
    assert(mul_div_spec(p1.degenbtc.hashpower as int, 0, INDEX_PRECISION as int) == 0);
    assert(mul_div_spec(p1.lp.hashpower as int, 0, INDEX_PRECISION as int) == 0);
    lemma_sum_multipliers_nonneg(loaded);
    let raw = BASE_MULTIPLIER + sum_multipliers(loaded);
    lemma_capped_range(raw as u64);
    lemma_capped_range((raw + h0.multiplier) as u64);
}

/// Staking a HashBeast and then unstaking it, against the same records of
/// the other staked HashBeasts, gives the player back their staked list and
/// multiplier, leaves no lane with more hashpower than before, gives the
/// faction back its count of staked HashBeasts, and leaves the HashBeast's
/// record as it was but for its update time.
pub proof fn lemma_hashbeast_stake_unstake_calls(
    p0: PlayerData,
    p1: PlayerData,
    p2: PlayerData,
    f0: FactionState,
    f1: FactionState,
    f2: FactionState,
    h0: HashBeastMetadata,
    h1: HashBeastMetadata,
    h2: HashBeastMetadata,
    loaded: Seq<(Key, Key, u32)>,
    staked_at: i64,
    unstaked_at: i64,
)
    requires
        h0.incubated_player_data.is_zero(),
        !p0.staked_hashbeasts@.contains(h0.mint),
        hb_stake_ok(p0, f0, h0.multiplier, loaded),
        hb_staked(p0, p1, f0, f1, h0, h1, loaded, staked_at),
        hb_unstaked(p1, p2, f1, f2, h1, h2, loaded, unstaked_at),
    ensures
        p2.staked_hashbeasts@ == p0.staked_hashbeasts@,
        p2.hashbeast_multiplier == p0.hashbeast_multiplier,
        p2.degenbtc.hashpower <= p0.degenbtc.hashpower,
        p2.lp.hashpower <= p0.lp.hashpower,
        f2.hashbeasts_staked == f0.hashbeasts_staked,
        h2 == (HashBeastMetadata { last_update_ts: unstaked_at, ..h0 }),
{
    lemma_hashbeast_stake_roundtrip(p0.staked_hashbeasts@, h0.mint, loaded, h0.multiplier, p0.degenbtc.hashpower);
    lemma_hashbeast_stake_roundtrip(p0.staked_hashbeasts@, h0.mint, loaded, h0.multiplier, p0.lp.hashpower);
    assert(h2 == (HashBeastMetadata { last_update_ts: unstaked_at, ..h0 }));
}

/// Staking a HashBeast and unstaking it again, against the same records of
/// the other staked HashBeasts, puts the staked list back as it was, swaps
/// the effective multipliers back, and never leaves more hashpower than
/// before (the rescaling rounds down).
pub proof fn lemma_hashbeast_stake_roundtrip(staked: Seq<Key>, mint: Key, loaded: Seq<(Key, Key, u32)>, m: u32, hashpower: u64)
    requires
        !staked.contains(mint),
        BASE_MULTIPLIER + sum_multipliers(loaded) + m <= u64::MAX,
    ensures
        ({
            let pushed = staked.push(mint);
            pushed.remove(first_key_index(pushed, mint)) == staked
        }),
        ({
            let (raw, before, after) = stake_multipliers(loaded, m);
            unstake_multipliers(loaded, m) == (raw + m, after, before)
        }),
        ({
            let (_raw, before, after) = stake_multipliers(loaded, m);
            mul_div_spec(mul_div_spec(hashpower as int, after, before), before, after) <= hashpower
        }),
{
    lemma_sum_multipliers_nonneg(loaded);
    let pushed = staked.push(mint);
    let n = staked.len() as int;
    assert(pushed[n] == mint);
    let j = first_key_index(pushed, mint);
    assert(pushed.contains(mint));
    assert(0 <= j < pushed.len() && pushed[j] == mint && forall|a: int| 0 <= a < j ==> pushed[a] != mint) by {
        assert(exists|i: int| 0 <= i < pushed.len() && pushed[i] == mint && forall|a: int| 0 <= a < i ==> pushed[a] != mint) by {
            assert forall|a: int| 0 <= a < n implies pushed[a] != mint by {
                assert(pushed[a] == staked[a]);
            }
        }
    }
    assert(j == n) by {
        if j < n {
            assert(pushed[j] == staked[j]);
        }
    }
    assert(pushed.remove(j) =~= staked);
    let raw = BASE_MULTIPLIER + sum_multipliers(loaded);
    let before = capped_multiplier_spec(raw as u64);
    let after = capped_multiplier_spec((raw + m) as u64);
    lemma_capped_range(raw as u64);
    lemma_capped_range((raw + m) as u64);
    let h = hashpower as int;
    let x = h * after / before;
    assert(x * before <= h * after) by (nonlinear_arith)
        requires
            before > 0,
            x == h * after / before,
    {
    }
    assert(x * before / after <= h) by (nonlinear_arith)
        requires
            after > 0,
            x * before <= h * after,
            h >= 0,
    {
        assert(x * before / after <= h * after / after);
        assert(h * after / after == h);
    }
}

/// The genesis-mint configuration and counters that a mint batch reads and
/// advances.
#[derive(Debug, Clone)]
pub struct GenesisMintState {
    pub is_active: bool,
    pub genesis_mints: u64,
    pub genesis_mint_limit: u64,
    pub genesis_mints_by_faction: Vec<u16>,
    pub max_genesis_mints_per_faction: u16,
    pub tier_values: Vec<u64>,
    pub total_minted: u64,
}

/// What a paid mint batch charges and grants: the total bonding-curve
/// price, the referrer's commission, what goes to the fee recipient, the
/// tickets granted, and the mint number of the first new HashBeast.
#[derive(Debug, Clone, Copy, PartialEq, Eq, Structural)]
pub struct MintBatch {
    pub total_price: u64,
    pub referral_cut: u64,
    pub dev_amount: u64,
    pub ticket_count: u64,
    pub first_mint_number: u64,
}

/// Why a new asset of a batch is refused: it did not sign, or its metadata
/// account is not the one derived from it. Each asset is (asset address,
/// signed, metadata address).
pub open spec fn new_asset_error(a: (Key, bool, Key)) -> Option<ErrorCode> {
    if !a.1 {
        Some(ErrorCode::Unauthorized)
    } else if hashbeast_metadata_address(a.0) != Some(a.2) {
        Some(ErrorCode::InvalidAccount)
    } else {
        None
    }
}

/// The first reason, if any, to refuse a paid mint batch before its price is
/// known: batch size, the asset list, the pause switch, the minting switch,
/// the faction, the genesis supply and the faction's genesis cap.
pub open spec fn batch_mint_precheck(
    is_paused: bool,
    supported_factions: nat,
    st: GenesisMintState,
    assets: nat,
    faction_id: u8,
    mint_count: u8,
) -> Option<ErrorCode> {
    let by_faction = st.genesis_mints_by_faction@;
    if !(0 < mint_count <= MAX_MINT_BATCH) || assets != mint_count {
        Some(ErrorCode::InvalidParameters)
    } else if is_paused {
        Some(ErrorCode::GamePaused)
    } else if !st.is_active {
        Some(ErrorCode::MintingNotAllowed)
    } else if faction_id >= supported_factions {
        Some(ErrorCode::InvalidFactionId)
    } else if st.genesis_mints + mint_count > u64::MAX {
        Some(ErrorCode::ArithmeticOverflow)
    } else if st.genesis_mints + mint_count > st.genesis_mint_limit {
        Some(ErrorCode::InvalidParameters)
    } else if faction_id >= NUM_FACTIONS {
        Some(ErrorCode::InvalidFactionId)
    } else if by_faction[faction_id as int] + mint_count > u16::MAX {
        Some(ErrorCode::ArithmeticOverflow)
    } else if by_faction[faction_id as int] + mint_count > st.max_genesis_mints_per_faction {
        Some(ErrorCode::InvalidParameters)
    } else if st.tier_values.len() != TICKET_TIER_COUNT {
        Some(ErrorCode::InvalidParameters)
    } else if st.total_minted + mint_count > u64::MAX {
        Some(ErrorCode::ArithmeticOverflow)
    } else {
        None
    }
}

/// Whether a paid mint batch passes every check before the new assets are
/// looked at: the request checks, a total that fits, a valid referrer whose
/// balances take the commission, and a ticket tier with a slot for it.
pub open spec fn batch_mint_charge_ok(
    is_paused: bool,
    supported_factions: nat,
    st: GenesisMintState,
    player: PlayerData,
    referrer: Option<ReferrerAccount>,
    prices: Seq<u64>,
    assets: nat,
    faction_id: u8,
    mint_count: u8,
    ticket_tier_index: u8,
) -> bool {
    let total = sum_prices(prices);
    let has_ref = !player.referral_code.is_zero();
    let cut = mul_div_spec(total, referral_bps_spec(has_ref, player.faction_id, player.referrer_faction_id), BASIS_POINTS_DENOMINATOR as int);
    &&& batch_mint_precheck(is_paused, supported_factions, st, assets, faction_id, mint_count) is None
    &&& total <= u64::MAX
    &&& has_ref ==> {
        &&& referrer_account_error(player.referral_code, referrer) is None
        &&& referrer->0.rewards.pending_sol_rewards + cut <= u64::MAX
        &&& referrer->0.rewards.total_sol_earned + cut <= u64::MAX
    }
    &&& ticket_tier_index < TICKET_TIER_COUNT
    &&& (player.free_tickets@.contains(st.tier_values@[ticket_tier_index as int]) || player.free_tickets.len() < MAX_TICKET_TYPES)
}

/// Prices, charges and books a paid genesis batch of `mint_count`
/// HashBeasts whose successive bonding-curve prices are `prices`: checks the
/// request, pays the referrer 1% (same country) or 0.5% of the total, the
/// rest to the fee recipient, grants tickets of the chosen tier for the
/// total, checks each new asset, and advances the mint counters. Returns
/// the charge and the record of each new HashBeast (its asset, no parents,
/// generation zero, the batch's country, and the DNA and record bump given
/// for it in `new_hashbeasts`).
#[verifier::loop_isolation(false)]
pub fn int_batch_mint_hashbeasts(
    is_paused: bool,
    supported_factions: usize,
    st: &mut GenesisMintState,
    player: &mut PlayerData,
    referrer: &mut Option<ReferrerAccount>,
    prices: &Vec<u64>,
    assets: &Vec<(Key, bool, Key)>,
    faction_id: u8,
    mint_count: u8,
    ticket_tier_index: u8,
    new_hashbeasts: &Vec<([u8; 32], u8)>,
    now: i64,
) -> (r: Result<(MintBatch, Vec<HashBeastMetadata>), ErrorCode>)
    requires
        prices.len() == mint_count,
        new_hashbeasts.len() == mint_count,
        old(st).genesis_mints_by_faction.len() == NUM_FACTIONS,
        old(player).free_tickets.len() == old(player).free_tickets_remaining.len(),
        ticket_tier_index < old(st).tier_values.len() ==> forall|j: int|
            0 <= j < old(player).free_tickets.len() && #[trigger] old(player).free_tickets@[j] == old(st).tier_values@[ticket_tier_index as int]
                ==> old(player).free_tickets_remaining@[j] + (if old(st).tier_values@[ticket_tier_index as int] == 0 { 0 } else {
                    sum_prices(prices@) / (old(st).tier_values@[ticket_tier_index as int] as int) }) <= u64::MAX,
    ensures
        batch_mint_precheck(is_paused, supported_factions as nat, *old(st), assets.len() as nat, faction_id, mint_count) matches Some(e)
            ==> r == Err::<(MintBatch, Vec<HashBeastMetadata>), ErrorCode>(e),
        batch_mint_precheck(is_paused, supported_factions as nat, *old(st), assets.len() as nat, faction_id, mint_count) is None
            && sum_prices(prices@) > u64::MAX ==> r == Err::<(MintBatch, Vec<HashBeastMetadata>), ErrorCode>(ErrorCode::ArithmeticOverflow),
        batch_mint_precheck(is_paused, supported_factions as nat, *old(st), assets.len() as nat, faction_id, mint_count) is None
            && sum_prices(prices@) <= u64::MAX && !old(player).referral_code.is_zero()
            && referrer_account_error(old(player).referral_code, *old(referrer)) is Some
            ==> r == Err::<(MintBatch, Vec<HashBeastMetadata>), ErrorCode>(referrer_account_error(old(player).referral_code, *old(referrer))->0),
        r matches Ok((b, recs)) ==> {
            let total = sum_prices(prices@);
            let bps = referral_bps_spec(!old(player).referral_code.is_zero(), old(player).faction_id, old(player).referrer_faction_id);
            let value = old(st).tier_values@[ticket_tier_index as int];
            &&& recs@ == Seq::new(mint_count as nat, |k: int| new_hashbeast(assets@[k].0, Key { w0: 0, w1: 0, w2: 0, w3: 0 },
                Key { w0: 0, w1: 0, w2: 0, w3: 0 }, 0, new_hashbeasts@[k].0, faction_id, now, new_hashbeasts@[k].1))
            &&& b.total_price == total
            &&& b.referral_cut == mul_div_spec(total, bps, BASIS_POINTS_DENOMINATOR as int)
            &&& b.dev_amount == total - b.referral_cut
            &&& b.ticket_count == (if value == 0 { 0 } else { total / (value as int) })
            &&& b.first_mint_number == old(st).total_minted + 1
            &&& forall|k: int| 0 <= k < assets.len() ==> new_asset_error(#[trigger] assets@[k]) is None
            &&& final(st).total_minted == old(st).total_minted + mint_count
            &&& final(st).genesis_mints == old(st).genesis_mints + mint_count
            &&& final(st).genesis_mints_by_faction@ == old(st).genesis_mints_by_faction@.update(faction_id as int,
                (old(st).genesis_mints_by_faction@[faction_id as int] + mint_count) as u16)
            &&& final(st).tier_values@ == old(st).tier_values@
            &&& tickets_added(old(player).free_tickets@, old(player).free_tickets_remaining@, final(player).free_tickets@,
                final(player).free_tickets_remaining@, old(st).tier_values@, ticket_tier_index, total as u64, Ok(b.ticket_count))
            &&& *final(player) == (PlayerData {
                free_tickets: final(player).free_tickets,
                free_tickets_remaining: final(player).free_tickets_remaining,
                ..*old(player)
            })
            &&& (old(player).referral_code.is_zero() ==> *final(referrer) == *old(referrer))
            &&& (!old(player).referral_code.is_zero() ==> {
                let before = (*old(referrer))->0.rewards;
                let after = (*final(referrer))->0.rewards;
                &&& *final(referrer) is Some
                &&& (*final(referrer))->0.address == (*old(referrer))->0.address
                &&& after.pending_sol_rewards == before.pending_sol_rewards + b.referral_cut
                &&& after.total_sol_earned == before.total_sol_earned + b.referral_cut
                &&& after.owner == before.owner
                &&& after.referrals_count == before.referrals_count
            })
        },
        batch_mint_charge_ok(is_paused, supported_factions as nat, *old(st), *old(player), *old(referrer), prices@, assets.len() as nat,
            faction_id, mint_count, ticket_tier_index) ==> (r is Ok <==> forall|k: int| 0 <= k < assets.len() ==> new_asset_error(#[trigger] assets@[k]) is None),
        forall|k: int| 0 <= k < assets.len() && new_asset_error(#[trigger] assets@[k]) is Some
            && (forall|j: int| 0 <= j < k ==> new_asset_error(assets@[j]) is None)
            && batch_mint_charge_ok(is_paused, supported_factions as nat, *old(st), *old(player), *old(referrer), prices@, assets.len() as nat,
                faction_id, mint_count, ticket_tier_index)
            ==> r == Err::<(MintBatch, Vec<HashBeastMetadata>), ErrorCode>(new_asset_error(assets@[k])->0),
        ({
            let total = sum_prices(prices@);
            let has_ref = !old(player).referral_code.is_zero();
            let cut = mul_div_spec(total, referral_bps_spec(has_ref, old(player).faction_id, old(player).referrer_faction_id),
                BASIS_POINTS_DENOMINATOR as int);
            let overflow = has_ref && ((*old(referrer))->0.rewards.pending_sol_rewards + cut > u64::MAX
                || (*old(referrer))->0.rewards.total_sol_earned + cut > u64::MAX);
            batch_mint_precheck(is_paused, supported_factions as nat, *old(st), assets.len() as nat, faction_id, mint_count) is None
                && total <= u64::MAX && (has_ref ==> referrer_account_error(old(player).referral_code, *old(referrer)) is None)
                && !batch_mint_charge_ok(is_paused, supported_factions as nat, *old(st), *old(player), *old(referrer), prices@,
                    assets.len() as nat, faction_id, mint_count, ticket_tier_index)
                ==> r == Err::<(MintBatch, Vec<HashBeastMetadata>), ErrorCode>(if overflow { ErrorCode::ArithmeticOverflow } else { ErrorCode::InvalidParameters })
        }),
        r is Ok ==> final(st).is_active == old(st).is_active && final(st).genesis_mint_limit == old(st).genesis_mint_limit
            && final(st).max_genesis_mints_per_faction == old(st).max_genesis_mints_per_faction
            && final(st).tier_values@ == old(st).tier_values@,
{
    if !(mint_count > 0 && mint_count as u64 <= MAX_MINT_BATCH) || assets.len() != mint_count as usize {
        return Err(ErrorCode::InvalidParameters);
    }
    if is_paused {
        return Err(ErrorCode::GamePaused);
    }
    if !st.is_active {
        return Err(ErrorCode::MintingNotAllowed);
    }
    if faction_id as usize >= supported_factions {
        return Err(ErrorCode::InvalidFactionId);
    }
    let after = match st.genesis_mints.checked_add(mint_count as u64) {
        Some(v) => v,
        None => return Err(ErrorCode::ArithmeticOverflow),
    };
    if after > st.genesis_mint_limit {
        return Err(ErrorCode::InvalidParameters);
    }
    validate_genesis_faction_cap(st, faction_id, mint_count)?;
    let (total, _tickets) = int_simulate_mint_cost(st.genesis_mints, st.genesis_mint_limit, st.total_minted, &st.tier_values, prices, mint_count as u64)?;
    let has_ref = !player.referral_code.is_default();
    let mut cut: u64 = 0;
    if has_ref {
        validate_referrer_rewards_account(player.referral_code, referrer)?;
        let bps = referral_bps(true, player.faction_id, player.referrer_faction_id);
        let wide = mul_div(total, bps, 10_000)?;
        proof {
            assert(mul_div_spec(total as int, bps as int, 10_000) <= total) by (nonlinear_arith)
                requires
                    bps <= 10_000,
            {
            }
        }
        cut = wide as u64;
        match referrer {
            Some(rr) => {
                let pending = match rr.rewards.pending_sol_rewards.checked_add(cut) {
                    Some(v) => v,
                    None => return Err(ErrorCode::ArithmeticOverflow),
                };
                let earned = match rr.rewards.total_sol_earned.checked_add(cut) {
                    Some(v) => v,
                    None => return Err(ErrorCode::ArithmeticOverflow),
                };
                rr.rewards.pending_sol_rewards = pending;
                rr.rewards.total_sol_earned = earned;
            },
            None => return Err(ErrorCode::ReferralRewardsAccountRequired),
        }
    }
    let dev_amount = total - cut;
    let ticket_count = add_tickets_to_player(
        &mut player.free_tickets,
        &mut player.free_tickets_remaining,
        &st.tier_values,
        ticket_tier_index,
        total,
    )?;
    let mut recs: Vec<HashBeastMetadata> = Vec::new();
    let mut i: usize = 0;
    while i < assets.len()
        invariant
            i <= assets.len(),
            assets.len() == mint_count,
            new_hashbeasts.len() == mint_count,
            forall|j: int| 0 <= j < i ==> new_asset_error(#[trigger] assets@[j]) is None,
            recs@ == Seq::new(i as nat, |k: int| new_hashbeast(assets@[k].0, Key { w0: 0, w1: 0, w2: 0, w3: 0 },
                Key { w0: 0, w1: 0, w2: 0, w3: 0 }, 0, new_hashbeasts@[k].0, faction_id, now, new_hashbeasts@[k].1)),
        decreases assets.len() - i,
    {
        let (asset, signed, metadata) = assets[i];
        if !signed {
            return Err(ErrorCode::Unauthorized);
        }
        if find_program_address(HASHBEAST_METADATA_SEED.as_slice(), asset.to_bytes().as_slice(), program_id()) != Some(metadata) {
            return Err(ErrorCode::InvalidAccount);
        }
        let (dna, bump) = new_hashbeasts[i];
        recs.push(fresh_hashbeast(asset, Key::zero(), Key::zero(), 0, dna, faction_id, now, bump));
        i += 1;
        assert(recs@ =~= Seq::new(i as nat, |k: int| new_hashbeast(assets@[k].0, Key { w0: 0, w1: 0, w2: 0, w3: 0 },
            Key { w0: 0, w1: 0, w2: 0, w3: 0 }, 0, new_hashbeasts@[k].0, faction_id, now, new_hashbeasts@[k].1)));
    }
    let first_mint_number = st.total_minted + 1;
    st.total_minted = st.total_minted + mint_count as u64;
    st.genesis_mints = after;
    let f = faction_id as usize;
    let next = st.genesis_mints_by_faction[f] + mint_count as u16;
    st.genesis_mints_by_faction.set(f, next);
    Ok((MintBatch { total_price: total, referral_cut: cut, dev_amount, ticket_count, first_mint_number }, recs))
}

/// What a free genesis mint grants: the tickets of the chosen tier for the
/// HashBeast's notional curve price, and its mint number.
#[derive(Debug, Clone, Copy, PartialEq, Eq, Structural)]
pub struct FreeMint {
    pub ticket_count: u64,
    pub mint_number: u64,
}

/// The tickets a free mint grants (none when no tier is configured), with
/// the player's ticket vectors after it, or the refusal.
pub open spec fn free_mint_tickets(player: PlayerData, tiers: Seq<u64>, tier: u8, price: u64) -> Result<u64, ErrorCode> {
    if tiers.len() == 0 {
        Ok(0)
    } else if tier >= tiers.len() || tiers.len() != TICKET_TIER_COUNT {
        Err(ErrorCode::InvalidParameters)
    } else {
        let value = tiers[tier as int];
        let count = if value == 0 { 0 } else { price / value };
        if !player.free_tickets@.contains(value) && player.free_tickets.len() >= MAX_TICKET_TYPES {
            Err(ErrorCode::InvalidParameters)
        } else {
            Ok(count as u64)
        }
    }
}

/// The checks a free mint shares with every genesis mint: a supported
/// faction, genesis supply left, and room under the faction's cap.
pub open spec fn genesis_single_error(st: GenesisMintState, supported: nat, faction_id: u8) -> Option<ErrorCode> {
    let by_faction = st.genesis_mints_by_faction@;
    if faction_id >= supported {
        Some(ErrorCode::InvalidFactionId)
    } else if st.genesis_mints >= st.genesis_mint_limit {
        Some(ErrorCode::InvalidParameters)
    } else if faction_id >= NUM_FACTIONS {
        Some(ErrorCode::InvalidFactionId)
    } else if by_faction[faction_id as int] + 1 > u16::MAX {
        Some(ErrorCode::ArithmeticOverflow)
    } else if by_faction[faction_id as int] + 1 > st.max_genesis_mints_per_faction {
        Some(ErrorCode::InvalidParameters)
    } else {
        None
    }
}

/// What a free mint credits to the player: tickets of the tier (when the
/// game has tiers), nothing else.
pub open spec fn free_mint_credited(p0: PlayerData, p1: PlayerData, tiers: Seq<u64>, tier: u8, price: u64, n: u64) -> bool {
    &&& p1 == (PlayerData { free_tickets: p1.free_tickets, free_tickets_remaining: p1.free_tickets_remaining, ..p0 })
    &&& if tiers.len() == 0 {
        p1.free_tickets@ == p0.free_tickets@ && p1.free_tickets_remaining@ == p0.free_tickets_remaining@ && n == 0
    } else {
        tickets_added(p0.free_tickets@, p0.free_tickets_remaining@, p1.free_tickets@, p1.free_tickets_remaining@, tiers, tier, price, Ok(n))
    }
}

/// Books one free genesis HashBeast: tickets for its notional price, and
/// one more mint in every counter.
fn book_free_mint(st: &mut GenesisMintState, player: &mut PlayerData, faction_id: u8, tier: u8, notional_price: u64) -> (r: Result<FreeMint, ErrorCode>)
    requires
        old(st).genesis_mints_by_faction.len() == NUM_FACTIONS,
        faction_id < NUM_FACTIONS,
        old(st).genesis_mints < old(st).genesis_mint_limit,
        old(st).genesis_mints_by_faction@[faction_id as int] + 1 <= u16::MAX,
        old(st).total_minted < u64::MAX,
        old(player).free_tickets.len() == old(player).free_tickets_remaining.len(),
        tier < old(st).tier_values.len() ==> forall|j: int|
            0 <= j < old(player).free_tickets.len() && #[trigger] old(player).free_tickets@[j] == old(st).tier_values@[tier as int]
                ==> old(player).free_tickets_remaining@[j] + (if old(st).tier_values@[tier as int] == 0 { 0 } else {
                    notional_price / old(st).tier_values@[tier as int] }) <= u64::MAX,
    ensures
        r == (match free_mint_tickets(*old(player), old(st).tier_values@, tier, notional_price) {
            Ok(n) => Ok::<FreeMint, ErrorCode>(FreeMint { ticket_count: n, mint_number: (old(st).total_minted + 1) as u64 }),
            Err(e) => Err(e),
        }),
        r is Ok ==> {
            &&& final(st).total_minted == old(st).total_minted + 1
            &&& final(st).genesis_mints == old(st).genesis_mints + 1
            &&& final(st).genesis_mints_by_faction@ == old(st).genesis_mints_by_faction@.update(faction_id as int,
                (old(st).genesis_mints_by_faction@[faction_id as int] + 1) as u16)
            &&& final(st).tier_values@ == old(st).tier_values@
        },
        r matches Ok(m) ==> free_mint_credited(*old(player), *final(player), old(st).tier_values@, tier, notional_price, m.ticket_count),
        r is Ok ==> final(st).is_active == old(st).is_active && final(st).genesis_mint_limit == old(st).genesis_mint_limit
            && final(st).max_genesis_mints_per_faction == old(st).max_genesis_mints_per_faction
            && final(st).tier_values@ == old(st).tier_values@,
{
    let ticket_count = if st.tier_values.len() == 0 {
        0
    } else {
        add_tickets_to_player(&mut player.free_tickets, &mut player.free_tickets_remaining, &st.tier_values, tier, notional_price)?
    };
    let mint_number = st.total_minted + 1;
    st.total_minted = mint_number;
    st.genesis_mints = st.genesis_mints + 1;
    let f = faction_id as usize;
    let next = st.genesis_mints_by_faction[f] + 1;
    st.genesis_mints_by_faction.set(f, next);
    Ok(FreeMint { ticket_count, mint_number })
}

/// The admin's free genesis mint for `recipient`: the recipient account
/// must be the one named, the faction supported and within its cap, and
/// genesis supply left; the recipient's player gets the tickets of the
/// notional price.
pub fn int_admin_mint_hashbeast(
    st: &mut GenesisMintState,
    player: &mut PlayerData,
    recipient_account: Key,
    recipient: Key,
    supported_factions: usize,
    faction_id: u8,
    tier: u8,
    notional_price: u64,
) -> (r: Result<FreeMint, ErrorCode>)
    requires
        old(st).genesis_mints_by_faction.len() == NUM_FACTIONS,
        old(player).free_tickets.len() == old(player).free_tickets_remaining.len(),
        tier < old(st).tier_values.len() ==> forall|j: int|
            0 <= j < old(player).free_tickets.len() && #[trigger] old(player).free_tickets@[j] == old(st).tier_values@[tier as int]
                ==> old(player).free_tickets_remaining@[j] + (if old(st).tier_values@[tier as int] == 0 { 0 } else {
                    notional_price / old(st).tier_values@[tier as int] }) <= u64::MAX,
    ensures
        recipient_account != recipient ==> r == Err::<FreeMint, ErrorCode>(ErrorCode::InvalidAccount),
        recipient_account == recipient && genesis_single_error(*old(st), supported_factions as nat, faction_id) is Some
            ==> r == Err::<FreeMint, ErrorCode>(genesis_single_error(*old(st), supported_factions as nat, faction_id)->0),
        recipient_account == recipient && genesis_single_error(*old(st), supported_factions as nat, faction_id) is None
            && old(st).total_minted == u64::MAX ==> r == Err::<FreeMint, ErrorCode>(ErrorCode::ArithmeticOverflow),
        recipient_account == recipient && genesis_single_error(*old(st), supported_factions as nat, faction_id) is None
            && old(st).total_minted < u64::MAX ==> {
            &&& r == (match free_mint_tickets(*old(player), old(st).tier_values@, tier, notional_price) {
                Ok(n) => Ok::<FreeMint, ErrorCode>(FreeMint { ticket_count: n, mint_number: (old(st).total_minted + 1) as u64 }),
                Err(e) => Err(e),
            })
            &&& r is Ok ==> final(st).total_minted == old(st).total_minted + 1 && final(st).genesis_mints == old(st).genesis_mints + 1
                && final(st).genesis_mints_by_faction@ == old(st).genesis_mints_by_faction@.update(faction_id as int,
                    (old(st).genesis_mints_by_faction@[faction_id as int] + 1) as u16)
        },
        r matches Ok(m) ==> free_mint_credited(*old(player), *final(player), old(st).tier_values@, tier, notional_price, m.ticket_count),
        r is Ok ==> final(st).is_active == old(st).is_active && final(st).genesis_mint_limit == old(st).genesis_mint_limit
            && final(st).max_genesis_mints_per_faction == old(st).max_genesis_mints_per_faction
            && final(st).tier_values@ == old(st).tier_values@,
{
    if recipient_account != recipient {
        return Err(ErrorCode::InvalidAccount);
    }
    if faction_id as usize >= supported_factions {
        return Err(ErrorCode::InvalidFactionId);
    }
    if st.genesis_mints >= st.genesis_mint_limit {
        return Err(ErrorCode::InvalidParameters);
    }
    validate_genesis_faction_cap(st, faction_id, 1)?;
    if st.total_minted == u64::MAX {
        return Err(ErrorCode::ArithmeticOverflow);
    }
    book_free_mint(st, player, faction_id, tier, notional_price)
}

/// A whitelisted user's free mint allowance.
#[derive(Debug, Clone, Copy, PartialEq, Eq, Structural)]
pub struct FreeMintAllowance {
    pub user: Key,
    pub remaining_free_mints: u32,
}

/// A whitelisted user's free genesis mint: minting must be on and the game
/// not paused, the faction supported and within its cap, genesis supply
/// left, the allowance the user's with a mint left, and the new asset must
/// sign. The user's player gets the tickets of the notional price and the
/// allowance shrinks by one.
pub fn int_whitelist_mint_hashbeast(
    is_paused: bool,
    st: &mut GenesisMintState,
    player: &mut PlayerData,
    allowance: &mut FreeMintAllowance,
    user: Key,
    asset_signed: bool,
    supported_factions: usize,
    faction_id: u8,
    tier: u8,
    notional_price: u64,
) -> (r: Result<FreeMint, ErrorCode>)
    requires
        old(st).genesis_mints_by_faction.len() == NUM_FACTIONS,
        old(player).free_tickets.len() == old(player).free_tickets_remaining.len(),
        tier < old(st).tier_values.len() ==> forall|j: int|
            0 <= j < old(player).free_tickets.len() && #[trigger] old(player).free_tickets@[j] == old(st).tier_values@[tier as int]
                ==> old(player).free_tickets_remaining@[j] + (if old(st).tier_values@[tier as int] == 0 { 0 } else {
                    notional_price / old(st).tier_values@[tier as int] }) <= u64::MAX,
    ensures
        is_paused ==> r == Err::<FreeMint, ErrorCode>(ErrorCode::GamePaused),
        !is_paused && !old(st).is_active ==> r == Err::<FreeMint, ErrorCode>(ErrorCode::MintingNotAllowed),
        !is_paused && old(st).is_active && genesis_single_error(*old(st), supported_factions as nat, faction_id) is Some
            ==> r == Err::<FreeMint, ErrorCode>(genesis_single_error(*old(st), supported_factions as nat, faction_id)->0),
        !is_paused && old(st).is_active && genesis_single_error(*old(st), supported_factions as nat, faction_id) is None ==> {
            if old(allowance).user != user {
                r == Err::<FreeMint, ErrorCode>(ErrorCode::Unauthorized)
            } else if old(allowance).remaining_free_mints == 0 {
                r == Err::<FreeMint, ErrorCode>(ErrorCode::NoFreeHashBeastMintsRemaining)
            } else if !asset_signed {
                r == Err::<FreeMint, ErrorCode>(ErrorCode::Unauthorized)
            } else if old(st).total_minted == u64::MAX {
                r == Err::<FreeMint, ErrorCode>(ErrorCode::ArithmeticOverflow)
            } else {
                &&& r == (match free_mint_tickets(*old(player), old(st).tier_values@, tier, notional_price) {
                    Ok(n) => Ok::<FreeMint, ErrorCode>(FreeMint { ticket_count: n, mint_number: (old(st).total_minted + 1) as u64 }),
                    Err(e) => Err(e),
                })
                &&& r is Ok ==> final(allowance).remaining_free_mints == old(allowance).remaining_free_mints - 1
                    && final(allowance).user == old(allowance).user
                    && final(st).total_minted == old(st).total_minted + 1 && final(st).genesis_mints == old(st).genesis_mints + 1
                    && final(st).genesis_mints_by_faction@ == old(st).genesis_mints_by_faction@.update(faction_id as int,
                        (old(st).genesis_mints_by_faction@[faction_id as int] + 1) as u16)
            }
        },
        r matches Ok(m) ==> free_mint_credited(*old(player), *final(player), old(st).tier_values@, tier, notional_price, m.ticket_count),
        r is Ok ==> final(st).is_active == old(st).is_active && final(st).genesis_mint_limit == old(st).genesis_mint_limit
            && final(st).max_genesis_mints_per_faction == old(st).max_genesis_mints_per_faction
            && final(st).tier_values@ == old(st).tier_values@,
{
    if is_paused {
        return Err(ErrorCode::GamePaused);
    }
    if !st.is_active {
        return Err(ErrorCode::MintingNotAllowed);
    }
    if faction_id as usize >= supported_factions {
        return Err(ErrorCode::InvalidFactionId);
    }
    if st.genesis_mints >= st.genesis_mint_limit {
        return Err(ErrorCode::InvalidParameters);
    }
    validate_genesis_faction_cap(st, faction_id, 1)?;
    if allowance.user != user {
        return Err(ErrorCode::Unauthorized);
    }
    if allowance.remaining_free_mints == 0 {
        return Err(ErrorCode::NoFreeHashBeastMintsRemaining);
    }
    if !asset_signed {
        return Err(ErrorCode::Unauthorized);
    }
    if st.total_minted == u64::MAX {
        return Err(ErrorCode::ArithmeticOverflow);
    }
    let minted = book_free_mint(st, player, faction_id, tier, notional_price)?;
    allowance.remaining_free_mints = allowance.remaining_free_mints - 1;
    Ok(minted)
}

/// The Metaplex Core program that owns every HashBeast asset account.
pub open spec fn mpl_core_program() -> Key {
    Key { w0: 4802411415944778927, w1: 927048387255574176, w2: 14818777819162907859, w3: 5235253298490932937 }
}

/// The owner recorded in a Metaplex Core asset account's data, if the data
/// reads as a base asset.
pub uninterp spec fn core_asset_owner(data: Seq<u8>) -> Option<Key>;

/// Reads a Metaplex Core asset account's data as `BaseAssetV1` (mpl-core's
/// `from_bytes`, a Borsh read) and takes its `owner`. The contract names the
/// owner as a function of the bytes; `None` is a failed read.
#[verifier::external_body]
fn read_core_asset_owner(data: &[u8]) -> (r: Option<Key>)
    ensures
        r == core_asset_owner(data@),
{
    mpl_core::accounts::BaseAssetV1::from_bytes(data).ok().map(|asset| Key::from_bytes(&asset.owner.to_bytes()))
}

/// The owner of a HashBeast asset: the account must belong to the Metaplex
/// Core program (`InvalidMplCoreProgram`) and its data must read as an asset
/// (`InvalidAccount`).
pub fn get_mpl_core_owner(account_program: Key, data: &[u8]) -> (r: Result<Key, ErrorCode>)
    ensures
        account_program != mpl_core_program() ==> r == Err::<Key, ErrorCode>(ErrorCode::InvalidMplCoreProgram),
        account_program == mpl_core_program() ==> r == (match core_asset_owner(data@) {
            Some(owner) => Ok::<Key, ErrorCode>(owner),
            None => Err(ErrorCode::InvalidAccount),
        }),
{
    let core = Key {
        w0: 4802411415944778927,
        w1: 927048387255574176,
        w2: 14818777819162907859,
        w3: 5235253298490932937,
    };
    if account_program != core {
        return Err(ErrorCode::InvalidMplCoreProgram);
    }
    match read_core_asset_owner(data) {
        Some(owner) => Ok(owner),
        None => Err(ErrorCode::InvalidAccount),
    }
}

/// Anchor's account discriminator of a player account (the first eight
/// bytes of its data).
pub const PLAYER_DATA_DISCRIMINATOR: [u8; 8] = [197, 65, 216, 202, 43, 139, 147, 128];

/// Why raw account data is not the player account of `expected_owner`: an
/// account the game program does not own, data too short or of another
/// kind (`InvalidAccount`), or another owner recorded after the
/// discriminator and bump (`Unauthorized`).
pub open spec fn player_data_owner_error(account_owner: Key, data: Seq<u8>, expected_owner: Key) -> Option<ErrorCode> {
    if account_owner != game_program() {
        Some(ErrorCode::InvalidAccount)
    } else if data.len() < 41 {
        Some(ErrorCode::InvalidAccount)
    } else if data.subrange(0, 8) != PLAYER_DATA_DISCRIMINATOR@ {
        Some(ErrorCode::InvalidAccount)
    } else if data.subrange(9, 41) != expected_owner.bytes() {
        Some(ErrorCode::Unauthorized)
    } else {
        None
    }
}

/// Checks that raw account data is the player account of `expected_owner`.
pub fn assert_player_data_owner(account_owner: Key, data: &[u8], expected_owner: Key) -> (r: Result<(), ErrorCode>)
    ensures
        r == (match player_data_owner_error(account_owner, data@, expected_owner) {
            Some(e) => Err::<(), ErrorCode>(e),
            None => Ok(()),
        }),
{
    if account_owner != program_id() {
        return Err(ErrorCode::InvalidAccount);
    }
    if data.len() < 41 {
        return Err(ErrorCode::InvalidAccount);
    }
    let mut i: usize = 0;
    while i < 8
        invariant
            account_owner == game_program(),
            data@.len() >= 41,
            i <= 8,
            forall|j: int| 0 <= j < i ==> data@[j] == PLAYER_DATA_DISCRIMINATOR@[j],
        decreases 8 - i,
    {
        if data[i] != PLAYER_DATA_DISCRIMINATOR[i] {
            proof {
                assert(data@.subrange(0, 8)[i as int] != PLAYER_DATA_DISCRIMINATOR@[i as int]);
            }
            return Err(ErrorCode::InvalidAccount);
        }
        i += 1;
    }
    proof {
        assert(data@.subrange(0, 8) =~= PLAYER_DATA_DISCRIMINATOR@);
    }
    let owner = expected_owner.to_bytes();
    let mut j: usize = 0;
    while j < 32
        invariant
            account_owner == game_program(),
            data@.len() >= 41,
            data@.subrange(0, 8) == PLAYER_DATA_DISCRIMINATOR@,
            owner@ == expected_owner.bytes(),
            j <= 32,
            forall|t: int| 0 <= t < j ==> data@[9 + t] == owner@[t],
        decreases 32 - j,
    {
        if data[9 + j] != owner[j] {
            proof {
                assert(data@.subrange(9, 41)[j as int] != owner@[j as int]);
            }
            return Err(ErrorCode::Unauthorized);
        }
        j += 1;
    }
    proof {
        assert(data@.subrange(9, 41) =~= owner@);
    }
    Ok(())
}

} // verus!
