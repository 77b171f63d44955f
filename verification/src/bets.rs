//! Round betting: pricing of SOL and ticket bets, fee routing, and the
//! per-position bookkeeping of a user's round and faction-war bets.
use vstd::prelude::*;

use crate::constants::{
    BASE_MULTIPLIER, DIRECTION_COUNT, MAX_POSITIONS_PER_BET, MAX_REFERRER_SOL_LIFETIME,
    MIN_SOL_BET_PER_POSITION, M_HUNDRED, NUM_FACTIONS, REFERRAL_FEE_BPS_CROSS_FACTION,
    REFERRAL_FEE_BPS_SAME_FACTION,
};
use crate::errors::ErrorCode;
use crate::math::{handle_fee, mul_div_spec, mul_div_u64, validate_min_sol_bet_per_position,
    validate_points_percentage_limit, points_within_limit};
use crate::state::{cell, cell_index, BetType, Key, PlayerData};

verus! {

/// The round being played: its stage and clock, and the bet aggregates that
/// settle_round later folds into the faction war.
#[derive(Debug, Clone)]
pub struct GameSession {
    pub round_id: u64,
    pub stage: u8,
    pub round_end_timestamp: i64,
    pub war_id_when_played: u64,
    pub total_sol_bets: u64,
    pub total_points_bets: u64,
    pub total_wgtd_points_bets: u64,
    pub stakers_fee: u64,
    pub cycle_sol_pool: u64,
    /// Number of distinct users that bet on each faction (one entry per faction).
    pub user_faction_indexes: Vec<u64>,
    /// SOL bet on each faction (one entry per faction).
    pub sol_bets_by_faction: Vec<u64>,
    /// Points bet per (faction, direction) cell.
    pub points_bets_by_faction_direction: Vec<u64>,
    /// Weighted points bet per (faction, direction) cell.
    pub wgtd_points_bets_by_faction_direction: Vec<u64>,
}

impl GameSession {
    pub open spec fn wf(self) -> bool {
        &&& self.user_faction_indexes.len() == NUM_FACTIONS
        &&& self.sol_bets_by_faction.len() == NUM_FACTIONS
        &&& self.points_bets_by_faction_direction.len() == NUM_FACTIONS * DIRECTION_COUNT
        &&& self.wgtd_points_bets_by_faction_direction.len() == NUM_FACTIONS * DIRECTION_COUNT
    }
}

/// A user's positions in one round: parallel vectors, one entry per distinct
/// (faction, direction) pair.
#[derive(Debug, Clone)]
pub struct UserGameBet {
    pub owner: Key,
    pub round_id: u64,
    pub war_id: u64,
    pub faction_ids: Vec<u8>,
    pub directions: Vec<u8>,
    pub sol_bets: Vec<u64>,
    pub points_bets: Vec<u64>,
    pub wgtd_points_bets: Vec<u64>,
    pub gameplay_hashbeast: Key,
    pub total_sol_bet: u64,
    pub total_points_bet: u64,
    pub total_wgtd_points_bet: u64,
    pub total_fee: u64,
    pub bump: u8,
    pub mutation_type: u8,
}

impl UserGameBet {
    /// The parallel vectors have one common length within the position cap.
    pub open spec fn aligned(self) -> bool {
        let len = self.faction_ids.len();
        &&& self.directions.len() == len
        &&& self.sol_bets.len() == len
        &&& self.points_bets.len() == len
        &&& self.wgtd_points_bets.len() == len
        &&& len <= MAX_POSITIONS_PER_BET
    }

    pub open spec fn pairs(self) -> Seq<(u8, u8)> {
        Seq::new(self.faction_ids.len() as nat, |i: int| (self.faction_ids@[i], self.directions@[i]))
    }

    /// Aligned vectors, and no (faction, direction) pair held twice.
    pub open spec fn wf(self) -> bool {
        &&& self.aligned()
        &&& distinct_pairs(self.pairs())
    }

    pub open spec fn positions(self) -> PositionsView {
        (self.pairs(), self.sol_bets@, self.points_bets@, self.wgtd_points_bets@)
    }
}

/// Checks a loaded round session against its invariant.
pub fn game_session_is_wf(s: &GameSession) -> (b: bool)
    ensures
        b == s.wf(),
{
    s.user_faction_indexes.len() == NUM_FACTIONS && s.sol_bets_by_faction.len() == NUM_FACTIONS
        && s.points_bets_by_faction_direction.len() == NUM_FACTIONS * DIRECTION_COUNT
        && s.wgtd_points_bets_by_faction_direction.len() == NUM_FACTIONS * DIRECTION_COUNT
}

/// Checks a loaded round bet against its invariant.
pub fn user_game_bet_is_wf(b: &UserGameBet) -> (r: bool)
    ensures
        r == b.wf(),
{
    let len = b.faction_ids.len();
    if !(b.directions.len() == len && b.sol_bets.len() == len && b.points_bets.len() == len && b.wgtd_points_bets.len() == len
        && len <= MAX_POSITIONS_PER_BET) {
        return false;
    }
    let ghost pairs = b.pairs();
    let mut i: usize = 0;
    while i < len
        invariant
            len == b.faction_ids.len(),
            b.aligned(),
            pairs == b.pairs(),
            i <= len,
            forall|x: int, y: int| 0 <= x < y < i ==> pairs[x] != pairs[y],
        decreases len - i,
    {
        let mut j: usize = 0;
        while j < i
            invariant
                len == b.faction_ids.len(),
                b.aligned(),
                pairs == b.pairs(),
                i < len,
                j <= i,
                forall|x: int| 0 <= x < j ==> pairs[x] != pairs[i as int],
            decreases i - j,
        {
            if b.faction_ids[j] == b.faction_ids[i] && b.directions[j] == b.directions[i] {
                proof {
                    assert(pairs[j as int] == pairs[i as int]);
                }
                return false;
            }
            j += 1;
        }
        i += 1;
    }
    true
}

/// Checks a loaded faction-war bet record against its invariant.
pub fn war_bets_is_wf(w: &UserFactionWarBets) -> (b: bool)
    ensures
        b == w.wf(),
{
    w.direction_bets.len() == NUM_FACTIONS * DIRECTION_COUNT && w.sol_direction_bets.len() == NUM_FACTIONS * DIRECTION_COUNT
}

/// No pair occurs at two positions.
pub open spec fn distinct_pairs(s: Seq<(u8, u8)>) -> bool {
    forall|i: int, j: int| 0 <= i < j < s.len() ==> s[i] != s[j]
}

/// A user's positions as plain sequences: pairs, SOL, points, weighted points.
pub type PositionsView = (Seq<(u8, u8)>, Seq<u64>, Seq<u64>, Seq<u64>);

/// A user's faction-war record as plain values: weighted points and SOL per
/// (faction, direction) cell, and the locked gameplay HashBeast.
pub type WarView = (Seq<u64>, Seq<u64>, Key);

pub open spec fn positions_view_wf(v: PositionsView) -> bool {
    &&& v.1.len() == v.0.len()
    &&& v.2.len() == v.0.len()
    &&& v.3.len() == v.0.len()
    &&& distinct_pairs(v.0)
}

pub open spec fn war_view_wf(v: WarView) -> bool {
    &&& v.0.len() == NUM_FACTIONS * DIRECTION_COUNT
    &&& v.1.len() == NUM_FACTIONS * DIRECTION_COUNT
}

/// A user's prediction record for one faction war.
#[derive(Debug, Clone)]
pub struct UserFactionWarBets {
    pub owner: Key,
    pub war_id: u64,
    pub gameplay_hashbeast: Key,
    pub mutation_score: u64,
    /// Weighted points per (faction, direction) cell.
    pub direction_bets: Vec<u64>,
    /// SOL per (faction, direction) cell.
    pub sol_direction_bets: Vec<u64>,
    pub bump: u8,
}

impl UserFactionWarBets {
    pub open spec fn wf(self) -> bool {
        &&& self.direction_bets.len() == NUM_FACTIONS * DIRECTION_COUNT
        &&& self.sol_direction_bets.len() == NUM_FACTIONS * DIRECTION_COUNT
    }

    pub open spec fn war_view(self) -> WarView {
        (self.direction_bets@, self.sol_direction_bets@, self.gameplay_hashbeast)
    }
}

/// A referrer's commission account.
#[derive(Debug, Clone, Copy, PartialEq, Eq, Structural)]
pub struct ReferralRewards {
    pub owner: Key,
    pub owner_faction_id: u8,
    pub referrals_count: u64,
    pub pending_sol_rewards: u64,
    pub total_sol_earned: u64,
}

/// The fee configuration and switches that bet placement reads.
#[derive(Debug, Clone, Copy)]
pub struct BetConfig {
    pub is_paused: bool,
    pub supported_faction_count: usize,
    pub protocol_fee_pct: u8,
    pub stakers_pct: u8,
    pub cycle_sol_split_pct: u8,
}

/// What one bet of a batch is worth and where its SOL goes.
#[derive(Debug, Clone, Copy, PartialEq, Eq, Structural)]
pub struct BetPricing {
    pub net: u64,
    pub fee: u64,
    pub points: u64,
    pub wgtd_points: u64,
    pub cycle_split: u64,
    pub referral_cut: u64,
    pub stakers_fee: u64,
    pub protocol_fee: u64,
}

/// The (faction, direction) pair a bet records.
pub open spec fn bet_pair(b: BetType) -> (u8, u8) {
    (b.faction_id, b.direction.index() as u8)
}

/// Referral commission rate: same-country recruits earn more than cross-country ones.
pub open spec fn referral_bps_spec(has_referrer: bool, player_faction: u8, referrer_faction: u8) -> int {
    if !has_referrer {
        0
    } else if referrer_faction != u8::MAX && player_faction == referrer_faction {
        REFERRAL_FEE_BPS_SAME_FACTION as int
    } else {
        REFERRAL_FEE_BPS_CROSS_FACTION as int
    }
}

pub open spec fn min_int(a: int, b: int) -> int {
    if a <= b {
        a
    } else {
        b
    }
}

/// Weighted points of a SOL bet: the net stake scaled by the gameplay multiplier
/// (an unset multiplier counts as 1.0x).
pub open spec fn effective_multiplier(active_multiplier: u32) -> int {
    if active_multiplier == 0 {
        BASE_MULTIPLIER as int
    } else {
        active_multiplier as int
    }
}

/// Every SOL-bet quantity fits the integer ranges that checked arithmetic enforces.
pub open spec fn sol_pricing_ok(
    amount: u64,
    protocol_fee_pct: u8,
    stakers_pct: u8,
    cycle_pct: u8,
    referral_bps: int,
    active_multiplier: u32,
) -> bool {
    let split = if cycle_pct > 0 { (amount as int) * (cycle_pct as int) / 100 } else { 0 };
    let fee = (amount as int) * (protocol_fee_pct as int) / 100;
    let net = amount - fee - split;
    let cut = min_int((amount as int) * referral_bps / 10_000, fee);
    let eff = fee - cut;
    &&& (amount as int) * (cycle_pct as int) <= u64::MAX
    &&& (amount as int) * (protocol_fee_pct as int) <= u64::MAX
    &&& fee <= amount
    &&& net >= 0
    &&& eff * (stakers_pct as int) / 100 <= eff
    &&& net * effective_multiplier(active_multiplier) / (BASE_MULTIPLIER as int) <= u64::MAX
}

/// The pricing of one SOL bet of `amount` lamports: the protocol fee and the
/// cycle split come off the gross bet, the referral commission comes out of
/// the fee, and the rest of the fee is split between stakers and the treasury.
pub open spec fn sol_pricing_spec(
    amount: u64,
    protocol_fee_pct: u8,
    stakers_pct: u8,
    cycle_pct: u8,
    referral_bps: int,
    active_multiplier: u32,
) -> BetPricing {
    let split = if cycle_pct > 0 { (amount as int) * (cycle_pct as int) / 100 } else { 0 };
    let fee = (amount as int) * (protocol_fee_pct as int) / 100;
    let net = amount - fee - split;
    let cut = min_int((amount as int) * referral_bps / 10_000, fee);
    let eff = fee - cut;
    let stakers = eff * (stakers_pct as int) / 100;
    BetPricing {
        net: net as u64,
        fee: fee as u64,
        points: net as u64,
        wgtd_points: (net * effective_multiplier(active_multiplier) / (BASE_MULTIPLIER as int)) as u64,
        cycle_split: split as u64,
        referral_cut: cut as u64,
        stakers_fee: stakers as u64,
        protocol_fee: (eff - stakers) as u64,
    }
}

/// Prices one SOL bet; see `sol_pricing_spec`.
pub fn price_sol_bet(
    amount: u64,
    protocol_fee_pct: u8,
    stakers_pct: u8,
    cycle_pct: u8,
    referral_bps: u64,
    active_multiplier: u32,
) -> (r: Result<BetPricing, ErrorCode>)
    requires
        referral_bps <= 10_000,
    ensures
        r is Ok <==> sol_pricing_ok(
            amount,
            protocol_fee_pct,
            stakers_pct,
            cycle_pct,
            referral_bps as int,
            active_multiplier,
        ),
        r is Err ==> r == Err::<BetPricing, ErrorCode>(ErrorCode::ArithmeticOverflow),
        r matches Ok(p) ==> p == sol_pricing_spec(
            amount,
            protocol_fee_pct,
            stakers_pct,
            cycle_pct,
            referral_bps as int,
            active_multiplier,
        ),
        r matches Ok(p) ==> p.net + p.fee + p.cycle_split == amount && p.referral_cut
            + p.stakers_fee + p.protocol_fee == p.fee,
{
    let cycle_split: u64 = if cycle_pct > 0 {
        match amount.checked_mul(cycle_pct as u64) {
            Some(v) => v / 100,
            None => return Err(ErrorCode::ArithmeticOverflow),
        }
    } else {
        0
    };
    let (net_after_fee, fee) = match handle_fee(amount, protocol_fee_pct as u64) {
        Ok(v) => v,
        Err(e) => return Err(e),
    };
    if net_after_fee < cycle_split {
        return Err(ErrorCode::ArithmeticOverflow);
    }
    let net = net_after_fee - cycle_split;
    proof {
        assert((amount as int) * (referral_bps as int) <= (u64::MAX as int) * 10_000)
            by (nonlinear_arith)
            requires
                referral_bps <= 10_000,
        ;
        assert((amount as int) * (referral_bps as int) / 10_000 <= amount) by (nonlinear_arith)
            requires
                referral_bps <= 10_000,
        ;
    }
    let raw_cut = match mul_div_u64(amount, referral_bps, 10_000) {
        Ok(v) => v,
        Err(e) => return Err(e),
    };
    let referral_cut = if raw_cut < fee {
        raw_cut
    } else {
        fee
    };
    let effective_fee = fee - referral_cut;
    let stakers_fee = match mul_div_u64(effective_fee, stakers_pct as u64, 100) {
        Ok(v) => v,
        Err(e) => return Err(e),
    };
    if stakers_fee > effective_fee {
        return Err(ErrorCode::ArithmeticOverflow);
    }
    let protocol_fee = effective_fee - stakers_fee;
    let mult: u64 = if active_multiplier == 0 {
        1000
    } else {
        active_multiplier as u64
    };
    let wgtd = match mul_div_u64(net, mult, 1000) {
        Ok(v) => v,
        Err(e) => return Err(e),
    };
    Ok(
        BetPricing {
            net,
            fee,
            points: net,
            wgtd_points: wgtd,
            cycle_split,
            referral_cut,
            stakers_fee,
            protocol_fee,
        },
    )
}


/// The user's positions after recording `bets`: a pair that is not yet held
/// is appended, in order of first occurrence.
pub open spec fn merged_pairs(pairs: Seq<(u8, u8)>, bets: Seq<BetType>) -> Seq<(u8, u8)>
    decreases bets.len(),
{
    if bets.len() == 0 {
        pairs
    } else {
        let p = merged_pairs(pairs, bets.drop_last());
        let q = bet_pair(bets.last());
        if p.contains(q) {
            p
        } else {
            p.push(q)
        }
    }
}

/// How many of `bets` record the pair `q`.
pub open spec fn pair_count(bets: Seq<BetType>, q: (u8, u8)) -> nat
    decreases bets.len(),
{
    if bets.len() == 0 {
        0
    } else {
        pair_count(bets.drop_last(), q) + if bet_pair(bets.last()) == q {
            1nat
        } else {
            0nat
        }
    }
}

/// How many of `bets` are on faction `f`.
pub open spec fn faction_count(bets: Seq<BetType>, f: u8) -> nat
    decreases bets.len(),
{
    if bets.len() == 0 {
        0
    } else {
        faction_count(bets.drop_last(), f) + if bets.last().faction_id == f {
            1nat
        } else {
            0nat
        }
    }
}

pub open spec fn has_faction(pairs: Seq<(u8, u8)>, f: u8) -> bool {
    exists|j: int| 0 <= j < pairs.len() && (#[trigger] pairs[j]).0 == f
}

pub open spec fn bets_on_faction(bets: Seq<BetType>, f: u8) -> bool {
    exists|k: int| 0 <= k < bets.len() && (#[trigger] bets[k]).faction_id == f
}

pub proof fn lemma_merged_contains(pairs: Seq<(u8, u8)>, bets: Seq<BetType>, q: (u8, u8))
    ensures
        merged_pairs(pairs, bets).contains(q) <==> (pairs.contains(q) || exists|k: int|
            0 <= k < bets.len() && bet_pair(#[trigger] bets[k]) == q),
        merged_pairs(pairs, bets).len() >= pairs.len(),
        forall|j: int| 0 <= j < pairs.len() ==> #[trigger] merged_pairs(pairs, bets)[j] == pairs[j],
    decreases bets.len(),
{
    if bets.len() > 0 {
        let prev = bets.drop_last();
        lemma_merged_contains(pairs, prev, q);
        let p = merged_pairs(pairs, prev);
        if exists|k: int| 0 <= k < prev.len() && bet_pair(#[trigger] prev[k]) == q {
            let k = choose|k: int| 0 <= k < prev.len() && bet_pair(#[trigger] prev[k]) == q;
            assert(bets[k] == prev[k]);
        }
        if exists|k: int| 0 <= k < bets.len() && bet_pair(#[trigger] bets[k]) == q {
            let k = choose|k: int| 0 <= k < bets.len() && bet_pair(#[trigger] bets[k]) == q;
            if k < prev.len() {
                assert(prev[k] == bets[k]);
            }
        }
        let last = bet_pair(bets.last());
        assert(bets[bets.len() - 1] == bets.last());
        if p.contains(last) {
            if q == last {
                assert(bet_pair(bets[bets.len() - 1]) == q);
            }
        } else {
            let m = p.push(last);
            if m.contains(q) && q != last {
                let i = choose|i: int| 0 <= i < m.len() && m[i] == q;
                assert(p[i] == q);
            }
            if p.contains(q) {
                let i = choose|i: int| 0 <= i < p.len() && p[i] == q;
                assert(m[i] == q);
            }
            if q == last {
                assert(m[m.len() - 1] == q);
                assert(bet_pair(bets[bets.len() - 1]) == q);
            }
            assert forall|j: int| 0 <= j < pairs.len() implies #[trigger] m[j] == pairs[j] by {
                assert(p[j] == pairs[j]);
            }
        }
    }
}

pub proof fn lemma_merged_has_faction(pairs: Seq<(u8, u8)>, bets: Seq<BetType>, f: u8)
    ensures
        has_faction(merged_pairs(pairs, bets), f) <==> (has_faction(pairs, f) || bets_on_faction(
            bets,
            f,
        )),
{
    let m = merged_pairs(pairs, bets);
    if has_faction(m, f) {
        let j = choose|j: int| 0 <= j < m.len() && (#[trigger] m[j]).0 == f;
        lemma_merged_contains(pairs, bets, m[j]);
        assert(m.contains(m[j]));
        if pairs.contains(m[j]) {
            let i = choose|i: int| 0 <= i < pairs.len() && pairs[i] == m[j];
            assert(pairs[i].0 == f);
        } else {
            let k = choose|k: int| 0 <= k < bets.len() && bet_pair(#[trigger] bets[k]) == m[j];
            assert(bets[k].faction_id == f);
        }
    }
    if has_faction(pairs, f) {
        let j = choose|j: int| 0 <= j < pairs.len() && (#[trigger] pairs[j]).0 == f;
        lemma_merged_contains(pairs, bets, pairs[j]);
        assert(m[j] == pairs[j]);
    }
    if bets_on_faction(bets, f) {
        let k = choose|k: int| 0 <= k < bets.len() && (#[trigger] bets[k]).faction_id == f;
        lemma_merged_contains(pairs, bets, bet_pair(bets[k]));
        assert(m.contains(bet_pair(bets[k])));
        let j = choose|j: int| 0 <= j < m.len() && m[j] == bet_pair(bets[k]);
        assert(m[j].0 == f);
    }
}

pub proof fn lemma_count_prefix_le(bets: Seq<BetType>, i: int, q: (u8, u8), f: u8)
    requires
        0 <= i <= bets.len(),
    ensures
        pair_count(bets.take(i), q) <= pair_count(bets, q),
        faction_count(bets.take(i), f) <= faction_count(bets, f),
    decreases bets.len() - i,
{
    if i < bets.len() {
        lemma_count_prefix_le(bets, i + 1, q, f);
        assert(bets.take(i + 1).drop_last() =~= bets.take(i));
    } else {
        assert(bets.take(i) =~= bets);
    }
}

/// Index of the position holding `(faction, direction)`, if any.
pub fn find_position(ub: &UserGameBet, faction: u8, direction: u8) -> (r: Option<usize>)
    requires
        ub.aligned(),
    ensures
        r matches Some(j) ==> j < ub.faction_ids.len() && ub.pairs()[j as int] == (faction, direction),
        r is None ==> !ub.pairs().contains((faction, direction)),
{
    let n = ub.faction_ids.len();
    let mut j: usize = 0;
    while j < n
        invariant
            ub.aligned(),
            n == ub.faction_ids.len(),
            j <= n,
            forall|k: int| 0 <= k < j ==> ub.pairs()[k] != (faction, direction),
        decreases n - j,
    {
        if ub.faction_ids[j] == faction && ub.directions[j] == direction {
            return Some(j);
        }
        j += 1;
    }
    proof {
        if ub.pairs().contains((faction, direction)) {
            let k = choose|k: int| 0 <= k < ub.pairs().len() && ub.pairs()[k] == (faction, direction);
            assert(ub.pairs()[k] != (faction, direction));
        }
    }
    None
}


pub proof fn lemma_count_zero_unless_present(bets: Seq<BetType>, q: (u8, u8), f: u8)
    ensures
        pair_count(bets, q) > 0 ==> exists|k: int| 0 <= k < bets.len() && bet_pair(#[trigger] bets[k]) == q,
        faction_count(bets, f) > 0 ==> bets_on_faction(bets, f),
    decreases bets.len(),
{
    if bets.len() > 0 {
        let prev = bets.drop_last();
        lemma_count_zero_unless_present(prev, q, f);
        assert(bets[bets.len() - 1] == bets.last());
        if pair_count(prev, q) > 0 {
            let k = choose|k: int| 0 <= k < prev.len() && bet_pair(#[trigger] prev[k]) == q;
            assert(bets[k] == prev[k]);
        }
        if faction_count(prev, f) > 0 {
            let k = choose|k: int| 0 <= k < prev.len() && (#[trigger] prev[k]).faction_id == f;
            assert(bets[k] == prev[k]);
        }
    }
}

pub proof fn lemma_mul_succ(c: int, a: int)
    ensures
        (c + 1) * a == c * a + a,
{
    assert((c + 1) * a == c * a + a) by (nonlinear_arith);
}

pub proof fn lemma_mul_mono(c1: int, c2: int, a: int)
    requires
        0 <= c1 <= c2,
        0 <= a,
    ensures
        c1 * a <= c2 * a,
{
    assert(c1 * a <= c2 * a) by (nonlinear_arith)
        requires
            0 <= c1 <= c2,
            0 <= a,
    ;
}

/// The value at `j` of a vector, or zero past its end.
pub open spec fn base_at(s: Seq<u64>, j: int) -> int {
    if 0 <= j < s.len() {
        s[j] as int
    } else {
        0
    }
}

/// Whether any of `bets` is on the home faction `home`.
pub open spec fn bets_on_home(bets: Seq<BetType>, home: u8) -> bool {
    bets_on_faction(bets, home)
}

/// The user's round positions after recording `bets` at uniform per-bet amounts.
pub open spec fn positions_after(ub: UserGameBet, v0: PositionsView, bets: Seq<BetType>, p: BetPricing) -> bool {
    let m = merged_pairs(v0.0, bets);
    &&& ub.faction_ids.len() == m.len()
    &&& ub.directions.len() == m.len()
    &&& ub.sol_bets.len() == m.len()
    &&& ub.points_bets.len() == m.len()
    &&& ub.wgtd_points_bets.len() == m.len()
    &&& ub.pairs() =~= m
    &&& forall|j: int| 0 <= j < m.len() ==> #[trigger] ub.sol_bets@[j] == base_at(v0.1, j) + pair_count(bets, m[j]) * p.net
    &&& forall|j: int| 0 <= j < m.len() ==> #[trigger] ub.points_bets@[j] == base_at(v0.2, j) + pair_count(bets, m[j]) * p.points
    &&& forall|j: int| 0 <= j < m.len() ==> #[trigger] ub.wgtd_points_bets@[j] == base_at(v0.3, j) + pair_count(bets, m[j]) * p.wgtd_points
}

/// The round's faction and cell aggregates after recording `bets`.
pub open spec fn session_after(s: GameSession, s0: GameSession, v0: PositionsView, bets: Seq<BetType>, p: BetPricing) -> bool {
    &&& forall|f: int| 0 <= f < NUM_FACTIONS ==> #[trigger] s.sol_bets_by_faction@[f] == s0.sol_bets_by_faction@[f] + faction_count(bets, f as u8) * p.net
    &&& forall|f: int| 0 <= f < NUM_FACTIONS ==> #[trigger] s.user_faction_indexes@[f] == s0.user_faction_indexes@[f] + if !has_faction(v0.0, f as u8) && bets_on_faction(bets, f as u8) { 1int } else { 0int }
    &&& forall|f: int, d: int| 0 <= f < NUM_FACTIONS && 0 <= d < DIRECTION_COUNT ==> #[trigger] s.points_bets_by_faction_direction@[cell(f, d)] == s0.points_bets_by_faction_direction@[cell(f, d)] + pair_count(bets, (f as u8, d as u8)) * p.points
    &&& forall|f: int, d: int| 0 <= f < NUM_FACTIONS && 0 <= d < DIRECTION_COUNT ==> #[trigger] s.wgtd_points_bets_by_faction_direction@[cell(f, d)] == s0.wgtd_points_bets_by_faction_direction@[cell(f, d)] + pair_count(bets, (f as u8, d as u8)) * p.wgtd_points
}

/// The user's faction-war record after recording `bets`; the gameplay
/// HashBeast is locked in on the first home-faction bet.
pub open spec fn war_after(w: UserFactionWarBets, wv0: WarView, bets: Seq<BetType>, p: BetPricing, home: u8, hb: Key) -> bool {
    &&& forall|f: int, d: int| 0 <= f < NUM_FACTIONS && 0 <= d < DIRECTION_COUNT ==> #[trigger] w.direction_bets@[cell(f, d)] == wv0.0[cell(f, d)] + pair_count(bets, (f as u8, d as u8)) * p.wgtd_points
    &&& forall|f: int, d: int| 0 <= f < NUM_FACTIONS && 0 <= d < DIRECTION_COUNT ==> #[trigger] w.sol_direction_bets@[cell(f, d)] == wv0.1[cell(f, d)] + pair_count(bets, (f as u8, d as u8)) * p.net
    &&& w.gameplay_hashbeast == if bets_on_home(bets, home) && !hb.is_zero() && wv0.2.is_zero() { hb } else { wv0.2 }
}

/// Conditions under which every bet of `bets` can be recorded: known
/// factions, room for the distinct positions, no counter overflow, and no
/// conflicting gameplay HashBeast.
pub open spec fn positions_ok(v0: PositionsView, s0: GameSession, wv0: WarView, bets: Seq<BetType>, p: BetPricing, home: u8, hb: Key) -> bool {
    let m = merged_pairs(v0.0, bets);
    &&& forall|k: int| 0 <= k < bets.len() ==> (#[trigger] bets[k]).faction_id < NUM_FACTIONS
    &&& m.len() <= MAX_POSITIONS_PER_BET
    &&& forall|j: int| 0 <= j < m.len() ==> base_at(v0.1, j) + pair_count(bets, #[trigger] m[j]) * p.net <= u64::MAX
    &&& forall|j: int| 0 <= j < m.len() ==> base_at(v0.2, j) + pair_count(bets, #[trigger] m[j]) * p.points <= u64::MAX
    &&& forall|j: int| 0 <= j < m.len() ==> base_at(v0.3, j) + pair_count(bets, #[trigger] m[j]) * p.wgtd_points <= u64::MAX
    &&& forall|f: int| 0 <= f < NUM_FACTIONS ==> s0.sol_bets_by_faction@[f] + faction_count(bets, f as u8) * p.net <= u64::MAX
    &&& forall|f: int| 0 <= f < NUM_FACTIONS ==> (!has_faction(v0.0, f as u8) && bets_on_faction(bets, f as u8)) ==> s0.user_faction_indexes@[f] < u64::MAX
    &&& forall|f: int, d: int| 0 <= f < NUM_FACTIONS && 0 <= d < DIRECTION_COUNT ==> s0.points_bets_by_faction_direction@[cell(f, d)] + pair_count(bets, (f as u8, d as u8)) * p.points <= u64::MAX
    &&& forall|f: int, d: int| 0 <= f < NUM_FACTIONS && 0 <= d < DIRECTION_COUNT ==> s0.wgtd_points_bets_by_faction_direction@[cell(f, d)] + pair_count(bets, (f as u8, d as u8)) * p.wgtd_points <= u64::MAX
    &&& forall|f: int, d: int| 0 <= f < NUM_FACTIONS && 0 <= d < DIRECTION_COUNT ==> wv0.0[cell(f, d)] + pair_count(bets, (f as u8, d as u8)) * p.wgtd_points <= u64::MAX
    &&& forall|f: int, d: int| 0 <= f < NUM_FACTIONS && 0 <= d < DIRECTION_COUNT ==> wv0.1[cell(f, d)] + pair_count(bets, (f as u8, d as u8)) * p.net <= u64::MAX
    &&& !(bets_on_home(bets, home) && !hb.is_zero() && !wv0.2.is_zero() && wv0.2 != hb)
}


/// One more bet extends the merged positions by its pair (if new) and each
/// count by one where it matches.
pub proof fn lemma_bets_step(pairs: Seq<(u8, u8)>, bets: Seq<BetType>, i: int)
    requires
        0 <= i < bets.len(),
    ensures
        merged_pairs(pairs, bets.take(i + 1)) == (if merged_pairs(pairs, bets.take(i)).contains(
            bet_pair(bets[i]),
        ) {
            merged_pairs(pairs, bets.take(i))
        } else {
            merged_pairs(pairs, bets.take(i)).push(bet_pair(bets[i]))
        }),
        forall|q: (u8, u8)|
            #[trigger] pair_count(bets.take(i + 1), q) == pair_count(bets.take(i), q) + if bet_pair(
                bets[i],
            ) == q {
                1nat
            } else {
                0nat
            },
        forall|f: u8|
            #[trigger] faction_count(bets.take(i + 1), f) == faction_count(bets.take(i), f) + if bets[i].faction_id == f {
                1nat
            } else {
                0nat
            },
        forall|f: u8|
            #[trigger] bets_on_faction(bets.take(i + 1), f) <==> (bets_on_faction(bets.take(i), f)
                || bets[i].faction_id == f),
{
    let t = bets.take(i + 1);
    assert(t.drop_last() =~= bets.take(i));
    assert(t.last() == bets[i]);
    assert forall|f: u8| #[trigger] bets_on_faction(t, f) <==> (bets_on_faction(bets.take(i), f)
        || bets[i].faction_id == f) by {
        if bets_on_faction(t, f) {
            let k = choose|k: int| 0 <= k < t.len() && (#[trigger] t[k]).faction_id == f;
            if k < i {
                assert(bets.take(i)[k] == t[k]);
            }
        }
        if bets_on_faction(bets.take(i), f) {
            let k = choose|k: int| 0 <= k < i && (#[trigger] bets.take(i)[k]).faction_id == f;
            assert(t[k] == bets.take(i)[k]);
        }
        if bets[i].faction_id == f {
            assert(t[i] == bets[i]);
        }
    }
}

/// Merging keeps positions distinct.
pub proof fn lemma_merged_distinct(pairs: Seq<(u8, u8)>, bets: Seq<BetType>)
    requires
        distinct_pairs(pairs),
    ensures
        distinct_pairs(merged_pairs(pairs, bets)),
    decreases bets.len(),
{
    if bets.len() > 0 {
        lemma_merged_distinct(pairs, bets.drop_last());
        let p = merged_pairs(pairs, bets.drop_last());
        let q = bet_pair(bets.last());
        if !p.contains(q) {
            let m = p.push(q);
            assert forall|i: int, j: int| 0 <= i < j < m.len() implies m[i] != m[j] by {
                if j == m.len() - 1 {
                    assert(m[i] == p[i]);
                    if p[i] == q {
                        assert(p.contains(q));
                    }
                } else {
                    assert(m[i] == p[i] && m[j] == p[j]);
                }
            }
        }
    }
}

/// The positions merged from a prefix of the bets are a prefix of those
/// merged from all of them.
pub proof fn lemma_merged_prefix(pairs: Seq<(u8, u8)>, bets: Seq<BetType>, i: int)
    requires
        0 <= i <= bets.len(),
    ensures
        merged_pairs(pairs, bets.take(i)).len() <= merged_pairs(pairs, bets).len(),
        forall|j: int|
            0 <= j < merged_pairs(pairs, bets.take(i)).len() ==> #[trigger] merged_pairs(
                pairs,
                bets.take(i),
            )[j] == merged_pairs(pairs, bets)[j],
    decreases bets.len() - i,
{
    if i == bets.len() {
        assert(bets.take(i) =~= bets);
    } else {
        lemma_merged_prefix(pairs, bets, i + 1);
        lemma_bets_step(pairs, bets, i);
        let a = merged_pairs(pairs, bets.take(i));
        let b = merged_pairs(pairs, bets.take(i + 1));
        assert forall|j: int| 0 <= j < a.len() implies #[trigger] a[j] == merged_pairs(pairs, bets)[j] by {
            assert(b[j] == a[j]);
        }
    }
}

/// Whether some position of `ub` is on faction `f`.
pub fn contains_faction(ub: &UserGameBet, f: u8) -> (b: bool)
    requires
        ub.aligned(),
    ensures
        b == has_faction(ub.pairs(), f),
{
    let n = ub.faction_ids.len();
    let mut j: usize = 0;
    while j < n
        invariant
            ub.aligned(),
            n == ub.faction_ids.len(),
            j <= n,
            forall|k: int| 0 <= k < j ==> (#[trigger] ub.pairs()[k]).0 != f,
        decreases n - j,
    {
        if ub.faction_ids[j] == f {
            assert(ub.pairs()[j as int].0 == f);
            return true;
        }
        j += 1;
    }
    false
}


/// If all of `bets` can be recorded, so can any prefix of them.
pub proof fn lemma_positions_ok_prefix(
    v0: PositionsView,
    s0: GameSession,
    wv0: WarView,
    bets: Seq<BetType>,
    i: int,
    p: BetPricing,
    home: u8,
    hb: Key,
)
    requires
        0 <= i <= bets.len(),
        positions_ok(v0, s0, wv0, bets, p, home, hb),
    ensures
        positions_ok(v0, s0, wv0, bets.take(i), p, home, hb),
{
    let t = bets.take(i);
    let m = merged_pairs(v0.0, bets);
    let mt = merged_pairs(v0.0, t);
    lemma_merged_prefix(v0.0, bets, i);
    assert forall|k: int| 0 <= k < t.len() implies (#[trigger] t[k]).faction_id < NUM_FACTIONS by {
        assert(t[k] == bets[k]);
    }
    assert forall|j: int| 0 <= j < mt.len() implies base_at(v0.1, j) + pair_count(t, #[trigger] mt[j]) * p.net <= u64::MAX
        && base_at(v0.2, j) + pair_count(t, mt[j]) * p.points <= u64::MAX
        && base_at(v0.3, j) + pair_count(t, mt[j]) * p.wgtd_points <= u64::MAX by {
        assert(mt[j] == m[j]);
        lemma_count_prefix_le(bets, i, m[j], 0);
        lemma_mul_mono(pair_count(t, m[j]) as int, pair_count(bets, m[j]) as int, p.net as int);
        lemma_mul_mono(pair_count(t, m[j]) as int, pair_count(bets, m[j]) as int, p.points as int);
        lemma_mul_mono(pair_count(t, m[j]) as int, pair_count(bets, m[j]) as int, p.wgtd_points as int);
    }
    assert forall|f: int| 0 <= f < NUM_FACTIONS implies s0.sol_bets_by_faction@[f] + #[trigger] faction_count(t, f as u8) * p.net <= u64::MAX by {
        lemma_count_prefix_le(bets, i, (0, 0), f as u8);
        lemma_mul_mono(faction_count(t, f as u8) as int, faction_count(bets, f as u8) as int, p.net as int);
    }
    assert forall|f: u8| #[trigger] bets_on_faction(t, f) implies bets_on_faction(bets, f) by {
        let k = choose|k: int| 0 <= k < t.len() && (#[trigger] t[k]).faction_id == f;
        assert(bets[k] == t[k]);
    }
    assert forall|f: int, d: int| 0 <= f < NUM_FACTIONS && 0 <= d < DIRECTION_COUNT implies
        s0.points_bets_by_faction_direction@[cell(f, d)] + #[trigger] pair_count(t, (f as u8, d as u8)) * p.points <= u64::MAX
        && s0.wgtd_points_bets_by_faction_direction@[cell(f, d)] + pair_count(t, (f as u8, d as u8)) * p.wgtd_points <= u64::MAX
        && wv0.0[cell(f, d)] + pair_count(t, (f as u8, d as u8)) * p.wgtd_points <= u64::MAX
        && wv0.1[cell(f, d)] + pair_count(t, (f as u8, d as u8)) * p.net <= u64::MAX by {
        let q = (f as u8, d as u8);
        lemma_count_prefix_le(bets, i, q, 0);
        lemma_mul_mono(pair_count(t, q) as int, pair_count(bets, q) as int, p.net as int);
        lemma_mul_mono(pair_count(t, q) as int, pair_count(bets, q) as int, p.points as int);
        lemma_mul_mono(pair_count(t, q) as int, pair_count(bets, q) as int, p.wgtd_points as int);
    }
}


/// The fields of a user bet that recording positions leaves alone.
pub open spec fn same_bet_header(a: UserGameBet, b: UserGameBet) -> bool {
    &&& a.owner == b.owner
    &&& a.round_id == b.round_id
    &&& a.war_id == b.war_id
    &&& a.gameplay_hashbeast == b.gameplay_hashbeast
    &&& a.total_sol_bet == b.total_sol_bet
    &&& a.total_points_bet == b.total_points_bet
    &&& a.total_wgtd_points_bet == b.total_wgtd_points_bet
    &&& a.total_fee == b.total_fee
    &&& a.bump == b.bump
    &&& a.mutation_type == b.mutation_type
}

/// The fields of a round that recording positions leaves alone.
pub open spec fn same_session_header(a: GameSession, b: GameSession) -> bool {
    &&& a.round_id == b.round_id
    &&& a.stage == b.stage
    &&& a.round_end_timestamp == b.round_end_timestamp
    &&& a.war_id_when_played == b.war_id_when_played
    &&& a.total_sol_bets == b.total_sol_bets
    &&& a.total_points_bets == b.total_points_bets
    &&& a.total_wgtd_points_bets == b.total_wgtd_points_bets
    &&& a.stakers_fee == b.stakers_fee
    &&& a.cycle_sol_pool == b.cycle_sol_pool
}

/// Adding to a held position keeps the position bookkeeping exact.
proof fn lemma_step_existing(
    ub1: UserGameBet,
    ub2: UserGameBet,
    v0: PositionsView,
    bets: Seq<BetType>,
    i: int,
    p: BetPricing,
    j: int,
)
    requires
        0 <= i < bets.len(),
        positions_view_wf(v0),
        ub1.wf(),
        positions_after(ub1, v0, bets.take(i), p),
        0 <= j < ub1.faction_ids.len(),
        ub1.pairs()[j] == bet_pair(bets[i]),
        ub2.faction_ids == ub1.faction_ids,
        ub2.directions == ub1.directions,
        ub2.sol_bets@ == ub1.sol_bets@.update(j, (ub1.sol_bets@[j] + p.net) as u64),
        ub2.points_bets@ == ub1.points_bets@.update(j, (ub1.points_bets@[j] + p.points) as u64),
        ub2.wgtd_points_bets@ == ub1.wgtd_points_bets@.update(
            j,
            (ub1.wgtd_points_bets@[j] + p.wgtd_points) as u64,
        ),
        ub1.sol_bets@[j] + p.net <= u64::MAX,
        ub1.points_bets@[j] + p.points <= u64::MAX,
        ub1.wgtd_points_bets@[j] + p.wgtd_points <= u64::MAX,
    ensures
        positions_after(ub2, v0, bets.take(i + 1), p),
        ub2.wf(),
{
    let q = bet_pair(bets[i]);
    let m = merged_pairs(v0.0, bets.take(i));
    lemma_bets_step(v0.0, bets, i);
    assert(m.contains(q)) by {
        assert(m[j] == q);
    }
    let c = pair_count(bets.take(i), q) as int;
    lemma_mul_succ(c, p.net as int);
    lemma_mul_succ(c, p.points as int);
    lemma_mul_succ(c, p.wgtd_points as int);
    assert(ub2.pairs() =~= ub1.pairs());
    assert forall|k: int| 0 <= k < m.len() && k != j implies m[k] != q by {
        assert(ub1.pairs()[k] == m[k]);
        if k < j {
            assert(ub1.pairs()[k] != ub1.pairs()[j]);
        } else {
            assert(ub1.pairs()[j] != ub1.pairs()[k]);
        }
    }
}

/// Opening a new position keeps the position bookkeeping exact.
proof fn lemma_step_new(
    ub1: UserGameBet,
    ub2: UserGameBet,
    v0: PositionsView,
    bets: Seq<BetType>,
    i: int,
    p: BetPricing,
)
    requires
        0 <= i < bets.len(),
        positions_view_wf(v0),
        ub1.wf(),
        positions_after(ub1, v0, bets.take(i), p),
        !ub1.pairs().contains(bet_pair(bets[i])),
        ub1.faction_ids.len() < MAX_POSITIONS_PER_BET,
        ub2.faction_ids@ == ub1.faction_ids@.push(bets[i].faction_id),
        ub2.directions@ == ub1.directions@.push(bets[i].direction.index() as u8),
        ub2.sol_bets@ == ub1.sol_bets@.push(p.net),
        ub2.points_bets@ == ub1.points_bets@.push(p.points),
        ub2.wgtd_points_bets@ == ub1.wgtd_points_bets@.push(p.wgtd_points),
    ensures
        positions_after(ub2, v0, bets.take(i + 1), p),
        ub2.wf(),
{
    let q = bet_pair(bets[i]);
    let m = merged_pairs(v0.0, bets.take(i));
    let m2 = merged_pairs(v0.0, bets.take(i + 1));
    lemma_bets_step(v0.0, bets, i);
    assert(!m.contains(q)) by {
        assert(ub1.pairs() =~= m);
    }
    assert(m2 == m.push(q));
    assert(ub2.pairs() =~= m2) by {
        assert(ub1.pairs() =~= m);
    }
    lemma_merged_contains(v0.0, bets.take(i), q);
    assert(pair_count(bets.take(i), q) == 0) by {
        lemma_count_zero_unless_present(bets.take(i), q, 0);
        if pair_count(bets.take(i), q) > 0 {
            let k = choose|k: int| 0 <= k < bets.take(i).len() && bet_pair(#[trigger] bets.take(i)[k]) == q;
            assert(exists|k: int| 0 <= k < bets.take(i).len() && bet_pair(#[trigger] bets.take(i)[k]) == q);
        }
    }
    assert(m.len() >= v0.0.len());
    assert(base_at(v0.1, m.len() as int) == 0);
    assert(base_at(v0.2, m.len() as int) == 0);
    assert(base_at(v0.3, m.len() as int) == 0);
    lemma_merged_distinct(v0.0, bets.take(i + 1));
    assert forall|k: int| 0 <= k < m.len() implies m[k] != q by {
        assert(m.contains(m[k]));
    }
    assert forall|k: int|
        #![trigger ub2.sol_bets@[k]]
        #![trigger ub2.points_bets@[k]]
        #![trigger ub2.wgtd_points_bets@[k]]
        0 <= k < m2.len() implies ub2.sol_bets@[k] == base_at(v0.1, k) + pair_count(bets.take(i + 1), m2[k]) * p.net
        && ub2.points_bets@[k] == base_at(v0.2, k) + pair_count(bets.take(i + 1), m2[k]) * p.points
        && ub2.wgtd_points_bets@[k] == base_at(v0.3, k) + pair_count(bets.take(i + 1), m2[k]) * p.wgtd_points by {
        if k < m.len() {
            assert(m2[k] == m[k]);
            assert(m[k] != q);
            assert(pair_count(bets.take(i + 1), m2[k]) == pair_count(bets.take(i), m[k]));
            assert(ub2.sol_bets@[k] == ub1.sol_bets@[k]);
            assert(ub2.points_bets@[k] == ub1.points_bets@[k]);
            assert(ub2.wgtd_points_bets@[k] == ub1.wgtd_points_bets@[k]);
            assert(ub1.sol_bets@[k] == base_at(v0.1, k) + pair_count(bets.take(i), m[k]) * p.net);
        } else {
            assert(k == m.len());
            assert(m2[k] == q);
            assert(pair_count(bets.take(i + 1), q) == 1);
            assert(ub2.sol_bets@[k] == p.net);
            assert(ub2.points_bets@[k] == p.points);
            assert(ub2.wgtd_points_bets@[k] == p.wgtd_points);
        }
    }
}


/// Whether the gameplay HashBeast of the home-faction bets agrees with the one
/// already locked in for the war.
pub open spec fn hashbeast_consistent(wv0: WarView, bets: Seq<BetType>, home: u8, hb: Key) -> bool {
    !(bets_on_home(bets, home) && !hb.is_zero() && !wv0.2.is_zero()
        && wv0.2 != hb)
}

/// One more bet keeps the round aggregates exact.
proof fn lemma_session_step(
    s1: GameSession,
    s2: GameSession,
    s0: GameSession,
    v0: PositionsView,
    ub1: UserGameBet,
    bets: Seq<BetType>,
    i: int,
    p: BetPricing,
)
    requires
        0 <= i < bets.len(),
        s1.wf(),
        session_after(s1, s0, v0, bets.take(i), p),
        ub1.pairs() =~= merged_pairs(v0.0, bets.take(i)),
        bets[i].faction_id < NUM_FACTIONS,
        s2.user_faction_indexes@ == (if !has_faction(ub1.pairs(), bets[i].faction_id) {
            s1.user_faction_indexes@.update(
                bets[i].faction_id as int,
                (s1.user_faction_indexes@[bets[i].faction_id as int] + 1) as u64,
            )
        } else {
            s1.user_faction_indexes@
        }),
        s2.sol_bets_by_faction@ == s1.sol_bets_by_faction@.update(
            bets[i].faction_id as int,
            (s1.sol_bets_by_faction@[bets[i].faction_id as int] + p.net) as u64,
        ),
        s2.points_bets_by_faction_direction@ == s1.points_bets_by_faction_direction@.update(
            cell(bets[i].faction_id as int, bets[i].direction.index() as int),
            (s1.points_bets_by_faction_direction@[cell(bets[i].faction_id as int, bets[i].direction.index() as int)] + p.points) as u64,
        ),
        s2.wgtd_points_bets_by_faction_direction@ == s1.wgtd_points_bets_by_faction_direction@.update(
            cell(bets[i].faction_id as int, bets[i].direction.index() as int),
            (s1.wgtd_points_bets_by_faction_direction@[cell(bets[i].faction_id as int, bets[i].direction.index() as int)] + p.wgtd_points) as u64,
        ),
        !has_faction(ub1.pairs(), bets[i].faction_id) ==> s1.user_faction_indexes@[bets[i].faction_id as int] + 1 <= u64::MAX,
        s1.sol_bets_by_faction@[bets[i].faction_id as int] + p.net <= u64::MAX,
        s1.points_bets_by_faction_direction@[cell(bets[i].faction_id as int, bets[i].direction.index() as int)] + p.points <= u64::MAX,
        s1.wgtd_points_bets_by_faction_direction@[cell(bets[i].faction_id as int, bets[i].direction.index() as int)] + p.wgtd_points <= u64::MAX,
    ensures
        session_after(s2, s0, v0, bets.take(i + 1), p),
        s2.wf(),
{
    let b = bets[i];
    let fi = b.faction_id as int;
    let di = b.direction.index() as int;
    let t = bets.take(i);
    let t2 = bets.take(i + 1);
    lemma_bets_step(v0.0, bets, i);
    lemma_merged_has_faction(v0.0, t, b.faction_id);
    lemma_mul_succ(faction_count(t, b.faction_id) as int, p.net as int);
    lemma_mul_succ(pair_count(t, bet_pair(b)) as int, p.points as int);
    lemma_mul_succ(pair_count(t, bet_pair(b)) as int, p.wgtd_points as int);
    assert forall|f: int| 0 <= f < NUM_FACTIONS implies #[trigger] s2.sol_bets_by_faction@[f]
        == s0.sol_bets_by_faction@[f] + faction_count(t2, f as u8) * p.net by {
        assert(faction_count(t2, f as u8) == faction_count(t, f as u8) + if b.faction_id == f as u8 { 1nat } else { 0nat });
    }
    assert forall|f: int| 0 <= f < NUM_FACTIONS implies #[trigger] s2.user_faction_indexes@[f]
        == s0.user_faction_indexes@[f] + if !has_faction(v0.0, f as u8) && bets_on_faction(t2, f as u8) { 1int } else { 0int } by {
        assert(bets_on_faction(t2, f as u8) <==> (bets_on_faction(t, f as u8) || b.faction_id == f as u8));
        lemma_merged_has_faction(v0.0, t, f as u8);
    }
    assert forall|f: int, d: int| 0 <= f < NUM_FACTIONS && 0 <= d < DIRECTION_COUNT implies
        #[trigger] s2.points_bets_by_faction_direction@[cell(f, d)] == s0.points_bets_by_faction_direction@[cell(f, d)] + pair_count(t2, (f as u8, d as u8)) * p.points
        && s2.wgtd_points_bets_by_faction_direction@[cell(f, d)] == s0.wgtd_points_bets_by_faction_direction@[cell(f, d)] + pair_count(t2, (f as u8, d as u8)) * p.wgtd_points by {
        let q = (f as u8, d as u8);
        assert(pair_count(t2, q) == pair_count(t, q) + if bet_pair(b) == q { 1nat } else { 0nat });
        if bet_pair(b) == q {
            assert(f == fi && d == di);
        } else {
            assert(cell(f, d) != cell(fi, di));
        }
    }
    assert forall|f: int, d: int| 0 <= f < NUM_FACTIONS && 0 <= d < DIRECTION_COUNT implies
        #[trigger] s2.wgtd_points_bets_by_faction_direction@[cell(f, d)] == s0.wgtd_points_bets_by_faction_direction@[cell(f, d)] + pair_count(t2, (f as u8, d as u8)) * p.wgtd_points by {
        assert(s2.points_bets_by_faction_direction@[cell(f, d)] == s0.points_bets_by_faction_direction@[cell(f, d)] + pair_count(t2, (f as u8, d as u8)) * p.points);
    }
}

/// One more bet keeps the user's faction-war record exact.
proof fn lemma_war_step(
    w1: UserFactionWarBets,
    w2: UserFactionWarBets,
    wv0: WarView,
    bets: Seq<BetType>,
    i: int,
    p: BetPricing,
    home: u8,
    hb: Key,
)
    requires
        0 <= i < bets.len(),
        w1.wf(),
        war_after(w1, wv0, bets.take(i), p, home, hb),
        hashbeast_consistent(wv0, bets.take(i), home, hb),
        bets[i].faction_id < NUM_FACTIONS,
        w2.direction_bets@ == w1.direction_bets@.update(
            cell(bets[i].faction_id as int, bets[i].direction.index() as int),
            (w1.direction_bets@[cell(bets[i].faction_id as int, bets[i].direction.index() as int)] + p.wgtd_points) as u64,
        ),
        w2.sol_direction_bets@ == w1.sol_direction_bets@.update(
            cell(bets[i].faction_id as int, bets[i].direction.index() as int),
            (w1.sol_direction_bets@[cell(bets[i].faction_id as int, bets[i].direction.index() as int)] + p.net) as u64,
        ),
        w1.direction_bets@[cell(bets[i].faction_id as int, bets[i].direction.index() as int)] + p.wgtd_points <= u64::MAX,
        w1.sol_direction_bets@[cell(bets[i].faction_id as int, bets[i].direction.index() as int)] + p.net <= u64::MAX,
        w2.gameplay_hashbeast == (if bets[i].faction_id == home && !hb.is_zero() && w1.gameplay_hashbeast.is_zero() {
            hb
        } else {
            w1.gameplay_hashbeast
        }),
        bets[i].faction_id == home && !hb.is_zero() && !w1.gameplay_hashbeast.is_zero() ==> w1.gameplay_hashbeast == hb,
        w2.owner == w1.owner && w2.war_id == w1.war_id && w2.mutation_score == w1.mutation_score && w2.bump == w1.bump,
    ensures
        war_after(w2, wv0, bets.take(i + 1), p, home, hb),
        hashbeast_consistent(wv0, bets.take(i + 1), home, hb),
        w2.wf(),
{
    let b = bets[i];
    let fi = b.faction_id as int;
    let di = b.direction.index() as int;
    let t = bets.take(i);
    let t2 = bets.take(i + 1);
    lemma_bets_step(Seq::empty(), bets, i);
    assert(bets_on_home(t2, home) <==> (bets_on_home(t, home) || b.faction_id == home));
    lemma_mul_succ(pair_count(t, bet_pair(b)) as int, p.net as int);
    lemma_mul_succ(pair_count(t, bet_pair(b)) as int, p.wgtd_points as int);
    assert forall|f: int, d: int| 0 <= f < NUM_FACTIONS && 0 <= d < DIRECTION_COUNT implies
        #[trigger] w2.direction_bets@[cell(f, d)] == wv0.0[cell(f, d)] + pair_count(t2, (f as u8, d as u8)) * p.wgtd_points
        && w2.sol_direction_bets@[cell(f, d)] == wv0.1[cell(f, d)] + pair_count(t2, (f as u8, d as u8)) * p.net by {
        let q = (f as u8, d as u8);
        assert(pair_count(t2, q) == pair_count(t, q) + if bet_pair(b) == q { 1nat } else { 0nat });
        if bet_pair(b) == q {
            assert(f == fi && d == di);
        } else {
            assert(cell(f, d) != cell(fi, di));
        }
    }
    assert forall|f: int, d: int| 0 <= f < NUM_FACTIONS && 0 <= d < DIRECTION_COUNT implies
        #[trigger] w2.sol_direction_bets@[cell(f, d)] == wv0.1[cell(f, d)] + pair_count(t2, (f as u8, d as u8)) * p.net by {
        assert(w2.direction_bets@[cell(f, d)] == wv0.0[cell(f, d)] + pair_count(t2, (f as u8, d as u8)) * p.wgtd_points);
    }
}


/// Recorded state fits its integer types, so the bets recorded so far were
/// all recordable.
proof fn lemma_ok_from_after(
    ub: UserGameBet,
    s: GameSession,
    w: UserFactionWarBets,
    v0: PositionsView,
    s0: GameSession,
    wv0: WarView,
    t: Seq<BetType>,
    p: BetPricing,
    home: u8,
    hb: Key,
)
    requires
        ub.aligned(),
        positions_after(ub, v0, t, p),
        s.wf(),
        s0.wf(),
        session_after(s, s0, v0, t, p),
        w.wf(),
        war_view_wf(wv0),
        war_after(w, wv0, t, p, home, hb),
        hashbeast_consistent(wv0, t, home, hb),
        forall|k: int| 0 <= k < t.len() ==> (#[trigger] t[k]).faction_id < NUM_FACTIONS,
    ensures
        positions_ok(v0, s0, wv0, t, p, home, hb),
{
    let m = merged_pairs(v0.0, t);
    assert forall|j: int| 0 <= j < m.len() implies base_at(v0.1, j) + pair_count(t, #[trigger] m[j]) * p.net <= u64::MAX
        && base_at(v0.2, j) + pair_count(t, m[j]) * p.points <= u64::MAX
        && base_at(v0.3, j) + pair_count(t, m[j]) * p.wgtd_points <= u64::MAX by {
        assert(ub.sol_bets@[j] <= u64::MAX);
        assert(ub.points_bets@[j] <= u64::MAX);
        assert(ub.wgtd_points_bets@[j] <= u64::MAX);
    }
    assert forall|f: int| 0 <= f < NUM_FACTIONS implies s0.sol_bets_by_faction@[f] + #[trigger] faction_count(t, f as u8) * p.net <= u64::MAX by {
        assert(s.sol_bets_by_faction@[f] <= u64::MAX);
    }
    assert forall|f: int| 0 <= f < NUM_FACTIONS implies ((!has_faction(v0.0, f as u8) && #[trigger] bets_on_faction(t, f as u8)) ==> s0.user_faction_indexes@[f] < u64::MAX) by {
        assert(s.user_faction_indexes@[f] <= u64::MAX);
    }
    assert forall|f: int, d: int| 0 <= f < NUM_FACTIONS && 0 <= d < DIRECTION_COUNT implies
        s0.points_bets_by_faction_direction@[cell(f, d)] + #[trigger] pair_count(t, (f as u8, d as u8)) * p.points <= u64::MAX
        && s0.wgtd_points_bets_by_faction_direction@[cell(f, d)] + pair_count(t, (f as u8, d as u8)) * p.wgtd_points <= u64::MAX
        && wv0.0[cell(f, d)] + pair_count(t, (f as u8, d as u8)) * p.wgtd_points <= u64::MAX
        && wv0.1[cell(f, d)] + pair_count(t, (f as u8, d as u8)) * p.net <= u64::MAX by {
        assert(s.points_bets_by_faction_direction@[cell(f, d)] <= u64::MAX);
        assert(s.wgtd_points_bets_by_faction_direction@[cell(f, d)] <= u64::MAX);
        assert(w.direction_bets@[cell(f, d)] <= u64::MAX);
        assert(w.sol_direction_bets@[cell(f, d)] <= u64::MAX);
    }
}


/// With nothing recorded yet, the state is its own "after".
proof fn lemma_initial_after(
    ub0: UserGameBet,
    s0: GameSession,
    w0: UserFactionWarBets,
    t: Seq<BetType>,
    p: BetPricing,
    home: u8,
    hb: Key,
)
    requires
        t.len() == 0,
        ub0.wf(),
    ensures
        positions_after(ub0, ub0.positions(), t, p),
        session_after(s0, s0, ub0.positions(), t, p),
        war_after(w0, w0.war_view(), t, p, home, hb),
        hashbeast_consistent(w0.war_view(), t, home, hb),
{
    assert(merged_pairs(ub0.pairs(), t) == ub0.pairs());
    assert forall|q: (u8, u8)| #[trigger] pair_count(t, q) == 0 by {}
    assert forall|f: u8| #[trigger] faction_count(t, f) == 0 by {}
    assert forall|f: u8| !#[trigger] bets_on_faction(t, f) by {}
    assert forall|j: int| 0 <= j < ub0.faction_ids.len() implies #[trigger] ub0.sol_bets@[j] == base_at(ub0.sol_bets@, j) + pair_count(t, ub0.pairs()[j]) * p.net by {
        assert(pair_count(t, ub0.pairs()[j]) == 0);
    }
    assert forall|j: int| 0 <= j < ub0.faction_ids.len() implies #[trigger] ub0.points_bets@[j] == base_at(ub0.points_bets@, j) + pair_count(t, ub0.pairs()[j]) * p.points by {
        assert(pair_count(t, ub0.pairs()[j]) == 0);
    }
    assert forall|j: int| 0 <= j < ub0.faction_ids.len() implies #[trigger] ub0.wgtd_points_bets@[j] == base_at(ub0.wgtd_points_bets@, j) + pair_count(t, ub0.pairs()[j]) * p.wgtd_points by {
        assert(pair_count(t, ub0.pairs()[j]) == 0);
    }
}

/// The fields of a faction-war record that recording positions leaves alone.
pub open spec fn same_war_header(a: UserFactionWarBets, b: UserFactionWarBets) -> bool {
    a.owner == b.owner && a.war_id == b.war_id && a.mutation_score == b.mutation_score && a.bump == b.bump
}

/// Records a batch of bets, all at the same per-bet pricing, into the user's
/// round positions, the round's aggregates and the user's faction-war record.
/// A bet on a pair the user already holds adds to that position; a new pair
/// opens a position (at most `MAX_POSITIONS_PER_BET`), and a faction the user
/// had no position on yet counts one more distinct user for that faction.
/// The first home-faction bet with a deployed gameplay HashBeast locks that
/// HashBeast in for the war; a later home bet with another one is refused.
pub fn record_bet_positions(
    ub: &mut UserGameBet,
    s: &mut GameSession,
    w: &mut UserFactionWarBets,
    bets: &Vec<BetType>,
    p: BetPricing,
    home: u8,
    hb: Key,
) -> (r: Result<(), ErrorCode>)
    requires
        old(ub).wf(),
        old(s).wf(),
        old(w).wf(),
    ensures
        r is Ok <==> positions_ok(old(ub).positions(), *old(s), old(w).war_view(), bets@, p, home, hb),
        r is Ok ==> final(ub).wf() && positions_after(*final(ub), old(ub).positions(), bets@, p)
            && same_bet_header(*final(ub), *old(ub)),
        r is Ok ==> final(s).wf() && session_after(*final(s), *old(s), old(ub).positions(), bets@, p)
            && same_session_header(*final(s), *old(s)),
        r is Ok ==> final(w).wf() && war_after(*final(w), old(w).war_view(), bets@, p, home, hb)
            && same_war_header(*final(w), *old(w)),
        r is Err ==> r == Err::<(), ErrorCode>(ErrorCode::ArithmeticOverflow) || r == Err::<
            (),
            ErrorCode,
        >(ErrorCode::InvalidFactionId) || r == Err::<(), ErrorCode>(ErrorCode::InvalidParameters)
            || r == Err::<(), ErrorCode>(ErrorCode::InvalidAccount),
{
    let ghost ub0: UserGameBet = *ub;
    let ghost s0: GameSession = *s;
    let ghost w0: UserFactionWarBets = *w;
    let ghost v0: PositionsView = ub0.positions();
    let ghost wv0: WarView = w0.war_view();
    let n = bets.len();
    let mut i: usize = 0;
    proof {
        assert(bets@.take(0) =~= Seq::<BetType>::empty());
        assert(v0.0 =~= merged_pairs(v0.0, bets@.take(0)));
        lemma_initial_after(ub0, s0, w0, bets@.take(0), p, home, hb);
        lemma_ok_from_after(*ub, *s, *w, v0, s0, wv0, bets@.take(0), p, home, hb);
    }
    while i < n
        invariant
            n == bets.len(),
            0 <= i <= n,
            ub0 == *old(ub),
            s0 == *old(s),
            w0 == *old(w),
            positions_view_wf(v0),
            s0.wf(),
            war_view_wf(wv0),
            ub.wf(),
            s.wf(),
            w.wf(),
            positions_after(*ub, v0, bets@.take(i as int), p),
            same_bet_header(*ub, ub0),
            session_after(*s, s0, v0, bets@.take(i as int), p),
            same_session_header(*s, s0),
            same_war_header(*w, w0),
            v0 == ub0.positions(),
            wv0 == w0.war_view(),
            war_after(*w, wv0, bets@.take(i as int), p, home, hb),
            hashbeast_consistent(wv0, bets@.take(i as int), home, hb),
            forall|k: int| 0 <= k < i ==> (#[trigger] bets@[k]).faction_id < NUM_FACTIONS,
        decreases n - i,
    {
        let ghost t = bets@.take(i as int);
        let ghost ub1: UserGameBet = *ub;
        let ghost s1: GameSession = *s;
        let ghost w1: UserFactionWarBets = *w;
        proof {
            lemma_bets_step(v0.0, bets@, i as int);
            assert(ub.pairs() =~= merged_pairs(v0.0, t));
        }
        let b = bets[i];
        let faction_id = b.faction_id;
        let direction_index = b.direction.as_index();
        let direction_u8 = direction_index as u8;
        if faction_id as usize >= NUM_FACTIONS {
            proof {
                if positions_ok(v0, s0, wv0, bets@, p, home, hb) {
                    lemma_positions_ok_prefix(v0, s0, wv0, bets@, i + 1, p, home, hb);
                    assert(bets@.take(i + 1)[i as int] == b);
                }
            }
            return Err(ErrorCode::InvalidFactionId);
        }
        let fi = faction_id as usize;
        let existing = find_position(ub, faction_id, direction_u8);
        let already = contains_faction(ub, faction_id);
        match existing {
            Some(j) => {
                let ghost c = pair_count(t, bet_pair(b)) as int;
                proof {
                    lemma_mul_succ(c, p.net as int);
                    lemma_mul_succ(c, p.points as int);
                    lemma_mul_succ(c, p.wgtd_points as int);
                    assert(ub.pairs()[j as int] == bet_pair(b));
                    assert(merged_pairs(v0.0, t).contains(bet_pair(b)));
                    if positions_ok(v0, s0, wv0, bets@, p, home, hb) {
                        lemma_positions_ok_prefix(v0, s0, wv0, bets@, i + 1, p, home, hb);
                        let m2 = merged_pairs(v0.0, bets@.take(i + 1));
                        assert(m2[j as int] == bet_pair(b));
                        assert(base_at(v0.1, j as int) + pair_count(bets@.take(i + 1), m2[j as int]) * p.net <= u64::MAX);
                        assert(base_at(v0.2, j as int) + pair_count(bets@.take(i + 1), m2[j as int]) * p.points <= u64::MAX);
                        assert(base_at(v0.3, j as int) + pair_count(bets@.take(i + 1), m2[j as int]) * p.wgtd_points <= u64::MAX);
                    }
                    assert(ub.sol_bets@[j as int] == base_at(v0.1, j as int) + c * p.net);
                    assert(ub.points_bets@[j as int] == base_at(v0.2, j as int) + c * p.points);
                    assert(ub.wgtd_points_bets@[j as int] == base_at(v0.3, j as int) + c * p.wgtd_points);
                    assert(positions_ok(v0, s0, wv0, bets@, p, home, hb) ==> ub.sol_bets@[j as int] + p.net <= u64::MAX);
                }
                let new_sol = match ub.sol_bets[j].checked_add(p.net) {
                    Some(v) => v,
                    None => return Err(ErrorCode::ArithmeticOverflow),
                };
                let new_points = match ub.points_bets[j].checked_add(p.points) {
                    Some(v) => v,
                    None => return Err(ErrorCode::ArithmeticOverflow),
                };
                let new_wgtd = match ub.wgtd_points_bets[j].checked_add(p.wgtd_points) {
                    Some(v) => v,
                    None => return Err(ErrorCode::ArithmeticOverflow),
                };
                ub.sol_bets[j] = new_sol;
                ub.points_bets[j] = new_points;
                ub.wgtd_points_bets[j] = new_wgtd;
                proof {
                    lemma_step_existing(ub1, *ub, v0, bets@, i as int, p, j as int);
                }
            },
            None => {
                proof {
                    let m = merged_pairs(v0.0, t);
                    assert(!m.contains(bet_pair(b)));
                    lemma_merged_has_faction(v0.0, t, faction_id);
                    if positions_ok(v0, s0, wv0, bets@, p, home, hb) {
                        lemma_positions_ok_prefix(v0, s0, wv0, bets@, i + 1, p, home, hb);
                        assert(bets_on_faction(bets@.take(i + 1), faction_id));
                        assert(merged_pairs(v0.0, bets@.take(i + 1)).len() == m.len() + 1);
                    }
                }
                if ub.faction_ids.len() >= MAX_POSITIONS_PER_BET {
                    return Err(ErrorCode::InvalidParameters);
                }
                if !already {
                    let new_count = match s.user_faction_indexes[fi].checked_add(1) {
                        Some(v) => v,
                        None => return Err(ErrorCode::ArithmeticOverflow),
                    };
                    s.user_faction_indexes[fi] = new_count;
                }
                ub.faction_ids.push(faction_id);
                ub.directions.push(direction_u8);
                ub.sol_bets.push(p.net);
                ub.points_bets.push(p.points);
                ub.wgtd_points_bets.push(p.wgtd_points);
                proof {
                    lemma_step_new(ub1, *ub, v0, bets@, i as int, p);
                }
            },
        }
        let c = cell_index(fi, direction_index);
        proof {
            let f8 = faction_id;
            let q = bet_pair(b);
            let fc = faction_count(t, f8) as int;
            let pc = pair_count(t, q) as int;
            lemma_mul_succ(fc, p.net as int);
            lemma_mul_succ(pc, p.net as int);
            lemma_mul_succ(pc, p.points as int);
            lemma_mul_succ(pc, p.wgtd_points as int);
            assert(q == (fi as u8, direction_index as u8));
            assert(s.sol_bets_by_faction@[fi as int] == s0.sol_bets_by_faction@[fi as int] + fc * p.net);
            assert(s.points_bets_by_faction_direction@[cell(fi as int, direction_index as int)] == s0.points_bets_by_faction_direction@[cell(fi as int, direction_index as int)] + pc * p.points);
            assert(s.wgtd_points_bets_by_faction_direction@[cell(fi as int, direction_index as int)] == s0.wgtd_points_bets_by_faction_direction@[cell(fi as int, direction_index as int)] + pc * p.wgtd_points);
            assert(w.direction_bets@[cell(fi as int, direction_index as int)] == wv0.0[cell(fi as int, direction_index as int)] + pc * p.wgtd_points);
            assert(w.sol_direction_bets@[cell(fi as int, direction_index as int)] == wv0.1[cell(fi as int, direction_index as int)] + pc * p.net);
            if positions_ok(v0, s0, wv0, bets@, p, home, hb) {
                lemma_positions_ok_prefix(v0, s0, wv0, bets@, i + 1, p, home, hb);
                let t2 = bets@.take(i + 1);
                assert(faction_count(t2, f8) == fc + 1);
                assert(pair_count(t2, (fi as u8, direction_index as u8)) == pc + 1);
                assert(s0.sol_bets_by_faction@[fi as int] + faction_count(t2, (fi as int) as u8) * p.net <= u64::MAX);
                assert(s0.points_bets_by_faction_direction@[cell(fi as int, direction_index as int)] + pair_count(t2, ((fi as int) as u8, (direction_index as int) as u8)) * p.points <= u64::MAX);
                assert(s0.wgtd_points_bets_by_faction_direction@[cell(fi as int, direction_index as int)] + pair_count(t2, ((fi as int) as u8, (direction_index as int) as u8)) * p.wgtd_points <= u64::MAX);
                assert(wv0.0[cell(fi as int, direction_index as int)] + pair_count(t2, ((fi as int) as u8, (direction_index as int) as u8)) * p.wgtd_points <= u64::MAX);
                assert(wv0.1[cell(fi as int, direction_index as int)] + pair_count(t2, ((fi as int) as u8, (direction_index as int) as u8)) * p.net <= u64::MAX);
            }
        }
        let new_faction_sol = match s.sol_bets_by_faction[fi].checked_add(p.net) {
            Some(v) => v,
            None => return Err(ErrorCode::ArithmeticOverflow),
        };
        let new_cell_points = match s.points_bets_by_faction_direction[c].checked_add(p.points) {
            Some(v) => v,
            None => return Err(ErrorCode::ArithmeticOverflow),
        };
        let new_cell_wgtd = match s.wgtd_points_bets_by_faction_direction[c].checked_add(
            p.wgtd_points,
        ) {
            Some(v) => v,
            None => return Err(ErrorCode::ArithmeticOverflow),
        };
        let new_war_wgtd = match w.direction_bets[c].checked_add(p.wgtd_points) {
            Some(v) => v,
            None => return Err(ErrorCode::ArithmeticOverflow),
        };
        let new_war_sol = match w.sol_direction_bets[c].checked_add(p.net) {
            Some(v) => v,
            None => return Err(ErrorCode::ArithmeticOverflow),
        };
        s.sol_bets_by_faction[fi] = new_faction_sol;
        s.points_bets_by_faction_direction[c] = new_cell_points;
        s.wgtd_points_bets_by_faction_direction[c] = new_cell_wgtd;
        w.direction_bets[c] = new_war_wgtd;
        w.sol_direction_bets[c] = new_war_sol;
        if faction_id == home && !hb.is_default() {
            if w.gameplay_hashbeast.is_default() {
                w.gameplay_hashbeast = hb;
            } else if w.gameplay_hashbeast != hb {
                proof {
                    if positions_ok(v0, s0, wv0, bets@, p, home, hb) {
                        lemma_positions_ok_prefix(v0, s0, wv0, bets@, i + 1, p, home, hb);
                        assert(bets_on_home(bets@.take(i + 1), home));
                    }
                }
                return Err(ErrorCode::InvalidAccount);
            }
        }
        proof {
            lemma_session_step(s1, *s, s0, v0, ub1, bets@, i as int, p);
            lemma_war_step(w1, *w, wv0, bets@, i as int, p, home, hb);
        }
        i += 1;
    }
    proof {
        assert(bets@.take(n as int) =~= bets@);
        lemma_ok_from_after(*ub, *s, *w, v0, s0, wv0, bets@, p, home, hb);
    }
    Ok(())
}


/// Whether bets can be recorded depends on the round only through its
/// per-faction and per-cell aggregates.
pub proof fn lemma_positions_ok_by_aggregates(
    v0: PositionsView,
    s1: GameSession,
    s2: GameSession,
    wv0: WarView,
    bets: Seq<BetType>,
    p: BetPricing,
    home: u8,
    hb: Key,
)
    requires
        s1.user_faction_indexes@ == s2.user_faction_indexes@,
        s1.sol_bets_by_faction@ == s2.sol_bets_by_faction@,
        s1.points_bets_by_faction_direction@ == s2.points_bets_by_faction_direction@,
        s1.wgtd_points_bets_by_faction_direction@ == s2.wgtd_points_bets_by_faction_direction@,
    ensures
        positions_ok(v0, s1, wv0, bets, p, home, hb) == positions_ok(v0, s2, wv0, bets, p, home, hb),
{
}

} // verus!
