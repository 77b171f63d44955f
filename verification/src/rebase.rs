//! Rebase epochs: ranking the countries by mutation score, resolving each
//! country's direction from its rank change, splitting the mining pool over
//! the countries, and a player's rebase claim.
use vstd::prelude::*;

use crate::constants::{BASIS_POINTS_DENOMINATOR, DIRECTION_COUNT, NUM_FACTIONS, REBASE_HASHBEAST_REWARD_SHARE_BPS};
use crate::errors::ErrorCode;
use crate::hashbeast::HashBeastMetadata;
use crate::rewards::{add_to_total_claimable, claimable_credit_ok, hodl_accrual, HodlPool};
use crate::state::{cell, cell_index, Key, PlayerData, PredictionDirection};

verus! {

/// Refuses an active-country count outside 1 to `NUM_FACTIONS`.
pub fn validate_active_faction_count(active_factions: usize) -> (r: Result<(), ErrorCode>)
    ensures
        r == (if 0 < active_factions <= NUM_FACTIONS { Ok::<(), ErrorCode>(()) } else { Err(ErrorCode::InvalidFactionId) }),
{
    if active_factions > 0 && active_factions <= NUM_FACTIONS {
        Ok(())
    } else {
        Err(ErrorCode::InvalidFactionId)
    }
}

/// Country `g` ranks ahead of country `f`: a higher score, or the same score
/// and a lower id.
pub open spec fn beats(scores: Seq<i64>, g: int, f: int) -> bool {
    scores[g] > scores[f] || (scores[g] == scores[f] && g < f)
}

/// How many of the countries `0..n` rank ahead of `f`.
pub open spec fn rank_count(scores: Seq<i64>, n: int, f: int) -> int
    decreases n,
{
    if n <= 0 {
        0
    } else {
        rank_count(scores, n - 1, f) + if beats(scores, n - 1, f) { 1int } else { 0int }
    }
}

pub proof fn lemma_rank_count_bounds(scores: Seq<i64>, n: int, f: int)
    requires
        n >= 0,
    ensures
        0 <= rank_count(scores, n, f) <= n,
        0 <= f < n ==> rank_count(scores, n, f) <= n - 1,
    decreases n,
{
    if n > 0 {
        lemma_rank_count_bounds(scores, n - 1, f);
    }
}

proof fn lemma_rank_count_strict(scores: Seq<i64>, n: int, f: int, g: int)
    requires
        n >= 0,
        f >= 0,
        beats(scores, f, g),
    ensures
        rank_count(scores, n, g) >= rank_count(scores, n, f) + (if f < n { 1int } else { 0int }),
    decreases n,
{
    if n > 0 {
        lemma_rank_count_strict(scores, n - 1, f, g);
        let h = n - 1;
        assert(rank_count(scores, n, g) == rank_count(scores, h, g) + if beats(scores, h, g) { 1int } else { 0int });
        assert(rank_count(scores, n, f) == rank_count(scores, h, f) + if beats(scores, h, f) { 1int } else { 0int });
        if h == f {
            assert(!beats(scores, f, f));
            assert(beats(scores, h, g));
        } else if beats(scores, h, f) {
            assert(beats(scores, h, g));
        }
    }
}

/// Distinct countries get distinct ranks.
pub proof fn lemma_ranks_distinct(scores: Seq<i64>, n: int, f: int, g: int)
    requires
        0 <= f < n,
        0 <= g < n,
        f != g,
    ensures
        rank_count(scores, n, f) != rank_count(scores, n, g),
{
    if beats(scores, f, g) {
        lemma_rank_count_strict(scores, n, f, g);
    } else {
        assert(beats(scores, g, f));
        lemma_rank_count_strict(scores, n, g, f);
    }
}

/// Ranks the first `active_factions` countries by score, highest first and
/// ties to the lower id: returns each country's rank (0 for the inactive
/// ones) and the countries in rank order (the inactive ones in place after
/// them).
pub fn compute_rankings(scores: &Vec<i64>, active_factions: usize) -> (r: Result<(Vec<u8>, Vec<u8>), ErrorCode>)
    requires
        scores.len() == NUM_FACTIONS,
    ensures
        !(0 < active_factions <= NUM_FACTIONS) ==> r == Err::<(Vec<u8>, Vec<u8>), ErrorCode>(ErrorCode::InvalidFactionId),
        0 < active_factions <= NUM_FACTIONS ==> r is Ok,
        r matches Ok((ranks, ordered)) ==> {
            &&& ranks.len() == NUM_FACTIONS
            &&& ordered.len() == NUM_FACTIONS
            &&& forall|f: int| 0 <= f < active_factions ==> #[trigger] ranks@[f] == rank_count(scores@, active_factions as int, f)
            &&& forall|f: int| active_factions <= f < NUM_FACTIONS ==> #[trigger] ranks@[f] == 0
            &&& forall|f: int| 0 <= f < active_factions ==> ordered@[#[trigger] ranks@[f] as int] == f
            &&& forall|i: int| active_factions <= i < NUM_FACTIONS ==> #[trigger] ordered@[i] == i
        },
{
    validate_active_faction_count(active_factions)?;
    let n = active_factions;
    let mut ranks: Vec<u8> = Vec::new();
    let mut f: usize = 0;
    while f < NUM_FACTIONS
        invariant
            0 < n <= NUM_FACTIONS,
            scores.len() == NUM_FACTIONS,
            f <= NUM_FACTIONS,
            ranks.len() == f,
            forall|a: int| 0 <= a < f && a < n ==> #[trigger] ranks@[a] == rank_count(scores@, n as int, a),
            forall|a: int| n <= a < f ==> #[trigger] ranks@[a] == 0,
        decreases NUM_FACTIONS - f,
    {
        if f < n {
            let mut count: u8 = 0;
            let mut g: usize = 0;
            while g < n
                invariant
                    0 < n <= NUM_FACTIONS,
                    scores.len() == NUM_FACTIONS,
                    f < n,
                    g <= n,
                    count == rank_count(scores@, g as int, f as int),
                    count <= g,
                decreases n - g,
            {
                proof {
                    lemma_rank_count_bounds(scores@, g as int, f as int);
                }
                if scores[g] > scores[f] || (scores[g] == scores[f] && g < f) {
                    count = count + 1;
                }
                g += 1;
            }
            ranks.push(count);
        } else {
            ranks.push(0);
        }
        f += 1;
    }
    let mut ordered: Vec<u8> = Vec::new();
    let mut i: usize = 0;
    while i < NUM_FACTIONS
        invariant
            i <= NUM_FACTIONS,
            ordered.len() == i,
            forall|a: int| 0 <= a < i ==> #[trigger] ordered@[a] == a,
        decreases NUM_FACTIONS - i,
    {
        ordered.push(i as u8);
        i += 1;
    }
    proof {
        assert forall|a: int| 0 <= a < n implies #[trigger] ranks@[a] < n by {
            lemma_rank_count_bounds(scores@, n as int, a);
        }
    }
    let mut k: usize = 0;
    while k < n
        invariant
            0 < n <= NUM_FACTIONS,
            k <= n,
            forall|a: int| 0 <= a < n ==> #[trigger] ranks@[a] < n,
            ranks.len() == NUM_FACTIONS,
            ordered.len() == NUM_FACTIONS,
            forall|a: int| 0 <= a < n ==> #[trigger] ranks@[a] == rank_count(scores@, n as int, a),
            forall|a: int| 0 <= a < k ==> ordered@[#[trigger] ranks@[a] as int] == a,
            forall|j: int| n <= j < NUM_FACTIONS ==> #[trigger] ordered@[j] == j,
        decreases n - k,
    {
        proof {
            lemma_rank_count_bounds(scores@, n as int, k as int);
            assert forall|a: int| 0 <= a < k implies ranks@[a] != ranks@[k as int] by {
                lemma_ranks_distinct(scores@, n as int, a, k as int);
            }
        }
        let pos = ranks[k] as usize;
        let ghost before = ordered@;
        ordered.set(pos, k as u8);
        proof {
            assert forall|a: int| 0 <= a < k implies ordered@[#[trigger] ranks@[a] as int] == a by {
                assert(before[ranks@[a] as int] == a);
            }
        }
        k += 1;
    }
    Ok((ranks, ordered))
}

/// A rank byte read as a signed byte.
pub open spec fn signed_rank(x: u8) -> int {
    if x < 128 {
        x as int
    } else {
        x as int - 256
    }
}

/// The direction a country moved from `start_rank` to `final_rank` and by
/// how many places: up when it climbed (a smaller rank), down when it fell,
/// neutral when it stayed.
pub fn resolve_direction_from_ranks(start_rank: u8, final_rank: u8) -> (r: (PredictionDirection, i8))
    requires
        -128 <= signed_rank(start_rank) - signed_rank(final_rank) <= 127,
    ensures
        r.1 == signed_rank(start_rank) - signed_rank(final_rank),
        r.0 == (if r.1 > 0 {
            PredictionDirection::Up
        } else if r.1 < 0 {
            PredictionDirection::Down
        } else {
            PredictionDirection::Neutral
        }),
{
    let s: i16 = if start_rank < 128 { start_rank as i16 } else { start_rank as i16 - 256 };
    let f: i16 = if final_rank < 128 { final_rank as i16 } else { final_rank as i16 - 256 };
    let delta = (s - f) as i8;
    let direction = if delta > 0 {
        PredictionDirection::Up
    } else if delta < 0 {
        PredictionDirection::Down
    } else {
        PredictionDirection::Neutral
    };
    (direction, delta)
}

/// The state of one rebase epoch. Per-country tables have `NUM_FACTIONS`
/// entries; per-(country, direction) tables are flattened by `cell`.
#[derive(Debug, Clone)]
pub struct RebaseState {
    pub rebase_id: u64,
    pub stage: u8,
    pub active_faction_count: u8,
    pub total_dogebtc_mined_in_rebase: u64,
    pub rebase_mining_pool: u64,
    pub faction_mutation_scores: Vec<u64>,
    pub start_ranks: Vec<u8>,
    pub final_ranks: Vec<u8>,
    pub rank_deltas: Vec<i8>,
    pub resolved_directions: Vec<u8>,
    pub faction_direction_totals: Vec<u64>,
    pub eligible_doge_direction_totals: Vec<u64>,
    pub faction_reward_pools: Vec<u64>,
    pub faction_doge_reward_pools: Vec<u64>,
}

impl RebaseState {
    /// Every table has its full size.
    pub open spec fn wf(self) -> bool {
        &&& self.faction_mutation_scores.len() == NUM_FACTIONS
        &&& self.start_ranks.len() == NUM_FACTIONS
        &&& self.final_ranks.len() == NUM_FACTIONS
        &&& self.rank_deltas.len() == NUM_FACTIONS
        &&& self.resolved_directions.len() == NUM_FACTIONS
        &&& self.faction_direction_totals.len() == NUM_FACTIONS * DIRECTION_COUNT
        &&& self.eligible_doge_direction_totals.len() == NUM_FACTIONS * DIRECTION_COUNT
        &&& self.faction_reward_pools.len() == NUM_FACTIONS
        &&& self.faction_doge_reward_pools.len() == NUM_FACTIONS
    }

    /// Every active country has a resolved direction.
    pub open spec fn directions_valid(self) -> bool {
        forall|f: int| 0 <= f < self.active_faction_count ==> #[trigger] self.resolved_directions@[f] < DIRECTION_COUNT
    }
}

/// The bet weight on country `f`'s resolved direction.
pub open spec fn winning_weight(s: RebaseState, f: int) -> u64 {
    s.faction_direction_totals@[cell(f, s.resolved_directions@[f] as int)]
}

/// The winning bet weight summed over the countries `0..n`.
pub open spec fn total_winning_weight(s: RebaseState, n: int) -> int
    decreases n,
{
    if n <= 0 {
        0
    } else {
        total_winning_weight(s, n - 1) + winning_weight(s, n - 1)
    }
}

proof fn lemma_weight_le_total(s: RebaseState, n: int, f: int)
    requires
        0 <= f < n,
    ensures
        0 <= winning_weight(s, f) <= total_winning_weight(s, n),
        total_winning_weight(s, n) <= n * u64::MAX,
    decreases n,
{
    if n - 1 > f {
        lemma_weight_le_total(s, n - 1, f);
    } else {
        lemma_total_weight_nonneg(s, n - 1);
    }
    lemma_total_weight_bound(s, n);
}

proof fn lemma_total_weight_nonneg(s: RebaseState, n: int)
    ensures
        0 <= total_winning_weight(s, n),
    decreases n,
{
    if n > 0 {
        lemma_total_weight_nonneg(s, n - 1);
    }
}

proof fn lemma_total_weight_bound(s: RebaseState, n: int)
    requires
        n >= 0,
    ensures
        total_winning_weight(s, n) <= n * u64::MAX,
    decreases n,
{
    if n > 0 {
        lemma_total_weight_bound(s, n - 1);
    }
}

/// Country `f`'s slice of the mining pool: its winning weight out of all
/// countries' winning weight.
pub open spec fn raw_reward_pool(s: RebaseState, f: int) -> int {
    let total = total_winning_weight(s, s.active_faction_count as int);
    if s.rebase_mining_pool == 0 || total == 0 || f >= s.active_faction_count {
        0
    } else {
        s.rebase_mining_pool * winning_weight(s, f) / total
    }
}

/// The HashBeast-bonus part of country `f`'s slice: a fixed share, when
/// some eligible HashBeast bet the resolved direction.
pub open spec fn doge_reward_pool(s: RebaseState, f: int) -> int {
    let raw = raw_reward_pool(s, f);
    let eligible = s.eligible_doge_direction_totals@[cell(f, s.resolved_directions@[f] as int)];
    if raw == 0 || eligible == 0 {
        0
    } else {
        raw * REBASE_HASHBEAST_REWARD_SHARE_BPS / BASIS_POINTS_DENOMINATOR as int
    }
}

/// Splits the rebase mining pool over the active countries by their
/// winning-direction bet weight, and sets aside each country's HashBeast
/// bonus share. Inactive countries get nothing.
pub fn compute_faction_reward_pools(s: &mut RebaseState) -> (r: Result<(), ErrorCode>)
    requires
        old(s).wf(),
        old(s).directions_valid(),
    ensures
        !(0 < old(s).active_faction_count <= NUM_FACTIONS) ==> r == Err::<(), ErrorCode>(ErrorCode::InvalidFactionId),
        0 < old(s).active_faction_count <= NUM_FACTIONS ==> r is Ok,
        r is Ok ==> {
            &&& final(s).wf()
            &&& forall|f: int| 0 <= f < NUM_FACTIONS ==> #[trigger] final(s).faction_doge_reward_pools@[f] == doge_reward_pool(*old(s), f)
            &&& forall|f: int| 0 <= f < NUM_FACTIONS ==> #[trigger] final(s).faction_reward_pools@[f]
                == raw_reward_pool(*old(s), f) - doge_reward_pool(*old(s), f)
            &&& *final(s) == (RebaseState {
                faction_reward_pools: final(s).faction_reward_pools,
                faction_doge_reward_pools: final(s).faction_doge_reward_pools,
                ..*old(s)
            })
        },
{
    let active = s.active_faction_count as usize;
    validate_active_faction_count(active)?;
    let pool = s.rebase_mining_pool;
    let mut total: u128 = 0;
    let mut f: usize = 0;
    while f < active
        invariant
            0 < active <= NUM_FACTIONS,
            active == s.active_faction_count,
            s.wf(),
            s.directions_valid(),
            f <= active,
            total == total_winning_weight(*s, f as int),
        decreases active - f,
    {
        proof {
            lemma_total_weight_bound(*s, f as int + 1);
        }
        let dir = s.resolved_directions[f] as usize;
        let w = s.faction_direction_totals[cell_index(f, dir)];
        total = total + w as u128;
        f += 1;
    }
    let mut user_pools: Vec<u64> = Vec::new();
    let mut doge_pools: Vec<u64> = Vec::new();
    let mut g: usize = 0;
    while g < NUM_FACTIONS
        invariant
            0 < active <= NUM_FACTIONS,
            active == s.active_faction_count,
            pool == s.rebase_mining_pool,
            s.wf(),
            s.directions_valid(),
            total == total_winning_weight(*s, active as int),
            g <= NUM_FACTIONS,
            user_pools.len() == g,
            doge_pools.len() == g,
            forall|a: int| 0 <= a < g ==> #[trigger] doge_pools@[a] == doge_reward_pool(*s, a),
            forall|a: int| 0 <= a < g ==> #[trigger] user_pools@[a] == raw_reward_pool(*s, a) - doge_reward_pool(*s, a),
        decreases NUM_FACTIONS - g,
    {
        if g >= active || pool == 0 || total == 0 {
            user_pools.push(0);
            doge_pools.push(0);
        } else {
            let dir = s.resolved_directions[g] as usize;
            let w = s.faction_direction_totals[cell_index(g, dir)];
            proof {
                lemma_weight_le_total(*s, active as int, g as int);
                assert((pool as int) * (w as int) <= (pool as int) * (total as int)) by (nonlinear_arith)
                    requires
                        w <= total,
                ;
                assert((pool as int) * (w as int) / (total as int) <= pool) by (nonlinear_arith)
                    requires
                        (pool as int) * (w as int) <= (pool as int) * (total as int),
                        total > 0,
                {
                    assert((pool as int) * (total as int) / (total as int) == pool);
                }
                assert((pool as int) * (w as int) >= 0) by (nonlinear_arith);
                assert((pool as int) * (w as int) <= (u64::MAX as int) * (u64::MAX as int)) by (nonlinear_arith)
                    requires
                        pool <= u64::MAX,
                        w <= u64::MAX,
                ;
            }
            let raw: u64 = ((pool as u128) * (w as u128) / total) as u64;
            let eligible = s.eligible_doge_direction_totals[cell_index(g, dir)];
            if raw == 0 || eligible == 0 {
                user_pools.push(raw);
                doge_pools.push(0);
            } else {
                proof {
                    assert((raw as int) * 2_000 / 10_000 <= raw) by (nonlinear_arith);
                }
                let doge: u64 = ((raw as u128) * (REBASE_HASHBEAST_REWARD_SHARE_BPS as u128) / (BASIS_POINTS_DENOMINATOR as u128)) as u64;
                user_pools.push(raw - doge);
                doge_pools.push(doge);
            }
        }
        g += 1;
    }
    s.faction_reward_pools = user_pools;
    s.faction_doge_reward_pools = doge_pools;
    Ok(())
}

/// The rebase configuration: the epoch being played, the switch, the LP
/// operation count at which an epoch may settle, and the last settled
/// ranking.
#[derive(Debug, Clone)]
pub struct RebaseConfig {
    pub bump: u8,
    pub current_rebase_id: u64,
    pub is_active: bool,
    pub rebase_settle_cycle: u64,
    pub prev_rebase_mutation_ranks: Vec<u8>,
}

/// A fresh rebase configuration: epoch 1, active, the countries ranked in id
/// order.
pub fn initialize_rebase_config_internal(bump: u8) -> (c: RebaseConfig)
    ensures
        c.bump == bump,
        c.current_rebase_id == 1,
        c.is_active,
        c.rebase_settle_cycle == 0,
        c.prev_rebase_mutation_ranks.len() == NUM_FACTIONS,
        forall|i: int| 0 <= i < NUM_FACTIONS ==> #[trigger] c.prev_rebase_mutation_ranks@[i] == i,
{
    let mut ranks: Vec<u8> = Vec::new();
    let mut i: usize = 0;
    while i < NUM_FACTIONS
        invariant
            i <= NUM_FACTIONS,
            ranks.len() == i,
            forall|a: int| 0 <= a < i ==> #[trigger] ranks@[a] == a,
        decreases NUM_FACTIONS - i,
    {
        ranks.push(i as u8);
        i += 1;
    }
    RebaseConfig { bump, current_rebase_id: 1, is_active: true, rebase_settle_cycle: 0, prev_rebase_mutation_ranks: ranks }
}

/// Turns the rebase system on or off when a value is given.
pub fn update_rebase_config_internal(c: &mut RebaseConfig, is_active: Option<bool>)
    ensures
        final(c).is_active == (match is_active { Some(a) => a, None => old(c).is_active }),
        final(c).bump == old(c).bump,
        final(c).current_rebase_id == old(c).current_rebase_id,
        final(c).rebase_settle_cycle == old(c).rebase_settle_cycle,
        final(c).prev_rebase_mutation_ranks@ == old(c).prev_rebase_mutation_ranks@,
{
    if let Some(active) = is_active {
        c.is_active = active;
    }
}

/// The mutation scores of the countries `0..n`, summed.
pub open spec fn sum_scores(scores: Seq<u64>, n: int) -> int
    decreases n,
{
    if n <= 0 {
        0
    } else {
        sum_scores(scores, n - 1) + scores[n - 1]
    }
}

/// The ranking keys of a rebase: each active country's mutation score as a
/// signed 64-bit value (0 for the inactive ones).
pub open spec fn score_keys(s: RebaseState) -> Seq<i64> {
    Seq::new(NUM_FACTIONS as nat, |i: int| if i < s.active_faction_count { s.faction_mutation_scores@[i] as i64 } else { 0i64 })
}

/// Country `f`'s final rank in a settled rebase.
pub open spec fn settled_rank(s: RebaseState, f: int) -> int {
    rank_count(score_keys(s), s.active_faction_count as int, f)
}

/// Whether every active country's rank change fits a signed byte.
pub open spec fn rank_deltas_fit(s: RebaseState) -> bool {
    forall|f: int| 0 <= f < s.active_faction_count ==> -128 <= signed_rank(#[trigger] s.start_ranks@[f]) - settled_rank(s, f)
}

/// The direction index of a rank change.
pub open spec fn direction_of_delta(delta: int) -> u8 {
    if delta > 0 {
        0
    } else if delta < 0 {
        2
    } else {
        1
    }
}

/// Whether `s` is `old` with no rewards: settled, empty pool and pools.
pub open spec fn settled_empty(old: RebaseState, s: RebaseState) -> bool {
    &&& s.wf()
    &&& s.stage == 1
    &&& s.rebase_mining_pool == 0
    &&& forall|f: int| 0 <= f < NUM_FACTIONS ==> #[trigger] s.faction_reward_pools@[f] == 0 && s.faction_doge_reward_pools@[f] == 0
    &&& s.rebase_id == old.rebase_id
    &&& s.active_faction_count == old.active_faction_count
    &&& s.total_dogebtc_mined_in_rebase == old.total_dogebtc_mined_in_rebase
    &&& s.faction_mutation_scores@ == old.faction_mutation_scores@
    &&& s.start_ranks@ == old.start_ranks@
    &&& s.final_ranks@ == old.final_ranks@
    &&& s.rank_deltas@ == old.rank_deltas@
    &&& s.resolved_directions@ == old.resolved_directions@
    &&& s.faction_direction_totals@ == old.faction_direction_totals@
    &&& s.eligible_doge_direction_totals@ == old.eligible_doge_direction_totals@
}

/// What closing a rebase does to the config and the rebase state.
pub open spec fn rebase_finalized(c0: RebaseConfig, c1: RebaseConfig, s0: RebaseState, s1: RebaseState, r: Result<(), ErrorCode>) -> bool {
    &&& (s0.active_faction_count > NUM_FACTIONS ==> r == Err::<(), ErrorCode>(ErrorCode::InvalidFactionId))
    &&& (s0.active_faction_count <= NUM_FACTIONS ==> (r is Ok <==> c0.current_rebase_id < u64::MAX))
    &&& (r is Ok ==> s1.stage == 1)
    &&& (r is Ok ==> c1.current_rebase_id == c0.current_rebase_id + 1 && c1.bump == c0.bump
        && c1.is_active == c0.is_active && c1.rebase_settle_cycle == c0.rebase_settle_cycle)
    &&& (r is Ok && (s0.active_faction_count == 0 || sum_scores(s0.faction_mutation_scores@, s0.active_faction_count as int) == 0)
        ==> settled_empty(s0, s1) && c1.prev_rebase_mutation_ranks@ == c0.prev_rebase_mutation_ranks@)
    &&& (r is Ok && s0.active_faction_count > 0 && sum_scores(s0.faction_mutation_scores@, s0.active_faction_count as int) > 0 ==> {
        let n = s0.active_faction_count as int;
        &&& s1.wf()
        &&& s1.stage == 1
        &&& s1.rebase_mining_pool == s0.total_dogebtc_mined_in_rebase
        &&& forall|f: int| 0 <= f < n ==> #[trigger] s1.final_ranks@[f] == settled_rank(s0, f)
        &&& forall|f: int| n <= f < NUM_FACTIONS ==> #[trigger] s1.final_ranks@[f] == 0
        &&& forall|f: int| 0 <= f < n ==> #[trigger] s1.rank_deltas@[f]
            == signed_rank(s0.start_ranks@[f]) - settled_rank(s0, f)
        &&& forall|f: int| 0 <= f < n ==> #[trigger] s1.resolved_directions@[f]
            == direction_of_delta(signed_rank(s0.start_ranks@[f]) - settled_rank(s0, f))
        &&& forall|f: int| n <= f < NUM_FACTIONS ==> #[trigger] s1.rank_deltas@[f] == s0.rank_deltas@[f]
            && s1.resolved_directions@[f] == s0.resolved_directions@[f]
        &&& forall|f: int| 0 <= f < NUM_FACTIONS ==> #[trigger] s1.faction_doge_reward_pools@[f] == doge_reward_pool(s1, f)
        &&& forall|f: int| 0 <= f < NUM_FACTIONS ==> #[trigger] s1.faction_reward_pools@[f]
            == raw_reward_pool(s1, f) - doge_reward_pool(s1, f)
        &&& s1.rebase_id == s0.rebase_id
        &&& s1.active_faction_count == s0.active_faction_count
        &&& s1.total_dogebtc_mined_in_rebase == s0.total_dogebtc_mined_in_rebase
        &&& s1.faction_mutation_scores@ == s0.faction_mutation_scores@
        &&& s1.start_ranks@ == s0.start_ranks@
        &&& s1.faction_direction_totals@ == s0.faction_direction_totals@
        &&& s1.eligible_doge_direction_totals@ == s0.eligible_doge_direction_totals@
        &&& c1.prev_rebase_mutation_ranks@ == s1.final_ranks@
    })
}

/// Settles a rebase epoch. With no active country, or no mutation score at
/// all, it settles empty. Otherwise the pool is what the epoch mined, the
/// countries are ranked by mutation score, each country's direction is its
/// rank change from the start ranking, the pool is split over the countries,
/// and the ranking becomes the reference of the next epoch. Either way the
/// next epoch begins.
#[verifier::rlimit(50)]
pub fn finalize_rebase_settlement(c: &mut RebaseConfig, s: &mut RebaseState) -> (r: Result<(), ErrorCode>)
    requires
        old(s).wf(),
        old(c).prev_rebase_mutation_ranks.len() == NUM_FACTIONS,
        old(s).active_faction_count <= NUM_FACTIONS ==> sum_scores(old(s).faction_mutation_scores@, old(s).active_faction_count as int) <= u64::MAX,
        rank_deltas_fit(*old(s)),
    ensures
        rebase_finalized(*old(c), *final(c), *old(s), *final(s), r),

{
    let active = s.active_faction_count as usize;
    if active == 0 {
        let next = match c.current_rebase_id.checked_add(1) {
            Some(v) => v,
            None => return Err(ErrorCode::ArithmeticOverflow),
        };
        settle_empty(s);
        c.current_rebase_id = next;
        return Ok(());
    }
    validate_active_faction_count(active)?;
    let mut total: u64 = 0;
    let mut i: usize = 0;
    while i < active
        invariant
            s.wf(),
            active == s.active_faction_count,
            0 < active <= NUM_FACTIONS,
            i <= active,
            total == sum_scores(s.faction_mutation_scores@, i as int),
            sum_scores(s.faction_mutation_scores@, active as int) <= u64::MAX,
        decreases active - i,
    {
        proof {
            lemma_sum_scores_prefix(s.faction_mutation_scores@, i as int + 1, active as int);
        }
        total = total + s.faction_mutation_scores[i];
        i += 1;
    }
    if total == 0 {
        let next = match c.current_rebase_id.checked_add(1) {
            Some(v) => v,
            None => return Err(ErrorCode::ArithmeticOverflow),
        };
        settle_empty(s);
        c.current_rebase_id = next;
        return Ok(());
    }
    let next = match c.current_rebase_id.checked_add(1) {
        Some(v) => v,
        None => return Err(ErrorCode::ArithmeticOverflow),
    };
    let ghost s0 = *s;
    s.rebase_mining_pool = s.total_dogebtc_mined_in_rebase;
    let mut keys: Vec<i64> = Vec::new();
    let mut k: usize = 0;
    while k < NUM_FACTIONS
        invariant
            s.wf(),
            active == s.active_faction_count,
            s.faction_mutation_scores@ == s0.faction_mutation_scores@,
            s.active_faction_count == s0.active_faction_count,
            k <= NUM_FACTIONS,
            keys.len() == k,
            forall|a: int| 0 <= a < k ==> #[trigger] keys@[a] == score_keys(s0)[a],
        decreases NUM_FACTIONS - k,
    {
        if k < active {
            keys.push(s.faction_mutation_scores[k] as i64);
        } else {
            keys.push(0);
        }
        k += 1;
    }
    proof {
        assert(keys@ =~= score_keys(s0));
    }
    let (ranks, _ordered) = compute_rankings(&keys, active)?;
    s.final_ranks = ranks;
    let mut f: usize = 0;
    while f < active
        invariant
            s.wf(),
            0 < active <= NUM_FACTIONS,
            active == s.active_faction_count,
            s.active_faction_count == s0.active_faction_count,
            s.start_ranks@ == s0.start_ranks@,
            s.faction_mutation_scores@ == s0.faction_mutation_scores@,
            rank_deltas_fit(s0),
            f <= active,
            forall|a: int| 0 <= a < active ==> #[trigger] s.final_ranks@[a] == settled_rank(s0, a),
            forall|a: int| active <= a < NUM_FACTIONS ==> #[trigger] s.final_ranks@[a] == 0,
            forall|a: int| 0 <= a < f ==> #[trigger] s.rank_deltas@[a] == signed_rank(s0.start_ranks@[a]) - settled_rank(s0, a),
            forall|a: int| 0 <= a < f ==> #[trigger] s.resolved_directions@[a]
                == direction_of_delta(signed_rank(s0.start_ranks@[a]) - settled_rank(s0, a)),
            forall|a: int| f <= a < NUM_FACTIONS ==> #[trigger] s.rank_deltas@[a] == s0.rank_deltas@[a],
            forall|a: int| f <= a < NUM_FACTIONS ==> #[trigger] s.resolved_directions@[a] == s0.resolved_directions@[a],
            s.rebase_id == s0.rebase_id,
            s.total_dogebtc_mined_in_rebase == s0.total_dogebtc_mined_in_rebase,
            s.rebase_mining_pool == s0.total_dogebtc_mined_in_rebase,
            s.faction_direction_totals@ == s0.faction_direction_totals@,
            s.eligible_doge_direction_totals@ == s0.eligible_doge_direction_totals@,
        decreases active - f,
    {
        proof {
            lemma_rank_count_bounds(score_keys(s0), active as int, f as int);
            assert(s.final_ranks@[f as int] == settled_rank(s0, f as int));
            assert(signed_rank(s.final_ranks@[f as int]) == settled_rank(s0, f as int));
        }
        let (direction, delta) = resolve_direction_from_ranks(s.start_ranks[f], s.final_ranks[f]);
        s.rank_deltas.set(f, delta);
        let d = direction.as_index() as u8;
        s.resolved_directions.set(f, d);
        f += 1;
    }
    let ghost before_pools = *s;
    compute_faction_reward_pools(s)?;
    proof {
        lemma_pools_same_inputs(before_pools, *s);
    }
    let ghost after_pools = *s;
    s.stage = 1;
    proof {
        lemma_pools_same_inputs(after_pools, *s);
    }
    c.prev_rebase_mutation_ranks = s.final_ranks.clone();
    c.current_rebase_id = next;
    Ok(())
}

/// The pool split reads only the pool, the active count, the resolved
/// directions and the two direction tables.
proof fn lemma_pools_same_inputs(a: RebaseState, b: RebaseState)
    requires
        a.rebase_mining_pool == b.rebase_mining_pool,
        a.active_faction_count == b.active_faction_count,
        a.resolved_directions@ == b.resolved_directions@,
        a.faction_direction_totals@ == b.faction_direction_totals@,
        a.eligible_doge_direction_totals@ == b.eligible_doge_direction_totals@,
    ensures
        forall|f: int| #[trigger] raw_reward_pool(a, f) == raw_reward_pool(b, f) && doge_reward_pool(a, f) == doge_reward_pool(b, f),
{
    lemma_total_weight_same(a, b, a.active_faction_count as int);
}

proof fn lemma_total_weight_same(a: RebaseState, b: RebaseState, n: int)
    requires
        a.resolved_directions@ == b.resolved_directions@,
        a.faction_direction_totals@ == b.faction_direction_totals@,
    ensures
        total_winning_weight(a, n) == total_winning_weight(b, n),
    decreases n,
{
    if n > 0 {
        lemma_total_weight_same(a, b, n - 1);
    }
}

proof fn lemma_sum_scores_prefix(scores: Seq<u64>, i: int, n: int)
    requires
        0 <= i <= n,
    ensures
        sum_scores(scores, i) <= sum_scores(scores, n),
    decreases n - i,
{
    if i < n {
        lemma_sum_scores_prefix(scores, i, n - 1);
    }
}

/// Marks a rebase settled with no rewards.
fn settle_empty(s: &mut RebaseState)
    requires
        old(s).wf(),
    ensures
        settled_empty(*old(s), *final(s)),
{
    let mut zeros: Vec<u64> = Vec::new();
    let mut i: usize = 0;
    while i < NUM_FACTIONS
        invariant
            i <= NUM_FACTIONS,
            zeros.len() == i,
            forall|a: int| 0 <= a < i ==> #[trigger] zeros@[a] == 0,
        decreases NUM_FACTIONS - i,
    {
        zeros.push(0);
        i += 1;
    }
    s.stage = 1;
    s.rebase_mining_pool = 0;
    s.faction_reward_pools = zeros.clone();
    s.faction_doge_reward_pools = zeros;
}

/// The manual settlement crank: the epoch must still be open and the LP
/// operation count must have reached the settle cycle.
pub fn settle_rebase_internal(c: &mut RebaseConfig, s: &mut RebaseState, lp_operations_count: u64) -> (r: Result<(), ErrorCode>)
    requires
        old(s).wf(),
        old(c).prev_rebase_mutation_ranks.len() == NUM_FACTIONS,
        old(s).active_faction_count <= NUM_FACTIONS ==> sum_scores(old(s).faction_mutation_scores@, old(s).active_faction_count as int) <= u64::MAX,
        rank_deltas_fit(*old(s)),
    ensures
        old(s).stage != 0 ==> r == Err::<(), ErrorCode>(ErrorCode::RebaseNotActive),
        old(s).stage == 0 && lp_operations_count < old(c).rebase_settle_cycle ==> r == Err::<(), ErrorCode>(ErrorCode::RebaseNotEnded),
        old(s).stage == 0 && lp_operations_count >= old(c).rebase_settle_cycle
            ==> rebase_finalized(*old(c), *final(c), *old(s), *final(s), r),
{
    if s.stage != 0 {
        return Err(ErrorCode::RebaseNotActive);
    }
    if lp_operations_count < c.rebase_settle_cycle {
        return Err(ErrorCode::RebaseNotEnded);
    }
    finalize_rebase_settlement(c, s)
}

/// Refuses a reward claim cranked by someone other than the owner unless
/// the owner allows bots to claim for them.
pub fn validate_reward_claim_caller(caller: Key, owner: Key, allow_bots_to_claim: bool) -> (r: Result<(), ErrorCode>)
    ensures
        r == (if caller == owner || allow_bots_to_claim { Ok::<(), ErrorCode>(()) } else { Err(ErrorCode::Unauthorized) }),
{
    if caller == owner || allow_bots_to_claim {
        Ok(())
    } else {
        Err(ErrorCode::Unauthorized)
    }
}

/// A user's bets of one rebase epoch: weight per (country, direction)
/// cell, and whether their gameplay HashBeast earns the HashBeast bonus.
#[derive(Debug, Clone)]
pub struct UserRebaseBets {
    pub owner: Key,
    pub direction_bets: Vec<u64>,
    pub doge_bonus_eligible: bool,
    pub gameplay_doge: Key,
}

/// What a rebase claim pays: the user's share of their country's pool,
/// the HashBeast bonus credited on their gameplay HashBeast, and the HODL
/// bonus realized with the credit.
#[derive(Debug, Clone, Copy, PartialEq, Eq, Structural)]
pub struct RebaseClaim {
    pub reward: u64,
    pub doge_bonus: u64,
    pub doge_mint: Key,
    pub hodl_bonus: u64,
}

/// The user's share of a pool: `pool * user / total` when all three are
/// positive.
pub open spec fn pool_share(pool: u64, user: u64, total: u64) -> int {
    if user > 0 && total > 0 && pool > 0 {
        (pool as int) * (user as int) / (total as int)
    } else {
        0
    }
}

/// The first reason, if any, to refuse a rebase claim before any share is
/// computed.
pub open spec fn rebase_claim_error(s: RebaseState, ub: UserRebaseBets, player: PlayerData, caller: Key) -> Option<ErrorCode> {
    if !(caller == ub.owner || player.allow_bots_to_claim) {
        Some(ErrorCode::Unauthorized)
    } else if s.stage != 1 {
        Some(ErrorCode::RebaseNotSettled)
    } else if s.rebase_mining_pool == 0 {
        Some(ErrorCode::InvalidState)
    } else if player.owner != ub.owner {
        Some(ErrorCode::InvalidOwner)
    } else if !(0 < s.active_faction_count <= NUM_FACTIONS) {
        Some(ErrorCode::InvalidFactionId)
    } else {
        None
    }
}

/// The user's reward and HashBeast bonus of a settled rebase: shares of
/// their own country's pools by their weight on its resolved direction
/// (nothing for an inactive country).
pub open spec fn rebase_shares(s: RebaseState, ub: UserRebaseBets, player: PlayerData) -> (int, int) {
    let f = player.faction_id as int;
    if f >= s.active_faction_count {
        (0, 0)
    } else {
        let c = cell(f, s.resolved_directions@[f] as int);
        let user = ub.direction_bets@[c];
        (pool_share(s.faction_reward_pools@[f], user, s.faction_direction_totals@[c]),
         if ub.doge_bonus_eligible { pool_share(s.faction_doge_reward_pools@[f], user, s.eligible_doge_direction_totals@[c]) } else { 0 })
    }
}

/// Claims a user's rewards of a settled rebase epoch: their share of their
/// own country's pool goes through the HODL pool, their share of the
/// HashBeast bonus pool accrues on their gameplay HashBeast, and one pending
/// rebase claim is consumed.
pub fn claim_rebase_rewards_internal(
    s: &RebaseState,
    ub: &UserRebaseBets,
    player: &mut PlayerData,
    pool: &mut HodlPool,
    doge: &mut Option<HashBeastMetadata>,
    caller: Key,
) -> (r: Result<RebaseClaim, ErrorCode>)
    requires
        s.wf(),
        s.directions_valid(),
        ub.direction_bets.len() == NUM_FACTIONS * DIRECTION_COUNT,
    ensures
        rebase_claim_error(*s, *ub, *old(player), caller) matches Some(e) ==> r == Err::<RebaseClaim, ErrorCode>(e),
        rebase_claim_error(*s, *ub, *old(player), caller) is None ==> {
            let (reward, bonus) = rebase_shares(*s, *ub, *old(player));
            if reward > u64::MAX || bonus > u64::MAX {
                r == Err::<RebaseClaim, ErrorCode>(ErrorCode::ArithmeticOverflow)
            } else if bonus > 0 && *old(doge) is None {
                r == Err::<RebaseClaim, ErrorCode>(ErrorCode::DogeMetadataNotFound)
            } else if bonus > 0 && (*old(doge))->0.mint != ub.gameplay_doge {
                r == Err::<RebaseClaim, ErrorCode>(ErrorCode::InvalidAccount)
            } else if bonus > 0 && (*old(doge))->0.accumulated_val + bonus > u64::MAX {
                r == Err::<RebaseClaim, ErrorCode>(ErrorCode::ArithmeticOverflow)
            } else if reward > 0 && !claimable_credit_ok(*old(pool), *old(player), reward as u64) {
                r == Err::<RebaseClaim, ErrorCode>(ErrorCode::ArithmeticOverflow)
            } else if old(player).pending_rebase_claims == 0 {
                r == Err::<RebaseClaim, ErrorCode>(ErrorCode::ArithmeticOverflow)
            } else {
                r matches Ok(c) && {
                    let hodl = if reward > 0 { hodl_accrual(*old(pool), *old(player))->0 } else { 0 };
                    &&& c.reward == reward
                    &&& c.doge_bonus == bonus
                    &&& c.doge_mint == (if bonus > 0 { ub.gameplay_doge } else { Key { w0: 0, w1: 0, w2: 0, w3: 0 } })
                    &&& c.hodl_bonus == hodl
                    &&& final(pool).total_dbtc_claimable == old(pool).total_dbtc_claimable + reward + hodl
                    &&& final(pool).hodl_tax_index == old(pool).hodl_tax_index
                    &&& final(player).pending_dbtc_rewards == old(player).pending_dbtc_rewards + reward + hodl
                    &&& final(player).unrefined_dbtc_rewards == old(player).unrefined_dbtc_rewards + hodl
                    &&& final(player).pending_rebase_claims == old(player).pending_rebase_claims - 1
                    &&& (reward > 0 ==> final(player).hodl_tax_index == old(pool).hodl_tax_index)
                    &&& (reward == 0 ==> final(player).hodl_tax_index == old(player).hodl_tax_index)
                    &&& *final(player) == (PlayerData {
                        pending_dbtc_rewards: final(player).pending_dbtc_rewards,
                        unrefined_dbtc_rewards: final(player).unrefined_dbtc_rewards,
                        hodl_tax_index: final(player).hodl_tax_index,
                        pending_rebase_claims: final(player).pending_rebase_claims,
                        ..*old(player)
                    })
                    &&& (bonus > 0 ==> *final(doge) == Some(HashBeastMetadata {
                        accumulated_val: ((*old(doge))->0.accumulated_val + bonus) as u64, ..(*old(doge))->0 }))
                    &&& (bonus == 0 ==> *final(doge) == *old(doge))
                }
            }
        },
{
    validate_reward_claim_caller(caller, ub.owner, player.allow_bots_to_claim)?;
    if s.stage != 1 {
        return Err(ErrorCode::RebaseNotSettled);
    }
    if s.rebase_mining_pool == 0 {
        return Err(ErrorCode::InvalidState);
    }
    if player.owner != ub.owner {
        return Err(ErrorCode::InvalidOwner);
    }
    let active = s.active_faction_count as usize;
    validate_active_faction_count(active)?;
    let f = player.faction_id as usize;
    let mut reward: u64 = 0;
    let mut bonus: u64 = 0;
    let mut doge_mint = Key::zero();
    if f < active {
        let dir = s.resolved_directions[f] as usize;
        let c = cell_index(f, dir);
        let user = ub.direction_bets[c];
        let total = s.faction_direction_totals[c];
        let fpool = s.faction_reward_pools[f];
        let dpool = s.faction_doge_reward_pools[f];
        let eligible = s.eligible_doge_direction_totals[c];
        if user > 0 && total > 0 && fpool > 0 {
            proof {
                assert((fpool as int) * (user as int) <= (u64::MAX as int) * (u64::MAX as int)) by (nonlinear_arith)
                    requires
                        fpool <= u64::MAX,
                        user <= u64::MAX,
                ;
                assert((fpool as int) * (user as int) >= 0) by (nonlinear_arith);
            }
            let wide: u128 = (fpool as u128) * (user as u128) / (total as u128);
            if wide > u64::MAX as u128 {
                return Err(ErrorCode::ArithmeticOverflow);
            }
            reward = wide as u64;
        }
        if ub.doge_bonus_eligible && user > 0 && dpool > 0 && eligible > 0 {
            proof {
                assert((dpool as int) * (user as int) <= (u64::MAX as int) * (u64::MAX as int)) by (nonlinear_arith)
                    requires
                        dpool <= u64::MAX,
                        user <= u64::MAX,
                ;
                assert((dpool as int) * (user as int) >= 0) by (nonlinear_arith);
            }
            let wide: u128 = (dpool as u128) * (user as u128) / (eligible as u128);
            if wide > u64::MAX as u128 {
                return Err(ErrorCode::ArithmeticOverflow);
            }
            bonus = wide as u64;
            if bonus > 0 {
                doge_mint = ub.gameplay_doge;
                match doge {
                    None => return Err(ErrorCode::DogeMetadataNotFound),
                    Some(m) => {
                        if m.mint != doge_mint {
                            return Err(ErrorCode::InvalidAccount);
                        }
                        let acc = match m.accumulated_val.checked_add(bonus) {
                            Some(v) => v,
                            None => return Err(ErrorCode::ArithmeticOverflow),
                        };
                        m.accumulated_val = acc;
                    },
                }
            }
        }
    }
    let mut hodl_bonus: u64 = 0;
    if reward > 0 {
        hodl_bonus = add_to_total_claimable(pool, player, reward)?;
    }
    let pending = match player.pending_rebase_claims.checked_sub(1) {
        Some(p) => p,
        None => return Err(ErrorCode::ArithmeticOverflow),
    };
    player.pending_rebase_claims = pending;
    Ok(RebaseClaim { reward, doge_bonus: bonus, doge_mint, hodl_bonus })
}

/// A rebase claim pays the user their share of their country's pool by
/// their bet on the country's resolved direction: the pool times their
/// weight there over everyone's weight there (nothing when any of the three
/// is zero, or for an inactive country).
pub proof fn lemma_rebase_reward_on_resolved_direction(s: RebaseState, ub: UserRebaseBets, player: PlayerData)
    ensures
        ({
            let f = player.faction_id as int;
            let c = f * DIRECTION_COUNT + s.resolved_directions@[f];
            let pool = s.faction_reward_pools@[f];
            let user = ub.direction_bets@[c];
            let total = s.faction_direction_totals@[c];
            rebase_shares(s, ub, player).0 == if f < s.active_faction_count && pool > 0 && user > 0 && total > 0 {
                (pool as int) * (user as int) / (total as int)
            } else {
                0
            }
        }),
{
}

/// What a user bet on the directions their country did not resolve to
/// earns them nothing: two users with the same bet on the resolved
/// direction (and the same HashBeast eligibility) get the same reward and
/// bonus.
pub proof fn lemma_rebase_reward_ignores_other_directions(s: RebaseState, ub1: UserRebaseBets, ub2: UserRebaseBets, player: PlayerData)
    requires
        ({
            let f = player.faction_id as int;
            let c = f * DIRECTION_COUNT + s.resolved_directions@[f];
            ub1.direction_bets@[c] == ub2.direction_bets@[c]
        }),
        ub1.doge_bonus_eligible == ub2.doge_bonus_eligible,
    ensures
        rebase_shares(s, ub1, player) == rebase_shares(s, ub2, player),
{
}

/// Without an eligible HashBeast bet on its resolved direction, a country's
/// whole slice of the mining pool (the pool times the country's weight on
/// its resolved direction over all countries' winning weight) goes to its
/// users, and its HashBeast-bonus pool is empty. In every case the two
/// pools add up to the slice.
pub proof fn lemma_rebase_slice_goes_to_users_without_eligible_hashbeasts(s: RebaseState, f: int)
    requires
        0 <= f < s.active_faction_count,
    ensures
        ({
            let c = f * DIRECTION_COUNT + s.resolved_directions@[f];
            let total = total_winning_weight(s, s.active_faction_count as int);
            let slice = if s.rebase_mining_pool == 0 || total == 0 {
                0
            } else {
                s.rebase_mining_pool * s.faction_direction_totals@[c] / total
            };
            &&& (s.eligible_doge_direction_totals@[c] == 0 ==> doge_reward_pool(s, f) == 0
                && raw_reward_pool(s, f) - doge_reward_pool(s, f) == slice)
            &&& raw_reward_pool(s, f) == slice
            &&& 0 <= doge_reward_pool(s, f) <= raw_reward_pool(s, f)
        }),
{
    let raw = raw_reward_pool(s, f);
    if s.rebase_mining_pool != 0 && total_winning_weight(s, s.active_faction_count as int) != 0 {
        lemma_weight_le_total(s, s.active_faction_count as int, f);
        let total = total_winning_weight(s, s.active_faction_count as int);
        assert(0 <= s.rebase_mining_pool * s.faction_direction_totals@[f * DIRECTION_COUNT + s.resolved_directions@[f]] / total) by (nonlinear_arith)
            requires
                total > 0,
                s.rebase_mining_pool >= 0,
                s.faction_direction_totals@[f * DIRECTION_COUNT + s.resolved_directions@[f]] >= 0,
        ;
    }
    assert(0 <= raw * 2_000 / 10_000 <= raw) by (nonlinear_arith)
        requires
            raw >= 0,
    ;
}

} // verus!
