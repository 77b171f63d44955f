//! Autominers: a player's standing order to bet every round, funded in
//! advance, with keeper compensation, and an optional reload of winnings
//! into further rounds.
use vstd::prelude::*;

use crate::constants::{MAX_AUTOMINER_PICKS, MAX_CALLER_COMPENSATION, MIN_SOL_BET_PER_POSITION, NUM_FACTIONS,
    TICKET_AUTOMINER_CALLER_COMPENSATION};
use crate::errors::ErrorCode;
use crate::math::{get_caller_compensation, get_ticket_caller_compensation, validate_min_sol_bet_per_position};
use crate::rewards::{keccak256, keccak_digest, le_bytes_u64, u64_le_bytes};
use crate::bets::{BetConfig, GameSession, UserFactionWarBets, UserGameBet};
use crate::placement::{
    placement_fits, placement_plan, player_after_bets, internal_process_bets, session_after_bets, user_bet_after_bets, war_after_bets,
    BetRequest, BetTransfers, ReferrerAccount,
};
use crate::state::{derived_address, find_program_address, game_program, program_id, BetType, Key, PlayerData, PredictionDirection};

verus! {

/// Which countries an autominer bets on each round: fixed picks, or `count`
/// distinct random countries in one direction.
#[derive(Debug, Clone)]
pub enum FactionsConfig {
    Specific { picks: Vec<BetType> },
    Random { count: u8, direction: PredictionDirection },
}

/// A player's autominer: its picks, the SOL per round (0 in ticket mode),
/// the funded rounds left and the SOL reserved for them, the reload switch
/// and what winnings are parked for it, and the bets still to be claimed.
#[derive(Debug, Clone)]
pub struct AutominerVault {
    pub owner: Key,
    pub factions_config: Option<FactionsConfig>,
    pub sol_per_round: u64,
    pub rounds_remaining: u32,
    pub last_bet_round_id: u64,
    pub vault_bump: u8,
    pub sol_balance: u64,
    pub can_reload: bool,
    pub use_ticket: Option<u8>,
    pub pending_autominer_claims: u64,
    pub accrued_reload_sol: u64,
}

/// How many bets an autominer places per round, if its picks are usable.
pub open spec fn bets_per_round_spec(c: Option<FactionsConfig>) -> Option<u64> {
    match c {
        Some(FactionsConfig::Specific { picks }) => if picks.len() > 0 { Some(picks.len() as u64) } else { None },
        Some(FactionsConfig::Random { count, .. }) => if count > 0 { Some(count as u64) } else { None },
        None => None,
    }
}

/// The number of bets per round of a configuration.
pub fn count_autominer_bets_per_round(c: &Option<FactionsConfig>) -> (r: Result<u64, ErrorCode>)
    ensures
        r == (match bets_per_round_spec(*c) {
            Some(n) => Ok::<u64, ErrorCode>(n),
            None => Err(ErrorCode::InvalidParameters),
        }),
{
    match c {
        Some(FactionsConfig::Specific { picks }) => {
            if picks.len() == 0 {
                return Err(ErrorCode::InvalidParameters);
            }
            Ok(picks.len() as u64)
        },
        Some(FactionsConfig::Random { count, .. }) => {
            if *count == 0 {
                return Err(ErrorCode::InvalidParameters);
            }
            Ok(*count as u64)
        },
        None => Err(ErrorCode::InvalidParameters),
    }
}

/// The keeper's compensation per round: a fixed amount in ticket mode,
/// 0.1% of the round budget (capped) in SOL mode.
pub open spec fn caller_compensation_spec(ticket_mode: bool, sol_per_round: u64) -> int {
    if ticket_mode {
        TICKET_AUTOMINER_CALLER_COMPENSATION as int
    } else if sol_per_round / 1000 < MAX_CALLER_COMPENSATION {
        (sol_per_round / 1000) as int
    } else {
        MAX_CALLER_COMPENSATION as int
    }
}

/// The SOL an autominer reserves per round: the keeper compensation in
/// ticket mode, the whole round budget in SOL mode.
pub open spec fn reserve_per_round_spec(ticket_mode: bool, sol_per_round: u64) -> int {
    if ticket_mode {
        TICKET_AUTOMINER_CALLER_COMPENSATION as int
    } else {
        sol_per_round as int
    }
}

/// The SOL bet per position in SOL mode: the round budget less the keeper's
/// compensation, split over the round's bets.
pub open spec fn sol_bet_size_spec(sol_per_round: u64, bets: u64) -> int {
    (sol_per_round - caller_compensation_spec(false, sol_per_round)) / (bets as int)
}

/// Whether the picks of a configuration all name supported countries (and
/// a random draw asks for at most as many countries as are supported).
pub open spec fn picks_supported(c: FactionsConfig, supported: nat) -> bool {
    match c {
        FactionsConfig::Specific { picks } => picks.len() <= MAX_AUTOMINER_PICKS
            && forall|i: int| 0 <= i < picks.len() ==> #[trigger] picks@[i].faction_id < supported,
        FactionsConfig::Random { count, .. } => count <= supported,
    }
}

/// The first reason, if any, to refuse setting up an autominer.
pub open spec fn init_autominer_error(
    rounds_remaining: u32,
    player: PlayerData,
    supported: nat,
    c: Option<FactionsConfig>,
    sol_per_round: u64,
    num_rounds: u32,
    use_ticket: Option<u8>,
) -> Option<ErrorCode> {
    if num_rounds == 0 || (use_ticket is None && sol_per_round == 0) || (use_ticket is Some && sol_per_round != 0) {
        Some(ErrorCode::InvalidAmount)
    } else if c is None || rounds_remaining != 0 {
        Some(ErrorCode::InvalidParameters)
    } else if c->0 matches FactionsConfig::Specific { picks } && (picks.len() == 0 || picks.len() > MAX_AUTOMINER_PICKS) {
        Some(ErrorCode::InvalidParameters)
    } else if c->0 matches FactionsConfig::Specific { picks } && !picks_supported(c->0, supported) {
        Some(ErrorCode::InvalidFactionId)
    } else if c->0 matches FactionsConfig::Random { count, .. } && (count == 0 || count > supported) {
        Some(ErrorCode::InvalidParameters)
    } else if use_ticket matches Some(t) && (t >= player.free_tickets.len() || player.free_tickets_remaining@[t as int] == 0) {
        Some(ErrorCode::InvalidParameters)
    } else if use_ticket is None && sol_bet_size_spec(sol_per_round, bets_per_round_spec(c)->0) < MIN_SOL_BET_PER_POSITION {
        Some(ErrorCode::BetBelowMinimum)
    } else if reserve_per_round_spec(use_ticket is Some, sol_per_round) * num_rounds > u64::MAX {
        Some(ErrorCode::ArithmeticOverflow)
    } else {
        None
    }
}

/// Sets up an autominer for `num_rounds` rounds: SOL mode needs a round
/// budget whose per-position bet (after the keeper's share) meets the
/// minimum; ticket mode needs an owned ticket tier and reserves only the
/// keeper compensation. Returns the SOL to deposit for all rounds.
#[verifier::loop_isolation(false)]
pub fn init_autominer(
    vault: &mut AutominerVault,
    player: &PlayerData,
    supported_factions: usize,
    owner: Key,
    vault_bump: u8,
    factions_config: Option<FactionsConfig>,
    sol_per_round: u64,
    num_rounds: u32,
    can_reload: bool,
    use_ticket: Option<u8>,
) -> (r: Result<u64, ErrorCode>)
    requires
        player_tickets_aligned(*player),
    ensures
        init_autominer_error(old(vault).rounds_remaining, *player, supported_factions as nat, factions_config, sol_per_round, num_rounds,
            use_ticket) matches Some(e) ==> r == Err::<u64, ErrorCode>(e),
        init_autominer_error(old(vault).rounds_remaining, *player, supported_factions as nat, factions_config, sol_per_round, num_rounds,
            use_ticket) is None ==> r is Ok,
        r matches Ok(total) ==> {
            &&& total == reserve_per_round_spec(use_ticket is Some, sol_per_round) * num_rounds
            &&& final(vault).owner == owner
            &&& final(vault).factions_config == factions_config
            &&& final(vault).sol_per_round == sol_per_round
            &&& final(vault).rounds_remaining == num_rounds
            &&& final(vault).last_bet_round_id == 0
            &&& final(vault).vault_bump == vault_bump
            &&& final(vault).sol_balance == total
            &&& final(vault).can_reload == can_reload
            &&& final(vault).use_ticket == use_ticket
            &&& final(vault).pending_autominer_claims == 0
            &&& final(vault).accrued_reload_sol == 0
        },
{
    if num_rounds == 0 {
        return Err(ErrorCode::InvalidAmount);
    }
    if use_ticket.is_none() {
        if sol_per_round == 0 {
            return Err(ErrorCode::InvalidAmount);
        }
    } else {
        if sol_per_round != 0 {
            return Err(ErrorCode::InvalidAmount);
        }
    }
    let c = match &factions_config {
        Some(c) => c,
        None => return Err(ErrorCode::InvalidParameters),
    };
    if vault.rounds_remaining != 0 {
        return Err(ErrorCode::InvalidParameters);
    }
    let bets_per_round: u64 = match c {
        FactionsConfig::Specific { picks } => {
            if picks.len() == 0 || picks.len() > MAX_AUTOMINER_PICKS {
                return Err(ErrorCode::InvalidParameters);
            }
            let mut i: usize = 0;
            while i < picks.len()
                invariant
                    i <= picks.len(),
                    forall|a: int| 0 <= a < i ==> #[trigger] picks@[a].faction_id < supported_factions,
                decreases picks.len() - i,
            {
                if picks[i].faction_id as usize >= supported_factions {
                    return Err(ErrorCode::InvalidFactionId);
                }
                i += 1;
            }
            picks.len() as u64
        },
        FactionsConfig::Random { count, .. } => {
            if *count == 0 || *count as usize > supported_factions {
                return Err(ErrorCode::InvalidParameters);
            }
            *count as u64
        },
    };
    if let Some(t) = use_ticket {
        if t as usize >= player.free_tickets.len() {
            return Err(ErrorCode::InvalidParameters);
        }
        if player.free_tickets_remaining[t as usize] == 0 {
            return Err(ErrorCode::InvalidParameters);
        }
    }
    let compensation = if use_ticket.is_some() { get_ticket_caller_compensation() } else { get_caller_compensation(sol_per_round) };
    if use_ticket.is_none() {
        let bet_size = (sol_per_round - compensation) / bets_per_round;
        validate_min_sol_bet_per_position(bet_size)?;
    }
    let reserve = if use_ticket.is_some() { compensation } else { sol_per_round };
    let total = match reserve.checked_mul(num_rounds as u64) {
        Some(v) => v,
        None => return Err(ErrorCode::ArithmeticOverflow),
    };
    vault.owner = owner;
    vault.factions_config = factions_config;
    vault.sol_per_round = sol_per_round;
    vault.rounds_remaining = num_rounds;
    vault.last_bet_round_id = 0;
    vault.vault_bump = vault_bump;
    vault.sol_balance = total;
    vault.can_reload = can_reload;
    vault.use_ticket = use_ticket;
    vault.pending_autominer_claims = 0;
    vault.accrued_reload_sol = 0;
    Ok(total)
}

/// The ticket vectors of a player have one length.
pub open spec fn player_tickets_aligned(p: PlayerData) -> bool {
    p.free_tickets.len() == p.free_tickets_remaining.len()
}

/// The first reason, if any, to refuse an autominer update.
pub open spec fn update_autominer_error(v: AutominerVault, caller: Key, rounds_added: Option<u32>, can_reload: Option<bool>) -> Option<ErrorCode> {
    let added: u32 = match rounds_added { Some(n) => n, None => 0 };
    let reserve = reserve_per_round_spec(v.use_ticket is Some, v.sol_per_round);
    if caller != v.owner {
        Some(ErrorCode::Unauthorized)
    } else if added == 0 && can_reload is None {
        Some(ErrorCode::InvalidParameters)
    } else if v.rounds_remaining + added > u32::MAX {
        Some(ErrorCode::ArithmeticOverflow)
    } else if v.use_ticket is None && v.sol_per_round == 0 {
        Some(ErrorCode::InvalidAmount)
    } else if v.use_ticket is None && bets_per_round_spec(v.factions_config) is None {
        Some(ErrorCode::InvalidParameters)
    } else if v.use_ticket is None && sol_bet_size_spec(v.sol_per_round, bets_per_round_spec(v.factions_config)->0) < MIN_SOL_BET_PER_POSITION {
        Some(ErrorCode::BetBelowMinimum)
    } else if v.use_ticket is Some && v.sol_per_round != 0 {
        Some(ErrorCode::InvalidAmount)
    } else if added * reserve > u64::MAX || v.sol_balance + added * reserve > u64::MAX || added * reserve > i64::MAX {
        Some(ErrorCode::ArithmeticOverflow)
    } else {
        None
    }
}

/// Adds funded rounds to an autominer and/or switches its reload; only the
/// owner may, and only while its round budget still meets the minimum bet.
/// Returns the SOL to deposit for the new rounds.
pub fn update_autominer(v: &mut AutominerVault, caller: Key, rounds_added: Option<u32>, can_reload: Option<bool>) -> (r: Result<u64, ErrorCode>)
    ensures
        update_autominer_error(*old(v), caller, rounds_added, can_reload) matches Some(e) ==> r == Err::<u64, ErrorCode>(e),
        update_autominer_error(*old(v), caller, rounds_added, can_reload) is None ==> r is Ok,
        r matches Ok(deposit) ==> {
            let added: u32 = match rounds_added { Some(n) => n, None => 0 };
            &&& deposit == added * reserve_per_round_spec(old(v).use_ticket is Some, old(v).sol_per_round)
            &&& final(v).rounds_remaining == old(v).rounds_remaining + added
            &&& final(v).can_reload == (match can_reload { Some(c) => c, None => old(v).can_reload })
            &&& final(v).sol_balance == old(v).sol_balance + deposit
            &&& *final(v) == (AutominerVault {
                rounds_remaining: final(v).rounds_remaining,
                can_reload: final(v).can_reload,
                sol_balance: final(v).sol_balance,
                ..*old(v)
            })
        },
{
    if caller != v.owner {
        return Err(ErrorCode::Unauthorized);
    }
    let added: u32 = match rounds_added {
        Some(n) => n,
        None => 0,
    };
    if added == 0 && can_reload.is_none() {
        return Err(ErrorCode::InvalidParameters);
    }
    let new_rounds = match v.rounds_remaining.checked_add(added) {
        Some(n) => n,
        None => return Err(ErrorCode::ArithmeticOverflow),
    };
    if v.use_ticket.is_none() {
        if v.sol_per_round == 0 {
            return Err(ErrorCode::InvalidAmount);
        }
        let bets = count_autominer_bets_per_round(&v.factions_config)?;
        let compensation = get_caller_compensation(v.sol_per_round);
        let bet_size = (v.sol_per_round - compensation) / bets;
        validate_min_sol_bet_per_position(bet_size)?;
    } else {
        if v.sol_per_round != 0 {
            return Err(ErrorCode::InvalidAmount);
        }
    }
    let reserve = if v.use_ticket.is_some() { get_ticket_caller_compensation() } else { v.sol_per_round };
    let deposit = match (added as u64).checked_mul(reserve) {
        Some(d) => d,
        None => return Err(ErrorCode::ArithmeticOverflow),
    };
    let balance = match v.sol_balance.checked_add(deposit) {
        Some(b) => b,
        None => return Err(ErrorCode::ArithmeticOverflow),
    };
    if deposit > i64::MAX as u64 {
        return Err(ErrorCode::ArithmeticOverflow);
    }
    v.rounds_remaining = new_rounds;
    v.can_reload = match can_reload {
        Some(c) => c,
        None => v.can_reload,
    };
    v.sol_balance = balance;
    Ok(deposit)
}

/// Stops an autominer (its account is closed): the owner gets back the
/// reserve of the unplayed rounds and any winnings parked for reload.
pub fn stop_autominer(v: AutominerVault, caller: Key) -> (r: Result<u64, ErrorCode>)
    ensures
        caller != v.owner ==> r == Err::<u64, ErrorCode>(ErrorCode::Unauthorized),
        caller == v.owner && v.sol_balance + v.accrued_reload_sol > u64::MAX ==> r == Err::<u64, ErrorCode>(ErrorCode::ArithmeticOverflow),
        caller == v.owner && v.sol_balance + v.accrued_reload_sol <= u64::MAX ==> r == Ok::<u64, ErrorCode>((v.sol_balance + v.accrued_reload_sol) as u64),
{
    if caller != v.owner {
        return Err(ErrorCode::Unauthorized);
    }
    match v.sol_balance.checked_add(v.accrued_reload_sol) {
        Some(refund) => Ok(refund),
        None => Err(ErrorCode::ArithmeticOverflow),
    }
}

/// The country drawn at attempt `attempt` of a random pick at `slot` among
/// `max` countries: the first digest byte of the slot and the attempt
/// number (offset by 100), modulo `max`.
pub open spec fn random_pick(slot: u64, attempt: int, max: int) -> u8 {
    (keccak256(le_bytes_u64(slot) + le_bytes_u64((attempt + 100) as u64))[0] % (max as u8)) as u8
}

/// The distinct countries picked after `n` attempts, stopping at `count`.
pub open spec fn random_picks(slot: u64, max: int, count: int, n: int) -> Seq<u8>
    decreases n,
{
    if n <= 0 {
        Seq::empty()
    } else {
        let prev = random_picks(slot, max, count, n - 1);
        let f = random_pick(slot, n - 1, max);
        if prev.len() < count && !prev.contains(f) {
            prev.push(f)
        } else {
            prev
        }
    }
}

proof fn lemma_random_picks_len(slot: u64, max: int, count: int, n: int)
    requires
        n >= 0,
        count >= 0,
    ensures
        random_picks(slot, max, count, n).len() <= count,
    decreases n,
{
    if n > 0 {
        lemma_random_picks_len(slot, max, count, n - 1);
    }
}

proof fn lemma_random_picks_full(slot: u64, max: int, count: int, i: int, n: int)
    requires
        0 <= i <= n,
        random_picks(slot, max, count, i).len() >= count,
    ensures
        random_picks(slot, max, count, n) == random_picks(slot, max, count, i),
    decreases n - i,
{
    if i < n {
        lemma_random_picks_full(slot, max, count, i, n - 1);
    }
}

/// The bets an autominer places this round: its fixed picks, or `count`
/// distinct countries drawn from the slot within 100 attempts, in its
/// direction.
pub open spec fn made_bets(c: FactionsConfig, slot: u64, supported: int) -> Seq<BetType> {
    match c {
        FactionsConfig::Specific { picks } => picks@,
        FactionsConfig::Random { count, direction } =>
            random_picks(slot, supported, count as int, 100).map_values(|f: u8| BetType { faction_id: f, direction }),
    }
}

/// Why an autominer's bets cannot be made this round.
pub open spec fn make_bets_error(c: Option<FactionsConfig>, slot: u64, supported: int) -> Option<ErrorCode> {
    match c {
        None => Some(ErrorCode::InvalidParameters),
        Some(FactionsConfig::Specific { picks }) => if exists|i: int| 0 <= i < picks.len() && #[trigger] picks@[i].faction_id >= supported {
            Some(ErrorCode::InvalidFactionId)
        } else {
            None
        },
        Some(FactionsConfig::Random { count, .. }) => if !(0 < supported <= NUM_FACTIONS) {
            Some(ErrorCode::InvalidFactionId)
        } else if count > supported {
            Some(ErrorCode::InvalidParameters)
        } else if random_picks(slot, supported, count as int, 100).len() != count {
            Some(ErrorCode::InvalidParameters)
        } else {
            None
        },
    }
}

/// One attempt of a random draw once its digest is known: the country is
/// the first digest byte modulo the number of countries, added to the picks
/// unless already picked.
pub fn add_random_pick(picked: &mut Vec<u8>, digest: &[u8; 32], supported: u8)
    requires
        supported > 0,
    ensures
        ({
            let f = (digest@[0] % supported) as u8;
            final(picked)@ == if old(picked)@.contains(f) { old(picked)@ } else { old(picked)@.push(f) }
        }),
{
    let f: u8 = digest[0] % supported;
    let mut seen = false;
    let mut j: usize = 0;
    while j < picked.len()
        invariant
            j <= picked.len(),
            seen <==> exists|a: int| 0 <= a < j && picked@[a] == f,
        decreases picked.len() - j,
    {
        if picked[j] == f {
            seen = true;
        }
        j += 1;
    }
    proof {
        assert(seen <==> picked@.contains(f));
    }
    if !seen {
        picked.push(f);
    }
}

/// Makes an autominer's bets for the round at `slot`.
#[verifier::loop_isolation(false)]
pub fn make_bets_vec(c: &Option<FactionsConfig>, slot: u64, supported: usize) -> (r: Result<Vec<BetType>, ErrorCode>)
    ensures
        make_bets_error(*c, slot, supported as int) matches Some(e) ==> r == Err::<Vec<BetType>, ErrorCode>(e),
        make_bets_error(*c, slot, supported as int) is None ==> r is Ok && r->Ok_0@ == made_bets(c->0, slot, supported as int),
{
    let cfg = match c {
        Some(cfg) => cfg,
        None => return Err(ErrorCode::InvalidParameters),
    };
    match cfg {
        FactionsConfig::Specific { picks } => {
            let mut bets: Vec<BetType> = Vec::new();
            let mut i: usize = 0;
            while i < picks.len()
                invariant
                    i <= picks.len(),
                    bets@ == picks@.take(i as int),
                    forall|a: int| 0 <= a < i ==> #[trigger] picks@[a].faction_id < supported,
                decreases picks.len() - i,
            {
                if picks[i].faction_id as usize >= supported {
                    return Err(ErrorCode::InvalidFactionId);
                }
                bets.push(picks[i]);
                i += 1;
                assert(bets@ =~= picks@.take(i as int));
            }
            assert(picks@.take(picks.len() as int) =~= picks@);
            Ok(bets)
        },
        FactionsConfig::Random { count, direction } => {
            if supported == 0 || supported > NUM_FACTIONS {
                return Err(ErrorCode::InvalidFactionId);
            }
            if *count as usize > supported {
                return Err(ErrorCode::InvalidParameters);
            }
            let ghost max = supported as int;
            let mut picked: Vec<u8> = Vec::new();
            let mut attempts: u64 = 0;
            let slot_bytes = u64_le_bytes(slot);
            while picked.len() < *count as usize && attempts < 100
                invariant
                    0 < supported <= NUM_FACTIONS,
                    max == supported,
                    attempts <= 100,
                    slot_bytes@ == le_bytes_u64(slot),
                    picked@ == random_picks(slot, max, *count as int, attempts as int),
                    picked.len() <= *count,
                decreases 100 - attempts,
            {
                let mut preimage = slot_bytes.clone();
                let attempt_bytes = u64_le_bytes(attempts + 100);
                let mut k: usize = 0;
                let ghost start = preimage@;
                while k < 8
                    invariant
                        k <= 8,
                        attempt_bytes@.len() == 8,
                        preimage@ == start + attempt_bytes@.take(k as int),
                    decreases 8 - k,
                {
                    preimage.push(attempt_bytes[k]);
                    k += 1;
                    assert(preimage@ =~= start + attempt_bytes@.take(k as int));
                }
                proof {
                    assert(attempt_bytes@.take(8) =~= attempt_bytes@);
                    assert(start == slot_bytes@);
                }
                let digest = keccak_digest(preimage.as_slice());
                proof {
                    assert(digest@[0] % (supported as u8) == random_pick(slot, attempts as int, max));
                }
                add_random_pick(&mut picked, &digest, supported as u8);
                attempts += 1;
            }
            proof {
                lemma_random_picks_len(slot, max, *count as int, 100);
                if picked.len() >= *count as usize {
                    lemma_random_picks_full(slot, max, *count as int, attempts as int, 100);
                }
            }
            if picked.len() != *count as usize {
                return Err(ErrorCode::InvalidParameters);
            }
            let mut bets: Vec<BetType> = Vec::new();
            let mut i: usize = 0;
            while i < picked.len()
                invariant
                    i <= picked.len(),
                    bets@ == picked@.take(i as int).map_values(|f: u8| BetType { faction_id: f, direction: *direction }),
                decreases picked.len() - i,
            {
                bets.push(BetType { faction_id: picked[i], direction: *direction });
                i += 1;
                assert(bets@ =~= picked@.take(i as int).map_values(|f: u8| BetType { faction_id: f, direction: *direction }));
            }
            assert(picked@.take(picked.len() as int) =~= picked@);
            Ok(bets)
        },
    }
}

/// Seed of the protocol's SOL treasury account.
pub const SOL_TREASURY_SEED: [u8; 12] = [115, 111, 108, 95, 116, 114, 101, 97, 115, 117, 114, 121];

/// What a keeper's autominer run is checked against besides the vault.
#[derive(Debug, Clone, Copy)]
pub struct AutominerRun {
    pub current_round_id: u64,
    pub session_round_id: u64,
    pub global_round_id: u64,
    pub war_id: u64,
    pub slot: u64,
    pub now: i64,
    pub sol_treasury: Key,
    pub user_game_bet_bump: u8,
    pub war_bets_bump: u8,
}

/// The first reason, if any, to refuse a keeper's autominer run before its
/// bets are made.
pub open spec fn autominer_run_error(run: AutominerRun) -> Option<ErrorCode> {
    if derived_address(SOL_TREASURY_SEED@, Seq::empty(), game_program()) != Some(run.sol_treasury) {
        Some(ErrorCode::InvalidAccount)
    } else if run.session_round_id != run.current_round_id || run.global_round_id != run.current_round_id {
        Some(ErrorCode::InvalidRound)
    } else {
        None
    }
}

/// Whether the autominer has nothing to do this round: no rounds left, or
/// it already bet in this round.
pub open spec fn autominer_idle(v: AutominerVault, run: AutominerRun) -> bool {
    v.rounds_remaining == 0 || v.last_bet_round_id == run.current_round_id
}

/// The bet an autominer run places: the size per position (the ticket's
/// value in ticket mode), the ticket tier, and the keeper's compensation.
#[derive(Debug, Clone, Copy, PartialEq, Eq, Structural)]
pub struct AutominerBet {
    pub bet_size: u64,
    pub use_ticket: Option<u8>,
    pub compensation: u64,
}

/// The first reason, if any, to refuse a due autominer run once its bets
/// are made: no bets, a reserve the vault no longer holds, an unusable
/// ticket tier, or a SOL bet under the minimum.
pub open spec fn autominer_bet_error(v: AutominerVault, player: PlayerData, bets: nat) -> Option<ErrorCode> {
    let ticket = v.use_ticket is Some;
    if bets == 0 {
        Some(ErrorCode::InvalidParameters)
    } else if v.sol_balance < reserve_per_round_spec(ticket, v.sol_per_round) {
        Some(ErrorCode::InsufficientFunds)
    } else if v.use_ticket matches Some(t) && t >= player.free_tickets.len() {
        Some(ErrorCode::InvalidParameters)
    } else if v.use_ticket matches Some(t) && player.free_tickets@[t as int] == 0 {
        Some(ErrorCode::InvalidAmount)
    } else if !ticket && sol_bet_size_spec(v.sol_per_round, bets as u64) < MIN_SOL_BET_PER_POSITION {
        Some(ErrorCode::BetBelowMinimum)
    } else {
        None
    }
}

/// The bet of a due autominer run.
pub open spec fn autominer_bet_spec(v: AutominerVault, player: PlayerData, bets: nat) -> AutominerBet {
    let ticket = v.use_ticket is Some;
    AutominerBet {
        bet_size: (if ticket { player.free_tickets@[v.use_ticket->0 as int] as int } else { sol_bet_size_spec(v.sol_per_round, bets as u64) }) as u64,
        use_ticket: v.use_ticket,
        compensation: caller_compensation_spec(ticket, v.sol_per_round) as u64,
    }
}

/// A keeper's autominer run: when the round is the current one and the
/// autominer is due, makes its bets, takes one round's reserve from the
/// vault (the keeper's compensation comes out of it) and places the bets
/// for the owner through `internal_process_bets`, which the run returns the request
/// and transfers of. `None` when the autominer has nothing to do.
pub fn execute_autominer_bet(
    v: &mut AutominerVault,
    cfg: BetConfig,
    player: &mut PlayerData,
    s: &mut GameSession,
    ub: &mut UserGameBet,
    w: &mut UserFactionWarBets,
    referrer: Option<ReferrerAccount>,
    run: AutominerRun,
) -> (r: Result<Option<(AutominerBet, BetRequest, BetTransfers, Option<ReferrerAccount>)>, ErrorCode>)
    requires
        old(s).wf(),
        old(ub).wf(),
        old(w).wf(),
    ensures
        autominer_run_error(run) matches Some(e) ==> r == Err::<Option<(AutominerBet, BetRequest, BetTransfers, Option<ReferrerAccount>)>, ErrorCode>(e)
            && *final(v) == *old(v) && *final(player) == *old(player) && *final(s) == *old(s) && *final(ub) == *old(ub)
            && *final(w) == *old(w),
        autominer_run_error(run) is None && autominer_idle(*old(v), run) ==> r == Ok::<Option<(AutominerBet, BetRequest, BetTransfers, Option<ReferrerAccount>)>, ErrorCode>(None)
            && *final(v) == *old(v) && *final(player) == *old(player) && *final(s) == *old(s) && *final(ub) == *old(ub)
            && *final(w) == *old(w),
        autominer_run_error(run) is None && !autominer_idle(*old(v), run)
            && make_bets_error(old(v).factions_config, run.slot, cfg.supported_faction_count as int) is Some
            ==> r == Err::<Option<(AutominerBet, BetRequest, BetTransfers, Option<ReferrerAccount>)>, ErrorCode>(
                make_bets_error(old(v).factions_config, run.slot, cfg.supported_faction_count as int)->0)
                && *final(v) == *old(v) && *final(player) == *old(player) && *final(s) == *old(s) && *final(ub) == *old(ub)
                && *final(w) == *old(w),
        autominer_run_error(run) is None && !autominer_idle(*old(v), run)
            && make_bets_error(old(v).factions_config, run.slot, cfg.supported_faction_count as int) is None
            && autominer_bet_error(*old(v), *old(player), made_bets(old(v).factions_config->0, run.slot, cfg.supported_faction_count as int).len()) is Some
            ==> r == Err::<Option<(AutominerBet, BetRequest, BetTransfers, Option<ReferrerAccount>)>, ErrorCode>(
                autominer_bet_error(*old(v), *old(player), made_bets(old(v).factions_config->0, run.slot, cfg.supported_faction_count as int).len())->0)
                && *final(v) == *old(v) && *final(player) == *old(player) && *final(s) == *old(s) && *final(ub) == *old(ub)
                && *final(w) == *old(w),
        r matches Ok(Some((bet, req, transfers, ref_after))) ==> {
            let bets = made_bets(old(v).factions_config->0, run.slot, cfg.supported_faction_count as int);
            &&& bet == autominer_bet_spec(*old(v), *old(player), bets.len())
            &&& req.round_id == run.current_round_id
            &&& req.war_id == run.war_id
            &&& req.owner == old(v).owner
            &&& req.amount_per_bet == bet.bet_size
            &&& req.bets@ == bets
            &&& req.use_ticket == old(v).use_ticket
            &&& req.now == run.now
            &&& req.user_game_bet_bump == run.user_game_bet_bump
            &&& req.war_bets_bump == run.war_bets_bump
            &&& placement_plan(cfg, *old(player), *old(s), *old(ub), *old(w), req, referrer) matches Ok((pr, ro))
            &&& placement_fits(*old(player), *old(s), *old(ub), *old(w), req, pr, ro)
            &&& transfers == ro.transfers && ref_after == ro.referrer
            &&& player_after_bets(*final(player), *old(player), *old(ub), *old(w), req)
            &&& user_bet_after_bets(*final(ub), *old(ub), *old(player), req, pr)
            &&& session_after_bets(*final(s), *old(s), *old(ub), req, pr, ro)
            &&& war_after_bets(*final(w), *old(w), *old(player), req, pr)
            &&& final(v).last_bet_round_id == run.current_round_id
            &&& final(v).rounds_remaining == old(v).rounds_remaining - 1
            &&& final(v).sol_balance == old(v).sol_balance - reserve_per_round_spec(old(v).use_ticket is Some, old(v).sol_per_round)
            &&& final(v).pending_autominer_claims == old(v).pending_autominer_claims + 1
            &&& *final(v) == (AutominerVault {
                last_bet_round_id: run.current_round_id,
                rounds_remaining: final(v).rounds_remaining,
                sol_balance: final(v).sol_balance,
                pending_autominer_claims: final(v).pending_autominer_claims,
                ..*old(v)
            })
        },
{
    let no_seed: Vec<u8> = Vec::new();
    if find_program_address(SOL_TREASURY_SEED.as_slice(), no_seed.as_slice(), program_id()) != Some(run.sol_treasury) {
        return Err(ErrorCode::InvalidAccount);
    }
    if run.session_round_id != run.current_round_id || run.global_round_id != run.current_round_id {
        return Err(ErrorCode::InvalidRound);
    }
    if v.rounds_remaining == 0 || v.last_bet_round_id == run.current_round_id {
        return Ok(None);
    }
    let bets = make_bets_vec(&v.factions_config, run.slot, cfg.supported_faction_count)?;
    if bets.len() == 0 {
        return Err(ErrorCode::InvalidParameters);
    }
    let ticket = v.use_ticket.is_some();
    let compensation = if ticket { get_ticket_caller_compensation() } else { get_caller_compensation(v.sol_per_round) };
    let reserve = if ticket { compensation } else { v.sol_per_round };
    if v.sol_balance < reserve {
        return Err(ErrorCode::InsufficientFunds);
    }
    let bet_size: u64 = match v.use_ticket {
        Some(t) => {
            if t as usize >= player.free_tickets.len() {
                return Err(ErrorCode::InvalidParameters);
            }
            let value = player.free_tickets[t as usize];
            if value == 0 {
                return Err(ErrorCode::InvalidAmount);
            }
            value
        },
        None => {
            let per = (v.sol_per_round - compensation) / (bets.len() as u64);
            validate_min_sol_bet_per_position(per)?;
            per
        },
    };
    let req = BetRequest {
        round_id: run.current_round_id,
        war_id: run.war_id,
        owner: v.owner,
        amount_per_bet: bet_size,
        bets,
        use_ticket: v.use_ticket,
        now: run.now,
        user_game_bet_bump: run.user_game_bet_bump,
        war_bets_bump: run.war_bets_bump,
    };
    let pending = match v.pending_autominer_claims.checked_add(1) {
        Some(p) => p,
        None => return Err(ErrorCode::ArithmeticOverflow),
    };
    let (transfers, ref_after) = internal_process_bets(cfg, player, s, ub, w, &req, referrer)?;
    v.last_bet_round_id = run.current_round_id;
    v.rounds_remaining = v.rounds_remaining - 1;
    v.sol_balance = v.sol_balance - reserve;
    v.pending_autominer_claims = pending;
    Ok(Some((AutominerBet { bet_size, use_ticket: v.use_ticket, compensation }, req, transfers, ref_after)))
}

/// Where the SOL winnings of an autominer claim go: parked in custody for
/// a reload, paid to the owner, and, when a reload fires, how many rounds
/// it bought with how much SOL and the leftover paid to the owner.
#[derive(Debug, Clone, Copy, PartialEq, Eq, Structural)]
pub struct AutominerPayout {
    pub parked: u64,
    pub paid_to_owner: u64,
    pub rounds_added: u32,
    pub sol_for_rounds: u64,
    pub leftover_to_owner: u64,
}

/// What the prize pot can pay of a SOL reward: all of it, or what the pot
/// holds above its rent floor.
pub open spec fn payable_spec(sol_reward: u64, available: u64) -> int {
    if sol_reward == 0 {
        0
    } else if available < sol_reward {
        available as int
    } else {
        sol_reward as int
    }
}

/// Whether a reloading autominer converts its parked winnings this claim:
/// it was the last bet of the funded run and something is parked.
pub open spec fn reload_fires(v: AutominerVault, parked: int) -> bool {
    let reserve = reserve_per_round_spec(v.use_ticket is Some, v.sol_per_round);
    &&& v.can_reload && reserve > 0
    &&& v.pending_autominer_claims - 1 == 0
    &&& v.accrued_reload_sol + parked > 0
}

/// Whether settling one claimed round goes through: the vault has a
/// pending claim, and the parked winnings, the rounds a reload buys and
/// the vault's counters after it all fit.
pub open spec fn autominer_settle_ok(v0: AutominerVault, sol_reward: u64, available: u64) -> bool {
    let payable = payable_spec(sol_reward, available);
    let reserve = reserve_per_round_spec(v0.use_ticket is Some, v0.sol_per_round);
    let eligible = v0.can_reload && reserve > 0;
    let accrued = v0.accrued_reload_sol + (if eligible { payable } else { 0 });
    let rounds = if reserve > 0 { accrued / reserve } else { 0 };
    &&& v0.pending_autominer_claims > 0
    &&& accrued <= u64::MAX
    &&& reload_fires(v0, if eligible { payable } else { 0 }) ==> (rounds <= u32::MAX
        && (rounds > 0 ==> v0.rounds_remaining + rounds <= u32::MAX && v0.sol_balance + rounds * reserve <= u64::MAX))
}

/// What settling one claimed round does to an autominer vault.
pub open spec fn autominer_settled(v0: AutominerVault, v1: AutominerVault, sol_reward: u64, available: u64, r: Result<AutominerPayout, ErrorCode>) -> bool {
    ({
        let payable = payable_spec(sol_reward, available);
        let reserve = reserve_per_round_spec(v0.use_ticket is Some, v0.sol_per_round);
        let eligible = v0.can_reload && reserve > 0;
        let accrued = v0.accrued_reload_sol + (if eligible { payable } else { 0 });
        let rounds = if reserve > 0 { accrued / reserve } else { 0 };
        &&& v0.pending_autominer_claims == 0 ==> r == Err::<AutominerPayout, ErrorCode>(ErrorCode::ArithmeticOverflow)
        &&& v0.pending_autominer_claims > 0 ==> (r is Ok <==> (
            accrued <= u64::MAX
            && (reload_fires(v0, if eligible { payable } else { 0 }) ==> (rounds <= u32::MAX
                && (rounds > 0 ==> v0.rounds_remaining + rounds <= u32::MAX && v0.sol_balance + rounds * reserve <= u64::MAX)))))
        &&& r matches Ok(p) ==> {
            &&& p.parked == (if eligible { payable } else { 0 })
            &&& p.paid_to_owner == (if eligible { 0 } else { payable })
            &&& v1.pending_autominer_claims == v0.pending_autominer_claims - 1
            &&& if reload_fires(v0, p.parked as int) {
                &&& p.rounds_added == rounds
                &&& p.sol_for_rounds == rounds * reserve
                &&& p.leftover_to_owner == accrued - rounds * reserve
                &&& v1.accrued_reload_sol == 0
                &&& v1.rounds_remaining == v0.rounds_remaining + rounds
                &&& v1.sol_balance == v0.sol_balance + rounds * reserve
            } else {
                &&& p.rounds_added == 0 && p.sol_for_rounds == 0 && p.leftover_to_owner == 0
                &&& v1.accrued_reload_sol == accrued
                &&& v1.rounds_remaining == v0.rounds_remaining
                &&& v1.sol_balance == v0.sol_balance
            }
            &&& v1 == (AutominerVault {
                pending_autominer_claims: v1.pending_autominer_claims,
                accrued_reload_sol: v1.accrued_reload_sol,
                rounds_remaining: v1.rounds_remaining,
                sol_balance: v1.sol_balance,
                ..v0
            })
        }
    })
}

/// Books the SOL side of an autominer claim. The claim consumes one pending
/// bet. With reload on, the payable winnings are parked, and when this was
/// the run's last pending bet everything parked buys as many further rounds
/// as it covers, the rest going to the owner; with reload off the winnings
/// go to the owner.
pub fn settle_autominer_claim(v: &mut AutominerVault, sol_reward: u64, available: u64) -> (r: Result<AutominerPayout, ErrorCode>)
    ensures
        autominer_settled(*old(v), *final(v), sol_reward, available, r),

{
    let payable: u64 = if sol_reward > 0 {
        if available < sol_reward { available } else { sol_reward }
    } else {
        0
    };
    let pending = match v.pending_autominer_claims.checked_sub(1) {
        Some(p) => p,
        None => return Err(ErrorCode::ArithmeticOverflow),
    };
    let reserve = if v.use_ticket.is_some() { get_ticket_caller_compensation() } else { v.sol_per_round };
    let eligible = v.can_reload && reserve > 0;
    let mut parked: u64 = 0;
    let mut paid_to_owner: u64 = 0;
    let mut accrued = v.accrued_reload_sol;
    if payable > 0 {
        if eligible {
            accrued = match accrued.checked_add(payable) {
                Some(a) => a,
                None => return Err(ErrorCode::ArithmeticOverflow),
            };
            parked = payable;
        } else {
            paid_to_owner = payable;
        }
    }
    let mut rounds_added: u32 = 0;
    let mut sol_for_rounds: u64 = 0;
    let mut leftover: u64 = 0;
    let mut rounds_remaining = v.rounds_remaining;
    let mut sol_balance = v.sol_balance;
    if eligible && pending == 0 && accrued > 0 {
        let rounds = accrued / reserve;
        proof {
            assert(rounds * reserve <= accrued) by (nonlinear_arith)
                requires
                    reserve > 0,
                    rounds == accrued / reserve,
            ;
        }
        let for_rounds = rounds * reserve;
        assert(for_rounds == (rounds as int) * (reserve as int));
        if rounds == 0 {
            assert((rounds as int) * (reserve as int) == 0) by (nonlinear_arith)
                requires
                    rounds == 0,
            ;
        }
        leftover = accrued - for_rounds;
        if rounds > u32::MAX as u64 {
            return Err(ErrorCode::ArithmeticOverflow);
        }
        if rounds > 0 {
            rounds_remaining = match rounds_remaining.checked_add(rounds as u32) {
                Some(n) => n,
                None => return Err(ErrorCode::ArithmeticOverflow),
            };
            sol_balance = match sol_balance.checked_add(for_rounds) {
                Some(b) => b,
                None => return Err(ErrorCode::ArithmeticOverflow),
            };
        }
        rounds_added = rounds as u32;
        sol_for_rounds = for_rounds;
        accrued = 0;
    }
    v.pending_autominer_claims = pending;
    v.accrued_reload_sol = accrued;
    v.rounds_remaining = rounds_remaining;
    v.sol_balance = sol_balance;
    Ok(AutominerPayout { parked, paid_to_owner, rounds_added, sol_for_rounds, leftover_to_owner: leftover })
}

/// A reload never creates or loses SOL: the rounds it buys and the leftover
/// paid out add up to what was parked.
pub proof fn lemma_reload_conserves(accrued: u64, reserve: u64)
    requires
        reserve > 0,
    ensures
        (accrued / reserve) * reserve + (accrued - (accrued / reserve) * reserve) == accrued,
        0 <= accrued - (accrued / reserve) * reserve < reserve,
{
    assert(0 <= accrued - (accrued / reserve) * reserve < reserve) by (nonlinear_arith)
        requires
            reserve > 0,
    ;
}

} // verus!
