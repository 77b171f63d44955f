//! Placing a bet batch: request checks, pricing, fee routing and bookkeeping.
use vstd::prelude::*;

use crate::bets::{
    min_int,
    lemma_positions_ok_by_aggregates, positions_after, positions_ok, price_sol_bet, record_bet_positions, referral_bps_spec,
    session_after, sol_pricing_ok, sol_pricing_spec, war_after, BetConfig, BetPricing, GameSession,
    PositionsView, ReferralRewards, UserFactionWarBets, UserGameBet, WarView,
};
use crate::constants::{
    DIRECTION_COUNT, MAX_POSITIONS_PER_BET, MAX_REFERRER_SOL_LIFETIME, MIN_SOL_BET_PER_POSITION, NUM_FACTIONS,
    REFERRAL_FEE_BPS_CROSS_FACTION, REFERRAL_FEE_BPS_SAME_FACTION,
};
use crate::errors::ErrorCode;
use crate::math::{points_limit_result, validate_points_percentage_limit};
use crate::state::{derived_address, find_program_address, game_program, program_id, BetType, Key, PlayerData};

verus! {

/// Seed of the referral-commission account derived from a referrer's address.
pub const REFERRAL_REWARDS_SEED: [u8; 16] = [
    114, 101, 102, 101, 114, 114, 97, 108, 95, 114, 101, 119, 97, 114, 100, 115,
];

/// The address of the referral-commission account of `referrer`, if the
/// derivation finds one.
pub open spec fn referral_rewards_address(referrer: Key) -> Option<Key> {
    derived_address(REFERRAL_REWARDS_SEED@, referrer.bytes(), game_program())
}

/// The canonical referral-commission address of `referrer`; `None` where
/// the derivation finds no off-curve address.
pub fn referral_rewards_pda(referrer: Key) -> (r: Option<Key>)
    ensures
        r == referral_rewards_address(referrer),
{
    find_program_address(REFERRAL_REWARDS_SEED.as_slice(), referrer.to_bytes().as_slice(), program_id())
}

/// A referrer's commission account together with its address.
#[derive(Debug, Clone, Copy, PartialEq, Eq, Structural)]
pub struct ReferrerAccount {
    pub address: Key,
    pub rewards: ReferralRewards,
}

/// Why a referrer account cannot take a commission for `referral_code`:
/// missing, not at the derived address, or owned by someone else.
pub open spec fn referrer_account_error(referral_code: Key, referrer: Option<ReferrerAccount>)
    -> Option<ErrorCode> {
    match referrer {
        None => Some(ErrorCode::ReferralRewardsAccountRequired),
        Some(rr) => if referral_rewards_address(referral_code) != Some(rr.address)
            || rr.rewards.owner != referral_code {
            Some(ErrorCode::InvalidReferralAccount)
        } else {
            None
        },
    }
}

/// Checks that `referrer` is the commission account of `referral_code`.
pub fn validate_referrer_rewards_account(referral_code: Key, referrer: &Option<ReferrerAccount>)
    -> (r: Result<(), ErrorCode>)
    ensures
        r == (match referrer_account_error(referral_code, *referrer) {
            Some(e) => Err::<(), ErrorCode>(e),
            None => Ok(()),
        }),
{
    match referrer {
        None => Err(ErrorCode::ReferralRewardsAccountRequired),
        Some(rr) => {
            let expected = find_program_address(REFERRAL_REWARDS_SEED.as_slice(), referral_code.to_bytes().as_slice(), program_id());
            match expected {
                Some(addr) => {
                    if addr != rr.address || rr.rewards.owner != referral_code {
                        Err(ErrorCode::InvalidReferralAccount)
                    } else {
                        Ok(())
                    }
                },
                None => Err(ErrorCode::InvalidReferralAccount),
            }
        },
    }
}

/// What a bet request carries besides the accounts.
#[derive(Debug, Clone)]
pub struct BetRequest {
    pub round_id: u64,
    pub war_id: u64,
    pub owner: Key,
    pub amount_per_bet: u64,
    pub bets: Vec<BetType>,
    pub use_ticket: Option<u8>,
    pub now: i64,
    pub user_game_bet_bump: u8,
    pub war_bets_bump: u8,
}

/// The first reason, if any, to refuse a bet request before any account is
/// touched: a paused game, another round, a round that has ended, no stake,
/// a SOL stake under the minimum, no bets, or another faction war.
pub open spec fn bet_request_error(
    cfg: BetConfig,
    s: GameSession,
    round_id: u64,
    war_id: u64,
    amount: u64,
    use_ticket: bool,
    num_bets: nat,
    now: i64,
) -> Option<ErrorCode> {
    if cfg.is_paused {
        Some(ErrorCode::GamePaused)
    } else if s.round_id != round_id {
        Some(ErrorCode::InvalidRound)
    } else if s.stage != 0 || now >= s.round_end_timestamp {
        Some(ErrorCode::RoundEnded)
    } else if amount == 0 && !use_ticket {
        Some(ErrorCode::InvalidAmount)
    } else if !use_ticket && amount < MIN_SOL_BET_PER_POSITION {
        Some(ErrorCode::BetBelowMinimum)
    } else if num_bets == 0 {
        Some(ErrorCode::InvalidParameters)
    } else if war_id != s.war_id_when_played {
        Some(ErrorCode::InvalidState)
    } else {
        None
    }
}

pub fn check_bet_request(
    cfg: BetConfig,
    s: &GameSession,
    round_id: u64,
    war_id: u64,
    amount: u64,
    use_ticket: bool,
    num_bets: usize,
    now: i64,
) -> (r: Result<(), ErrorCode>)
    ensures
        r == (match bet_request_error(cfg, *s, round_id, war_id, amount, use_ticket, num_bets as nat, now) {
            Some(e) => Err::<(), ErrorCode>(e),
            None => Ok(()),
        }),
{
    if cfg.is_paused {
        return Err(ErrorCode::GamePaused);
    }
    if s.round_id != round_id {
        return Err(ErrorCode::InvalidRound);
    }
    if s.stage != 0 {
        return Err(ErrorCode::RoundEnded);
    }
    if now >= s.round_end_timestamp {
        return Err(ErrorCode::RoundEnded);
    }
    if amount == 0 && !use_ticket {
        return Err(ErrorCode::InvalidAmount);
    }
    if !use_ticket && amount < MIN_SOL_BET_PER_POSITION {
        return Err(ErrorCode::BetBelowMinimum);
    }
    if num_bets == 0 {
        return Err(ErrorCode::InvalidParameters);
    }
    if war_id != s.war_id_when_played {
        return Err(ErrorCode::InvalidState);
    }
    Ok(())
}

/// Why a faction-war record cannot take bets for `owner` in `war_id`: a
/// fresh record would overflow the player's count of open war claims; an
/// opened one belongs to another user or another war.
pub open spec fn war_open_error(
    w: UserFactionWarBets,
    owner: Key,
    war_id: u64,
    pending_war_claims: u64,
) -> Option<ErrorCode> {
    if w.owner.is_zero() {
        if pending_war_claims == u64::MAX {
            Some(ErrorCode::ArithmeticOverflow)
        } else {
            None
        }
    } else if w.owner != owner {
        Some(ErrorCode::Unauthorized)
    } else if w.war_id != war_id {
        Some(ErrorCode::InvalidState)
    } else {
        None
    }
}

/// A freshly opened faction-war record: the owner's, for this war, with no
/// HashBeast, no mutation score and every cell at zero.
pub open spec fn is_fresh_war_bets(w: UserFactionWarBets, owner: Key, war_id: u64, bump: u8) -> bool {
    &&& w.owner == owner
    &&& w.war_id == war_id
    &&& w.gameplay_hashbeast.is_zero()
    &&& w.mutation_score == 0
    &&& w.bump == bump
    &&& w.wf()
    &&& forall|c: int| 0 <= c < w.direction_bets.len() ==> #[trigger] w.direction_bets@[c] == 0
    &&& forall|c: int| 0 <= c < w.sol_direction_bets.len() ==> #[trigger] w.sol_direction_bets@[c] == 0
}

/// Opens the user's faction-war record on first use (counting one more open
/// war claim), or checks that the record is the user's for this war.
pub fn open_war_bets(
    w: &mut UserFactionWarBets,
    owner: Key,
    war_id: u64,
    bump: u8,
    pending_war_claims: &mut u64,
) -> (r: Result<(), ErrorCode>)
    requires
        old(w).wf(),
    ensures
        r == (match war_open_error(*old(w), owner, war_id, *old(pending_war_claims)) {
            Some(e) => Err::<(), ErrorCode>(e),
            None => Ok(()),
        }),
        r is Ok && old(w).owner.is_zero() ==> is_fresh_war_bets(*final(w), owner, war_id, bump)
            && *final(pending_war_claims) == *old(pending_war_claims) + 1,
        r is Ok && !old(w).owner.is_zero() ==> *final(w) == *old(w) && *final(pending_war_claims)
            == *old(pending_war_claims),
{
    if w.owner.is_default() {
        if *pending_war_claims == u64::MAX {
            return Err(ErrorCode::ArithmeticOverflow);
        }
        w.bump = bump;
        w.owner = owner;
        w.war_id = war_id;
        w.gameplay_hashbeast = Key::zero();
        w.mutation_score = 0;
        w.direction_bets = vec![0u64; 36];
        w.sol_direction_bets = vec![0u64; 36];
        *pending_war_claims = *pending_war_claims + 1;
        Ok(())
    } else if w.owner != owner {
        Err(ErrorCode::Unauthorized)
    } else if w.war_id != war_id {
        Err(ErrorCode::InvalidState)
    } else {
        Ok(())
    }
}


/// Tells, without opening anything, whether `open_war_bets` would refuse.
fn check_war_open(w: &UserFactionWarBets, owner: Key, war_id: u64, pending_war_claims: u64) -> (r: Result<(), ErrorCode>)
    ensures
        r == (match war_open_error(*w, owner, war_id, pending_war_claims) {
            Some(e) => Err::<(), ErrorCode>(e),
            None => Ok(()),
        }),
{
    if w.owner.is_default() {
        if pending_war_claims == u64::MAX {
            Err(ErrorCode::ArithmeticOverflow)
        } else {
            Ok(())
        }
    } else if w.owner != owner {
        Err(ErrorCode::Unauthorized)
    } else if w.war_id != war_id {
        Err(ErrorCode::InvalidState)
    } else {
        Ok(())
    }
}

/// Pricing of a ticket bet: no SOL moves; the ticket value counts as points
/// and, without a multiplier, as weighted points.
pub open spec fn ticket_pricing(amount: u64) -> BetPricing {
    BetPricing {
        net: 0,
        fee: 0,
        points: amount,
        wgtd_points: amount,
        cycle_split: 0,
        referral_cut: 0,
        stakers_fee: 0,
        protocol_fee: 0,
    }
}

/// Why `num_bets` ticket bets of value `amount` from ticket slot `index`
/// are refused: no such slot, a value other than the slot's, too few tickets
/// left, or ticket points beyond the round's cap.
pub open spec fn ticket_error(
    free_tickets: Seq<u64>,
    remaining: Seq<u64>,
    index: u8,
    amount: u64,
    num_bets: u64,
    total_points_bets: u64,
    total_sol_bets: u64,
) -> Option<ErrorCode> {
    if index >= free_tickets.len() || index >= remaining.len() {
        Some(ErrorCode::InvalidParameters)
    } else if amount != free_tickets[index as int] {
        Some(ErrorCode::InvalidAmount)
    } else if remaining[index as int] < num_bets {
        Some(ErrorCode::InsufficientFunds)
    } else if amount * num_bets > u64::MAX {
        Some(ErrorCode::ArithmeticOverflow)
    } else {
        match points_limit_result(total_points_bets, total_sol_bets, (amount * num_bets) as u64) {
            Err(e) => Some(e),
            Ok(_) => None,
        }
    }
}

/// Prices a ticket batch, given the tickets left in each slot.
pub fn price_ticket_bet(
    free_tickets: &Vec<u64>,
    remaining: &Vec<u64>,
    index: u8,
    amount: u64,
    num_bets: u64,
    total_points_bets: u64,
    total_sol_bets: u64,
) -> (r: Result<BetPricing, ErrorCode>)
    ensures
        r == (match ticket_error(
            free_tickets@,
            remaining@,
            index,
            amount,
            num_bets,
            total_points_bets,
            total_sol_bets,
        ) {
            Some(e) => Err::<BetPricing, ErrorCode>(e),
            None => Ok(ticket_pricing(amount)),
        }),
{
    let i = index as usize;
    if i >= free_tickets.len() || i >= remaining.len() {
        return Err(ErrorCode::InvalidParameters);
    }
    if amount != free_tickets[i] {
        return Err(ErrorCode::InvalidAmount);
    }
    if remaining[i] < num_bets {
        return Err(ErrorCode::InsufficientFunds);
    }
    let total_points = match amount.checked_mul(num_bets) {
        Some(v) => v,
        None => return Err(ErrorCode::ArithmeticOverflow),
    };
    match validate_points_percentage_limit(total_points_bets, total_sol_bets, total_points) {
        Ok(_) => {},
        Err(e) => return Err(e),
    }
    Ok(
        BetPricing {
            net: 0,
            fee: 0,
            points: amount,
            wgtd_points: amount,
            cycle_split: 0,
            referral_cut: 0,
            stakers_fee: 0,
            protocol_fee: 0,
        },
    )
}

/// SOL that a placed batch sends out, by destination.
#[derive(Debug, Clone, Copy, PartialEq, Eq, Structural)]
pub struct BetTransfers {
    pub to_war_vault: u64,
    pub to_referrer: u64,
    pub to_rewards_vault: u64,
    pub to_treasury: u64,
    pub to_prize_pot: u64,
}

/// Where a batch's SOL goes, with the referrer account and the round's cycle
/// pool after the batch.
#[derive(Debug, Clone, Copy, PartialEq, Eq, Structural)]
pub struct FeeRoute {
    pub transfers: BetTransfers,
    pub referrer: Option<ReferrerAccount>,
    pub cycle_sol_pool: u64,
}

/// The routing of `num_bets` bets priced at `p`: per-destination totals, the
/// cycle split into the faction-war pool, and the referral commission paid to
/// the referrer up to its lifetime cap, the unpaid rest going to the treasury.
pub open spec fn route_result(
    p: BetPricing,
    num_bets: u64,
    cycle_sol_pool: u64,
    has_referrer: bool,
    referral_code: Key,
    referrer: Option<ReferrerAccount>,
) -> Result<FeeRoute, ErrorCode> {
    let stakers = p.stakers_fee * num_bets;
    let protocol = p.protocol_fee * num_bets;
    let net = p.net * num_bets;
    let referral = p.referral_cut * num_bets;
    let cycle = p.cycle_split * num_bets;
    if stakers > u64::MAX || protocol > u64::MAX || net > u64::MAX || referral > u64::MAX || cycle
        > u64::MAX || cycle_sol_pool + cycle > u64::MAX {
        Err(ErrorCode::ArithmeticOverflow)
    } else if referral > 0 && has_referrer {
        match referrer_account_error(referral_code, referrer) {
            Some(e) => Err(e),
            None => {
                let rr = referrer->Some_0;
                let cap = if rr.rewards.total_sol_earned <= MAX_REFERRER_SOL_LIFETIME {
                    MAX_REFERRER_SOL_LIFETIME - rr.rewards.total_sol_earned
                } else {
                    0
                };
                let paid = if referral <= cap {
                    referral
                } else {
                    cap
                };
                let unpaid = referral - paid;
                if paid > 0 && (rr.rewards.pending_sol_rewards + paid > u64::MAX
                    || rr.rewards.total_sol_earned + paid > u64::MAX) {
                    Err(ErrorCode::ArithmeticOverflow)
                } else if protocol + unpaid > u64::MAX {
                    Err(ErrorCode::ArithmeticOverflow)
                } else {
                    Ok(
                        FeeRoute {
                            transfers: BetTransfers {
                                to_war_vault: cycle as u64,
                                to_referrer: paid as u64,
                                to_rewards_vault: stakers as u64,
                                to_treasury: (protocol + unpaid) as u64,
                                to_prize_pot: net as u64,
                            },
                            referrer: Some(
                                if paid > 0 {
                                    ReferrerAccount {
                                        address: rr.address,
                                        rewards: ReferralRewards {
                                            pending_sol_rewards: (rr.rewards.pending_sol_rewards
                                                + paid) as u64,
                                            total_sol_earned: (rr.rewards.total_sol_earned
                                                + paid) as u64,
                                            ..rr.rewards
                                        },
                                    }
                                } else {
                                    rr
                                },
                            ),
                            cycle_sol_pool: (cycle_sol_pool + cycle) as u64,
                        },
                    )
                }
            },
        }
    } else {
        Ok(
            FeeRoute {
                transfers: BetTransfers {
                    to_war_vault: cycle as u64,
                    to_referrer: 0,
                    to_rewards_vault: stakers as u64,
                    to_treasury: protocol as u64,
                    to_prize_pot: net as u64,
                },
                referrer,
                cycle_sol_pool: (cycle_sol_pool + cycle) as u64,
            },
        )
    }
}

/// Routes the SOL of `num_bets` bets priced at `p`; see `route_result`.
pub fn route_bet_fees(
    p: BetPricing,
    num_bets: u64,
    cycle_sol_pool: u64,
    has_referrer: bool,
    referral_code: Key,
    referrer: Option<ReferrerAccount>,
) -> (r: Result<FeeRoute, ErrorCode>)
    ensures
        r == route_result(p, num_bets, cycle_sol_pool, has_referrer, referral_code, referrer),
{
    let stakers = match p.stakers_fee.checked_mul(num_bets) {
        Some(v) => v,
        None => return Err(ErrorCode::ArithmeticOverflow),
    };
    let protocol = match p.protocol_fee.checked_mul(num_bets) {
        Some(v) => v,
        None => return Err(ErrorCode::ArithmeticOverflow),
    };
    let net = match p.net.checked_mul(num_bets) {
        Some(v) => v,
        None => return Err(ErrorCode::ArithmeticOverflow),
    };
    let referral = match p.referral_cut.checked_mul(num_bets) {
        Some(v) => v,
        None => return Err(ErrorCode::ArithmeticOverflow),
    };
    let cycle = match p.cycle_split.checked_mul(num_bets) {
        Some(v) => v,
        None => return Err(ErrorCode::ArithmeticOverflow),
    };
    let pool = match cycle_sol_pool.checked_add(cycle) {
        Some(v) => v,
        None => return Err(ErrorCode::ArithmeticOverflow),
    };
    if referral > 0 && has_referrer {
        match validate_referrer_rewards_account(referral_code, &referrer) {
            Ok(_) => {},
            Err(e) => return Err(e),
        }
        let rr = match referrer {
            Some(rr) => rr,
            None => return Err(ErrorCode::ReferralRewardsAccountRequired),
        };
        let cap = MAX_REFERRER_SOL_LIFETIME.saturating_sub(rr.rewards.total_sol_earned);
        let paid = if referral <= cap {
            referral
        } else {
            cap
        };
        let unpaid = referral - paid;
        let mut updated = rr;
        if paid > 0 {
            updated.rewards.pending_sol_rewards = match rr.rewards.pending_sol_rewards.checked_add(
                paid,
            ) {
                Some(v) => v,
                None => return Err(ErrorCode::ArithmeticOverflow),
            };
            updated.rewards.total_sol_earned = match rr.rewards.total_sol_earned.checked_add(paid) {
                Some(v) => v,
                None => return Err(ErrorCode::ArithmeticOverflow),
            };
        }
        let treasury = match protocol.checked_add(unpaid) {
            Some(v) => v,
            None => return Err(ErrorCode::ArithmeticOverflow),
        };
        Ok(
            FeeRoute {
                transfers: BetTransfers {
                    to_war_vault: cycle,
                    to_referrer: paid,
                    to_rewards_vault: stakers,
                    to_treasury: treasury,
                    to_prize_pot: net,
                },
                referrer: Some(updated),
                cycle_sol_pool: pool,
            },
        )
    } else {
        Ok(
            FeeRoute {
                transfers: BetTransfers {
                    to_war_vault: cycle,
                    to_referrer: 0,
                    to_rewards_vault: stakers,
                    to_treasury: protocol,
                    to_prize_pot: net,
                },
                referrer,
                cycle_sol_pool: pool,
            },
        )
    }
}


/// Why a round-bet record cannot take bets in `round_id` of `war_id`: a
/// fresh record would overflow the player's count of open round claims; an
/// opened one belongs to another round or war.
pub open spec fn bet_open_error(
    ub: UserGameBet,
    round_id: u64,
    war_id: u64,
    pending_round_claims: u64,
) -> Option<ErrorCode> {
    if ub.owner.is_zero() {
        if pending_round_claims == u64::MAX {
            Some(ErrorCode::ArithmeticOverflow)
        } else {
            None
        }
    } else if ub.round_id != round_id {
        Some(ErrorCode::InvalidRound)
    } else if ub.war_id != war_id {
        Some(ErrorCode::InvalidState)
    } else {
        None
    }
}

/// A freshly opened round-bet record: no positions and zero totals, with the
/// player's gameplay HashBeast at the time of opening.
pub open spec fn is_fresh_user_bet(
    ub: UserGameBet,
    owner: Key,
    round_id: u64,
    war_id: u64,
    hb: Key,
    bump: u8,
) -> bool {
    &&& ub.owner == owner
    &&& ub.round_id == round_id
    &&& ub.war_id == war_id
    &&& ub.faction_ids.len() == 0
    &&& ub.directions.len() == 0
    &&& ub.sol_bets.len() == 0
    &&& ub.points_bets.len() == 0
    &&& ub.wgtd_points_bets.len() == 0
    &&& ub.gameplay_hashbeast == hb
    &&& ub.total_sol_bet == 0
    &&& ub.total_points_bet == 0
    &&& ub.total_wgtd_points_bet == 0
    &&& ub.total_fee == 0
    &&& ub.bump == bump
    &&& ub.mutation_type == 0
}

/// Opens the user's round-bet record on first use (counting one more open
/// round claim), or checks that it is for this round and war.
pub fn open_user_game_bet(
    ub: &mut UserGameBet,
    owner: Key,
    round_id: u64,
    war_id: u64,
    hb: Key,
    bump: u8,
    pending_round_claims: &mut u64,
) -> (r: Result<(), ErrorCode>)
    requires
        old(ub).wf(),
    ensures
        r == (match bet_open_error(*old(ub), round_id, war_id, *old(pending_round_claims)) {
            Some(e) => Err::<(), ErrorCode>(e),
            None => Ok(()),
        }),
        r is Ok && old(ub).owner.is_zero() ==> is_fresh_user_bet(
            *final(ub),
            owner,
            round_id,
            war_id,
            hb,
            bump,
        ) && *final(pending_round_claims) == *old(pending_round_claims) + 1,
        r is Ok && !old(ub).owner.is_zero() ==> *final(ub) == *old(ub)
            && *final(pending_round_claims) == *old(pending_round_claims),
        final(ub).wf(),
{
    if ub.owner.is_default() {
        if *pending_round_claims == u64::MAX {
            return Err(ErrorCode::ArithmeticOverflow);
        }
        ub.owner = owner;
        ub.round_id = round_id;
        ub.war_id = war_id;
        ub.faction_ids = Vec::new();
        ub.directions = Vec::new();
        ub.sol_bets = Vec::new();
        ub.points_bets = Vec::new();
        ub.wgtd_points_bets = Vec::new();
        ub.gameplay_hashbeast = hb;
        ub.total_sol_bet = 0;
        ub.total_points_bet = 0;
        ub.total_wgtd_points_bet = 0;
        ub.total_fee = 0;
        ub.bump = bump;
        ub.mutation_type = 0;
        *pending_round_claims = *pending_round_claims + 1;
        proof {
            assert(ub.pairs() =~= Seq::<(u8, u8)>::empty());
        }
        Ok(())
    } else if ub.round_id != round_id {
        Err(ErrorCode::InvalidRound)
    } else if ub.war_id != war_id {
        Err(ErrorCode::InvalidState)
    } else {
        Ok(())
    }
}

/// Tells, without opening anything, whether `open_user_game_bet` would refuse.
fn check_bet_open(ub: &UserGameBet, round_id: u64, war_id: u64, pending_round_claims: u64) -> (r: Result<(), ErrorCode>)
    ensures
        r == (match bet_open_error(*ub, round_id, war_id, pending_round_claims) {
            Some(e) => Err::<(), ErrorCode>(e),
            None => Ok(()),
        }),
{
    if ub.owner.is_default() {
        if pending_round_claims == u64::MAX {
            Err(ErrorCode::ArithmeticOverflow)
        } else {
            Ok(())
        }
    } else if ub.round_id != round_id {
        Err(ErrorCode::InvalidRound)
    } else if ub.war_id != war_id {
        Err(ErrorCode::InvalidState)
    } else {
        Ok(())
    }
}

/// Whether adding `num_bets` bets priced at `p` keeps every total in range.
pub open spec fn totals_ok(
    total_sol_bet: u64,
    total_points_bet: u64,
    total_wgtd_points_bet: u64,
    total_fee: u64,
    s: GameSession,
    p: BetPricing,
    num_bets: u64,
    stakers_total: u64,
) -> bool {
    &&& p.net * num_bets <= u64::MAX
    &&& p.points * num_bets <= u64::MAX
    &&& p.wgtd_points * num_bets <= u64::MAX
    &&& p.fee * num_bets <= u64::MAX
    &&& total_sol_bet + p.net * num_bets <= u64::MAX
    &&& total_points_bet + p.points * num_bets <= u64::MAX
    &&& total_wgtd_points_bet + p.wgtd_points * num_bets <= u64::MAX
    &&& total_fee + p.fee * num_bets <= u64::MAX
    &&& s.total_sol_bets + p.net * num_bets <= u64::MAX
    &&& s.total_points_bets + p.points * num_bets <= u64::MAX
    &&& s.total_wgtd_points_bets + p.wgtd_points * num_bets <= u64::MAX
    &&& s.stakers_fee + stakers_total <= u64::MAX
}

/// Adds a batch to the user's and the round's totals.
pub fn add_bet_totals(
    ub: &mut UserGameBet,
    s: &mut GameSession,
    p: BetPricing,
    num_bets: u64,
    stakers_total: u64,
) -> (r: Result<(), ErrorCode>)
    ensures
        r is Ok <==> totals_ok(
            old(ub).total_sol_bet,
            old(ub).total_points_bet,
            old(ub).total_wgtd_points_bet,
            old(ub).total_fee,
            *old(s),
            p,
            num_bets,
            stakers_total,
        ),
        r is Err ==> r == Err::<(), ErrorCode>(ErrorCode::ArithmeticOverflow),
        r is Ok ==> *final(ub) == (UserGameBet {
            total_sol_bet: (old(ub).total_sol_bet + p.net * num_bets) as u64,
            total_points_bet: (old(ub).total_points_bet + p.points * num_bets) as u64,
            total_wgtd_points_bet: (old(ub).total_wgtd_points_bet + p.wgtd_points * num_bets) as u64,
            total_fee: (old(ub).total_fee + p.fee * num_bets) as u64,
            ..*old(ub)
        }),
        r is Ok ==> *final(s) == (GameSession {
            total_sol_bets: (old(s).total_sol_bets + p.net * num_bets) as u64,
            total_points_bets: (old(s).total_points_bets + p.points * num_bets) as u64,
            total_wgtd_points_bets: (old(s).total_wgtd_points_bets + p.wgtd_points * num_bets) as u64,
            stakers_fee: (old(s).stakers_fee + stakers_total) as u64,
            ..*old(s)
        }),
{
    let net = match p.net.checked_mul(num_bets) {
        Some(v) => v,
        None => return Err(ErrorCode::ArithmeticOverflow),
    };
    let points = match p.points.checked_mul(num_bets) {
        Some(v) => v,
        None => return Err(ErrorCode::ArithmeticOverflow),
    };
    let wgtd = match p.wgtd_points.checked_mul(num_bets) {
        Some(v) => v,
        None => return Err(ErrorCode::ArithmeticOverflow),
    };
    let fee = match p.fee.checked_mul(num_bets) {
        Some(v) => v,
        None => return Err(ErrorCode::ArithmeticOverflow),
    };
    let ub_sol = match ub.total_sol_bet.checked_add(net) {
        Some(v) => v,
        None => return Err(ErrorCode::ArithmeticOverflow),
    };
    let ub_points = match ub.total_points_bet.checked_add(points) {
        Some(v) => v,
        None => return Err(ErrorCode::ArithmeticOverflow),
    };
    let ub_wgtd = match ub.total_wgtd_points_bet.checked_add(wgtd) {
        Some(v) => v,
        None => return Err(ErrorCode::ArithmeticOverflow),
    };
    let ub_fee = match ub.total_fee.checked_add(fee) {
        Some(v) => v,
        None => return Err(ErrorCode::ArithmeticOverflow),
    };
    let s_sol = match s.total_sol_bets.checked_add(net) {
        Some(v) => v,
        None => return Err(ErrorCode::ArithmeticOverflow),
    };
    let s_points = match s.total_points_bets.checked_add(points) {
        Some(v) => v,
        None => return Err(ErrorCode::ArithmeticOverflow),
    };
    let s_wgtd = match s.total_wgtd_points_bets.checked_add(wgtd) {
        Some(v) => v,
        None => return Err(ErrorCode::ArithmeticOverflow),
    };
    let s_stakers = match s.stakers_fee.checked_add(stakers_total) {
        Some(v) => v,
        None => return Err(ErrorCode::ArithmeticOverflow),
    };
    ub.total_sol_bet = ub_sol;
    ub.total_points_bet = ub_points;
    ub.total_wgtd_points_bet = ub_wgtd;
    ub.total_fee = ub_fee;
    s.total_sol_bets = s_sol;
    s.total_points_bets = s_points;
    s.total_wgtd_points_bets = s_wgtd;
    s.stakers_fee = s_stakers;
    Ok(())
}


/// Whether the player named a referrer (an unset referral code is zero).
pub open spec fn has_referrer(player: PlayerData) -> bool {
    !player.referral_code.is_zero()
}

/// Referral commission rate of a SOL bet, in basis points.
pub fn referral_bps(has_referrer: bool, player_faction: u8, referrer_faction: u8) -> (r: u64)
    ensures
        r == referral_bps_spec(has_referrer, player_faction, referrer_faction),
        r <= REFERRAL_FEE_BPS_SAME_FACTION,
{
    if !has_referrer {
        0
    } else if referrer_faction != u8::MAX && player_faction == referrer_faction {
        REFERRAL_FEE_BPS_SAME_FACTION
    } else {
        REFERRAL_FEE_BPS_CROSS_FACTION
    }
}

/// The per-bet pricing of a request: ticket pricing when a ticket slot is
/// named, SOL pricing (fee, cycle split, referral cut, weighted points)
/// otherwise.
pub open spec fn pricing_result(
    cfg: BetConfig,
    player: PlayerData,
    s: GameSession,
    amount: u64,
    use_ticket: Option<u8>,
    num_bets: u64,
) -> Result<BetPricing, ErrorCode> {
    match use_ticket {
        Some(index) => match ticket_error(
            player.free_tickets@,
            player.free_tickets_remaining@,
            index,
            amount,
            num_bets,
            s.total_points_bets,
            s.total_sol_bets,
        ) {
            Some(e) => Err(e),
            None => Ok(ticket_pricing(amount)),
        },
        None => {
            let bps = referral_bps_spec(has_referrer(player), player.faction_id, player.referrer_faction_id);
            if sol_pricing_ok(
                amount,
                cfg.protocol_fee_pct,
                cfg.stakers_pct,
                cfg.cycle_sol_split_pct,
                bps,
                player.active_multiplier,
            ) {
                Ok(
                    sol_pricing_spec(
                        amount,
                        cfg.protocol_fee_pct,
                        cfg.stakers_pct,
                        cfg.cycle_sol_split_pct,
                        bps,
                        player.active_multiplier,
                    ),
                )
            } else {
                Err(ErrorCode::ArithmeticOverflow)
            }
        },
    }
}

/// Everything a request settles before its positions are recorded, in the
/// order it is checked: the request itself, the faction-war record, the
/// country set, the pricing, the fee routing and the round-bet record.
pub open spec fn placement_plan(
    cfg: BetConfig,
    player: PlayerData,
    s: GameSession,
    ub: UserGameBet,
    w: UserFactionWarBets,
    req: BetRequest,
    referrer: Option<ReferrerAccount>,
) -> Result<(BetPricing, FeeRoute), ErrorCode> {
    let num = req.bets.len();
    match bet_request_error(cfg, s, req.round_id, req.war_id, req.amount_per_bet, req.use_ticket is Some, num as nat, req.now) {
        Some(e) => Err(e),
        None => match war_open_error(w, req.owner, req.war_id, player.pending_war_claims) {
            Some(e) => Err(e),
            None => if cfg.supported_faction_count != NUM_FACTIONS {
                Err(ErrorCode::InvalidFactionId)
            } else {
                match pricing_result(cfg, player, s, req.amount_per_bet, req.use_ticket, num as u64) {
                    Err(e) => Err(e),
                    Ok(pr) => match route_result(pr, num as u64, s.cycle_sol_pool, has_referrer(player), player.referral_code, referrer) {
                        Err(e) => Err(e),
                        Ok(ro) => match bet_open_error(ub, req.round_id, req.war_id, player.pending_round_claims) {
                            Some(e) => Err(e),
                            None => Ok((pr, ro)),
                        },
                    },
                }
            },
        },
    }
}

/// The positions a round-bet record holds once opened: none if fresh.
pub open spec fn opened_positions(ub: UserGameBet) -> PositionsView {
    if ub.owner.is_zero() {
        (Seq::empty(), Seq::empty(), Seq::empty(), Seq::empty())
    } else {
        ub.positions()
    }
}

/// The cells and HashBeast a faction-war record holds once opened: all zero
/// if fresh.
pub open spec fn opened_war_view(w: UserFactionWarBets) -> WarView {
    if w.owner.is_zero() {
        (
            Seq::new((NUM_FACTIONS * DIRECTION_COUNT) as nat, |c: int| 0u64),
            Seq::new((NUM_FACTIONS * DIRECTION_COUNT) as nat, |c: int| 0u64),
            Key { w0: 0, w1: 0, w2: 0, w3: 0 },
        )
    } else {
        w.war_view()
    }
}

/// A total of a round-bet record once opened: zero if fresh.
pub open spec fn opened_total(ub: UserGameBet, total: u64) -> u64 {
    if ub.owner.is_zero() {
        0
    } else {
        total
    }
}

/// Whether the positions and totals of a planned request can be recorded.
pub open spec fn placement_fits(
    player: PlayerData,
    s: GameSession,
    ub: UserGameBet,
    w: UserFactionWarBets,
    req: BetRequest,
    pr: BetPricing,
    ro: FeeRoute,
) -> bool {
    &&& positions_ok(opened_positions(ub), s, opened_war_view(w), req.bets@, pr, player.faction_id, player.gameplay_hashbeast)
    &&& totals_ok(
        opened_total(ub, ub.total_sol_bet),
        opened_total(ub, ub.total_points_bet),
        opened_total(ub, ub.total_wgtd_points_bet),
        opened_total(ub, ub.total_fee),
        s,
        pr,
        req.bets.len() as u64,
        ro.transfers.to_rewards_vault,
    )
}

/// The player after a placed request: one more open war claim and one more
/// open round claim where a record was opened, and the spent tickets.
pub open spec fn player_after_bets(a: PlayerData, b: PlayerData, ub: UserGameBet, w: UserFactionWarBets, req: BetRequest) -> bool {
    &&& a.pending_war_claims == b.pending_war_claims + if w.owner.is_zero() { 1int } else { 0int }
    &&& a.pending_round_claims == b.pending_round_claims + if ub.owner.is_zero() { 1int } else { 0int }
    &&& a.free_tickets_remaining@ == match req.use_ticket {
        Some(index) => b.free_tickets_remaining@.update(
            index as int,
            (b.free_tickets_remaining@[index as int] - req.bets.len()) as u64,
        ),
        None => b.free_tickets_remaining@,
    }
    &&& a.owner == b.owner
    &&& a.faction_id == b.faction_id
    &&& a.referral_code == b.referral_code
    &&& a.referrer_faction_id == b.referrer_faction_id
    &&& a.degenbtc == b.degenbtc
    &&& a.lp == b.lp
    &&& a.staked_hashbeasts == b.staked_hashbeasts
    &&& a.hashbeast_multiplier == b.hashbeast_multiplier
    &&& a.active_multiplier == b.active_multiplier
    &&& a.pending_sol_rewards == b.pending_sol_rewards
    &&& a.pending_dbtc_rewards == b.pending_dbtc_rewards
    &&& a.pending_staking_dbtc_rewards == b.pending_staking_dbtc_rewards
    &&& a.unrefined_dbtc_rewards == b.unrefined_dbtc_rewards
    &&& a.hodl_tax_index == b.hodl_tax_index
    &&& a.free_tickets == b.free_tickets
    &&& a.gameplay_hashbeast == b.gameplay_hashbeast
    &&& a.gameplay_hashbeast_dna == b.gameplay_hashbeast_dna
    &&& a.gameplay_hashbeast_xp == b.gameplay_hashbeast_xp
    &&& a.gameplay_unlock_request_faction_war == b.gameplay_unlock_request_faction_war
    &&& a.current_war_score == b.current_war_score
    &&& a.current_war_score_cycle_id == b.current_war_score_cycle_id
    &&& a.pending_rebase_claims == b.pending_rebase_claims
}

/// The round-bet record after a placed request: opened if fresh, its
/// positions updated, and each total raised by the batch.
pub open spec fn user_bet_after_bets(a: UserGameBet, b: UserGameBet, player: PlayerData, req: BetRequest, pr: BetPricing) -> bool {
    let fresh = b.owner.is_zero();
    let num = req.bets.len() as int;
    &&& a.wf()
    &&& positions_after(a, opened_positions(b), req.bets@, pr)
    &&& a.owner == if fresh { req.owner } else { b.owner }
    &&& a.round_id == if fresh { req.round_id } else { b.round_id }
    &&& a.war_id == if fresh { req.war_id } else { b.war_id }
    &&& a.gameplay_hashbeast == if fresh { player.gameplay_hashbeast } else { b.gameplay_hashbeast }
    &&& a.bump == if fresh { req.user_game_bet_bump } else { b.bump }
    &&& a.mutation_type == if fresh { 0 } else { b.mutation_type }
    &&& a.total_sol_bet == opened_total(b, b.total_sol_bet) + pr.net * num
    &&& a.total_points_bet == opened_total(b, b.total_points_bet) + pr.points * num
    &&& a.total_wgtd_points_bet == opened_total(b, b.total_wgtd_points_bet) + pr.wgtd_points * num
    &&& a.total_fee == opened_total(b, b.total_fee) + pr.fee * num
}

/// The round after a placed request: aggregates per faction and cell, the
/// totals, the stakers' fee and the cycle pool.
pub open spec fn session_after_bets(a: GameSession, b: GameSession, ub: UserGameBet, req: BetRequest, pr: BetPricing, ro: FeeRoute) -> bool {
    let num = req.bets.len() as int;
    &&& a.wf()
    &&& session_after(a, b, opened_positions(ub), req.bets@, pr)
    &&& a.round_id == b.round_id
    &&& a.stage == b.stage
    &&& a.round_end_timestamp == b.round_end_timestamp
    &&& a.war_id_when_played == b.war_id_when_played
    &&& a.total_sol_bets == b.total_sol_bets + pr.net * num
    &&& a.total_points_bets == b.total_points_bets + pr.points * num
    &&& a.total_wgtd_points_bets == b.total_wgtd_points_bets + pr.wgtd_points * num
    &&& a.stakers_fee == b.stakers_fee + ro.transfers.to_rewards_vault
    &&& a.cycle_sol_pool == ro.cycle_sol_pool
}

/// The faction-war record after a placed request.
pub open spec fn war_after_bets(a: UserFactionWarBets, b: UserFactionWarBets, player: PlayerData, req: BetRequest, pr: BetPricing) -> bool {
    let fresh = b.owner.is_zero();
    &&& a.wf()
    &&& war_after(a, opened_war_view(b), req.bets@, pr, player.faction_id, player.gameplay_hashbeast)
    &&& a.owner == if fresh { req.owner } else { b.owner }
    &&& a.war_id == if fresh { req.war_id } else { b.war_id }
    &&& a.mutation_score == if fresh { 0 } else { b.mutation_score }
    &&& a.bump == if fresh { req.war_bets_bump } else { b.bump }
}

/// What a bet placement returns and does to the player, the round, the
/// user's round bets and their war bets.
pub open spec fn bets_processed(
    cfg: BetConfig,
    player0: PlayerData,
    player1: PlayerData,
    s0: GameSession,
    s1: GameSession,
    ub0: UserGameBet,
    ub1: UserGameBet,
    w0: UserFactionWarBets,
    w1: UserFactionWarBets,
    req: BetRequest,
    referrer: Option<ReferrerAccount>,
    r: Result<(BetTransfers, Option<ReferrerAccount>), ErrorCode>,
) -> bool {
    match placement_plan(cfg, player0, s0, ub0, w0, req, referrer) {
        Err(e) => r == Err::<(BetTransfers, Option<ReferrerAccount>), ErrorCode>(e) && player1 == player0 && s1 == s0
            && ub1 == ub0 && w1 == w0,
        Ok((pr, ro)) => {
            &&& (r is Ok <==> placement_fits(player0, s0, ub0, w0, req, pr, ro))
            &&& (r is Ok ==> r == Ok::<(BetTransfers, Option<ReferrerAccount>), ErrorCode>((ro.transfers, ro.referrer)))
            &&& (r is Ok ==> player_after_bets(player1, player0, ub0, w0, req))
            &&& (r is Ok ==> user_bet_after_bets(ub1, ub0, player0, req, pr))
            &&& (r is Ok ==> session_after_bets(s1, s0, ub0, req, pr, ro))
            &&& (r is Ok ==> war_after_bets(w1, w0, player0, req, pr))
        },
    }
}

/// Places a batch of bets for a player in the current round: checks the
/// request, opens the user's faction-war and round-bet records on first use,
/// prices the bets (tickets or SOL), routes the SOL, records every position
/// and raises the totals. Returns the SOL to send to each destination and
/// the referrer account after its commission.
pub fn internal_process_bets(
    cfg: BetConfig,
    player: &mut PlayerData,
    s: &mut GameSession,
    ub: &mut UserGameBet,
    w: &mut UserFactionWarBets,
    req: &BetRequest,
    referrer: Option<ReferrerAccount>,
) -> (r: Result<(BetTransfers, Option<ReferrerAccount>), ErrorCode>)
    requires
        old(s).wf(),
        old(ub).wf(),
        old(w).wf(),
    ensures
        bets_processed(cfg, *old(player), *final(player), *old(s), *final(s), *old(ub), *final(ub), *old(w), *final(w), *req, referrer, r),

{
    let num_usize = req.bets.len();
    check_bet_request(
        cfg,
        s,
        req.round_id,
        req.war_id,
        req.amount_per_bet,
        req.use_ticket.is_some(),
        num_usize,
        req.now,
    )?;
    let num = num_usize as u64;
    check_war_open(w, req.owner, req.war_id, player.pending_war_claims)?;
    if cfg.supported_faction_count != NUM_FACTIONS {
        return Err(ErrorCode::InvalidFactionId);
    }
    let has_ref = !player.referral_code.is_default();
    let pr = match req.use_ticket {
        Some(index) => price_ticket_bet(
            &player.free_tickets,
            &player.free_tickets_remaining,
            index,
            req.amount_per_bet,
            num,
            s.total_points_bets,
            s.total_sol_bets,
        )?,
        None => {
            let bps = referral_bps(has_ref, player.faction_id, player.referrer_faction_id);
            price_sol_bet(
                req.amount_per_bet,
                cfg.protocol_fee_pct,
                cfg.stakers_pct,
                cfg.cycle_sol_split_pct,
                bps,
                player.active_multiplier,
            )?
        },
    };
    let ro = route_bet_fees(pr, num, s.cycle_sol_pool, has_ref, player.referral_code, referrer)?;
    check_bet_open(ub, req.round_id, req.war_id, player.pending_round_claims)?;
    open_war_bets(w, req.owner, req.war_id, req.war_bets_bump, &mut player.pending_war_claims)?;
    match req.use_ticket {
        Some(index) => {
            let i = index as usize;
            let left = player.free_tickets_remaining[i] - num;
            player.free_tickets_remaining.set(i, left);
        },
        None => {},
    }
    s.cycle_sol_pool = ro.cycle_sol_pool;
    let hb = player.gameplay_hashbeast;
    open_user_game_bet(
        ub,
        req.owner,
        req.round_id,
        req.war_id,
        hb,
        req.user_game_bet_bump,
        &mut player.pending_round_claims,
    )?;
    proof {
        let op = opened_positions(*old(ub));
        assert(ub.pairs() =~= op.0);
        assert(ub.sol_bets@ =~= op.1);
        assert(ub.points_bets@ =~= op.2);
        assert(ub.wgtd_points_bets@ =~= op.3);
        assert(ub.positions() == op);
        let ow = opened_war_view(*old(w));
        assert(w.direction_bets@ =~= ow.0);
        assert(w.sol_direction_bets@ =~= ow.1);
        assert(w.war_view() == ow);
    }
    let ghost s_mid: GameSession = *s;
    let ghost ub_mid: UserGameBet = *ub;
    proof {
        assert(s_mid == (GameSession { cycle_sol_pool: ro.cycle_sol_pool, ..*old(s) }));
    }
    record_bet_positions(ub, s, w, &req.bets, pr, player.faction_id, hb)?;
    proof {
        assert(positions_ok(opened_positions(*old(ub)), s_mid, opened_war_view(*old(w)), req.bets@, pr, old(player).faction_id, old(player).gameplay_hashbeast));
        lemma_positions_ok_by_aggregates(opened_positions(*old(ub)), s_mid, *old(s), opened_war_view(*old(w)), req.bets@, pr, old(player).faction_id, old(player).gameplay_hashbeast);
    }
    add_bet_totals(ub, s, pr, num, ro.transfers.to_rewards_vault)?;
    proof {
        assert(placement_plan(cfg, *old(player), *old(s), *old(ub), *old(w), *req, referrer) == Ok::<(BetPricing, FeeRoute), ErrorCode>((pr, ro)));
        assert(placement_fits(*old(player), *old(s), *old(ub), *old(w), *req, pr, ro));
        assert(player_after_bets(*player, *old(player), *old(ub), *old(w), *req));
        assert(user_bet_after_bets(*ub, *old(ub), *old(player), *req, pr));
        assert(session_after_bets(*s, *old(s), *old(ub), *req, pr, ro));
        assert(war_after_bets(*w, *old(w), *old(player), *req, pr));
    }
    Ok((ro.transfers, ro.referrer))
}

/// Places a user's bets in the current round after checking the request's
/// round and the number of bets (at least one, at most
/// `MAX_POSITIONS_PER_BET`).
pub fn internal_join_bets(
    cfg: BetConfig,
    player: &mut PlayerData,
    s: &mut GameSession,
    ub: &mut UserGameBet,
    w: &mut UserFactionWarBets,
    req: &BetRequest,
    referrer: Option<ReferrerAccount>,
) -> (r: Result<(BetTransfers, Option<ReferrerAccount>), ErrorCode>)
    requires
        old(s).wf(),
        old(ub).wf(),
        old(w).wf(),
    ensures
        old(s).round_id != req.round_id ==> r == Err::<(BetTransfers, Option<ReferrerAccount>), ErrorCode>(ErrorCode::InvalidRound)
            && *final(player) == *old(player) && *final(s) == *old(s) && *final(ub) == *old(ub) && *final(w) == *old(w),
        old(s).round_id == req.round_id && (req.bets@.len() == 0 || req.bets@.len() > MAX_POSITIONS_PER_BET)
            ==> r == Err::<(BetTransfers, Option<ReferrerAccount>), ErrorCode>(ErrorCode::InvalidParameters)
            && *final(player) == *old(player) && *final(s) == *old(s) && *final(ub) == *old(ub) && *final(w) == *old(w),
        old(s).round_id == req.round_id && 0 < req.bets@.len() <= MAX_POSITIONS_PER_BET
            ==> bets_processed(cfg, *old(player), *final(player), *old(s), *final(s), *old(ub), *final(ub), *old(w), *final(w), *req, referrer, r),
{
    if s.round_id != req.round_id {
        return Err(ErrorCode::InvalidRound);
    }
    if req.bets.len() == 0 || req.bets.len() > MAX_POSITIONS_PER_BET {
        return Err(ErrorCode::InvalidParameters);
    }
    internal_process_bets(cfg, player, s, ub, w, req, referrer)
}

/// Every lamport of a SOL bet is routed: for bets of `amount` each, the
/// prize pot, the war vault, the referrer, the stakers' vault and the
/// treasury together receive exactly `amount` times the number of bets
/// (a referral share exists only for a player with a referrer).
pub proof fn lemma_sol_bet_routing_conserves(
    amount: u64,
    protocol_fee_pct: u8,
    stakers_pct: u8,
    cycle_pct: u8,
    referral_bps: int,
    active_multiplier: u32,
    num_bets: u64,
    cycle_sol_pool: u64,
    has_ref: bool,
    referral_code: Key,
    referrer: Option<ReferrerAccount>,
)
    requires
        0 <= referral_bps,
        has_ref || referral_bps == 0,
        sol_pricing_ok(amount, protocol_fee_pct, stakers_pct, cycle_pct, referral_bps, active_multiplier),
        route_result(
            sol_pricing_spec(amount, protocol_fee_pct, stakers_pct, cycle_pct, referral_bps, active_multiplier),
            num_bets,
            cycle_sol_pool,
            has_ref,
            referral_code,
            referrer,
        ) is Ok,
    ensures
        ({
            let p = sol_pricing_spec(amount, protocol_fee_pct, stakers_pct, cycle_pct, referral_bps, active_multiplier);
            let t = route_result(p, num_bets, cycle_sol_pool, has_ref, referral_code, referrer)->Ok_0.transfers;
            t.to_prize_pot + t.to_war_vault + t.to_referrer + t.to_rewards_vault + t.to_treasury == amount * num_bets
        }),
{
    let split: int = if cycle_pct > 0 { (amount as int) * (cycle_pct as int) / 100 } else { 0 };
    let fee: int = (amount as int) * (protocol_fee_pct as int) / 100;
    let net: int = amount - fee - split;
    let cut: int = min_int((amount as int) * referral_bps / 10_000, fee);
    let eff: int = fee - cut;
    let stakers: int = eff * (stakers_pct as int) / 100;
    assert(0 <= split) by (nonlinear_arith)
        requires
            split == (if cycle_pct > 0 { (amount as int) * (cycle_pct as int) / 100 } else { 0 }),
    ;
    assert(0 <= fee) by (nonlinear_arith)
        requires
            fee == (amount as int) * (protocol_fee_pct as int) / 100,
    ;
    assert(0 <= (amount as int) * referral_bps / 10_000) by (nonlinear_arith)
        requires
            0 <= referral_bps,
    ;
    assert(0 <= stakers) by (nonlinear_arith)
        requires
            stakers == eff * (stakers_pct as int) / 100,
            0 <= eff,
    ;
    let p = sol_pricing_spec(amount, protocol_fee_pct, stakers_pct, cycle_pct, referral_bps, active_multiplier);
    assert(p.net == net && p.cycle_split == split && p.referral_cut == cut && p.stakers_fee == stakers
        && p.protocol_fee == eff - stakers);
    let n = num_bets as int;
    assert(net * n + split * n + cut * n + stakers * n + (eff - stakers) * n == (amount as int) * n) by (nonlinear_arith)
        requires
            net + split + cut + stakers + (eff - stakers) == amount as int,
    ;
    assert(0 <= net * n && 0 <= split * n && 0 <= cut * n && 0 <= stakers * n && 0 <= (eff - stakers) * n) by (nonlinear_arith)
        requires
            0 <= net,
            0 <= split,
            0 <= cut,
            0 <= stakers,
            0 <= eff - stakers,
            0 <= n,
    ;
    let ro = route_result(p, num_bets, cycle_sol_pool, has_ref, referral_code, referrer)->Ok_0;
    let referral = p.referral_cut * num_bets;
    assert(p.net * num_bets == net * n && p.cycle_split * num_bets == split * n && p.referral_cut * num_bets == cut * n
        && p.stakers_fee * num_bets == stakers * n && p.protocol_fee * num_bets == (eff - stakers) * n);
    assert(ro.transfers.to_prize_pot == net * n);
    assert(ro.transfers.to_war_vault == split * n);
    assert(ro.transfers.to_rewards_vault == stakers * n);
    if referral > 0 && has_ref {
        let rr = referrer->Some_0;
        let cap = if rr.rewards.total_sol_earned <= MAX_REFERRER_SOL_LIFETIME {
            MAX_REFERRER_SOL_LIFETIME - rr.rewards.total_sol_earned
        } else {
            0
        };
        let paid = if referral <= cap { referral } else { cap };
        assert(ro.transfers.to_referrer == paid);
        assert(ro.transfers.to_treasury == p.protocol_fee * num_bets + (referral - paid));
    } else {
        assert(ro.transfers.to_referrer == 0);
        assert(ro.transfers.to_treasury == p.protocol_fee * num_bets);
        if !has_ref {
            assert((amount as int) * referral_bps == 0);
            assert(cut == 0);
            assert(cut * n == 0) by (nonlinear_arith)
                requires
                    cut == 0,
            ;
        }
    }
    assert(ro.transfers.to_prize_pot + ro.transfers.to_war_vault + ro.transfers.to_referrer + ro.transfers.to_rewards_vault
        + ro.transfers.to_treasury == (amount as int) * n);
}

} // verus!
