//! Players: registration with an optional referrer, and locking a HashBeast
//! as the gameplay avatar, requesting its release and withdrawing it.
use vstd::prelude::*;

use crate::bets::ReferralRewards;
use crate::constants::{BASE_MULTIPLIER, GAMEPLAY_MAX_MULTIPLIER};
use crate::errors::ErrorCode;
use crate::hashbeast::HashBeastMetadata;
use crate::placement::{referrer_account_error, validate_referrer_rewards_account, ReferrerAccount};
use crate::state::{FactionState, Key, PlayerData, StakeLane};

verus! {

/// The first reason, if any, to refuse registering a player.
pub open spec fn init_player_error(
    total_players: u64,
    supported: nat,
    authority: Key,
    faction_id: u8,
    referral_code: Option<Key>,
    referrer: Option<ReferrerAccount>,
) -> Option<ErrorCode> {
    let code = match referral_code { Some(c) => if c.is_zero() { None } else { Some(c) }, None => None };
    if total_players == u64::MAX {
        Some(ErrorCode::ArithmeticOverflow)
    } else if faction_id >= supported {
        Some(ErrorCode::InvalidFactionId)
    } else if code matches Some(c) && c == authority {
        Some(ErrorCode::ReferralCannotBeSameAsOwner)
    } else if code is Some && referrer_account_error(code->0, referrer) is Some {
        referrer_account_error(code->0, referrer)
    } else if code is Some && referrer->0.rewards.referrals_count == u64::MAX {
        Some(ErrorCode::ArithmeticOverflow)
    } else if code is Some && referrer->0.rewards.owner_faction_id >= supported {
        Some(ErrorCode::InvalidFactionId)
    } else {
        None
    }
}

/// An empty staking lane.
pub fn empty_lane() -> (l: StakeLane)
    ensures
        l.position_indices@.len() == 0,
        l.hashpower == 0 && l.staked == 0 && l.sol_reward_debt == 0 && l.dbtc_reward_debt == 0,
{
    StakeLane { position_indices: Vec::new(), hashpower: 0, staked: 0, sol_reward_debt: 0, dbtc_reward_debt: 0 }
}

/// Registers a player in `faction_id` (counted in `total_players`), with an
/// optional referral code (the zero address means none). A referral must be
/// someone else, with a valid commission account, whose country is
/// supported; the referrer's recruit count grows. Returns the new player and
/// the player's own (empty) commission account.
pub fn initialize_player(
    total_players: &mut u64,
    supported_factions: usize,
    authority: Key,
    bump: u8,
    faction_id: u8,
    referral_code: Option<Key>,
    referrer: &mut Option<ReferrerAccount>,
) -> (r: Result<(PlayerData, ReferralRewards), ErrorCode>)
    ensures
        init_player_error(*old(total_players), supported_factions as nat, authority, faction_id, referral_code, *old(referrer)) matches Some(e)
            ==> r == Err::<(PlayerData, ReferralRewards), ErrorCode>(e),
        init_player_error(*old(total_players), supported_factions as nat, authority, faction_id, referral_code, *old(referrer)) is None
            ==> r is Ok,
        r matches Ok((p, own)) ==> {
            let code = match referral_code { Some(c) => if c.is_zero() { None } else { Some(c) }, None => None };
            &&& *final(total_players) == *old(total_players) + 1
            &&& p.owner == authority
            &&& p.bump == bump
            &&& p.faction_id == faction_id
            &&& p.origin_faction_id == faction_id
            &&& !p.allow_bots_to_claim
            &&& p.referral_code == (match code { Some(c) => c, None => Key { w0: 0, w1: 0, w2: 0, w3: 0 } })
            &&& p.referrer_faction_id == (match code { Some(_) => (*old(referrer))->0.rewards.owner_faction_id, None => u8::MAX })
            &&& p.active_multiplier == BASE_MULTIPLIER
            &&& p.hashbeast_multiplier == BASE_MULTIPLIER
            &&& p.degenbtc.position_indices@.len() == 0 && p.degenbtc.hashpower == 0 && p.degenbtc.staked == 0
            &&& p.degenbtc.sol_reward_debt == 0 && p.degenbtc.dbtc_reward_debt == 0
            &&& p.lp.position_indices@.len() == 0 && p.lp.hashpower == 0 && p.lp.staked == 0
            &&& p.lp.sol_reward_debt == 0 && p.lp.dbtc_reward_debt == 0
            &&& p.staked_hashbeasts@.len() == 0
            &&& p.free_tickets@.len() == 0 && p.free_tickets_remaining@.len() == 0
            &&& p.pending_sol_rewards == 0 && p.pending_dbtc_rewards == 0 && p.pending_staking_dbtc_rewards == 0
            &&& p.unrefined_dbtc_rewards == 0 && p.hodl_tax_index == 0
            &&& p.pending_round_claims == 0 && p.pending_war_claims == 0 && p.pending_rebase_claims == 0
            &&& p.gameplay_hashbeast.is_zero()
            &&& p.gameplay_hashbeast_dna@ == Seq::new(32, |i: int| 0u8)
            &&& p.gameplay_hashbeast_xp == 0
            &&& p.gameplay_unlock_request_faction_war == 0
            &&& p.current_war_score == 0 && p.current_war_score_cycle_id == 0
            &&& own == (ReferralRewards { owner: authority, owner_faction_id: faction_id, referrals_count: 0, pending_sol_rewards: 0,
                total_sol_earned: 0 })
            &&& (code is None ==> *final(referrer) == *old(referrer))
            &&& (code is Some ==> *final(referrer) == Some(ReferrerAccount {
                rewards: ReferralRewards { referrals_count: ((*old(referrer))->0.rewards.referrals_count + 1) as u64,
                    ..(*old(referrer))->0.rewards },
                ..(*old(referrer))->0
            }))
        },
{
    let players = match total_players.checked_add(1) {
        Some(n) => n,
        None => return Err(ErrorCode::ArithmeticOverflow),
    };
    if faction_id as usize >= supported_factions {
        return Err(ErrorCode::InvalidFactionId);
    }
    let code: Option<Key> = match referral_code {
        Some(c) => if c.is_default() { None } else { Some(c) },
        None => None,
    };
    let mut referral = Key::zero();
    let mut referrer_faction_id: u8 = u8::MAX;
    if let Some(c) = code {
        if c == authority {
            return Err(ErrorCode::ReferralCannotBeSameAsOwner);
        }
        validate_referrer_rewards_account(c, referrer)?;
        match referrer {
            Some(rr) => {
                let count = match rr.rewards.referrals_count.checked_add(1) {
                    Some(n) => n,
                    None => return Err(ErrorCode::ArithmeticOverflow),
                };
                if rr.rewards.owner_faction_id as usize >= supported_factions {
                    return Err(ErrorCode::InvalidFactionId);
                }
                rr.rewards.referrals_count = count;
                referrer_faction_id = rr.rewards.owner_faction_id;
            },
            None => return Err(ErrorCode::ReferralRewardsAccountRequired),
        }
        referral = c;
    }
    *total_players = players;
    let player = PlayerData {
        owner: authority,
        bump,
        faction_id,
        origin_faction_id: faction_id,
        allow_bots_to_claim: false,
        referral_code: referral,
        referrer_faction_id,
        degenbtc: empty_lane(),
        lp: empty_lane(),
        staked_hashbeasts: Vec::new(),
        hashbeast_multiplier: 1000,
        active_multiplier: BASE_MULTIPLIER,
        pending_sol_rewards: 0,
        pending_dbtc_rewards: 0,
        pending_staking_dbtc_rewards: 0,
        unrefined_dbtc_rewards: 0,
        hodl_tax_index: 0,
        free_tickets: Vec::new(),
        free_tickets_remaining: Vec::new(),
        gameplay_hashbeast: Key::zero(),
        gameplay_hashbeast_dna: [0u8; 32],
        gameplay_hashbeast_xp: 0,
        gameplay_unlock_request_faction_war: 0,
        current_war_score: 0,
        current_war_score_cycle_id: 0,
        pending_round_claims: 0,
        pending_war_claims: 0,
        pending_rebase_claims: 0,
    };
    let own = ReferralRewards { owner: authority, owner_faction_id: faction_id, referrals_count: 0, pending_sol_rewards: 0, total_sol_earned: 0 };
    assert(player.gameplay_hashbeast_dna@ =~= Seq::new(32, |i: int| 0u8));
    Ok((player, own))
}

/// The first reason, if any, to refuse locking a HashBeast for gameplay.
pub open spec fn use_for_gameplay_error(
    rpg_progression: bool,
    nft_owner: Key,
    user: Key,
    player: PlayerData,
    faction: FactionState,
    hb: HashBeastMetadata,
) -> Option<ErrorCode> {
    if !rpg_progression {
        Some(ErrorCode::GameplayNotEnabled)
    } else if nft_owner != user {
        Some(ErrorCode::NftNotOwnedByUser)
    } else if !hb.incubated_player_data.is_zero() {
        Some(ErrorCode::HashBeastAlreadyAtGuard)
    } else if !player.gameplay_hashbeast.is_zero() {
        Some(ErrorCode::InvalidParameters)
    } else if player.gameplay_unlock_request_faction_war != 0 {
        Some(ErrorCode::InvalidState)
    } else if player.faction_id != faction.faction_id || hb.faction_id != player.faction_id {
        Some(ErrorCode::InvalidFactionId)
    } else if faction.hashbeasts_playing == u64::MAX {
        Some(ErrorCode::ArithmeticOverflow)
    } else {
        None
    }
}

/// What locking a HashBeast for gameplay returns and does to the player,
/// the faction and the HashBeast.
pub open spec fn gameplay_locked(
    rpg_progression: bool,
    nft_owner: Key,
    user: Key,
    p0: PlayerData,
    p1: PlayerData,
    f0: FactionState,
    f1: FactionState,
    hb0: HashBeastMetadata,
    hb1: HashBeastMetadata,
    now: i64,
    r: Result<(), ErrorCode>,
) -> bool {
    &&& (use_for_gameplay_error(rpg_progression, nft_owner, user, p0, f0, hb0) matches Some(e) ==> r == Err::<(), ErrorCode>(e))
    &&& (use_for_gameplay_error(rpg_progression, nft_owner, user, p0, f0, hb0) is None ==> {
        &&& r is Ok
        &&& p1 == (PlayerData {
            gameplay_hashbeast: hb0.mint,
            active_multiplier: if hb0.multiplier <= GAMEPLAY_MAX_MULTIPLIER { hb0.multiplier } else { GAMEPLAY_MAX_MULTIPLIER },
            gameplay_hashbeast_dna: hb0.dna,
            gameplay_hashbeast_xp: hb0.xp,
            gameplay_unlock_request_faction_war: 0,
            ..p0
        })
        &&& f1 == (FactionState { hashbeasts_playing: (f0.hashbeasts_playing + 1) as u64, ..f0 })
        &&& hb1 == (HashBeastMetadata { incubated_player_data: p0.owner, last_update_ts: now, ..hb0 })
    })
}

/// Locks a home-country HashBeast of the user's as the player's gameplay
/// avatar: its multiplier (capped at 4.2x), DNA and XP are cached on the
/// player, the faction counts one more HashBeast playing, and the record is
/// marked as held for the player.
pub fn internal_use_hashbeast_for_gameplay(
    rpg_progression: bool,
    nft_owner: Key,
    user: Key,
    player: &mut PlayerData,
    faction: &mut FactionState,
    hb: &mut HashBeastMetadata,
    now: i64,
) -> (r: Result<(), ErrorCode>)
    ensures
        gameplay_locked(rpg_progression, nft_owner, user, *old(player), *final(player), *old(faction), *final(faction), *old(hb), *final(hb), now, r),

{
    if !rpg_progression {
        return Err(ErrorCode::GameplayNotEnabled);
    }
    if nft_owner != user {
        return Err(ErrorCode::NftNotOwnedByUser);
    }
    if !hb.incubated_player_data.is_default() {
        return Err(ErrorCode::HashBeastAlreadyAtGuard);
    }
    if !player.gameplay_hashbeast.is_default() {
        return Err(ErrorCode::InvalidParameters);
    }
    if player.gameplay_unlock_request_faction_war != 0 {
        return Err(ErrorCode::InvalidState);
    }
    if player.faction_id != faction.faction_id || hb.faction_id != player.faction_id {
        return Err(ErrorCode::InvalidFactionId);
    }
    let playing = match faction.hashbeasts_playing.checked_add(1) {
        Some(n) => n,
        None => return Err(ErrorCode::ArithmeticOverflow),
    };
    player.gameplay_hashbeast = hb.mint;
    player.active_multiplier = if hb.multiplier <= GAMEPLAY_MAX_MULTIPLIER { hb.multiplier } else { GAMEPLAY_MAX_MULTIPLIER };
    player.gameplay_hashbeast_dna = hb.dna;
    player.gameplay_hashbeast_xp = hb.xp;
    player.gameplay_unlock_request_faction_war = 0;
    faction.hashbeasts_playing = playing;
    hb.incubated_player_data = player.owner;
    hb.last_update_ts = now;
    Ok(())
}

/// What asking to unlock the gameplay HashBeast at war `current_war_id`
/// returns and does to the player.
pub open spec fn unlock_requested(p0: PlayerData, p1: PlayerData, current_war_id: u64, r: Result<(), ErrorCode>) -> bool {
    &&& (p0.gameplay_hashbeast.is_zero() ==> r == Err::<(), ErrorCode>(ErrorCode::InvalidState))
    &&& (!p0.gameplay_hashbeast.is_zero() && p0.gameplay_unlock_request_faction_war != 0
        ==> r == Err::<(), ErrorCode>(ErrorCode::GameplayUnlockAlreadyRequested))
    &&& (!p0.gameplay_hashbeast.is_zero() && p0.gameplay_unlock_request_faction_war == 0 && current_war_id == u64::MAX
        ==> r == Err::<(), ErrorCode>(ErrorCode::ArithmeticOverflow))
    &&& (!p0.gameplay_hashbeast.is_zero() && p0.gameplay_unlock_request_faction_war == 0 && current_war_id < u64::MAX
        ==> r is Ok && p1 == (PlayerData { gameplay_unlock_request_faction_war: current_war_id, ..p0 }))
}

/// Asks to release the gameplay HashBeast; it can be withdrawn once a later
/// faction war has started.
pub fn internal_request_hashbeast_gameplay_unlock(player: &mut PlayerData, current_war_id: u64) -> (r: Result<(), ErrorCode>)
    ensures
        unlock_requested(*old(player), *final(player), current_war_id, r),

{
    if player.gameplay_hashbeast.is_default() {
        return Err(ErrorCode::InvalidState);
    }
    if player.gameplay_unlock_request_faction_war != 0 {
        return Err(ErrorCode::GameplayUnlockAlreadyRequested);
    }
    if current_war_id == u64::MAX {
        return Err(ErrorCode::ArithmeticOverflow);
    }
    player.gameplay_unlock_request_faction_war = current_war_id;
    Ok(())
}

/// The first reason, if any, to refuse withdrawing the gameplay HashBeast.
pub open spec fn withdraw_gameplay_error(
    nft_owner: Key,
    custody: Key,
    current_war_id: u64,
    player: PlayerData,
    faction: FactionState,
    hb: HashBeastMetadata,
) -> Option<ErrorCode> {
    if nft_owner != custody {
        Some(ErrorCode::HashBeastNotAtGuard)
    } else if player.gameplay_hashbeast != hb.mint {
        Some(ErrorCode::InvalidParameters)
    } else if hb.incubated_player_data != player.owner {
        Some(ErrorCode::Unauthorized)
    } else if player.faction_id != faction.faction_id || hb.faction_id != player.faction_id {
        Some(ErrorCode::InvalidFactionId)
    } else if player.gameplay_unlock_request_faction_war == 0 {
        Some(ErrorCode::GameplayUnlockNotRequested)
    } else if current_war_id <= player.gameplay_unlock_request_faction_war {
        Some(ErrorCode::GameplayUnlockNotReady)
    } else if player.pending_round_claims > 0 || player.pending_war_claims > 0 {
        Some(ErrorCode::GameplayRewardsPending)
    } else if faction.hashbeasts_playing == 0 {
        Some(ErrorCode::InvalidState)
    } else {
        None
    }
}

/// What withdrawing the gameplay HashBeast returns and does to the player,
/// the faction and the HashBeast.
pub open spec fn gameplay_withdrawn(
    nft_owner: Key,
    custody: Key,
    current_war_id: u64,
    p0: PlayerData,
    p1: PlayerData,
    f0: FactionState,
    f1: FactionState,
    hb0: HashBeastMetadata,
    hb1: HashBeastMetadata,
    now: i64,
    r: Result<(), ErrorCode>,
) -> bool {
    &&& (withdraw_gameplay_error(nft_owner, custody, current_war_id, p0, f0, hb0) matches Some(e) ==> r == Err::<(), ErrorCode>(e))
    &&& (withdraw_gameplay_error(nft_owner, custody, current_war_id, p0, f0, hb0) is None ==> {
        &&& r is Ok
        &&& hb1 == (HashBeastMetadata {
            dna: p0.gameplay_hashbeast_dna,
            xp: p0.gameplay_hashbeast_xp,
            multiplier: p0.active_multiplier,
            incubated_player_data: Key { w0: 0, w1: 0, w2: 0, w3: 0 },
            last_update_ts: now,
            ..hb0
        })
        &&& p1.gameplay_hashbeast.is_zero()
        &&& p1.gameplay_hashbeast_dna@ == Seq::new(32, |i: int| 0u8)
        &&& p1 == (PlayerData {
            gameplay_hashbeast: Key { w0: 0, w1: 0, w2: 0, w3: 0 },
            active_multiplier: BASE_MULTIPLIER,
            gameplay_hashbeast_dna: p1.gameplay_hashbeast_dna,
            gameplay_hashbeast_xp: 0,
            gameplay_unlock_request_faction_war: 0,
            ..p0
        })
        &&& f1 == (FactionState { hashbeasts_playing: (f0.hashbeasts_playing - 1) as u64, ..f0 })
    })
}

/// A HashBeast locked for gameplay, unlocked and withdrawn comes back with
/// its DNA and XP, its multiplier (up to the gameplay cap) and no guard;
/// the faction counts as many HashBeasts in play as before.
pub proof fn lemma_gameplay_roundtrip(
    rpg_progression: bool,
    user: Key,
    custody: Key,
    lock_war: u64,
    withdraw_war: u64,
    p0: PlayerData,
    p1: PlayerData,
    p2: PlayerData,
    p3: PlayerData,
    f0: FactionState,
    f1: FactionState,
    f2: FactionState,
    hb0: HashBeastMetadata,
    hb1: HashBeastMetadata,
    hb2: HashBeastMetadata,
    lock_time: i64,
    withdraw_time: i64,
)
    requires
        gameplay_locked(rpg_progression, user, user, p0, p1, f0, f1, hb0, hb1, lock_time, Ok(())),
        unlock_requested(p1, p2, lock_war, Ok(())),
        gameplay_withdrawn(custody, custody, withdraw_war, p2, p3, f1, f2, hb1, hb2, withdraw_time, Ok(())),
    ensures
        hb2 == (HashBeastMetadata {
            multiplier: if hb0.multiplier <= GAMEPLAY_MAX_MULTIPLIER { hb0.multiplier } else { GAMEPLAY_MAX_MULTIPLIER },
            last_update_ts: withdraw_time,
            ..hb0
        }),
        f2 == f0,
        p3.gameplay_hashbeast == p0.gameplay_hashbeast,
        p3.gameplay_unlock_request_faction_war == p0.gameplay_unlock_request_faction_war,
        p3 == (PlayerData {
            active_multiplier: BASE_MULTIPLIER,
            gameplay_hashbeast_dna: p3.gameplay_hashbeast_dna,
            gameplay_hashbeast_xp: 0,
            ..p0
        }),
{
    assert(use_for_gameplay_error(rpg_progression, user, user, p0, f0, hb0) is None);
    assert(withdraw_gameplay_error(custody, custody, withdraw_war, p2, f1, hb1) is None);
}

/// Returns the gameplay HashBeast to its owner once the requested release
/// is due and no round or war reward is left to claim: its progress (DNA,
/// XP, multiplier) is written back to its record, the player's gameplay
/// state is reset, and the faction counts one fewer HashBeast playing.
pub fn internal_withdraw_hashbeast_from_gameplay(
    nft_owner: Key,
    custody: Key,
    current_war_id: u64,
    player: &mut PlayerData,
    faction: &mut FactionState,
    hb: &mut HashBeastMetadata,
    now: i64,
) -> (r: Result<(), ErrorCode>)
    ensures
        gameplay_withdrawn(nft_owner, custody, current_war_id, *old(player), *final(player), *old(faction), *final(faction), *old(hb), *final(hb), now, r),

{
    if nft_owner != custody {
        return Err(ErrorCode::HashBeastNotAtGuard);
    }
    if player.gameplay_hashbeast != hb.mint {
        return Err(ErrorCode::InvalidParameters);
    }
    if hb.incubated_player_data != player.owner {
        return Err(ErrorCode::Unauthorized);
    }
    if player.faction_id != faction.faction_id || hb.faction_id != player.faction_id {
        return Err(ErrorCode::InvalidFactionId);
    }
    if player.gameplay_unlock_request_faction_war == 0 {
        return Err(ErrorCode::GameplayUnlockNotRequested);
    }
    if current_war_id <= player.gameplay_unlock_request_faction_war {
        return Err(ErrorCode::GameplayUnlockNotReady);
    }
    if player.pending_round_claims > 0 || player.pending_war_claims > 0 {
        return Err(ErrorCode::GameplayRewardsPending);
    }
    let playing = match faction.hashbeasts_playing.checked_sub(1) {
        Some(n) => n,
        None => return Err(ErrorCode::InvalidState),
    };
    hb.dna = player.gameplay_hashbeast_dna;
    hb.xp = player.gameplay_hashbeast_xp;
    hb.multiplier = player.active_multiplier;
    player.gameplay_hashbeast = Key::zero();
    player.active_multiplier = BASE_MULTIPLIER;
    player.gameplay_hashbeast_dna = [0u8; 32];
    player.gameplay_hashbeast_xp = 0;
    player.gameplay_unlock_request_faction_war = 0;
    faction.hashbeasts_playing = playing;
    hb.incubated_player_data = Key::zero();
    hb.last_update_ts = now;
    assert(player.gameplay_hashbeast_dna@ =~= Seq::new(32, |i: int| 0u8));
    Ok(())
}

} // verus!
