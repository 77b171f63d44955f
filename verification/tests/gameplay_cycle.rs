use minebtc::errors::ErrorCode;
use minebtc::gameplay::{
    initialize_player, internal_request_hashbeast_gameplay_unlock, internal_use_hashbeast_for_gameplay,
    internal_withdraw_hashbeast_from_gameplay,
};
use minebtc::hashbeast::HashBeastMetadata;
use minebtc::state::{FactionLane, FactionState, Key};

fn k(b: u8) -> Key {
    Key::from_bytes(&[b; 32])
}

fn faction() -> FactionState {
    let lane = FactionLane { staked: 0, hashpower: 0, sol_reward_index: 0, dbtc_reward_index: 0 };
    FactionState { faction_id: 4, hashbeasts_staked: 0, hashbeasts_playing: 0, degenbtc: lane, lp: lane }
}

fn beast() -> HashBeastMetadata {
    HashBeastMetadata {
        mint: k(42),
        mom: Key::zero(),
        dad: Key::zero(),
        breed_count: 0,
        rebirth_count: 0,
        cooldown_end: 0,
        accumulated_val: 0,
        dna: [3u8; 32],
        incubated_player_data: Key::zero(),
        multiplier: 5_000,
        faction_id: 4,
        last_update_ts: 0,
        created_at: 0,
        xp: 77,
        bump: 1,
    }
}

#[test]
fn a_gameplay_hashbeast_comes_back_as_it_went_in() {
    let mut total = 0u64;
    let mut referrer = None;
    let (mut p, _) = initialize_player(&mut total, 12, k(1), 1, 4, None, &mut referrer).unwrap();
    let mut f = faction();
    let mut hb = beast();
    let owner = p.owner;
    let custody = k(200);

    internal_use_hashbeast_for_gameplay(true, owner, owner, &mut p, &mut f, &mut hb, 10).unwrap();
    assert_eq!(p.gameplay_hashbeast, k(42));
    assert_eq!(p.active_multiplier, 4_200);
    assert_eq!(p.gameplay_hashbeast_dna, [3u8; 32]);
    assert_eq!(f.hashbeasts_playing, 1);
    assert_eq!(hb.incubated_player_data, owner);

    assert_eq!(
        internal_withdraw_hashbeast_from_gameplay(custody, custody, 6, &mut p, &mut f, &mut hb, 20),
        Err(ErrorCode::GameplayUnlockNotRequested)
    );
    internal_request_hashbeast_gameplay_unlock(&mut p, 5).unwrap();
    assert_eq!(internal_request_hashbeast_gameplay_unlock(&mut p, 5), Err(ErrorCode::GameplayUnlockAlreadyRequested));
    assert_eq!(
        internal_withdraw_hashbeast_from_gameplay(custody, custody, 5, &mut p, &mut f, &mut hb, 20),
        Err(ErrorCode::GameplayUnlockNotReady)
    );
    internal_withdraw_hashbeast_from_gameplay(custody, custody, 6, &mut p, &mut f, &mut hb, 30).unwrap();
    assert_eq!(hb.dna, [3u8; 32]);
    assert_eq!(hb.xp, 77);
    assert_eq!(hb.multiplier, 4_200);
    assert!(hb.incubated_player_data.is_default());
    assert_eq!(hb.last_update_ts, 30);
    assert_eq!(f.hashbeasts_playing, 0);
    assert!(p.gameplay_hashbeast.is_default());
    assert_eq!(p.active_multiplier, 1_000);
    assert_eq!(p.gameplay_unlock_request_faction_war, 0);
}

#[test]
fn gameplay_needs_rpg_progression_and_the_owner() {
    let mut total = 0u64;
    let mut referrer = None;
    let (mut p, _) = initialize_player(&mut total, 12, k(1), 1, 4, None, &mut referrer).unwrap();
    let mut f = faction();
    let mut hb = beast();
    let owner = p.owner;
    assert_eq!(
        internal_use_hashbeast_for_gameplay(false, owner, owner, &mut p, &mut f, &mut hb, 10),
        Err(ErrorCode::GameplayNotEnabled)
    );
    assert_eq!(
        internal_use_hashbeast_for_gameplay(true, k(9), owner, &mut p, &mut f, &mut hb, 10),
        Err(ErrorCode::NftNotOwnedByUser)
    );
    assert_eq!(internal_request_hashbeast_gameplay_unlock(&mut p, 5), Err(ErrorCode::InvalidState));
}
