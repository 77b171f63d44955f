use anchor_lang::prelude::Pubkey;
use minebtc::errors::ErrorCode;
use minebtc::gameplay::initialize_player;
use minebtc::hashbeast::{breed_payment, int_stake_hashbeast, int_unstake_hashbeast, HashBeastMetadata};
use minebtc::staking::{int_stake_lp_tokens, HashpowerConfig};
use minebtc::state::{program_id, FactionLane, FactionState, Key, PlayerData};

fn k(b: u8) -> Key {
    Key::from_bytes(&[b; 32])
}

fn player(faction_id: u8) -> PlayerData {
    let mut total = 0u64;
    let mut referrer = None;
    initialize_player(&mut total, 12, k(1), 254, faction_id, None, &mut referrer).unwrap().0
}

fn faction(faction_id: u8) -> FactionState {
    let lane = FactionLane { staked: 0, hashpower: 0, sol_reward_index: 0, dbtc_reward_index: 0 };
    FactionState { faction_id, hashbeasts_staked: 0, hashbeasts_playing: 0, degenbtc: lane, lp: lane }
}

fn beast(mint: Key, multiplier: u32) -> HashBeastMetadata {
    HashBeastMetadata {
        mint,
        mom: Key::zero(),
        dad: Key::zero(),
        breed_count: 0,
        rebirth_count: 0,
        cooldown_end: 0,
        accumulated_val: 0,
        dna: [0u8; 32],
        incubated_player_data: Key::zero(),
        multiplier,
        faction_id: 3,
        last_update_ts: 0,
        created_at: 0,
        xp: 0,
        bump: 1,
    }
}

fn metadata_address(mint: Key) -> Key {
    let program = Pubkey::new_from_array(program_id().to_bytes());
    let mint = Pubkey::new_from_array(mint.to_bytes());
    let (addr, _) = Pubkey::find_program_address(&[b"hashbeast_metadata", mint.as_ref()], &program);
    Key::from_bytes(&addr.to_bytes())
}

#[test]
fn staking_and_unstaking_a_hashbeast_restores_the_player() {
    let mut p = player(3);
    let mut f = faction(3);
    let cfg = HashpowerConfig { min_lockup_days: 7, max_lockup_days: 90, base_multiplier: 100, max_multiplier: 300 };
    int_stake_lp_tokens(&mut p, &mut f, 0, cfg, 1_000_000, 90, 0, 0, 1).unwrap();
    assert_eq!(p.lp.hashpower, 3_000_000);

    let custody = k(200);
    let owner = p.owner;
    let mut hb = beast(k(50), 3_000);
    assert_eq!(int_stake_hashbeast(&mut p, &mut f, &mut hb, k(99), owner, &vec![], 10), Err(ErrorCode::NftNotOwnedByUser));
    int_stake_hashbeast(&mut p, &mut f, &mut hb, owner, owner, &vec![], 10).unwrap();
    // (1000 + 3000 - 1000) / 3 above the base
    assert_eq!(p.hashbeast_multiplier, 2_000);
    assert_eq!(p.lp.hashpower, 6_000_000);
    assert_eq!(f.lp.hashpower, 6_000_000);
    assert_eq!(p.staked_hashbeasts, vec![k(50)]);
    assert_eq!(f.hashbeasts_staked, 1);
    assert_eq!(hb.incubated_player_data, owner);
    assert_eq!(int_stake_hashbeast(&mut p, &mut f, &mut hb, owner, owner, &vec![], 11), Err(ErrorCode::HashBeastAlreadyAtGuard));

    int_unstake_hashbeast(&mut p, &mut f, &mut hb, custody, custody, &vec![], 20).unwrap();
    assert_eq!(p.hashbeast_multiplier, 1_000);
    assert_eq!(p.lp.hashpower, 3_000_000);
    assert_eq!(f.lp.hashpower, 3_000_000);
    assert!(p.staked_hashbeasts.is_empty());
    assert!(hb.incubated_player_data.is_default());
}

#[test]
fn a_second_hashbeast_needs_the_first_one_loaded() {
    let mut p = player(3);
    let mut f = faction(3);
    let owner = p.owner;
    let mut first = beast(k(50), 3_000);
    int_stake_hashbeast(&mut p, &mut f, &mut first, owner, owner, &vec![], 1).unwrap();
    let mut second = beast(k(51), 3_000);
    assert!(int_stake_hashbeast(&mut p, &mut f, &mut second, owner, owner, &vec![], 2).is_err());
    let loaded = vec![(metadata_address(k(50)), k(50), 3_000u32)];
    int_stake_hashbeast(&mut p, &mut f, &mut second, owner, owner, &loaded, 2).unwrap();
    // (1000 + 6000 - 1000) / 3 above the base
    assert_eq!(p.hashbeast_multiplier, 3_000);
    assert_eq!(p.staked_hashbeasts, vec![k(50), k(51)]);
}

#[test]
fn breeding_costs_at_least_one_and_a_half_floors() {
    let p = breed_payment(0, 20_000_000, 1_000_000).unwrap();
    assert_eq!(p.floor_min_price, 30_000_000);
    assert_eq!(p.breed_cost, 30_000_000);
    assert_eq!(p.sol_due, 15_000_000);
    assert_eq!(p.sol_fee_recipient, 3_750_000);
    assert_eq!(p.sol_treasury, 11_250_000);
    assert_eq!(p.dbtc_due, 15_000_000);
    assert_eq!(p.dbtc_burn, 7_500_000);
    assert_eq!(p.dbtc_to_vault, 7_500_000);
    let dear = breed_payment(40_000_000, 20_000_000, 1_000_000).unwrap();
    assert_eq!(dear.breed_cost, 40_000_000);
    assert_eq!(breed_payment(0, 9_999_999, 1_000_000), Err(ErrorCode::BreedFloorAnchorUnavailable));
    assert_eq!(breed_payment(0, 20_000_000, 0), Err(ErrorCode::DbtcPriceUnavailable));
}
