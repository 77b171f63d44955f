use anchor_lang::prelude::Pubkey;
use minebtc::errors::ErrorCode;
use minebtc::floor::{LootboxQueue, RebornEntry, RebornStatus};
use minebtc::gameplay::initialize_player;
use minebtc::hashbeast::{
    int_batch_mint_hashbeasts, int_breed_hashbeasts, int_rebirth_hashbeast, BreedContext, GenesisMintState,
    HashBeastMetadata, RebirthPath,
};
use minebtc::state::{program_id, Key, PlayerData};

fn k(b: u8) -> Key {
    Key::from_bytes(&[b; 32])
}

fn player() -> PlayerData {
    let mut total = 0u64;
    let mut referrer = None;
    initialize_player(&mut total, 12, k(1), 254, 3, None, &mut referrer).unwrap().0
}

fn beast(mint: Key) -> HashBeastMetadata {
    HashBeastMetadata {
        mint,
        mom: Key::zero(),
        dad: Key::zero(),
        breed_count: 0,
        rebirth_count: 2,
        cooldown_end: 0,
        accumulated_val: 0,
        dna: [7u8; 32],
        incubated_player_data: Key::zero(),
        multiplier: 2_500,
        faction_id: 3,
        last_update_ts: 5,
        created_at: 5,
        xp: 40,
        bump: 1,
    }
}

fn metadata_address(mint: Key) -> Key {
    let program = Pubkey::new_from_array(program_id().to_bytes());
    let mint = Pubkey::new_from_array(mint.to_bytes());
    let (addr, _) = Pubkey::find_program_address(&[b"hashbeast_metadata", mint.as_ref()], &program);
    Key::from_bytes(&addr.to_bytes())
}

fn breed_context(now: i64) -> BreedContext {
    BreedContext {
        is_paused: false,
        breeding_allowed: true,
        genesis_mints: 100,
        genesis_mint_limit: 100,
        mom_asset: k(10),
        dad_asset: k(11),
        user: k(1),
        player_owner: k(1),
        mom_owner: k(1),
        dad_owner: k(1),
        mom_dna_rebirth_count: 2,
        dad_dna_rebirth_count: 0,
        max_breed_count: 5,
        now,
    }
}

#[test]
fn breeding_creates_the_offspring_record() {
    let mut mom = beast(k(10));
    let mut dad = beast(k(11));
    let mut minted = 500u64;
    let cooldowns = vec![3_600i64, 7_200];
    let (child, pay) = int_breed_hashbeasts(
        breed_context(1_000),
        &mut mom,
        &mut dad,
        0,
        20_000_000,
        1_000_000,
        &cooldowns,
        &mut minted,
        k(12),
        [9u8; 32],
        254,
    )
    .unwrap();
    assert_eq!(pay.breed_cost, 30_000_000);
    assert_eq!(child.mint, k(12));
    assert_eq!((child.mom, child.dad), (k(10), k(11)));
    assert_eq!((child.breed_count, child.rebirth_count), (0, 2));
    assert_eq!(child.multiplier, 1_000);
    assert_eq!(child.faction_id, 3);
    assert_eq!((child.created_at, child.last_update_ts), (1_000, 1_000));
    assert_eq!((child.xp, child.accumulated_val, child.cooldown_end), (0, 0, 0));
    assert_eq!(child.dna, [9u8; 32]);
    assert_eq!(child.bump, 254);
    assert!(child.incubated_player_data.is_default());
    assert_eq!((mom.breed_count, mom.cooldown_end), (1, 4_600));
    assert_eq!(minted, 501);
}

#[test]
fn batch_mint_creates_one_record_per_asset() {
    let mut st = GenesisMintState {
        is_active: true,
        genesis_mints: 4,
        genesis_mint_limit: 100,
        genesis_mints_by_faction: vec![0; 12],
        max_genesis_mints_per_faction: 20,
        tier_values: vec![100_000_000, 200_000_000, 500_000_000],
        total_minted: 4,
    };
    let mut p = player();
    let mut referrer = None;
    let prices = vec![1_000_000_000u64, 1_100_000_000];
    let assets = vec![(k(30), true, metadata_address(k(30))), (k(31), true, metadata_address(k(31)))];
    let new = vec![([1u8; 32], 250u8), ([2u8; 32], 251u8)];
    let (batch, recs) =
        int_batch_mint_hashbeasts(false, 12, &mut st, &mut p, &mut referrer, &prices, &assets, 3, 2, 0, &new, 77).unwrap();
    assert_eq!(batch.total_price, 2_100_000_000);
    assert_eq!(batch.first_mint_number, 5);
    assert_eq!(recs.len(), 2);
    assert_eq!(recs[1].mint, k(31));
    assert_eq!((recs[1].mom, recs[1].dad), (Key::zero(), Key::zero()));
    assert_eq!((recs[0].multiplier, recs[0].faction_id, recs[0].rebirth_count), (1_000, 3, 0));
    assert_eq!((recs[0].dna, recs[0].bump), ([1u8; 32], 250));
    assert_eq!((recs[1].created_at, recs[1].last_update_ts), (77, 77));
    assert_eq!((st.genesis_mints, st.total_minted, st.genesis_mints_by_faction[3]), (6, 6, 2));
    let bad = vec![(k(32), false, metadata_address(k(32)))];
    let one = vec![([3u8; 32], 1u8)];
    let refused =
        int_batch_mint_hashbeasts(false, 12, &mut st, &mut p, &mut referrer, &vec![1], &bad, 3, 1, 0, &one, 77);
    assert_eq!(refused.unwrap_err(), ErrorCode::Unauthorized);
}

fn queue(filled: u8) -> LootboxQueue {
    let mut slots = vec![Key::zero(); 16];
    for i in 0..filled as usize {
        slots[i] = k(100 + i as u8);
    }
    LootboxQueue { faction_id: 3, filled_count: filled, slots }
}

#[test]
fn rebirth_queues_the_reborn_beast_in_its_country() {
    let mut hb = beast(k(40));
    hb.accumulated_val = 900;
    hb.breed_count = 2;
    hb.mom = k(41);
    let mut distributed = 1_000u64;
    let mut q = queue(3);
    let mut inventory = 10u64;
    let path = int_rebirth_hashbeast(&mut hb, k(40), 4, [5u8; 32], 2_000, &mut distributed, &mut q, &mut inventory).unwrap();
    let entry = RebornEntry {
        asset: k(40),
        faction_id: 3,
        status: RebornStatus::Lootbox,
        listing_price: 0,
        original_buy_price: 0,
        expire_count: 0,
    };
    assert_eq!(path, RebirthPath::Lootbox { next_rebirth_count: 5, entry });
    assert_eq!(distributed, 1_900);
    assert_eq!((q.filled_count, q.slots[3]), (4, k(40)));
    assert_eq!(inventory, 11);
    assert_eq!((hb.rebirth_count, hb.breed_count, hb.accumulated_val, hb.xp), (5, 0, 0, 0));
    assert_eq!((hb.multiplier, hb.mom, hb.dna, hb.last_update_ts), (1_000, Key::zero(), [5u8; 32], 2_000));
    assert_eq!((hb.mint, hb.created_at, hb.faction_id), (k(40), 5, 3));
}

#[test]
fn rebirth_burns_when_the_queue_is_full_or_the_cap_is_reached() {
    let mut hb = beast(k(40));
    let mut distributed = 0u64;
    let mut q = queue(16);
    let mut inventory = 10u64;
    let path = int_rebirth_hashbeast(&mut hb, k(40), 0, [5u8; 32], 2_000, &mut distributed, &mut q, &mut inventory).unwrap();
    assert_eq!(path, RebirthPath::Burn);
    assert_eq!((q.filled_count, inventory, hb.rebirth_count), (16, 10, 2));
    let mut q = queue(0);
    let path = int_rebirth_hashbeast(&mut hb, k(40), 7, [5u8; 32], 2_000, &mut distributed, &mut q, &mut inventory).unwrap();
    assert_eq!(path, RebirthPath::Burn);
    assert_eq!(q.filled_count, 0);
    hb.incubated_player_data = k(1);
    let refused = int_rebirth_hashbeast(&mut hb, k(40), 0, [5u8; 32], 2_000, &mut distributed, &mut q, &mut inventory);
    assert_eq!(refused, Err(ErrorCode::HashBeastAlreadyAtGuard));
}
