use minebtc::constants::{
    BASE_MULTIPLIER, GAMEPLAY_MAX_MULTIPLIER, MAX_STAKED_HASHBEASTS, NUM_FACTIONS,
    PASSIVE_HASHBEAST_STAKING_MAX_MULTIPLIER,
};
use minebtc::hashbeast::{
    add_hashbeast_multiplier, capped_player_multiplier, metadata_rebirth_count, remove_hashbeast_multiplier,
    shares_known_parent, validate_genesis_faction_cap, GenesisMintState, HashBeastMetadata,
};
use minebtc::math::ceil_mul_div_u64;
use minebtc::state::Key;

fn key_of(byte: u8) -> Key {
    Key::from_bytes(&[byte; 32])
}

fn blank_hashbeast_metadata() -> HashBeastMetadata {
    HashBeastMetadata {
        mint: Key::zero(),
        mom: Key::zero(),
        dad: Key::zero(),
        breed_count: 0,
        rebirth_count: 0,
        cooldown_end: 0,
        created_at: 0,
        faction_id: 0,
        multiplier: BASE_MULTIPLIER,
        accumulated_val: 0,
        dna: [0u8; 32],
        incubated_player_data: Key::zero(),
        last_update_ts: 0,
        xp: 0,
        bump: 0,
    }
}

#[test]
fn multiplier_cap_is_reversible_with_raw_sum() {
    let starting_raw = BASE_MULTIPLIER as u64 + (1_900u64 * MAX_STAKED_HASHBEASTS as u64);
    let (raw_after_stake, effective_after_stake) = add_hashbeast_multiplier(starting_raw, 1_000).unwrap();
    assert_eq!(raw_after_stake, BASE_MULTIPLIER as u64 + (1_900u64 * MAX_STAKED_HASHBEASTS as u64) + 1_000);
    assert_eq!(effective_after_stake, PASSIVE_HASHBEAST_STAKING_MAX_MULTIPLIER);

    let (raw_after_unstake, effective_after_unstake) = remove_hashbeast_multiplier(raw_after_stake, 1_000).unwrap();
    assert_eq!(raw_after_unstake, starting_raw);
    assert_eq!(effective_after_unstake, 2_900);
}

#[test]
fn large_hashbeast_multiplier_does_not_truncate() {
    let (raw_after_stake, effective_after_stake) = add_hashbeast_multiplier(BASE_MULTIPLIER as u64, 70_000).unwrap();
    assert_eq!(raw_after_stake, 71_000);
    assert_eq!(effective_after_stake, PASSIVE_HASHBEAST_STAKING_MAX_MULTIPLIER);
}

#[test]
fn passive_hashbeast_slots_are_smoothed_across_all_slots() {
    let mut raw = BASE_MULTIPLIER as u64;
    let mut effective = capped_player_multiplier(raw);
    assert_eq!(effective, BASE_MULTIPLIER as u16);

    for _ in 0..MAX_STAKED_HASHBEASTS {
        (raw, effective) = add_hashbeast_multiplier(raw, BASE_MULTIPLIER).unwrap();
    }

    assert_eq!(raw, BASE_MULTIPLIER as u64 * (MAX_STAKED_HASHBEASTS as u64 + 1));
    assert_eq!(effective, 2_000);

    let mut raw = BASE_MULTIPLIER as u64;
    let mut effective = capped_player_multiplier(raw);
    for _ in 0..MAX_STAKED_HASHBEASTS {
        (raw, effective) = add_hashbeast_multiplier(raw, GAMEPLAY_MAX_MULTIPLIER).unwrap();
    }

    assert_eq!(effective, PASSIVE_HASHBEAST_STAKING_MAX_MULTIPLIER);
}

#[test]
fn genesis_mint_cap_is_enforced_per_faction() {
    let mut mint_config = GenesisMintState {
        is_active: true,
        genesis_mint_limit: 12_000,
        genesis_mints: 999,
        max_genesis_mints_per_faction: 1_000,
        genesis_mints_by_faction: vec![0u16; NUM_FACTIONS],
        tier_values: vec![1_000_000, 10_000_000, 100_000_000],
        total_minted: 0,
    };
    mint_config.genesis_mints_by_faction[3] = 999;

    assert!(validate_genesis_faction_cap(&mint_config, 3, 1).is_ok());
    assert!(validate_genesis_faction_cap(&mint_config, 3, 2).is_err());
}

#[test]
fn ceil_mul_div_exact_division() {
    assert_eq!(ceil_mul_div_u64(10, 1, 2).unwrap(), 5);
}

#[test]
fn ceil_mul_div_needs_ceiling() {
    assert_eq!(ceil_mul_div_u64(10, 1, 3).unwrap(), 4);
}

#[test]
fn ceil_mul_div_zero_numerator() {
    assert_eq!(ceil_mul_div_u64(0, 100, 3).unwrap(), 0);
}

#[test]
fn ceil_mul_div_division_by_zero_errors() {
    assert!(ceil_mul_div_u64(10, 1, 0).is_err());
}

#[test]
fn shares_known_parent_when_shared() {
    let mut a = blank_hashbeast_metadata();
    let mut b = blank_hashbeast_metadata();
    a.mom = key_of(1);
    b.dad = key_of(1);
    assert!(shares_known_parent(&a, &b));
}

#[test]
fn shares_known_parent_when_no_shared() {
    let a = blank_hashbeast_metadata();
    let b = blank_hashbeast_metadata();
    assert!(!shares_known_parent(&a, &b));
}

#[test]
fn shares_known_parent_ignores_default() {
    let mut a = blank_hashbeast_metadata();
    let mut b = blank_hashbeast_metadata();
    a.mom = key_of(1);
    b.mom = Key::zero();
    b.dad = Key::zero();
    assert!(!shares_known_parent(&a, &b));
}

#[test]
fn metadata_rebirth_count_prefers_field_when_higher() {
    let mut meta = blank_hashbeast_metadata();
    meta.rebirth_count = 5;
    let dna_count = 3;
    assert_eq!(metadata_rebirth_count(meta.rebirth_count, dna_count), 5);
}

#[test]
fn metadata_rebirth_count_uses_dna_when_higher() {
    let mut meta = blank_hashbeast_metadata();
    meta.rebirth_count = 2;
    let dna_count = 4;
    assert_eq!(metadata_rebirth_count(meta.rebirth_count, dna_count), 4);
}

#[test]
fn metadata_rebirth_count_equal_values() {
    let mut meta = blank_hashbeast_metadata();
    meta.rebirth_count = 3;
    let dna_count = 3;
    assert_eq!(metadata_rebirth_count(meta.rebirth_count, dna_count), 3);
}
