use anchor_lang::prelude::Pubkey;
use anchor_spl::token_2022::spl_token_2022::extension::transfer_fee::{TransferFee, TransferFeeConfig};
use anchor_spl::token_2022::spl_token_2022::extension::{
    BaseStateWithExtensionsMut, ExtensionType, StateWithExtensionsMut,
};
use anchor_spl::token_2022::spl_token_2022::solana_program::program_option::COption;
use anchor_spl::token_2022::spl_token_2022::solana_program::program_pack::Pack;
use anchor_spl::token_2022::spl_token_2022::state::Mint;
use minebtc::autominer::{add_random_pick, make_bets_vec, FactionsConfig};
use minebtc::errors::ErrorCode;
use minebtc::floor::{compute_snapshot_anchor, SaleEntry, SaleHistory};
use minebtc::hashbeast::{assert_player_data_owner, get_mpl_core_owner, PLAYER_DATA_DISCRIMINATOR};
use minebtc::placement::referral_rewards_pda;
use minebtc::staking::{
    get_token2022_transfer_fee_info, mint_withheld_amount, transfer_fee_info_from_schedule, TransferFee as FeeSetting, TransferFeeSchedule,
};
use minebtc::state::{program_id, BetType, Key, PredictionDirection};

fn key_of(p: &Pubkey) -> Key {
    Key::from_bytes(&p.to_bytes())
}

fn fee_mint(bps: u16, max_fee: u64, withheld: u64) -> Vec<u8> {
    let len = ExtensionType::try_calculate_account_len::<Mint>(&[ExtensionType::TransferFeeConfig]).unwrap();
    let mut data = vec![0u8; len];
    let mut state = StateWithExtensionsMut::<Mint>::unpack_uninitialized(&mut data).unwrap();
    let ext = state.init_extension::<TransferFeeConfig>(true).unwrap();
    let fee = TransferFee {
        epoch: 0u64.into(),
        maximum_fee: max_fee.into(),
        transfer_fee_basis_points: bps.into(),
    };
    ext.older_transfer_fee = fee;
    ext.newer_transfer_fee = fee;
    ext.withheld_amount = withheld.into();
    state.base = Mint {
        mint_authority: COption::None,
        supply: 0,
        decimals: 6,
        is_initialized: true,
        freeze_authority: COption::None,
    };
    state.pack_base();
    state.init_account_type().unwrap();
    data
}

#[test]
fn referral_account_address_is_the_program_derived_one() {
    let referrer = Pubkey::new_from_array([7u8; 32]);
    let program = Pubkey::new_from_array(program_id().to_bytes());
    let (expected, _) = Pubkey::find_program_address(&[b"referral_rewards", referrer.as_ref()], &program);
    let got = referral_rewards_pda(key_of(&referrer)).unwrap();
    assert_eq!(got, key_of(&expected));
    assert_ne!(got, key_of(&referrer));
}

#[test]
fn transfer_fee_is_read_from_the_mint_and_capped() {
    // 1% of 1_000_000 is 10_000, capped at 1_000
    let data = fee_mint(100, 1_000, 0);
    let info = get_token2022_transfer_fee_info(&data, 1_000_000, 5).unwrap();
    assert_eq!(info.transfer_fee_basis_points, 100);
    assert_eq!(info.max_fee, 1_000);
    assert_eq!(info.fee_amount, 1_000);
    assert_eq!(info.post_fee_amount, 999_000);
    // 1% of 50_000 is 500, under the cap
    let info = get_token2022_transfer_fee_info(&data, 50_000, 5).unwrap();
    assert_eq!(info.fee_amount, 500);
    assert_eq!(info.post_fee_amount, 49_500);
}

#[test]
fn mint_without_a_fee_extension_is_refused() {
    let data = vec![0u8; 82];
    assert_eq!(get_token2022_transfer_fee_info(&data, 1_000, 0), Err(ErrorCode::InvalidMint));
}

#[test]
fn withheld_fees_are_read_from_the_mint() {
    let data = fee_mint(100, 1_000, 4_242);
    assert_eq!(mint_withheld_amount(&data), Ok(4_242));
}

fn core_asset_bytes(owner: &Pubkey) -> Vec<u8> {
    let mut v = vec![1u8]; // Key::AssetV1
    v.extend_from_slice(owner.as_ref());
    v.push(0); // UpdateAuthority::None
    for s in ["beast", "https://example.invalid/1.json"] {
        v.extend_from_slice(&(s.len() as u32).to_le_bytes());
        v.extend_from_slice(s.as_bytes());
    }
    v.push(0); // seq: None
    v
}

#[test]
fn core_asset_owner_is_read_from_the_asset_data() {
    let owner = Pubkey::new_from_array([9u8; 32]);
    let data = core_asset_bytes(&owner);
    let core = Key::from_bytes(&mpl_core::ID.to_bytes());
    assert_eq!(get_mpl_core_owner(core, &data), Ok(key_of(&owner)));
    assert_eq!(get_mpl_core_owner(key_of(&owner), &data), Err(ErrorCode::InvalidMplCoreProgram));
    assert_eq!(get_mpl_core_owner(core, &data[..10]), Err(ErrorCode::InvalidAccount));
}

fn expected_random_picks(slot: u64, max: u8, count: usize) -> Vec<u8> {
    let mut picks = Vec::new();
    for attempt in 0u64..100 {
        let mut pre = slot.to_le_bytes().to_vec();
        pre.extend_from_slice(&(attempt + 100).to_le_bytes());
        #[allow(deprecated)]
        let h = anchor_lang::solana_program::keccak::hash(&pre).to_bytes();
        let f = h[0] % max;
        if picks.len() < count && !picks.contains(&f) {
            picks.push(f);
        }
    }
    picks
}

#[test]
fn random_autominer_picks_follow_the_slot_hash() {
    let slot = 123_456_789u64;
    let cfg = Some(FactionsConfig::Random { count: 4, direction: PredictionDirection::Up });
    let bets = make_bets_vec(&cfg, slot, 12).unwrap();
    let expected: Vec<BetType> = expected_random_picks(slot, 12, 4)
        .into_iter()
        .map(|f| BetType { faction_id: f, direction: PredictionDirection::Up })
        .collect();
    assert_eq!(bets, expected);
    assert_eq!(bets.len(), 4);
}

#[test]
fn snapshot_anchor_takes_the_median_of_recent_sales() {
    let now = 1_000_000i64;
    let mut entries = Vec::new();
    for i in 0..32u64 {
        // 20 qualifying sales priced 20e7 down to 1e7, the rest empty
        let price = if i < 20 { (20 - i) * 10_000_000 } else { 0 };
        entries.push(SaleEntry {
            asset: Key::zero(),
            price,
            listed_at: now - 10_000,
            sold_at: if i < 20 { now - 100 } else { 0 },
            buyer: Key::zero(),
            seller: Key::zero(),
        });
    }
    let sales = SaleHistory { head: 0, entries };
    let (anchor, source, samples) = compute_snapshot_anchor(&sales, 0, 0, 0, u64::MAX, now);
    assert_eq!(samples, 20);
    assert_eq!(source, 0);
    assert_eq!(anchor, 110_000_000);
}

#[test]
fn addresses_round_trip_through_their_bytes() {
    let mut b = [0u8; 32];
    for (i, x) in b.iter_mut().enumerate() {
        *x = (i as u8).wrapping_mul(37).wrapping_add(11);
    }
    let k = Key::from_bytes(&b);
    assert_eq!(k.to_bytes(), b);
    assert_eq!(Key::from_bytes(&k.to_bytes()), k);
    assert_eq!(key_of(&Pubkey::new_from_array(b)).to_bytes(), b);
}

#[test]
fn player_accounts_are_recognised_by_discriminator_and_owner() {
    let owner = Key { w0: 5, w1: 6, w2: 7, w3: 8 };
    let mut data = PLAYER_DATA_DISCRIMINATOR.to_vec();
    data.push(254);
    data.extend_from_slice(&owner.to_bytes());
    data.extend_from_slice(&[0u8; 100]);
    assert_eq!(assert_player_data_owner(program_id(), &data, owner), Ok(()));
    assert_eq!(assert_player_data_owner(program_id(), &data, Key::zero()), Err(ErrorCode::Unauthorized));
    assert_eq!(assert_player_data_owner(owner, &data, owner), Err(ErrorCode::InvalidAccount));
    assert_eq!(assert_player_data_owner(program_id(), &data[..40], owner), Err(ErrorCode::InvalidAccount));
    data[0] ^= 1;
    assert_eq!(assert_player_data_owner(program_id(), &data, owner), Err(ErrorCode::InvalidAccount));
}

#[test]
fn the_fee_in_force_depends_on_the_epoch() {
    let schedule = TransferFeeSchedule {
        older: FeeSetting { epoch: 0, maximum_fee: 1_000, transfer_fee_basis_points: 100 },
        newer: FeeSetting { epoch: 10, maximum_fee: 5, transfer_fee_basis_points: 50 },
        withheld_amount: 0,
    };
    let before = transfer_fee_info_from_schedule(schedule, 10_000, 9).unwrap();
    assert_eq!((before.fee_amount, before.post_fee_amount), (100, 9_900));
    let after = transfer_fee_info_from_schedule(schedule, 10_000, 10).unwrap();
    assert_eq!((after.fee_amount, after.post_fee_amount), (5, 9_995));
    // the fee rounds up, and may not exceed the amount
    assert_eq!(transfer_fee_info_from_schedule(schedule, 1, 0).unwrap().fee_amount, 1);
}

#[test]
fn a_random_pick_is_the_first_digest_byte_modulo_the_countries() {
    let mut picked = vec![3u8];
    let mut digest = [0u8; 32];
    digest[0] = 27; // 27 % 12 == 3: already picked
    add_random_pick(&mut picked, &digest, 12);
    assert_eq!(picked, vec![3]);
    digest[0] = 29; // 29 % 12 == 5
    add_random_pick(&mut picked, &digest, 12);
    assert_eq!(picked, vec![3, 5]);
}
