use anchor_spl::token_2022::spl_token_2022::extension::transfer_fee::{TransferFee, TransferFeeConfig};
use anchor_spl::token_2022::spl_token_2022::extension::{
    BaseStateWithExtensionsMut, ExtensionType, StateWithExtensionsMut,
};
use anchor_spl::token_2022::spl_token_2022::solana_program::program_option::COption;
use anchor_spl::token_2022::spl_token_2022::state::Mint;
use minebtc::errors::ErrorCode;
use minebtc::rebase::{compute_rankings, resolve_direction_from_ranks, validate_active_faction_count};
use minebtc::state::{Key, PredictionDirection};
use minebtc::tax::{
    initialize_tax_config, internal_claim_faction_treasury_for_faction_war, internal_crank_distribute_tax, validate_tax_split,
    WarSettlement, WarTreasury,
};
use minebtc::state::{program_id, FactionLane, FactionState};
use anchor_lang::prelude::Pubkey;

fn fee_mint(bps: u16, withheld: u64) -> Vec<u8> {
    let len = ExtensionType::try_calculate_account_len::<Mint>(&[ExtensionType::TransferFeeConfig]).unwrap();
    let mut data = vec![0u8; len];
    let mut state = StateWithExtensionsMut::<Mint>::unpack_uninitialized(&mut data).unwrap();
    let ext = state.init_extension::<TransferFeeConfig>(true).unwrap();
    let fee = TransferFee { epoch: 0u64.into(), maximum_fee: u64::MAX.into(), transfer_fee_basis_points: bps.into() };
    ext.older_transfer_fee = fee;
    ext.newer_transfer_fee = fee;
    ext.withheld_amount = withheld.into();
    state.base = Mint {
        mint_authority: COption::None,
        supply: 0,
        decimals: 6,
        is_initialized: true,
        freeze_authority: COption::None,
    };
    state.pack_base();
    state.init_account_type().unwrap();
    data
}

#[test]
fn tax_split_may_not_exceed_the_whole() {
    assert_eq!(validate_tax_split(60, 40), Ok(()));
    assert_eq!(validate_tax_split(61, 40), Err(ErrorCode::InvalidAmount));
    assert_eq!(initialize_tax_config(61, 40, 1, Key::zero(), Key::zero()).unwrap_err(), ErrorCode::InvalidAmount);
}

#[test]
fn withheld_tax_splits_into_treasury_burn_and_vault() {
    let mut cfg = initialize_tax_config(60, 30, 1, Key::zero(), Key::zero()).unwrap();
    let mut war = WarTreasury { war_id: 5, stage: 0, faction_count: 12, treasury_reward_base_amount: 10 };
    let data = fee_mint(0, 1_000);
    let split = internal_crank_distribute_tax(&mut cfg, &mut war, 5, 5, &data, 0).unwrap().unwrap();
    assert_eq!(split.total, 1_000);
    assert_eq!(split.treasury_amount, 600);
    assert_eq!(split.burn_amount, 300);
    assert_eq!(split.vault_return, 100);
    assert_eq!(split.treasury_amount + split.burn_amount + split.vault_return, split.total);
    assert_eq!(split.treasury_credit, 600);
    assert!(split.credited_to_active_war);
    assert_eq!(cfg.total_burnt, 300);
    assert_eq!(war.treasury_reward_base_amount, 610);
    assert_eq!(cfg.unassigned_war_treasury_amount, 0);
}

#[test]
fn tax_for_a_settled_war_is_parked_unassigned() {
    let mut cfg = initialize_tax_config(60, 30, 1, Key::zero(), Key::zero()).unwrap();
    let mut war = WarTreasury { war_id: 5, stage: 1, faction_count: 12, treasury_reward_base_amount: 10 };
    // a 1% transfer fee on the treasury share
    let data = fee_mint(100, 1_000);
    let split = internal_crank_distribute_tax(&mut cfg, &mut war, 5, 5, &data, 0).unwrap().unwrap();
    assert_eq!(split.treasury_credit, 594);
    assert!(!split.credited_to_active_war);
    assert_eq!(cfg.unassigned_war_treasury_amount, 594);
    assert_eq!(war.treasury_reward_base_amount, 10);
}

#[test]
fn no_withheld_tax_changes_nothing() {
    let mut cfg = initialize_tax_config(60, 30, 1, Key::zero(), Key::zero()).unwrap();
    let mut war = WarTreasury { war_id: 5, stage: 0, faction_count: 12, treasury_reward_base_amount: 10 };
    let data = fee_mint(0, 0);
    assert_eq!(internal_crank_distribute_tax(&mut cfg, &mut war, 5, 5, &data, 0), Ok(None));
    assert_eq!(cfg.total_burnt, 0);
    assert_eq!(war.treasury_reward_base_amount, 10);
    let data = fee_mint(0, 7);
    assert_eq!(internal_crank_distribute_tax(&mut cfg, &mut war, 5, 4, &data, 0), Err(ErrorCode::InvalidParameters));
}

#[test]
fn rankings_order_by_score_then_faction() {
    let mut scores = vec![0i64; 12];
    scores[0] = 5;
    scores[1] = 9;
    scores[2] = 5;
    scores[3] = -1;
    let (ranks, ordered) = compute_rankings(&scores, 4).unwrap();
    assert_eq!(&ranks[..4], &[1, 0, 2, 3]);
    assert!(ranks[4..].iter().all(|r| *r == 0));
    assert_eq!(&ordered[..4], &[1, 0, 2, 3]);
    assert_eq!(&ordered[4..], &[4, 5, 6, 7, 8, 9, 10, 11]);
    assert_eq!(compute_rankings(&scores, 0).unwrap_err(), ErrorCode::InvalidFactionId);
    assert_eq!(compute_rankings(&scores, 13).unwrap_err(), ErrorCode::InvalidFactionId);
}

#[test]
fn active_faction_count_is_bounded() {
    assert_eq!(validate_active_faction_count(12), Ok(()));
    assert_eq!(validate_active_faction_count(0), Err(ErrorCode::InvalidFactionId));
}

#[test]
fn rank_moves_give_the_direction() {
    assert_eq!(resolve_direction_from_ranks(5, 2), (PredictionDirection::Up, 3));
    assert_eq!(resolve_direction_from_ranks(2, 5), (PredictionDirection::Down, -3));
    assert_eq!(resolve_direction_from_ranks(4, 4), (PredictionDirection::Neutral, 0));
}

fn faction_state_key(name: &str) -> Key {
    let program = Pubkey::new_from_array(program_id().to_bytes());
    let (addr, _) = Pubkey::find_program_address(&[b"faction_state", name.as_bytes()], &program);
    Key::from_bytes(&addr.to_bytes())
}

#[test]
fn a_faction_claims_its_war_treasury_share_once() {
    let names: Vec<String> = ["US", "CN", "JP", "DE"].iter().map(|n| n.to_string()).collect();
    let war = WarTreasury { war_id: 9, stage: 1, faction_count: 4, treasury_reward_base_amount: 1_000_000 };
    let mut ranks = vec![0u8; 12];
    ranks[0] = 1;
    ranks[1] = 0;
    ranks[2] = 2;
    ranks[3] = 3;
    let mut settlement = WarSettlement { final_ranks: ranks, treasury_claimed_bitmap: 0 };
    let lane = FactionLane { staked: 0, hashpower: 1_000, sol_reward_index: 0, dbtc_reward_index: 0 };
    let mut fs = FactionState { faction_id: 1, hashbeasts_staked: 0, hashbeasts_playing: 0, degenbtc: lane, lp: lane };
    let data = fee_mint(0, 0);
    let key = faction_state_key("CN");
    let c = internal_claim_faction_treasury_for_faction_war(&war, &mut settlement, &mut fs, key, &names, 9, 1_000_000_000, &data, 0)
        .unwrap();
    // first of four: 4 of 10 rank points of the 80% pool
    assert_eq!(c.rank, 0);
    assert_eq!(c.pre_fee_reward, 320_000);
    assert_eq!(c.reward_amount, 320_000);
    assert_eq!(c.dbtc_share, 160_000);
    assert_eq!(c.lp_share, 160_000);
    assert_eq!(c.reborn_amount, 0);
    assert_eq!(fs.degenbtc.dbtc_reward_index, 160_000_000_000_000);
    assert_eq!(settlement.treasury_claimed_bitmap, 2);
    let again = internal_claim_faction_treasury_for_faction_war(&war, &mut settlement, &mut fs, key, &names, 9, 1_000_000_000, &data, 0);
    assert_eq!(again.unwrap_err(), ErrorCode::FactionWarRewardsAlreadyClaimed);
    // the refused claim moves nothing
    assert_eq!(settlement.treasury_claimed_bitmap, 2);
    assert_eq!(fs.degenbtc.dbtc_reward_index, 160_000_000_000_000);
    assert_eq!(fs.lp.dbtc_reward_index, 160_000_000_000_000);
    let wrong = internal_claim_faction_treasury_for_faction_war(&war, &mut settlement, &mut fs, faction_state_key("US"), &names, 9, 1, &data, 0);
    assert_eq!(wrong.unwrap_err(), ErrorCode::InvalidAccount);
}

#[test]
fn the_lucky_rank_also_takes_the_draw() {
    let names: Vec<String> = ["US", "CN", "JP", "DE"].iter().map(|n| n.to_string()).collect();
    let war = WarTreasury { war_id: 9, stage: 1, faction_count: 4, treasury_reward_base_amount: 1_000_000 };
    let mut ranks = vec![0u8; 12];
    ranks[3] = 3;
    let mut settlement = WarSettlement { final_ranks: ranks, treasury_claimed_bitmap: 0 };
    let lane = FactionLane { staked: 0, hashpower: 0, sol_reward_index: 0, dbtc_reward_index: 0 };
    let mut fs = FactionState { faction_id: 3, hashbeasts_staked: 0, hashbeasts_playing: 0, degenbtc: lane, lp: lane };
    let data = fee_mint(0, 0);
    let c = internal_claim_faction_treasury_for_faction_war(&war, &mut settlement, &mut fs, faction_state_key("DE"), &names, 9, 1_000_000_000, &data, 0)
        .unwrap();
    // last place: 1 of 10 rank points, plus the 20% lucky draw
    assert_eq!(c.pre_fee_reward, 80_000 + 200_000);
    // no stakers: everything returns as reborn
    assert_eq!(c.reborn_amount, 280_000);
}
