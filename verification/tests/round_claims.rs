use minebtc::bets::{GameSession, UserFactionWarBets, UserGameBet};
use minebtc::errors::ErrorCode;
use minebtc::floor::LootboxQueue;
use minebtc::gameplay::initialize_player;
use minebtc::rewards::{
    apply_mutation_bonus_score, calculate_round_rewards, claim_round_rewards, maybe_run_loser_lootbox_roll, draw_from_digest, ClaimInputs, HodlPool, LootboxReservation,
    LoserRoll, MutationOutcome, ReservationAccount, RoundResult, WarScores,
};
use minebtc::state::{Key, PlayerData};

fn owner() -> Key {
    Key { w0: 11, w1: 0, w2: 0, w3: 0 }
}

fn player() -> PlayerData {
    let mut total = 0u64;
    let mut referrer = None;
    let mut p = initialize_player(&mut total, 12, owner(), 1, 2, None, &mut referrer).unwrap().0;
    p.pending_round_claims = 1;
    p
}

fn session(stage: u8) -> GameSession {
    GameSession {
        round_id: 7,
        stage,
        round_end_timestamp: 10_000,
        war_id_when_played: 3,
        total_sol_bets: 80_000_000,
        total_points_bets: 80_000_000,
        total_wgtd_points_bets: 80_000_000,
        stakers_fee: 0,
        cycle_sol_pool: 0,
        user_faction_indexes: vec![0; 12],
        sol_bets_by_faction: vec![0; 12],
        points_bets_by_faction_direction: vec![0; 36],
        wgtd_points_bets_by_faction_direction: vec![0; 36],
    }
}

fn winning_bet() -> UserGameBet {
    UserGameBet {
        owner: owner(),
        round_id: 7,
        war_id: 3,
        faction_ids: vec![2],
        directions: vec![0],
        sol_bets: vec![80_000_000],
        points_bets: vec![80_000_000],
        wgtd_points_bets: vec![80_000_000],
        gameplay_hashbeast: Key::zero(),
        total_sol_bet: 80_000_000,
        total_points_bet: 80_000_000,
        total_wgtd_points_bet: 80_000_000,
        total_fee: 0,
        bump: 1,
        mutation_type: 0,
    }
}

fn result() -> RoundResult {
    RoundResult {
        winning_faction_id: 2,
        winning_direction: 0,
        sol_rewards_index: 1_500_000_000_000,
        dbtc_rewards_index: 5_000_000_000,
        dbtc_same_faction_direction_pools: vec![0; 3],
        jackpot_hit: false,
        jackpot_rewards_index: 0,
        jackpot_faction_id: 0,
        winning_faction_volume_at_round: 80_000_000,
        entropy_slot_used: 5,
        round_start_slot: 1,
        entropy_hash: [0u8; 32],
        mutations_per_faction: vec![0; 12],
        total_mutations_this_round: 0,
    }
}

fn war() -> WarScores {
    WarScores {
        war_id: 3,
        stage: 0,
        faction_count: 12,
        gameplay_scores: vec![0; 12],
        faction_mutation_score: vec![0; 12],
        mvp_user: vec![Key::zero(); 12],
        mvp_score: vec![0; 12],
    }
}

fn war_bets() -> UserFactionWarBets {
    UserFactionWarBets {
        owner: owner(),
        war_id: 3,
        gameplay_hashbeast: Key::zero(),
        mutation_score: 0,
        direction_bets: vec![0; 36],
        sol_direction_bets: vec![0; 36],
        bump: 1,
    }
}

fn inputs() -> ClaimInputs {
    ClaimInputs {
        rpg_progression: true,
        outcome: MutationOutcome { xp_gained: 0, mutation_type: None, multiplier_increase: 0, xp_consumed: 0, new_dna: [0u8; 32] },
        loser_threshold_bps: 0,
        reservation: ReservationAccount::Empty,
    }
}

#[test]
fn round_rewards_follow_the_winning_indexes() {
    let s = session(2);
    let o = result();
    let b = winning_bet();
    // 1.5 lamports per point; 0.005 degenBTC units per weighted point
    assert_eq!(calculate_round_rewards(&b, &s, &o), Ok((120_000_000, 400_000)));
}

#[test]
fn a_winning_claim_credits_degenbtc_and_closes_the_claim() {
    let s = session(2);
    let mut o = result();
    let mut b = winning_bet();
    let mut p = player();
    let mut pool = HodlPool { hodl_tax_index: 0, total_dbtc_claimable: 0 };
    let mut md = None;
    let mut w = war();
    let mut uwb = war_bets();
    let mut q = LootboxQueue { faction_id: 2, filled_count: 0, slots: vec![Key::zero(); 16] };
    let c = claim_round_rewards(7, owner(), &s, &mut o, &mut b, &mut p, &mut pool, &mut md, &mut w, &mut uwb, &mut q, inputs())
        .unwrap();
    assert_eq!(c.sol_reward, 120_000_000);
    assert_eq!(c.dbtc_reward, 400_000);
    assert_eq!(c.mutation_type, 0);
    assert_eq!(c.hodl_bonus, 0);
    // no mutation: 1% of the degenBTC accumulates on the HashBeast
    assert_eq!(c.accumulated_add, 4_000);
    assert_eq!(c.loser_roll, LoserRoll::Skipped);
    assert_eq!(p.pending_dbtc_rewards, 400_000);
    assert_eq!(p.pending_round_claims, 0);
    assert_eq!(pool.total_dbtc_claimable, 400_000);
    assert_eq!(q.filled_count, 0);
    assert_eq!(o.total_mutations_this_round, 0);
}

#[test]
fn claims_need_a_settled_round_and_the_owner() {
    let mut o = result();
    let mut b = winning_bet();
    let mut p = player();
    let mut pool = HodlPool { hodl_tax_index: 0, total_dbtc_claimable: 0 };
    let mut md = None;
    let mut w = war();
    let mut uwb = war_bets();
    let mut q = LootboxQueue { faction_id: 2, filled_count: 0, slots: vec![Key::zero(); 16] };
    let open = session(0);
    assert_eq!(
        claim_round_rewards(7, owner(), &open, &mut o, &mut b, &mut p, &mut pool, &mut md, &mut w, &mut uwb, &mut q, inputs()).unwrap_err(),
        ErrorCode::InvalidStage
    );
    let s = session(2);
    assert_eq!(
        claim_round_rewards(8, owner(), &s, &mut o, &mut b, &mut p, &mut pool, &mut md, &mut w, &mut uwb, &mut q, inputs()).unwrap_err(),
        ErrorCode::InvalidRound
    );
    let stranger = Key { w0: 99, w1: 0, w2: 0, w3: 0 };
    assert_eq!(
        claim_round_rewards(7, stranger, &s, &mut o, &mut b, &mut p, &mut pool, &mut md, &mut w, &mut uwb, &mut q, inputs()).unwrap_err(),
        ErrorCode::InvalidOwner
    );
}

#[test]
fn a_losing_claim_can_draw_a_lootbox_by_the_round_hash() {
    let mut total = 0u64;
    let mut referrer = None;
    let p = initialize_player(&mut total, 12, owner(), 1, 5, None, &mut referrer).unwrap().0;
    let mut b = winning_bet();
    b.faction_ids = vec![5];
    b.wgtd_points_bets = vec![1_000];
    let slots_in = [Key { w0: 101, w1: 0, w2: 0, w3: 0 }, Key { w0: 102, w1: 0, w2: 0, w3: 0 }, Key { w0: 103, w1: 0, w2: 0, w3: 0 }];
    let mut slots = vec![Key::zero(); 16];
    slots[..3].copy_from_slice(&slots_in);
    let mut q = LootboxQueue { faction_id: 5, filled_count: 3, slots };
    let entropy = [7u8; 32];
    let roll = maybe_run_loser_lootbox_roll(false, &b, &p, &mut q, ReservationAccount::Empty, 10_000, &entropy, owner(), 7).unwrap();

    let mut pre = b"minebtc-loser-roll".to_vec();
    pre.extend_from_slice(&entropy);
    pre.extend_from_slice(&7u64.to_le_bytes());
    pre.extend_from_slice(&owner().to_bytes());
    pre.extend_from_slice(&slots_in[0].to_bytes());
    pre.push(3);
    #[allow(deprecated)]
    let d = anchor_lang::solana_program::keccak::hash(&pre).to_bytes();
    let expected_roll = (d[0] as u64 + 256 * d[1] as u64) % 10_000;
    let index = (d[2] as u64 + 256 * d[3] as u64 + 65_536 * d[4] as u64 + 16_777_216 * d[5] as u64) % 3;
    let asset = slots_in[index as usize];
    assert_eq!(
        roll,
        LoserRoll::Won { roll: expected_roll, index, reservation: LootboxReservation { user: owner(), asset, faction_id: 5 } }
    );
    assert_eq!(q.filled_count, 2);
    let left: Vec<Key> = slots_in.iter().copied().filter(|k| *k != asset).collect();
    assert_eq!(&q.slots[..2], &left[..]);
    assert!(q.slots[2].is_default());

    // a winner never draws
    let mut q2 = LootboxQueue { faction_id: 5, filled_count: 1, slots: vec![Key { w0: 9, w1: 0, w2: 0, w3: 0 }; 16] };
    assert_eq!(
        maybe_run_loser_lootbox_roll(true, &b, &p, &mut q2, ReservationAccount::Empty, 10_000, &entropy, owner(), 7),
        Ok(LoserRoll::Skipped)
    );
    assert_eq!(
        maybe_run_loser_lootbox_roll(false, &b, &p, &mut q2, ReservationAccount::Foreign, 10_000, &entropy, owner(), 7),
        Err(ErrorCode::InvalidAccount)
    );
}

#[test]
fn a_mutation_bonus_counts_on_a_home_win_and_skips_a_malformed_bet() {
    let mut w = war();
    let mut uwb = war_bets();
    let mut p = player();
    let b = winning_bet();
    assert_eq!(apply_mutation_bonus_score(2, &b, 2, 3, &mut w, &mut uwb, &mut p, owner()), Ok(()));
    // power mutation: weight 2 at the base multiplier
    assert_eq!(w.gameplay_scores[2], 160_000_000);
    assert_eq!(w.faction_mutation_score[2], 160_000_000);
    assert_eq!(uwb.mutation_score, 160_000_000);
    assert_eq!((p.current_war_score, p.current_war_score_cycle_id), (160_000_000, 3));
    assert_eq!((w.mvp_user[2], w.mvp_score[2]), (owner(), 160_000_000));
    // position vectors of different lengths: skipped, nothing moves
    let mut bad = winning_bet();
    bad.sol_bets.push(1);
    assert_eq!(apply_mutation_bonus_score(2, &bad, 2, 3, &mut w, &mut uwb, &mut p, owner()), Ok(()));
    assert_eq!(w.gameplay_scores[2], 160_000_000);
    assert_eq!(uwb.mutation_score, 160_000_000);
    assert_eq!(p.current_war_score, 160_000_000);
}

#[test]
fn a_claim_without_a_pending_round_claim_does_not_go_through() {
    let s = session(2);
    let mut o = result();
    let mut b = winning_bet();
    let mut p = player();
    p.pending_round_claims = 0;
    let mut pool = HodlPool { hodl_tax_index: 0, total_dbtc_claimable: 0 };
    let mut md = None;
    let mut w = war();
    let mut uwb = war_bets();
    let mut q = LootboxQueue { faction_id: 2, filled_count: 0, slots: vec![Key::zero(); 16] };
    let r = claim_round_rewards(7, owner(), &s, &mut o, &mut b, &mut p, &mut pool, &mut md, &mut w, &mut uwb, &mut q, inputs());
    assert_eq!(r.unwrap_err(), ErrorCode::ArithmeticOverflow);
    // a HODL index behind the player's is refused at the credit step
    let mut o = result();
    let mut b = winning_bet();
    let mut p = player();
    p.hodl_tax_index = 5;
    let mut pool = HodlPool { hodl_tax_index: 0, total_dbtc_claimable: 0 };
    let r = claim_round_rewards(7, owner(), &s, &mut o, &mut b, &mut p, &mut pool, &mut md, &mut w, &mut uwb, &mut q, inputs());
    assert_eq!(r.unwrap_err(), ErrorCode::ArithmeticOverflow);
    assert_eq!(pool.total_dbtc_claimable, 0);
}

#[test]
fn a_loser_with_a_malformed_bet_cannot_draw() {
    let mut total = 0u64;
    let mut referrer = None;
    let p = initialize_player(&mut total, 12, owner(), 1, 5, None, &mut referrer).unwrap().0;
    let mut b = winning_bet();
    b.faction_ids = vec![5];
    b.wgtd_points_bets = vec![1_000, 2];
    let mut q = LootboxQueue { faction_id: 5, filled_count: 2, slots: vec![Key { w0: 9, w1: 0, w2: 0, w3: 0 }; 16] };
    let r = maybe_run_loser_lootbox_roll(false, &b, &p, &mut q, ReservationAccount::Empty, 10_000, &[7u8; 32], owner(), 7);
    assert_eq!(r, Err(ErrorCode::InvalidState));
    assert_eq!(q.filled_count, 2);
}

#[test]
fn a_draw_reads_its_roll_and_pick_from_the_digest() {
    let slots_in = [Key { w0: 101, w1: 0, w2: 0, w3: 0 }, Key { w0: 102, w1: 0, w2: 0, w3: 0 }, Key { w0: 103, w1: 0, w2: 0, w3: 0 }];
    let mut slots = vec![Key::zero(); 16];
    slots[..3].copy_from_slice(&slots_in);
    let mut q = LootboxQueue { faction_id: 5, filled_count: 3, slots };
    let mut digest = [0u8; 32];
    digest[0] = 0x10; // roll 16
    digest[2] = 4; // pick 4 % 3 == 1
    assert_eq!(draw_from_digest(&digest, 16, &mut q, owner(), 5), LoserRoll::Missed { roll: 16 });
    assert_eq!(q.filled_count, 3);
    let r = draw_from_digest(&digest, 17, &mut q, owner(), 5);
    let reservation = LootboxReservation { user: owner(), asset: slots_in[1], faction_id: 5 };
    assert_eq!(r, LoserRoll::Won { roll: 16, index: 1, reservation });
    assert_eq!(q.filled_count, 2);
    assert_eq!(&q.slots[..3], &[slots_in[0], slots_in[2], Key::zero()]);
}
