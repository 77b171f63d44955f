use minebtc::autominer::{init_autominer, settle_autominer_claim, stop_autominer, update_autominer, AutominerVault, FactionsConfig};
use minebtc::gameplay::initialize_player;
use minebtc::state::{BetType, PredictionDirection};
use minebtc::errors::ErrorCode;
use minebtc::state::Key;

fn vault(can_reload: bool, pending: u64) -> AutominerVault {
    AutominerVault {
        owner: Key::zero(),
        factions_config: None,
        sol_per_round: 10_000_000,
        rounds_remaining: 2,
        last_bet_round_id: 0,
        vault_bump: 1,
        sol_balance: 20_000_000,
        can_reload,
        use_ticket: None,
        pending_autominer_claims: pending,
        accrued_reload_sol: 1_000_000,
    }
}

#[test]
fn last_claim_reloads_whole_rounds_and_returns_the_rest() {
    let mut v = vault(true, 1);
    let p = settle_autominer_claim(&mut v, 34_000_000, u64::MAX).unwrap();
    assert_eq!(p.parked, 34_000_000);
    assert_eq!(p.paid_to_owner, 0);
    // 35 accrued: three rounds of 10, five left over
    assert_eq!(p.rounds_added, 3);
    assert_eq!(p.sol_for_rounds, 30_000_000);
    assert_eq!(p.leftover_to_owner, 5_000_000);
    assert_eq!(p.sol_for_rounds + p.leftover_to_owner, 35_000_000);
    assert_eq!(v.rounds_remaining, 5);
    assert_eq!(v.sol_balance, 50_000_000);
    assert_eq!(v.accrued_reload_sol, 0);
    assert_eq!(v.pending_autominer_claims, 0);
}

#[test]
fn earlier_claims_park_their_winnings() {
    let mut v = vault(true, 2);
    let p = settle_autominer_claim(&mut v, 34_000_000, 4_000_000).unwrap();
    assert_eq!(p.parked, 4_000_000);
    assert_eq!(p.rounds_added, 0);
    assert_eq!(v.accrued_reload_sol, 5_000_000);
    assert_eq!(v.pending_autominer_claims, 1);
}

#[test]
fn without_reload_winnings_go_to_the_owner() {
    let mut v = vault(false, 1);
    let p = settle_autominer_claim(&mut v, 7, 100).unwrap();
    assert_eq!(p.paid_to_owner, 7);
    assert_eq!(p.parked, 0);
    assert_eq!(v.accrued_reload_sol, 1_000_000);
    let mut v = vault(true, 0);
    assert_eq!(settle_autominer_claim(&mut v, 7, 100).unwrap_err(), ErrorCode::ArithmeticOverflow);
}

fn blank_vault() -> AutominerVault {
    AutominerVault {
        owner: Key::zero(),
        factions_config: None,
        sol_per_round: 0,
        rounds_remaining: 0,
        last_bet_round_id: 0,
        vault_bump: 0,
        sol_balance: 0,
        can_reload: false,
        use_ticket: None,
        pending_autominer_claims: 0,
        accrued_reload_sol: 0,
    }
}

#[test]
fn an_autominer_reserves_its_rounds_up_front() {
    let mut total = 0u64;
    let mut referrer = None;
    let owner = Key { w0: 3, w1: 0, w2: 0, w3: 0 };
    let p = initialize_player(&mut total, 12, owner, 1, 0, None, &mut referrer).unwrap().0;
    let picks = vec![
        BetType { faction_id: 1, direction: PredictionDirection::Up },
        BetType { faction_id: 4, direction: PredictionDirection::Down },
    ];
    let mut v = blank_vault();
    let cfg = Some(FactionsConfig::Specific { picks });
    let deposit = init_autominer(&mut v, &p, 12, owner, 7, cfg.clone(), 10_000_000, 5, true, None).unwrap();
    assert_eq!(deposit, 50_000_000);
    assert_eq!(v.sol_balance, 50_000_000);
    assert_eq!(v.rounds_remaining, 5);
    assert_eq!(v.owner, owner);

    // a running autominer cannot be started again
    assert_eq!(init_autominer(&mut v, &p, 12, owner, 7, cfg.clone(), 10_000_000, 5, true, None).unwrap_err(), ErrorCode::InvalidParameters);

    // two picks share 0.01 SOL less the caller's tenth of a percent: over the minimum
    let mut small = blank_vault();
    assert_eq!(
        init_autominer(&mut small, &p, 12, owner, 7, cfg.clone(), 2_000_000, 5, true, None).unwrap_err(),
        ErrorCode::BetBelowMinimum
    );
    assert_eq!(init_autominer(&mut small, &p, 12, owner, 7, cfg, 10_000_000, 0, true, None).unwrap_err(), ErrorCode::InvalidAmount);

    assert_eq!(update_autominer(&mut v, owner, Some(3), Some(false)), Ok(30_000_000));
    assert_eq!(v.rounds_remaining, 8);
    assert_eq!(v.sol_balance, 80_000_000);
    assert!(!v.can_reload);
    assert_eq!(update_autominer(&mut v, Key::zero(), Some(3), None), Err(ErrorCode::Unauthorized));
    assert_eq!(update_autominer(&mut v, owner, None, None), Err(ErrorCode::InvalidParameters));

    assert_eq!(stop_autominer(v.clone(), Key::zero()), Err(ErrorCode::Unauthorized));
    assert_eq!(stop_autominer(v, owner), Ok(80_000_000));
}
