use vstd::prelude::*;

verus! {

/// Percent denominator.
pub const M_HUNDRED: u64 = 100;
/// Basis-point denominator.
pub const BASIS_POINTS_DENOMINATOR: u64 = 10_000;
/// 1.0x in multiplier units (three decimals).
pub const BASE_MULTIPLIER: u32 = 1_000;
/// Number of countries (factions) in the arena.
pub const NUM_FACTIONS: usize = 12;
/// Prediction directions: Up, Neutral, Down.
pub const DIRECTION_COUNT: usize = 3;
/// Fixed-point precision of every reward index.
pub const INDEX_PRECISION: u64 = 1_000_000_000_000;
pub const DAY_IN_SECONDS: u64 = 86_400;

// ---------------- staking ----------------
/// Largest number of simultaneously open positions per token type.
pub const MAX_ALLOWED_POSITIONS: u8 = 10;
/// Early-withdrawal burn at a full remaining lockup, in percent.
pub const EMERGENCY_WITHDRAWAL_PENALTY_PCT: u64 = 50;
/// Highest lockup multiplier, in percent units (3.0x).
pub const MAX_LOCKUP_MULTIPLIER: u16 = 300;
/// Flat bonus paid to a referred user on gameplay reward withdrawal, in percent.
pub const REFERRAL_BONUS_PCT: u64 = 1;

// ---------------- HashBeasts ----------------
/// Passive staking slots that smooth the HashBeast multiplier.
pub const MAX_STAKED_HASHBEASTS: usize = 3;
/// Cap of the passive HashBeast staking multiplier (3.0x).
pub const PASSIVE_HASHBEAST_STAKING_MAX_MULTIPLIER: u16 = 3_000;
/// Cap of the gameplay HashBeast multiplier (4.2x).
pub const GAMEPLAY_MAX_MULTIPLIER: u32 = 4_200;
/// Rebirths after which a HashBeast is burned instead of reborn.
pub const MAX_REBIRTH_COUNT: u8 = 7;
/// Breeding never prices below 1.5x the floor anchor.
pub const BREED_FLOOR_MULTIPLIER_BPS: u64 = 15_000;
/// Share of the breed price paid in SOL (the rest in degenBTC by value).
pub const BREED_SOL_SHARE_BPS: u64 = 5_000;
/// Share of the SOL leg that goes to the fee recipient (the rest to the treasury).
pub const BREED_SOL_FEE_RECIPIENT_BPS: u64 = 2_500;
/// Share of the degenBTC leg that is burned (the rest returns to the emission vault).
pub const BREED_DBTC_BURN_BPS: u64 = 5_000;
/// Base units in one degenBTC (6 decimals).
pub const DBTC_BASE_UNITS: u64 = 1_000_000;
/// Number of ticket tiers a genesis mint offers.
pub const TICKET_TIER_COUNT: usize = 3;
/// Distinct ticket values a player can hold.
pub const MAX_TICKET_TYPES: usize = 5;
/// Largest genesis batch per transaction.
pub const MAX_MINT_BATCH: u64 = 10;

// ---------------- bets ----------------
/// Most faction-direction positions a single round bet can hold.
pub const MAX_POSITIONS_PER_BET: usize = 36;
/// Same-country referral commission, in basis points of the gross bet.
pub const REFERRAL_FEE_BPS_SAME_FACTION: u64 = 100;
/// Cross-country referral commission, in basis points of the gross bet.
pub const REFERRAL_FEE_BPS_CROSS_FACTION: u64 = 50;
/// Lifetime cap of SOL a referrer can earn in commissions.
pub const MAX_REFERRER_SOL_LIFETIME: u64 = 1_000_000_000_000;
/// Smallest SOL bet per position, in lamports.
pub const MIN_SOL_BET_PER_POSITION: u64 = 1_000_000;
/// Keeper compensation cap for SOL autominers, in lamports (0.00005 SOL).
pub const MAX_CALLER_COMPENSATION: u64 = 50_000;
/// Fixed keeper reserve per round for ticket autominers, in lamports.
pub const TICKET_AUTOMINER_CALLER_COMPENSATION: u64 = 50_000;
/// Ticket-backed points may be at most this percent of the round's SOL bets.
pub const TICKET_POINTS_CAP_PCT: u64 = 25;
/// Most picks an autominer can hold.
pub const MAX_AUTOMINER_PICKS: usize = 36;
/// Mutation-bonus weights per mutation type.
pub const MUTATION_BONUS_WEIGHT_EVOLUTION: u64 = 3;
pub const MUTATION_BONUS_WEIGHT_POWER: u64 = 2;
pub const MUTATION_BONUS_WEIGHT_TRAIT: u64 = 1;

// ---------------- rebase / tax ----------------
/// Share of a faction's rebase pool reserved for eligible gameplay HashBeasts.
pub const REBASE_HASHBEAST_REWARD_SHARE_BPS: u64 = 2_000;
/// Rank-weighted share of the faction treasury (80%).
pub const RANK_WEIGHTED_BPS: u64 = 8_000;
/// Lucky-draw share of the faction treasury (20%).
pub const LUCKY_DRAW_BPS: u64 = 2_000;

// ---------------- floor market maker ----------------
pub const FLOOR_QUEUE_SIZE: usize = 16;
pub const SALE_HISTORY_SIZE: usize = 32;
pub const FLOOR_HISTORY_SIZE: usize = 7;
pub const MIN_SALES_FOR_ANCHOR: usize = 17;
pub const SALE_RECENT_WINDOW_SECS: i64 = 86_400;
pub const SALE_QUALIFY_MIN_LISTING_AGE_SECS: i64 = 300;
pub const FLOOR_SNAPSHOT_INTERVAL_SECS: i64 = 86_400;
pub const FLOOR_ANCHOR_MAX_AGE_SECS: i64 = 172_800;
pub const FLOOR_ANCHOR_MAX_UPWARD_MOVE_BPS: u64 = 2_000;
pub const KEEPER_REWARD_LAMPORTS: u64 = 500_000;
pub const STALE_PURGE_KEEPER_REWARD_LAMPORTS: u64 = 20_000;
pub const SWEEP_ATTRACTIVE_BPS: u64 = 500;
pub const SWEEP_MAX_PCT_BPS: u64 = 500;
pub const SWEEP_MIN_ANCHOR_LAMPORTS: u64 = 10_000_000;
pub const MIN_SWEEP_RESERVE_LAMPORTS: u64 = 100_000_000;
pub const MAX_INVENTORY: u64 = 200;
pub const INVENTORY_SWEEP_RESERVE_BPS: u64 = 5_000;
pub const BURN_TREND_BPS_THRESHOLD: i32 = -3_000;
pub const EXPIRE_GRACE_SECS: i64 = 604_800;
pub const MAX_EXPIRES: u8 = 3;
pub const LOOTBOX_QUEUE_SIZE: usize = 16;

} // verus!
