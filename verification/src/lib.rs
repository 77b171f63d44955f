//! Verified game, staking and market-maker logic of the MineBTC country arena.
pub mod autominer;
pub mod bets;
pub mod constants;
pub mod errors;
pub mod floor;
pub mod gameplay;
pub mod hashbeast;
pub mod layout;
pub mod math;
pub mod placement;
pub mod rebase;
pub mod rewards;
pub mod staking;
pub mod state;
pub mod tax;
