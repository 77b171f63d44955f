use vstd::prelude::*;

verus! {

/// Errors that the game logic reports; each names the rule that refused the input.
#[derive(Debug, Clone, Copy, PartialEq, Eq, Structural)]
pub enum ErrorCode {
    ArithmeticOverflow,
    InvalidParameters,
    InvalidAmount,
    InvalidFactionId,
    InvalidState,
    InvalidRound,
    InvalidStage,
    InvalidOwner,
    InvalidAccount,
    Unauthorized,
    PositionAlreadyExists,
    InsufficientFunds,
    BetBelowMinimum,
    TicketBetCapExceeded,
    GamePaused,
    RoundEnded,
    NoRoundsRemaining,
    MintingNotAllowed,
    NoFreeHashBeastMintsRemaining,
    HashBeastAlreadyAtGuard,
    HashBeastNotAtGuard,
    BreedingNotAllowed,
    GenesisNotSoldOut,
    InvalidBreedingPair,
    RebirthLevelMismatch,
    MaxBreedCountReached,
    CooldownNotEnded,
    BreedFloorAnchorUnavailable,
    DbtcPriceUnavailable,
    AssetAlreadyInQueue,
    FloorQueueFull,
    FloorQueueEmpty,
    FloorAnchorStale,
    SweepAnchorTooLow,
    FloorPriceTooHigh,
    SweepVaultBelowReserve,
    SweepTxCapExceeded,
    InventoryFull,
    NoLiveFloorEntries,
    SnapshotTooSoon,
    ListingNotYetExpirable,
    InvalidRebornStatus,
    RebaseNotActive,
    RebaseNotEnded,
    RebaseNotSettled,
    FactionWarNotSettled,
    FactionWarRewardsAlreadyClaimed,
    GameplayNotEnabled,
    GameplayUnlockAlreadyRequested,
    GameplayUnlockNotRequested,
    GameplayUnlockNotReady,
    GameplayRewardsPending,
    ReferralCannotBeSameAsOwner,
    InvalidMint,
    ReferralRewardsAccountRequired,
    InvalidReferralAccount,
    StaleFloorEntry,
    ProgramListingNotAllowed,
    ListingPriceTooLow,
    ListingPriceExceedsMax,
    NotProgramListing,
    AssetStillOwnedByInventory,
    AssetStillListed,
    AssetNotInInventory,
    InvalidMarketplaceProgram,
    InvalidMarketplaceConfig,
    NftNotOwnedByUser,
    DogeMetadataNotFound,
    HashBeastMetadataNotFound,
    InvalidMplCoreProgram,
}

} // verus!
