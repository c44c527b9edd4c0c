//! The flat error taxonomy. Every operation fails with one of these names
//! and leaves no partial state change behind.

use vstd::prelude::*;

verus! {

/// Named failures surfaced to the caller. Nothing is retried inside the
/// state machine; an `Err` means the operation changed nothing.
#[derive(Clone, Copy, Debug, PartialEq, Eq, Structural)]
pub enum DlmmError {
    BadMultisig,
    InvalidNBands,
    ProposalExists,
    AlreadyMigrated,
    NoPendingParams,
    ProposalExecuted,
    WindowClosed,
    Unauthorized,
    MissingOracleSigner,
    CuPriceTooLow,
    CooldownNotElapsed,
    DeviationTooHigh,
    HysteresisNotMet,
    VaultMintMismatch,
    InvariantViolated,
    NonMonotonicBands,
    InvalidBandRange,
    WeightSumInvalid,
    ParamOutOfRange,
    DepositRatioOutOfBounds,
    BandInactive,
    ZeroShares,
    PositionLocked,
    ZeroAmount,
    InvalidBandIndex,
    InvalidAmount,
    MathOverflow,
    Paused,
    NotPaused,
    NotFound,
    BadQuorum,
}

} // verus!
