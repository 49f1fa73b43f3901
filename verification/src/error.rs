//! Failures that the contracts report to their callers.

use vstd::prelude::*;

verus! {

/// The ratio or fee setting that a range check is about.
#[derive(Clone, Copy, Debug, PartialEq, Eq, Structural)]
pub enum RatioField {
    Quorum,
    Threshold,
    WarchestRatio,
    BurnvaultRatio,
    CommunityFee,
    PlatformFee,
    ControllerFee,
    DepositFee,
}

/// Every way in which a verified operation of this library refuses its input.
#[derive(Clone, Copy, Debug, PartialEq, Eq, Structural)]
pub enum ContractError {
    /// The sender may not perform the operation.
    Unauthorized,
    /// No staking pool is registered for the requested lock period.
    PoolNotFound,
    /// The staking pool for the requested lock period is closed to new stakes.
    PoolNotActive,
    /// The pool's lock has not expired yet.
    PoolLocked,
    /// A checked subtraction would go below zero.
    Overflow,
    /// A stake of zero tokens.
    InsufficientFunds,
    /// A withdrawal by an address that never staked.
    NothingStaked,
    /// The withdrawal exceeds the unlocked balance.
    WithdrawTooMuch,
    /// Tokens must be minted up to the current height first.
    MintRequired,
    /// A ratio or fee outside of 0 to 1; the field says which.
    PercentageOutOfRange(RatioField),
    /// The effective delay is below the minimum.
    EffectiveDelayTooShort,
    /// The mint end height precedes the mint start height.
    InvalidMintParameters,
    /// The owner of a contract that owns itself cannot change.
    CannotUpdateOwner,
    /// The address was assigned before and cannot change.
    AlreadyAssigned,
    /// A burn-vault ratio without a burn-vault address.
    BurnvaultAddressRequired,
    TitleTooShort,
    TitleTooLong,
    DescriptionTooShort,
    DescriptionTooLong,
    LinkTooShort,
    LinkTooLong,
    /// The poll deposit is below the configured proposal deposit.
    DepositTooLow,
    PollNotFound,
    PollNotInProgress,
    AlreadyVoted,
    /// The voter's staked balance is below the vote amount.
    InsufficientStake,
    VotingPeriodNotExpired,
    PollNotPassed,
    EffectiveDelayNotExpired,
    NoExecuteData,
    /// A text proposal cannot expire.
    TextProposalCannotExpire,
    ExpirationNotReached,
    /// A farm accepts auto-compound deposits only.
    AutoStakeDisabled,
    /// The unbond amount exceeds the bonded amount.
    UnbondTooMuch,
    /// The requested reward exceeds what is available.
    WithdrawExceedsReward,
    /// A farm of this kind accepts one asset only.
    AssetAlreadyRegistered,
    /// The contract code is still inside its time lock.
    TimelockActive,
    /// No such code version is registered for the contract.
    CodeNotFound,
}

} // verus!
