use vstd::prelude::*;

verus! {

/// Why an operation of the protocol was rejected.
#[derive(Clone, Copy, Debug, PartialEq, Eq, Structural)]
pub enum LiquidStakingError {
    Inactive,
    OnlyAdmin,
    OnlyPendingAdmin,
    MissingPendingAdmin,
    OnlyDataManager,
    AddressZero,
    InvalidUnbondPeriod,
    InsufficientEgldAmount,
    InsufficientShares,
    TooMuchEgldAmount,
    WouldLeaveDust,
    UnexpectedDelegationContract,
    NoDelegationContracts,
    DelegationContractNotAvailable,
    DelegationContractsListFull,
    InvalidDelegationContract,
    BlacklistedDelegationContract,
    NotBlacklistedDelegationContract,
    DelegationCap,
    NoPendingToDelegate,
    NoPendingToUndelegate,
    UnbondPeriodNotEnded,
    InvalidDomain,
    UnexpectedValue,
    ExpectedValue,
    ValueCannotBeZero,
    ValueExceedsBps,
    NotEnoughProtocolReserves,
    UnexpectedPenaltyId,
    WithdrawnPenalty,
    WithdrawFirst,
    OnlyOpenUndelegationMode,
    NotEnoughElapsedEpochs,
    RewardsAlreadyClaimed,
    TotalFeeUnset,
    DelegationScoreModelUnset,
    DataManagerUnset,
    PremiumTooLarge,
    UserAlreadyWhitelisted,
    UserNotWhitelisted,
    DelegationContractNotInList,
    InMigrationWhitelist,
    ArithmeticOverflow,
}

} // verus!
