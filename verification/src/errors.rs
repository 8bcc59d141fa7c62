use vstd::prelude::*;

verus! {

/// Every way an operation of the ledger can fail.
#[derive(Debug, PartialEq, Eq, Structural, Clone, Copy)]
pub enum ContractError {
    /// A goal or a donation of zero.
    AmountCannotBeZero,
    /// A project with this identifier already exists.
    DuplicateProject,
    /// No project with this identifier exists.
    ProjectNotFound,
    /// The project no longer accepts donations.
    ProjectFundingEnded,
    /// A refund was asked of a project that can still succeed.
    ProjectStillActive,
    /// A refund was asked of a project that reached its goal.
    ProjectSuccessful,
    /// The donor holds no refundable balance in the project.
    NoFundsToRefund,
    /// An amount left the range that a transfer can carry.
    AmountOverflow,
    /// The caller is not the project's creator.
    NotAuthorized,
    /// The project is already settled, as completed or as failed.
    InvalidProjectStatus,
    /// The project is still active and its goal is not reached.
    ClaimConditionsNotMet,
    /// The transfer of funds was rejected; nothing was committed.
    TransferFailed,
}

/// Largest amount that a transfer can carry: the top of the signed 128-bit range.
pub const MAX_AMOUNT: u128 = 0x7fff_ffff_ffff_ffff_ffff_ffff_ffff_ffff;

/// Converts an amount to the signed form that transfers use, and fails with
/// `AmountOverflow` where it does not fit, never substituting another value.
pub fn u128_to_i128(value: u128) -> (result: Result<i128, ContractError>)
    ensures
        value <= MAX_AMOUNT ==> result.is_ok() && result.unwrap() == value,
        value > MAX_AMOUNT ==> result == Err::<i128, ContractError>(ContractError::AmountOverflow),
{
    if value > MAX_AMOUNT {
        return Err(ContractError::AmountOverflow);
    }
    Ok(value as i128)
}

} // verus!
