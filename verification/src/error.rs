//! The error taxonomy of the escrow engine.

use vstd::prelude::*;

verus! {

/// Every way an operation of the escrow state machine can fail.
///
/// All failures are surfaced to the caller as a typed result; no operation
/// partially mutates state before failing.
#[derive(Clone, Copy, Debug, PartialEq, Eq, Structural)]
pub enum ContractError {
    /// A wrapped tokenized-asset deposit notification carried no payload.
    NoData,
    /// The caller is not permitted to perform this operation.
    Unauthorized,
    /// A tokenized top-up used an asset contract outside the escrow's whitelist.
    NotInWhitelist,
    /// A withdrawal was attempted before the escrow's `end_time`.
    NotExpired,
    /// A clawback-side operation was attempted after the escrow expired.
    Expired,
    /// An operation was attempted with a zero-asset funding amount.
    EmptyBalance,
    /// A clawback transfer between escrows whose `backup` or
    /// `clawback_period` differ.
    ContractMismatch,
    /// A create used an escrow id that is already registered.
    AlreadyInUse,
    /// The named escrow id is not registered.
    NotFound,
    /// A removal asked for more of an asset than the ledger holds.
    InsufficientFunds,
}

impl ContractError {
    /// A short human-readable description of the error.
    pub fn describe(&self) -> &'static str {
        match self {
            ContractError::NoData => "no data in receive message",
            ContractError::Unauthorized => "unauthorized",
            ContractError::NotInWhitelist => "only accepts tokens in the cw20 whitelist",
            ContractError::NotExpired => "clawback is not expired",
            ContractError::Expired => "clawback is expired",
            ContractError::EmptyBalance => "send some coins to create a clawback",
            ContractError::ContractMismatch => {
                "incoming clawback's backup and period should match the outgoing one"
            },
            ContractError::AlreadyInUse => "clawback id already in use",
            ContractError::NotFound => "clawback id not found",
            ContractError::InsufficientFunds => "insufficient funds",
        }
    }
}

} // verus!
