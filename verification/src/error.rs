//! The error taxonomy of the escrow engine.
//!
//! Every validation failure aborts the enclosing operation with one of
//! these values and no stored record is touched.

use vstd::prelude::*;

verus! {

/// Mathematical view of a [`ContractError`].
pub enum ContractErrorV {
    Unauthorized,
    NotEnoughFunds,
    EscrowExpired,
    EscrowNotExpired,
    NoEscrow,
    NotExpectedDenom { denom: Seq<char> },
    OnlyOneCoinAvailable,
    NonPayable,
}

/// A typed, structured operation failure, surfaced verbatim to the caller.
#[derive(Debug, PartialEq)]
pub enum ContractError {
    /// The caller is not the party this operation is reserved to.
    Unauthorized,
    /// A zero price, or a payment that does not equal the price.
    NotEnoughFunds,
    /// The escrow's deadline has passed (or, on deposit, already had).
    EscrowExpired,
    /// The escrow's deadline has not passed yet.
    EscrowNotExpired,
    /// No escrow is stored under the given key.
    NoEscrow,
    /// The payment came in a denomination other than the configured one.
    NotExpectedDenom { denom: String },
    /// The payment must consist of exactly one coin.
    OnlyOneCoinAvailable,
    /// This operation must not carry any payment.
    NonPayable,
}

impl View for ContractError {
    type V = ContractErrorV;

    open spec fn view(&self) -> ContractErrorV {
        match self {
            ContractError::Unauthorized => ContractErrorV::Unauthorized,
            ContractError::NotEnoughFunds => ContractErrorV::NotEnoughFunds,
            ContractError::EscrowExpired => ContractErrorV::EscrowExpired,
            ContractError::EscrowNotExpired => ContractErrorV::EscrowNotExpired,
            ContractError::NoEscrow => ContractErrorV::NoEscrow,
            ContractError::NotExpectedDenom { denom } => ContractErrorV::NotExpectedDenom {
                denom: denom@,
            },
            ContractError::OnlyOneCoinAvailable => ContractErrorV::OnlyOneCoinAvailable,
            ContractError::NonPayable => ContractErrorV::NonPayable,
        }
    }
}

} // verus!
