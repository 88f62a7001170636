//! The ways in which a call is refused.

use vstd::prelude::*;

verus! {

/// Why a call was refused. A refused call leaves the state as it was.
#[derive(Clone, Copy, Debug, PartialEq, Eq, Structural)]
pub enum ContractError {
    /// The caller has no right to what was asked: it is not the owner, holds no
    /// grant that still runs, or is not the minter or the seller.
    Unauthorized,
    /// No token, or no offering, is stored under the identifier.
    NotFound,
    /// A token with this identifier exists already.
    Claimed,
    /// The expiry of the grant has passed already.
    Expired,
    /// A receive message came without instructions.
    NoData,
    /// A receive message came with instructions that could not be read.
    InvalidPayload,
    /// The payment is below the listed price.
    InsufficientFunds,
}

impl ContractError {
    /// The message that stands for the error.
    pub fn message(&self) -> (m: &'static str)
        ensures
            m@ == match *self {
                ContractError::Unauthorized => "Unauthorized"@,
                ContractError::NotFound => "not found"@,
                ContractError::Claimed => "token_id already claimed"@,
                ContractError::Expired => "Cannot set approval that is already expired"@,
                ContractError::NoData => "No data in ReceiveMsg"@,
                ContractError::InvalidPayload => "Invalid data in ReceiveMsg"@,
                ContractError::InsufficientFunds => "Insufficient funds"@,
            },
    {
        match self {
            ContractError::Unauthorized => "Unauthorized",
            ContractError::NotFound => "not found",
            ContractError::Claimed => "token_id already claimed",
            ContractError::Expired => "Cannot set approval that is already expired",
            ContractError::NoData => "No data in ReceiveMsg",
            ContractError::InvalidPayload => "Invalid data in ReceiveMsg",
            ContractError::InsufficientFunds => "Insufficient funds",
        }
    }
}

} // verus!
