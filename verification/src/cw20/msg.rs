use crate::address::Identity;
use crate::expiration::Expiration;
use vstd::prelude::*;

verus! {

/// What a ledger of fungible tokens can be asked to do.
#[derive(Clone, Debug, PartialEq, Eq)]
pub enum Cw20HandleMsg {
    /// Move tokens to another account without triggering actions.
    Transfer { recipient: Identity, amount: u128 },
    /// Destroy tokens forever.
    Burn { amount: u128 },
    /// Move tokens to a contract and trigger an action on it.
    Send { contract: Identity, amount: u128, msg: Option<Vec<u8>> },
    /// Let the spender draw a further amount from the sender's account.
    IncreaseAllowance { spender: Identity, amount: u128, expires: Option<Expiration> },
    /// Lower what the spender may draw from the sender's account.
    DecreaseAllowance { spender: Identity, amount: u128, expires: Option<Expiration> },
    /// Move tokens from the owner to the recipient, on an allowance.
    TransferFrom { owner: Identity, recipient: Identity, amount: u128 },
    /// Send tokens from the owner to a contract, on an allowance.
    SendFrom { owner: Identity, contract: Identity, amount: u128, msg: Option<Vec<u8>> },
    /// Destroy tokens of the owner, on an allowance.
    BurnFrom { owner: Identity, amount: u128 },
    /// Create new tokens for the recipient.
    Mint { recipient: Identity, amount: u128 },
}

} // verus!
