//! The calls that the registry takes, with every participant resolved.

use crate::address::Address;
use crate::expiration::Expiration;
use vstd::prelude::*;

verus! {

/// What sets the registry up.
#[derive(Clone, Debug, PartialEq, Eq)]
pub struct InitMsg {
    pub name: String,
    pub symbol: String,
    /// The one participant that may mint.
    pub minter: Address,
}

/// A token to mint.
#[derive(Clone, Debug, PartialEq, Eq)]
pub struct MintMsg {
    /// The identifier of the token, chosen by the minter.
    pub token_id: String,
    pub owner: Address,
    pub name: String,
    pub level: u64,
    pub description: Option<String>,
    pub image: Option<String>,
}

/// A call that changes the state of the registry.
#[derive(Clone, Debug, PartialEq, Eq)]
pub enum HandleMsg {
    /// Mint a new token; only the minter may.
    Mint(MintMsg),
    /// Let two tokens fight; both gain in level, the winner more.
    BattleMonster { attacker_id: String, defender_id: String },
    /// Let the spender transfer or send the token, until the expiry.
    Approve { spender: Address, token_id: String, expires: Option<Expiration> },
    /// Take back the approval of the spender for the token.
    Revoke { spender: Address, token_id: String },
    /// Let the operator transfer or send every token of the sender.
    ApproveAll { operator: Address, expires: Option<Expiration> },
    /// Take back the grant of the operator.
    RevokeAll { operator: Address },
    /// Move the token to the recipient.
    TransferNft { recipient: Address, token_id: String },
    /// Move the token to the contract and tell it so, with the instructions in
    /// `msg`.
    SendNft { contract: Address, token_id: String, msg: Option<Vec<u8>> },
}

/// A call that reads the state of the registry.
#[derive(Clone, Debug, PartialEq, Eq)]
pub enum QueryMsg {
    Minter,
    ContractInfo,
    NftInfo { token_id: String },
    OwnerOf { token_id: String, include_expired: Option<bool> },
    AllNftInfo { token_id: String, include_expired: Option<bool> },
    ApprovedForAll {
        owner: Address,
        include_expired: Option<bool>,
        start_after: Option<Address>,
        limit: Option<u32>,
    },
    NumTokens,
    Tokens { owner: Address, start_after: Option<String>, limit: Option<u32> },
    AllTokens { start_after: Option<String>, limit: Option<u32> },
}

} // verus!
