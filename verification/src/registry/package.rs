//! What the queries of the registry answer. Participants are given in
//! canonical form, as the state holds them.

use crate::registry::state::{Approval, ContractInfoResponse};
use vstd::prelude::*;

verus! {

/// The minter.
#[derive(Clone, Debug, PartialEq, Eq)]
pub struct MinterResponse {
    pub minter: Vec<u8>,
}

/// The number of tokens minted so far.
#[derive(Clone, Debug, PartialEq, Eq)]
pub struct NumTokensResponse {
    pub count: u64,
}

/// What a token shows of itself.
#[derive(Clone, Debug, PartialEq, Eq)]
pub struct NftInfoResponse {
    pub name: String,
    pub level: u64,
    pub description: String,
    pub image: Option<String>,
}

/// Who can transfer a token.
#[derive(Clone, Debug, PartialEq, Eq)]
pub struct OwnerOfResponse {
    pub owner: Vec<u8>,
    pub approvals: Vec<Approval>,
}

/// Who can transfer a token, and what the token shows of itself.
#[derive(Clone, Debug, PartialEq, Eq)]
pub struct AllNftInfoResponse {
    pub access: OwnerOfResponse,
    pub info: NftInfoResponse,
}

/// Operators of one owner; in each the spender is the operator.
#[derive(Clone, Debug, PartialEq, Eq)]
pub struct ApprovedForAllResponse {
    pub operators: Vec<Approval>,
}

/// Identifiers of tokens, in ascending order.
#[derive(Clone, Debug, PartialEq, Eq)]
pub struct TokensResponse {
    pub tokens: Vec<String>,
}

/// The answer to a query, by the kind of the query.
#[derive(Clone, Debug, PartialEq, Eq)]
pub enum QueryResponse {
    Minter(MinterResponse),
    ContractInfo(ContractInfoResponse),
    NftInfo(NftInfoResponse),
    OwnerOf(OwnerOfResponse),
    AllNftInfo(AllNftInfoResponse),
    ApprovedForAll(ApprovedForAllResponse),
    NumTokens(NumTokensResponse),
    Tokens(TokensResponse),
}

} // verus!
