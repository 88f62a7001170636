//! What the queries of the marketplace answer. Participants are given in
//! canonical form, as the state holds them.

use crate::cw20::coin::Cw20CoinHuman;
use vstd::prelude::*;

verus! {

/// The name of the marketplace.
#[derive(Clone, Debug, PartialEq, Eq)]
pub struct ContractInfoResponse {
    pub name: String,
}

/// One open offering.
#[derive(Clone, Debug, PartialEq, Eq)]
pub struct QueryOfferingsResult {
    pub id: String,
    pub token_id: String,
    pub list_price: Cw20CoinHuman,
    /// The registry from which the token comes.
    pub contract_addr: Vec<u8>,
    pub seller: Vec<u8>,
}

/// The open offerings, in ascending order of their identifiers.
#[derive(Clone, Debug, PartialEq, Eq)]
pub struct OfferingsResponse {
    pub offerings: Vec<QueryOfferingsResult>,
}

} // verus!
