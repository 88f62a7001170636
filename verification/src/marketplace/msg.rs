//! The calls that the marketplace takes, with every participant resolved and
//! the instructions of receive messages decoded.

use crate::cw20::coin::Cw20CoinHuman;
use crate::cw20::receiver::Cw20ReceiveMsg;
use crate::response::Cw721ReceiveMsg;
use vstd::prelude::*;

verus! {

/// What sets the marketplace up.
#[derive(Clone, Debug, PartialEq, Eq)]
pub struct InitMsg {
    pub name: String,
}

/// A call that changes the state of the marketplace.
#[derive(Clone, Debug, PartialEq, Eq)]
pub enum HandleMsg {
    /// Take the token of an offering back; only its seller may.
    WithdrawNft { offering_id: String },
    /// A token or a payment was sent to the marketplace.
    Receive(ReceiveMsgWrapper),
}

/// The notice of what was sent to the marketplace.
#[derive(Clone, Debug, PartialEq, Eq)]
pub enum ReceiveMsgWrapper {
    /// A payment, sent through the ledger that sends the message, to buy with.
    Cw20Rcv(Cw20ReceiveMsg<BuyNft>),
    /// A token, sent through the registry that sends the message, to sell.
    Cw721Rcv(Cw721ReceiveMsg<SellNft>),
}

/// The instructions that come with a token: list it at this price.
#[derive(Clone, Debug, PartialEq, Eq)]
pub struct SellNft {
    pub list_price: Cw20CoinHuman,
}

/// The instructions that come with a payment: buy this offering.
#[derive(Clone, Debug, PartialEq, Eq)]
pub struct BuyNft {
    pub offering_id: String,
}

/// A call that reads the state of the marketplace.
#[derive(Clone, Copy, Debug, PartialEq, Eq)]
pub enum QueryMsg {
    /// List all open offerings.
    GetOfferings,
}

} // verus!
