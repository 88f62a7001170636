//! The marketplace: it holds tokens in escrow against a listed price, hands a
//! token to the buyer who pays the price, and back to the seller who withdraws.

pub mod contract;
pub mod laws;
pub mod msg;
pub mod package;
pub mod state;
