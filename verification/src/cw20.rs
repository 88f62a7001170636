//! The messages of the fungible-token ledger in which prices are paid.

pub mod coin;
pub mod msg;
pub mod receiver;
