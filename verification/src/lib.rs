//! A token registry with delegated transfer rights, and a marketplace that
//! holds tokens in escrow against a listed price.
//!
//! Both are state machines over plain values: every operation takes the state,
//! the caller and the clock, and returns its events and the instructions that
//! the host is to carry out as part of the same transition.

pub mod address;
pub mod bytes;
pub mod cw20;
pub mod cw4;
pub mod error;
pub mod expiration;
pub mod marketplace;
pub mod ordered_map;
pub mod paging;
pub mod prefixed_map;
pub mod registry;
pub mod response;
pub mod text;
