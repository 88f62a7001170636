//! Helpers for working with contracts that keep a group of weighted members.

pub mod helpers;
