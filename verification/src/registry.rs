//! The token registry: who owns which token, who may move it, and the calls
//! that change and read this.

pub mod contract;
pub mod laws;
pub mod msg;
pub mod package;
pub mod state;
