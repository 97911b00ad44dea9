//! Decision logic of a multi-signature mint contract: signers approve mint
//! requests, and the owner of a request completes it once.

pub mod contract;
pub mod error;
pub mod model;
pub mod msg;
pub mod state;
