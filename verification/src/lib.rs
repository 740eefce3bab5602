//! A delegated token-transfer handler.
//!
//! The handler re-derives a program-controlled authority address from a fixed
//! seed and its own deployment identity, checks that the caller-supplied
//! claimed-authority account matches that derivation, decodes the token-class
//! descriptor and the source holding, and only then builds a transfer request
//! that presents the seed material as the proof of authorization.

pub mod address;
pub mod error;
pub mod pda;
pub mod token_data;
pub mod handler;
pub mod ledger;
