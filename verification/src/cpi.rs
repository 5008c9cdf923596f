//! Adapters for the token-ledger service's sub-operations.
//!
//! Each adapter pairs the wire image of one sub-operation (an instruction
//! data struct with an exact byte-level encoder) with a `process` function
//! that performs the sub-operation against the ledger.

pub mod initialize_mint;
pub mod initialize_token_account;
pub mod mint_to;
pub mod set_authority;
