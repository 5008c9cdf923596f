//! An asset-launch protocol processor.
//!
//! Given an encoded launch request, the library validates the proposed asset
//! configuration, derives a deterministic record address from the mint
//! identity, drives a fixed sequence of sub-operations against a token-ledger
//! service to materialize a new fungible or non-fungible mint, and writes an
//! immutable launch record at the derived address.

pub mod codec;
pub mod constants;
pub mod cpi;
pub mod entrypoint;
pub mod identity;
pub mod ledger;
pub mod processor;
pub mod state;
pub mod util;

pub use identity::Identity;
pub use state::{Asset, AssetType, LaunchConfig, LaunchError, LaunchpadInstruction, Violation};
