//! Launch requests, configurations, persisted asset records, and the
//! error taxonomy of the launch pipeline.

use vstd::prelude::*;

use crate::identity::Identity;

verus! {

/// The kinds of asset that can be launched.
#[derive(Clone, Copy, Debug, PartialEq, Eq, Structural)]
pub enum AssetType {
    SplTokenLegacy,
    SplToken2022,
    StandardNft,
}

/// A proposed asset configuration, supplied by the caller inside a launch
/// request and consumed read-only by the processor.
///
/// Name, symbol and metadata URI are byte strings; their bounds are measured
/// in bytes.
#[derive(Clone, Debug)]
pub struct LaunchConfig {
    pub asset_type: AssetType,
    pub name: Vec<u8>,
    pub symbol: Vec<u8>,
    pub decimals: u8,
    pub total_supply: u64,
    pub metadata_uri: Vec<u8>,
    pub creator: Identity,
    pub is_mutable: bool,
}

/// The mathematical value of a `LaunchConfig`.
pub ghost struct LaunchConfigV {
    pub asset_type: AssetType,
    pub name: Seq<u8>,
    pub symbol: Seq<u8>,
    pub decimals: u8,
    pub total_supply: u64,
    pub metadata_uri: Seq<u8>,
    pub creator: Seq<u8>,
    pub is_mutable: bool,
}

impl View for LaunchConfig {
    type V = LaunchConfigV;

    open spec fn view(&self) -> LaunchConfigV {
        LaunchConfigV {
            asset_type: self.asset_type,
            name: self.name@,
            symbol: self.symbol@,
            decimals: self.decimals,
            total_supply: self.total_supply,
            metadata_uri: self.metadata_uri@,
            creator: self.creator@,
            is_mutable: self.is_mutable,
        }
    }
}

/// The requests understood by the processor. A single variant exists today;
/// extensions must append new tags, never reorder the existing ones.
#[derive(Clone, Debug)]
pub enum LaunchpadInstruction {
    /// Launch a new asset.
    LaunchAsset { config: LaunchConfig },
}

/// The mathematical value of a `LaunchpadInstruction`.
pub ghost enum LaunchpadInstructionV {
    LaunchAsset { config: LaunchConfigV },
}

impl View for LaunchpadInstruction {
    type V = LaunchpadInstructionV;

    open spec fn view(&self) -> LaunchpadInstructionV {
        match self {
            LaunchpadInstruction::LaunchAsset { config } => LaunchpadInstructionV::LaunchAsset {
                config: config@,
            },
        }
    }
}

/// The immutable record persisted for a launched asset, stored at the
/// deterministically derived record address.
#[derive(Clone, Debug)]
pub struct Asset {
    pub asset_type: AssetType,
    pub mint: Identity,
    pub creator: Identity,
    pub name: Vec<u8>,
    pub symbol: Vec<u8>,
    pub total_supply: u64,
    pub launch_timestamp: i64,
}

/// The mathematical value of an `Asset` record.
pub ghost struct AssetV {
    pub asset_type: AssetType,
    pub mint: Seq<u8>,
    pub creator: Seq<u8>,
    pub name: Seq<u8>,
    pub symbol: Seq<u8>,
    pub total_supply: u64,
    pub launch_timestamp: i64,
}

impl View for Asset {
    type V = AssetV;

    open spec fn view(&self) -> AssetV {
        AssetV {
            asset_type: self.asset_type,
            mint: self.mint@,
            creator: self.creator@,
            name: self.name@,
            symbol: self.symbol@,
            total_supply: self.total_supply,
            launch_timestamp: self.launch_timestamp,
        }
    }
}

/// One account handed to the processor: its identity and whether its
/// authorization (signature) is present on the request.
#[derive(Clone, Copy, Debug)]
pub struct AccountEntry {
    pub key: Identity,
    pub is_signer: bool,
}

/// The specific configuration bound broken by an invalid `LaunchConfig`.
#[derive(Clone, Copy, Debug, PartialEq, Eq, Structural)]
pub enum Violation {
    NameTooLong,
    SymbolTooLong,
    UriTooLong,
    DecimalsTooHigh,
}

/// Everything that can abort a launch. Every error is terminal for the
/// invocation that raised it; nothing is retried internally.
#[derive(Clone, Copy, Debug, PartialEq, Eq, Structural)]
pub enum LaunchError {
    /// The wire payload was truncated or malformed.
    InvalidInstructionData,
    /// The configuration broke the stated bound.
    InvalidConfig(Violation),
    /// The required payer identity or its authorization is absent.
    MissingAuthorization,
    /// The supplied ledger-service target does not match the ledger variant
    /// that the requested asset type needs.
    WrongServiceTarget,
    /// The supplied record account differs from the derived record address.
    AddressMismatch,
    /// The ledger service rejected a sub-operation.
    ExternalCallFailed,
}

impl Violation {
    /// A short description of the broken bound.
    pub fn describe(&self) -> (r: &'static str) {
        match self {
            Violation::NameTooLong => "name too long",
            Violation::SymbolTooLong => "symbol too long",
            Violation::UriTooLong => "uri too long",
            Violation::DecimalsTooHigh => "decimals too high",
        }
    }
}

impl LaunchError {
    /// A short description of the failure.
    pub fn describe(&self) -> (r: &'static str) {
        match self {
            LaunchError::InvalidInstructionData => "invalid instruction data",
            LaunchError::InvalidConfig(v) => v.describe(),
            LaunchError::MissingAuthorization => "missing required authorization",
            LaunchError::WrongServiceTarget => "wrong ledger service target",
            LaunchError::AddressMismatch => "record address mismatch",
            LaunchError::ExternalCallFailed => "ledger service call failed",
        }
    }
}

} // verus!
