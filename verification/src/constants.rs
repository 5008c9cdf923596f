//! Fixed bounds and well-known identities of the launch protocol.

use vstd::prelude::*;

use crate::identity::Identity;

verus! {

/// Longest accepted asset name, in bytes.
pub const MAX_NAME_LENGTH: usize = 32;

/// Longest accepted asset symbol, in bytes.
pub const MAX_SYMBOL_LENGTH: usize = 10;

/// Longest accepted metadata URI, in bytes.
pub const MAX_URI_LENGTH: usize = 200;

/// Highest accepted number of decimals.
pub const MAX_DECIMALS: u8 = 9;

/// Seed tag under which launch records are addressed: the bytes of
/// `launched_asset`.
pub const LAUNCHED_ASSET_SEED: [u8; 14] = [
    108, 97, 117, 110, 99, 104, 101, 100, 95, 97, 115, 115, 101, 116,
];

/// Identity of the legacy token-ledger service
/// (`TokenkegQfeZyiNwAJbNbGKPFXCWuBvf9Ss623VQ5DA`).
pub const TOKEN_PROGRAM_ID: [u8; 32] = [
    6, 221, 246, 225, 215, 101, 161, 147, 217, 203, 225, 70, 206, 235, 121, 172, 28, 180, 133,
    237, 95, 91, 55, 145, 58, 140, 245, 133, 126, 255, 0, 169,
];

/// Identity of the extended token-ledger service
/// (`TokenzQdBNbLqP5VEhdkAS6EPFLC1PHnBqCXEpPxuEb`).
pub const TOKEN_2022_PROGRAM_ID: [u8; 32] = [
    6, 221, 246, 225, 238, 117, 143, 222, 24, 66, 93, 188, 228, 108, 205, 218, 182, 26, 252, 77,
    131, 185, 13, 39, 254, 189, 249, 40, 216, 161, 139, 252,
];

/// Identity of this processor's own authority domain
/// (`4n6ByGTtLj4fTgLApV2aigC3XzWZhCmYkNbcfVheGzd8`).
pub const PROGRAM_ID: [u8; 32] = [
    56, 32, 16, 135, 112, 36, 140, 204, 109, 140, 8, 198, 167, 232, 66, 232, 161, 105, 42, 81, 12,
    158, 148, 144, 248, 104, 168, 248, 216, 168, 18, 219,
];

/// The legacy token-ledger service identity as an `Identity`.
pub fn token_program_id() -> (r: Identity)
    ensures
        r@ == TOKEN_PROGRAM_ID@,
{
    Identity::new(TOKEN_PROGRAM_ID)
}

/// The extended token-ledger service identity as an `Identity`.
pub fn token_2022_program_id() -> (r: Identity)
    ensures
        r@ == TOKEN_2022_PROGRAM_ID@,
{
    Identity::new(TOKEN_2022_PROGRAM_ID)
}

/// This processor's own identity as an `Identity`.
pub fn id() -> (r: Identity)
    ensures
        r@ == PROGRAM_ID@,
{
    Identity::new(PROGRAM_ID)
}

} // verus!
