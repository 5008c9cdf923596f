//! Configuration validation and deterministic record-address derivation.

use vstd::prelude::*;

use crate::constants::{
    LAUNCHED_ASSET_SEED, MAX_DECIMALS, MAX_NAME_LENGTH, MAX_SYMBOL_LENGTH, MAX_URI_LENGTH,
};
use crate::identity::Identity;
use crate::state::{LaunchConfig, LaunchConfigV, Violation};

verus! {

/// Whether a configuration stays within every fixed bound.
pub open spec fn config_within_bounds(c: LaunchConfigV) -> bool {
    &&& c.name.len() <= MAX_NAME_LENGTH
    &&& c.symbol.len() <= MAX_SYMBOL_LENGTH
    &&& c.metadata_uri.len() <= MAX_URI_LENGTH
    &&& c.decimals <= MAX_DECIMALS
}

/// The outcome of validation: the bounds are checked in a fixed order
/// (name, symbol, URI, decimals) and the first broken one is reported.
pub open spec fn spec_validate_launch_config(c: LaunchConfigV) -> Result<(), Violation> {
    if c.name.len() > MAX_NAME_LENGTH {
        Err(Violation::NameTooLong)
    } else if c.symbol.len() > MAX_SYMBOL_LENGTH {
        Err(Violation::SymbolTooLong)
    } else if c.metadata_uri.len() > MAX_URI_LENGTH {
        Err(Violation::UriTooLong)
    } else if c.decimals > MAX_DECIMALS {
        Err(Violation::DecimalsTooHigh)
    } else {
        Ok(())
    }
}

/// Check a launch configuration against the fixed bounds.
///
/// Exactly the configurations within every bound pass; an invalid one is
/// reported with the first bound broken, in name, symbol, URI, decimals
/// order.
pub fn validate_launch_config(config: &LaunchConfig) -> (r: Result<(), Violation>)
    ensures
        r == spec_validate_launch_config(config@),
        r is Ok <==> config_within_bounds(config@),
{
    if config.name.len() > MAX_NAME_LENGTH {
        Err(Violation::NameTooLong)
    } else if config.symbol.len() > MAX_SYMBOL_LENGTH {
        Err(Violation::SymbolTooLong)
    } else if config.metadata_uri.len() > MAX_URI_LENGTH {
        Err(Violation::UriTooLong)
    } else if config.decimals > MAX_DECIMALS {
        Err(Violation::DecimalsTooHigh)
    } else {
        Ok(())
    }
}

/// The address and bump that the hash-based derivation yields for the given
/// seed tag, key and program identity, or `None` in the statistically
/// improbable event that no bump yields an off-curve address.
pub uninterp spec fn pda_of(tag: Seq<u8>, key: Seq<u8>, program_id: Seq<u8>) -> Option<
    (Seq<u8>, u8),
>;

/// Relies on `solana_program::pubkey::Pubkey::try_find_program_address`:
/// the derived address and bump are a pure function of the seed slices and
/// the program identity, and `None` comes only when no bump seed yields an
/// off-curve address.
#[verifier::external_body]
fn find_derived_address(tag: &Vec<u8>, key: &Identity, program_id: &Identity) -> (r: Option<
    (Identity, u8),
>)
    ensures
        match r {
            Some(p) => pda_of(tag@, key@, program_id@) == Some((p.0@, p.1)),
            None => pda_of(tag@, key@, program_id@) is None,
        },
{
    let program = solana_program::pubkey::Pubkey::new_from_array(program_id.bytes);
    let seeds: [&[u8]; 2] = [tag.as_slice(), &key.bytes];
    solana_program::pubkey::Pubkey::try_find_program_address(&seeds, &program)
        .map(|(address, bump)| (Identity { bytes: address.to_bytes() }, bump))
}

/// The seed tag as a sequence of bytes.
pub open spec fn spec_launched_asset_seed() -> Seq<u8> {
    LAUNCHED_ASSET_SEED@
}

/// The seed tag as a byte vector.
fn launched_asset_seed() -> (r: Vec<u8>)
    ensures
        r@ == spec_launched_asset_seed(),
{
    let mut r: Vec<u8> = Vec::new();
    let mut i: usize = 0;
    while i < 14
        invariant
            0 <= i <= 14,
            r@ =~= LAUNCHED_ASSET_SEED@.subrange(0, i as int),
        decreases 14 - i,
    {
        r.push(LAUNCHED_ASSET_SEED[i]);
        i += 1;
    }
    proof {
        assert(r@ =~= LAUNCHED_ASSET_SEED@);
    }
    r
}

/// Derive the record address and disambiguation bump for a launched asset.
///
/// The result is a pure function of the program identity and the mint
/// identity: repeated calls with identical inputs yield identical outputs.
/// `None` comes only in the statistically improbable event that no bump
/// yields an off-curve address.
pub fn get_launched_asset_pda(program_id: &Identity, mint: &Identity) -> (r: Option<
    (Identity, u8),
>)
    ensures
        match r {
            Some(p) => pda_of(spec_launched_asset_seed(), mint@, program_id@) == Some(
                (p.0@, p.1),
            ),
            None => pda_of(spec_launched_asset_seed(), mint@, program_id@) is None,
        },
{
    let tag = launched_asset_seed();
    find_derived_address(&tag, mint, program_id)
}

} // verus!
