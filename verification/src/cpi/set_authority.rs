//! Clear a mint's authority, irreversibly.

use vstd::prelude::*;

use crate::codec::write_identity;
use crate::identity::Identity;
use crate::ledger::{spec_mint_index, Ledger, MintEntry};
use crate::state::LaunchError;

verus! {

/// The wire image of the set-authority sub-operation.
#[derive(Clone, Copy, Debug)]
pub struct SetAuthorityInstructionData {
    /// Always 6.
    pub discriminator: u8,
    /// 0 selects the mint authority, 1 the freeze authority.
    pub authority_type: u8,
    /// 1 when a new authority follows, 0 to clear the slot.
    pub new_authority_option: u8,
    pub new_authority: Identity,
}

/// The bytes of a set-authority sub-operation: fields in declared order.
pub open spec fn spec_set_authority_bytes(d: SetAuthorityInstructionData) -> Seq<u8> {
    seq![d.discriminator, d.authority_type, d.new_authority_option] + d.new_authority@
}

impl SetAuthorityInstructionData {
    /// The sub-operation's bytes: fields in declared order.
    pub fn encode(&self) -> (r: Vec<u8>)
        ensures
            r@ == spec_set_authority_bytes(*self),
    {
        let mut out: Vec<u8> = Vec::new();
        out.push(self.discriminator);
        out.push(self.authority_type);
        out.push(self.new_authority_option);
        write_identity(&mut out, &self.new_authority);
        proof {
            assert(out@ =~= spec_set_authority_bytes(*self));
        }
        out
    }
}

/// Clear the mint authority of `mint`, authorized by `authority`.
///
/// Fails, leaving the ledger unchanged, exactly when the mint does not
/// exist or its remaining authority is not `authority`. Once cleared, no
/// further supply of that mint can ever be minted.
pub fn process(mint: &Identity, authority: &Identity, ledger: &mut Ledger) -> (r: Result<
    (),
    LaunchError,
>)
    ensures
        r is Ok <==> ({
            let mi = spec_mint_index(old(ledger).mints@, mint@);
            &&& mi >= 0
            &&& old(ledger).mints@[mi].authority matches Some(a) && a@ == authority@
        }),
        r is Err ==> *final(ledger) == *old(ledger) && r == Err::<(), LaunchError>(
            LaunchError::ExternalCallFailed,
        ),
        r is Ok ==> {
            let mi = spec_mint_index(old(ledger).mints@, mint@);
            &&& final(ledger).mints@ =~= old(ledger).mints@.update(
                mi,
                (MintEntry { authority: None, ..old(ledger).mints@[mi] }),
            )
            &&& final(ledger).accounts@ == old(ledger).accounts@
            &&& final(ledger).holders@ == old(ledger).holders@
            &&& final(ledger).records@ == old(ledger).records@
        },
{
    ledger.clear_mint_authority(mint, authority)
}

} // verus!
