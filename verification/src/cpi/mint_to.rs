//! Mint supply into a holder account.

use vstd::bytes::spec_u64_to_le_bytes;
use vstd::bytes::u64_to_le_bytes;
use vstd::prelude::*;

use crate::identity::Identity;
use crate::ledger::{
    spec_holder_index, spec_mint_index, spec_mint_to_allowed, HolderEntry, Ledger, MintEntry,
};
use crate::state::LaunchError;

verus! {

/// The wire image of the mint-to sub-operation.
#[derive(Clone, Copy, Debug)]
pub struct MintToInstructionData {
    /// Always 7.
    pub discriminator: u8,
    pub amount: u64,
}

/// The bytes of a mint-to sub-operation: the discriminator, then the amount
/// in little-endian order.
pub open spec fn spec_mint_to_bytes(d: MintToInstructionData) -> Seq<u8> {
    seq![d.discriminator] + spec_u64_to_le_bytes(d.amount)
}

impl MintToInstructionData {
    /// The sub-operation's bytes: fields in declared order.
    pub fn encode(&self) -> (r: Vec<u8>)
        ensures
            r@ == spec_mint_to_bytes(*self),
    {
        let mut out: Vec<u8> = Vec::new();
        out.push(self.discriminator);
        let mut amount = u64_to_le_bytes(self.amount);
        out.append(&mut amount);
        proof {
            assert(out@ =~= spec_mint_to_bytes(*self));
        }
        out
    }
}

/// Mint `amount` units of `mint` into the holder account at
/// `token_account`, authorized by `mint_authority`.
///
/// Fails, leaving the ledger unchanged, exactly when the ledger refuses the
/// sub-operation: the mint or holder account is missing, the holder belongs
/// to another mint, the remaining mint authority is not `mint_authority`,
/// or a balance would overflow.
pub fn process(
    mint: &Identity,
    token_account: &Identity,
    mint_authority: &Identity,
    amount: u64,
    ledger: &mut Ledger,
) -> (r: Result<(), LaunchError>)
    ensures
        r is Ok <==> spec_mint_to_allowed(
            old(ledger).mints@,
            old(ledger).holders@,
            mint@,
            token_account@,
            mint_authority@,
            amount,
        ),
        r is Err ==> *final(ledger) == *old(ledger) && r == Err::<(), LaunchError>(
            LaunchError::ExternalCallFailed,
        ),
        r is Ok ==> {
            let mi = spec_mint_index(old(ledger).mints@, mint@);
            let hi = spec_holder_index(old(ledger).holders@, token_account@);
            &&& final(ledger).mints@ =~= old(ledger).mints@.update(
                mi,
                (MintEntry {
                    supply: (old(ledger).mints@[mi].supply + amount) as u64,
                    ..old(ledger).mints@[mi]
                }),
            )
            &&& final(ledger).holders@ =~= old(ledger).holders@.update(
                hi,
                (HolderEntry {
                    amount: (old(ledger).holders@[hi].amount + amount) as u64,
                    ..old(ledger).holders@[hi]
                }),
            )
            &&& final(ledger).accounts@ == old(ledger).accounts@
            &&& final(ledger).records@ == old(ledger).records@
        },
{
    ledger.mint_to(mint, token_account, mint_authority, amount)
}

} // verus!
