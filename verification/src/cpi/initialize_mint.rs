//! Create a mint account and initialize it.

use vstd::prelude::*;

use crate::codec::write_identity;
use crate::identity::Identity;
use crate::ledger::{
    account_rec_is, lemma_addr_index_spec, mint_entry_is, spec_has_account, spec_mint_index,
    Ledger,
};
use crate::state::LaunchError;

verus! {

/// Size in bytes of the ledger service's fixed mint-account layout.
pub const MINT_ACCOUNT_SIZE: u64 = 82;

/// The wire image of the initialize-mint sub-operation.
#[derive(Clone, Copy, Debug)]
pub struct InitializeMintInstructionData {
    /// Always 20.
    pub discriminator: u8,
    pub decimals: u8,
    pub mint_authority: Identity,
    /// 1 when a freeze authority follows, 0 otherwise.
    pub freeze_authority_option: u8,
    pub freeze_authority: Identity,
}

/// The bytes of an initialize-mint sub-operation: fields in declared order.
pub open spec fn spec_initialize_mint_bytes(d: InitializeMintInstructionData) -> Seq<u8> {
    seq![d.discriminator, d.decimals] + d.mint_authority@ + seq![d.freeze_authority_option]
        + d.freeze_authority@
}

impl InitializeMintInstructionData {
    /// The sub-operation's bytes: fields in declared order.
    pub fn encode(&self) -> (r: Vec<u8>)
        ensures
            r@ == spec_initialize_mint_bytes(*self),
    {
        let mut out: Vec<u8> = Vec::new();
        out.push(self.discriminator);
        out.push(self.decimals);
        write_identity(&mut out, &self.mint_authority);
        out.push(self.freeze_authority_option);
        write_identity(&mut out, &self.freeze_authority);
        proof {
            assert(out@ =~= spec_initialize_mint_bytes(*self));
        }
        out
    }
}

/// Allocate storage for a mint at `mint`, funded by `mint_authority` and
/// owned by `token_program`, then initialize it with `decimals` decimals
/// and `mint_authority` as its mint authority.
///
/// Fails, leaving the ledger unchanged, exactly when the mint address is
/// already allocated or already initialized as a mint.
pub fn process(
    mint_authority: &Identity,
    mint: &Identity,
    token_program: &Identity,
    ledger: &mut Ledger,
    decimals: u8,
) -> (r: Result<(), LaunchError>)
    ensures
        r is Ok <==> !spec_has_account(old(ledger).accounts@, mint@) && spec_mint_index(
            old(ledger).mints@,
            mint@,
        ) == -1,
        r is Err ==> *final(ledger) == *old(ledger) && r == Err::<(), LaunchError>(
            LaunchError::ExternalCallFailed,
        ),
        r is Ok ==> {
            &&& final(ledger).accounts@.len() == old(ledger).accounts@.len() + 1
            &&& final(ledger).accounts@.drop_last() =~= old(ledger).accounts@
            &&& account_rec_is(
                final(ledger).accounts@.last(),
                mint@,
                mint_authority@,
                token_program@,
                MINT_ACCOUNT_SIZE,
            )
            &&& final(ledger).mints@.len() == old(ledger).mints@.len() + 1
            &&& final(ledger).mints@.drop_last() =~= old(ledger).mints@
            &&& mint_entry_is(
                final(ledger).mints@.last(),
                mint@,
                decimals,
                0u64,
                Some(mint_authority@),
            )
            &&& final(ledger).holders@ == old(ledger).holders@
            &&& final(ledger).records@ == old(ledger).records@
        },
{
    if ledger.is_allocated(mint) {
        return Err(LaunchError::ExternalCallFailed);
    }
    if ledger.get_mint(mint).is_some() {
        return Err(LaunchError::ExternalCallFailed);
    }
    match ledger.create_account(mint_authority, mint, MINT_ACCOUNT_SIZE, token_program) {
        Ok(()) => (),
        Err(e) => {
            return Err(e);
        },
    }
    proof {
        let addrs = crate::ledger::account_addresses(ledger.accounts@);
        lemma_addr_index_spec(addrs, mint@);
        assert(addrs[addrs.len() - 1] == mint@);
    }
    match ledger.initialize_mint(mint, mint_authority, decimals) {
        Ok(()) => (),
        Err(e) => {
            return Err(e);
        },
    }
    Ok(())
}

} // verus!
