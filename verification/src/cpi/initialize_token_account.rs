//! Create a holder account and initialize it.

use vstd::prelude::*;

use crate::codec::write_identity;
use crate::identity::Identity;
use crate::ledger::{
    account_rec_is, holder_entry_is, lemma_addr_index_spec, spec_has_account, spec_holder_index,
    spec_mint_index, Ledger,
};
use crate::state::LaunchError;

verus! {

/// Size in bytes of the ledger service's fixed holder-account layout.
pub const TOKEN_ACCOUNT_SIZE: u64 = 165;

/// The wire image of the initialize-account sub-operation.
#[derive(Clone, Copy, Debug)]
pub struct InitializeTokenAccountInstructionData {
    /// Always 18.
    pub discriminator: u8,
    pub owner: Identity,
}

/// The bytes of an initialize-account sub-operation: fields in declared
/// order.
pub open spec fn spec_initialize_token_account_bytes(
    d: InitializeTokenAccountInstructionData,
) -> Seq<u8> {
    seq![d.discriminator] + d.owner@
}

impl InitializeTokenAccountInstructionData {
    /// The sub-operation's bytes: fields in declared order.
    pub fn encode(&self) -> (r: Vec<u8>)
        ensures
            r@ == spec_initialize_token_account_bytes(*self),
    {
        let mut out: Vec<u8> = Vec::new();
        out.push(self.discriminator);
        write_identity(&mut out, &self.owner);
        proof {
            assert(out@ =~= spec_initialize_token_account_bytes(*self));
        }
        out
    }
}

/// Allocate storage for a holder account at `token_account`, funded by
/// `payer` and owned by `token_program`, then initialize it to track `mint`
/// for owner `payer` with balance zero.
///
/// Fails, leaving the ledger unchanged, exactly when the address is already
/// allocated, a holder account already sits there, or the mint does not
/// exist.
pub fn process(
    payer: &Identity,
    token_account: &Identity,
    mint: &Identity,
    token_program: &Identity,
    ledger: &mut Ledger,
) -> (r: Result<(), LaunchError>)
    ensures
        r is Ok <==> !spec_has_account(old(ledger).accounts@, token_account@)
            && spec_holder_index(old(ledger).holders@, token_account@) == -1 && spec_mint_index(
            old(ledger).mints@,
            mint@,
        ) >= 0,
        r is Err ==> *final(ledger) == *old(ledger) && r == Err::<(), LaunchError>(
            LaunchError::ExternalCallFailed,
        ),
        r is Ok ==> {
            &&& final(ledger).accounts@.len() == old(ledger).accounts@.len() + 1
            &&& final(ledger).accounts@.drop_last() =~= old(ledger).accounts@
            &&& account_rec_is(
                final(ledger).accounts@.last(),
                token_account@,
                payer@,
                token_program@,
                TOKEN_ACCOUNT_SIZE,
            )
            &&& final(ledger).holders@.len() == old(ledger).holders@.len() + 1
            &&& final(ledger).holders@.drop_last() =~= old(ledger).holders@
            &&& holder_entry_is(final(ledger).holders@.last(), token_account@, mint@, payer@, 0u64)
            &&& final(ledger).mints@ == old(ledger).mints@
            &&& final(ledger).records@ == old(ledger).records@
        },
{
    if ledger.is_allocated(token_account) {
        return Err(LaunchError::ExternalCallFailed);
    }
    if ledger.get_holder(token_account).is_some() {
        return Err(LaunchError::ExternalCallFailed);
    }
    if ledger.get_mint(mint).is_none() {
        return Err(LaunchError::ExternalCallFailed);
    }
    match ledger.create_account(payer, token_account, TOKEN_ACCOUNT_SIZE, token_program) {
        Ok(()) => (),
        Err(e) => {
            return Err(e);
        },
    }
    proof {
        let addrs = crate::ledger::account_addresses(ledger.accounts@);
        lemma_addr_index_spec(addrs, token_account@);
        assert(addrs[addrs.len() - 1] == token_account@);
    }
    match ledger.initialize_holder_account(token_account, mint, payer) {
        Ok(()) => (),
        Err(e) => {
            return Err(e);
        },
    }
    Ok(())
}

} // verus!
