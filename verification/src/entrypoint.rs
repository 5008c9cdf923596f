//! The processor's entry point: decode a wire payload, then launch.

use vstd::prelude::*;

use crate::codec::{decode_instruction, spec_decode_request};
use crate::identity::Identity;
use crate::ledger::Ledger;
use crate::processor::{launch_asset, spec_first_failure, spec_launch_success};
use crate::state::{AccountEntry, Asset, LaunchError, LaunchpadInstruction};

verus! {

/// Process one encoded request against the ledger.
///
/// A payload that is not the encoding of a well-formed request is rejected
/// as `InvalidInstructionData` before any account is touched; otherwise the
/// decoded launch runs with `launch_asset`'s exact outcome.
pub fn process_instruction(
    program_id: &Identity,
    accounts: &Vec<AccountEntry>,
    instruction_data: &[u8],
    ledger: &mut Ledger,
) -> (r: Result<Asset, LaunchError>)
    ensures
        spec_decode_request(instruction_data@) is None ==> r == Err::<Asset, LaunchError>(
            LaunchError::InvalidInstructionData,
        ) && *final(ledger) == *old(ledger),
        spec_decode_request(instruction_data@) matches Some(req) ==> {
            let c = req->config;
            &&& (r is Ok <==> spec_first_failure(
                program_id@,
                accounts@,
                c,
                *old(ledger),
            ) is None)
            &&& (r matches Err(e) ==> Some(e) == spec_first_failure(
                program_id@,
                accounts@,
                c,
                *old(ledger),
            ) && *final(ledger) == *old(ledger))
            &&& (r matches Ok(asset) ==> spec_launch_success(
                program_id@,
                accounts@,
                c,
                *old(ledger),
                *final(ledger),
                asset@,
            ))
        },
{
    let instruction = match decode_instruction(instruction_data) {
        Ok(instruction) => instruction,
        Err(e) => {
            return Err(e);
        },
    };
    match instruction {
        LaunchpadInstruction::LaunchAsset { config } => launch_asset(
            program_id,
            accounts,
            &config,
            ledger,
        ),
    }
}

} // verus!
