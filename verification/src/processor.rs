//! The asset-launch orchestrator.
//!
//! `launch_asset` validates the configuration, verifies the payer's
//! authorization and the ledger-service target, checks every address the
//! launch will touch, and only then drives the per-asset-type pipeline and
//! writes the launch record: a rejected launch leaves the ledger exactly as
//! it was, and a successful one extends it by the mint, the funded holder
//! account (when supply is minted) and the immutable record at the derived
//! address.

use vstd::prelude::*;

use crate::codec::spec_encode_asset;
use crate::constants::{TOKEN_2022_PROGRAM_ID, TOKEN_PROGRAM_ID};
use crate::cpi;
use crate::cpi::initialize_mint::MINT_ACCOUNT_SIZE;
use crate::cpi::initialize_token_account::TOKEN_ACCOUNT_SIZE;
use crate::identity::Identity;
use crate::ledger::{
    account_addresses, account_rec_is, holder_addresses, holder_entry_is, lemma_addr_index_none,
    lemma_addr_index_spec, mint_entry_is, spec_has_account, spec_holder_index, spec_mint_index,
    spec_record_index, Ledger,
};
use crate::state::{
    AccountEntry, Asset, AssetType, AssetV, LaunchConfig, LaunchConfigV, LaunchError,
};
use crate::util::{
    config_within_bounds, get_launched_asset_pda, pda_of, spec_launched_asset_seed,
    spec_validate_launch_config, validate_launch_config,
};

verus! {

/// Supply actually minted for a configuration: non-fungible assets get
/// exactly one unit, whatever was requested.
pub open spec fn spec_minted_amount(c: LaunchConfigV) -> u64 {
    if c.asset_type is StandardNft {
        1u64
    } else {
        c.total_supply
    }
}

/// Decimals the mint is initialized with: zero for non-fungible assets.
pub open spec fn spec_mint_decimals(c: LaunchConfigV) -> u8 {
    if c.asset_type is StandardNft {
        0u8
    } else {
        c.decimals
    }
}

/// Whether the launch funds a holder account: always for non-fungible
/// assets, otherwise only when supply is to be minted.
pub open spec fn spec_needs_holder(c: LaunchConfigV) -> bool {
    c.asset_type is StandardNft || c.total_supply > 0
}

/// Whether the launch ends by revoking the mint authority.
pub open spec fn spec_clears_authority(c: LaunchConfigV) -> bool {
    c.asset_type is StandardNft
}

/// The asset record a successful launch persists.
pub open spec fn spec_launched_asset(c: LaunchConfigV, mint: Seq<u8>) -> AssetV {
    AssetV {
        asset_type: c.asset_type,
        mint,
        creator: c.creator,
        name: c.name,
        symbol: c.symbol,
        total_supply: spec_minted_amount(c),
        launch_timestamp: 0,
    }
}

/// First failure of a fungible pipeline: wrong ledger-service target, then
/// an occupied mint address, then an occupied holder address.
pub open spec fn spec_fungible_failure(
    l: Ledger,
    expected: Seq<u8>,
    token_program: Seq<u8>,
    mint: Seq<u8>,
    token: Seq<u8>,
    supply: u64,
) -> Option<LaunchError> {
    if token_program != expected {
        Some(LaunchError::WrongServiceTarget)
    } else if spec_has_account(l.accounts@, mint) || spec_mint_index(l.mints@, mint) >= 0 {
        Some(LaunchError::ExternalCallFailed)
    } else if supply > 0 && (spec_has_account(l.accounts@, token) || token == mint
        || spec_holder_index(l.holders@, token) >= 0) {
        Some(LaunchError::ExternalCallFailed)
    } else {
        None
    }
}

/// First failure of the non-fungible pipeline: an occupied mint address,
/// then an occupied holder address.
pub open spec fn spec_nft_failure(l: Ledger, mint: Seq<u8>, token: Seq<u8>) -> Option<
    LaunchError,
> {
    if spec_has_account(l.accounts@, mint) || spec_mint_index(l.mints@, mint) >= 0 {
        Some(LaunchError::ExternalCallFailed)
    } else if spec_has_account(l.accounts@, token) || token == mint || spec_holder_index(
        l.holders@,
        token,
    ) >= 0 {
        Some(LaunchError::ExternalCallFailed)
    } else {
        None
    }
}

/// First failure of the record-writing step: no derivable address, a
/// supplied record account that differs from the derived address, then an
/// occupied derived address.
pub open spec fn spec_record_failure(
    l: Ledger,
    program_id: Seq<u8>,
    mint: Seq<u8>,
    metadata_account: Seq<u8>,
) -> Option<LaunchError> {
    match pda_of(spec_launched_asset_seed(), mint, program_id) {
        None => Some(LaunchError::ExternalCallFailed),
        Some(p) => if metadata_account != p.0 {
            Some(LaunchError::AddressMismatch)
        } else if spec_has_account(l.accounts@, p.0) || spec_record_index(l.records@, p.0) >= 0 {
            Some(LaunchError::ExternalCallFailed)
        } else {
            None
        },
    }
}

/// The first failure of a whole launch, in the order the processor checks:
/// configuration bounds, account count, payer authorization, the asset
/// type's pipeline, then the record step at the derived address.
pub open spec fn spec_first_failure(
    program_id: Seq<u8>,
    accounts: Seq<AccountEntry>,
    c: LaunchConfigV,
    l: Ledger,
) -> Option<LaunchError> {
    if spec_validate_launch_config(c) is Err {
        Some(LaunchError::InvalidConfig(spec_validate_launch_config(c)->Err_0))
    } else if accounts.len() < 6 {
        Some(LaunchError::MissingAuthorization)
    } else if !accounts[0].is_signer {
        Some(LaunchError::MissingAuthorization)
    } else {
        let mint = accounts[1].key@;
        let token = accounts[2].key@;
        let metadata_account = accounts[3].key@;
        let token_program = accounts[5].key@;
        let pipeline = match c.asset_type {
            AssetType::SplTokenLegacy => spec_fungible_failure(
                l,
                TOKEN_PROGRAM_ID@,
                token_program,
                mint,
                token,
                c.total_supply,
            ),
            AssetType::SplToken2022 => spec_fungible_failure(
                l,
                TOKEN_2022_PROGRAM_ID@,
                token_program,
                mint,
                token,
                c.total_supply,
            ),
            AssetType::StandardNft => spec_nft_failure(l, mint, token),
        };
        if pipeline is Some {
            pipeline
        } else {
            match pda_of(spec_launched_asset_seed(), mint, program_id) {
                None => Some(LaunchError::ExternalCallFailed),
                Some(p) => if metadata_account != p.0 {
                    Some(LaunchError::AddressMismatch)
                } else if spec_has_account(l.accounts@, p.0) || p.0 == mint || (spec_needs_holder(
                    c,
                ) && p.0 == token) || spec_record_index(l.records@, p.0) >= 0 {
                    Some(LaunchError::ExternalCallFailed)
                } else {
                    None
                },
            }
        }
    }
}

/// The ledger state a pipeline leaves behind: the mint account and entry,
/// and, when supply is minted, the holder account and its funded entry.
pub open spec fn spec_pipeline_state(
    old_l: Ledger,
    new_l: Ledger,
    payer: Seq<u8>,
    mint: Seq<u8>,
    token: Seq<u8>,
    token_program: Seq<u8>,
    decimals: u8,
    amount: u64,
    with_holder: bool,
    cleared: bool,
) -> bool {
    let base = old_l.accounts@.len() as int;
    &&& new_l.accounts@.len() == base + (if with_holder {
        2int
    } else {
        1int
    })
    &&& new_l.accounts@.subrange(0, base) == old_l.accounts@
    &&& account_rec_is(new_l.accounts@[base], mint, payer, token_program, MINT_ACCOUNT_SIZE)
    &&& (with_holder ==> account_rec_is(
        new_l.accounts@.last(),
        token,
        payer,
        token_program,
        TOKEN_ACCOUNT_SIZE,
    ))
    &&& new_l.mints@.len() == old_l.mints@.len() + 1
    &&& new_l.mints@.drop_last() == old_l.mints@
    &&& mint_entry_is(
        new_l.mints@.last(),
        mint,
        decimals,
        amount,
        if cleared {
            None
        } else {
            Some(payer)
        },
    )
    &&& (if with_holder {
        &&& new_l.holders@.len() == old_l.holders@.len() + 1
        &&& new_l.holders@.drop_last() == old_l.holders@
        &&& holder_entry_is(new_l.holders@.last(), token, mint, payer, amount)
    } else {
        new_l.holders@ == old_l.holders@
    })
    &&& new_l.records@ == old_l.records@
}

/// Everything a successful launch did: the pipeline's state, the record
/// account at the derived address, the record's bytes, and the returned
/// asset.
pub open spec fn spec_launch_success(
    program_id: Seq<u8>,
    accounts: Seq<AccountEntry>,
    c: LaunchConfigV,
    old_l: Ledger,
    new_l: Ledger,
    asset: AssetV,
) -> bool {
    let payer = accounts[0].key@;
    let mint = accounts[1].key@;
    let token = accounts[2].key@;
    let token_program = accounts[5].key@;
    let derived = pda_of(spec_launched_asset_seed(), mint, program_id)->Some_0.0;
    let amount = spec_minted_amount(c);
    let record_bytes = spec_encode_asset(spec_launched_asset(c, mint));
    let base = old_l.accounts@.len() as int;
    let n_new: int = if spec_needs_holder(c) {
        3
    } else {
        2
    };
    &&& asset == spec_launched_asset(c, mint)
    &&& new_l.accounts@.len() == base + n_new
    &&& new_l.accounts@.subrange(0, base) == old_l.accounts@
    &&& account_rec_is(new_l.accounts@[base], mint, payer, token_program, MINT_ACCOUNT_SIZE)
    &&& (spec_needs_holder(c) ==> account_rec_is(
        new_l.accounts@[base + 1],
        token,
        payer,
        token_program,
        TOKEN_ACCOUNT_SIZE,
    ))
    &&& account_rec_is(
        new_l.accounts@.last(),
        derived,
        payer,
        program_id,
        record_bytes.len() as u64,
    )
    &&& new_l.mints@.len() == old_l.mints@.len() + 1
    &&& new_l.mints@.drop_last() == old_l.mints@
    &&& mint_entry_is(
        new_l.mints@.last(),
        mint,
        spec_mint_decimals(c),
        amount,
        if spec_clears_authority(c) {
            None
        } else {
            Some(payer)
        },
    )
    &&& (if spec_needs_holder(c) {
        &&& new_l.holders@.len() == old_l.holders@.len() + 1
        &&& new_l.holders@.drop_last() == old_l.holders@
        &&& holder_entry_is(new_l.holders@.last(), token, mint, payer, amount)
    } else {
        new_l.holders@ == old_l.holders@
    })
    &&& new_l.records@.len() == old_l.records@.len() + 1
    &&& new_l.records@.drop_last() == old_l.records@
    &&& new_l.records@.last().address@ == derived
    &&& new_l.records@.last().data@ == record_bytes
}

/// Create the holder account at `token_account` and mint `amount` units of
/// `mint` into it, authorized by `payer`.
fn create_and_mint_to_token_account(
    payer: &Identity,
    mint: &Identity,
    token_account: &Identity,
    token_program: &Identity,
    amount: u64,
    ledger: &mut Ledger,
) -> (r: Result<(), LaunchError>)
    ensures
        r is Ok <==> ({
            let mi = spec_mint_index(old(ledger).mints@, mint@);
            &&& !spec_has_account(old(ledger).accounts@, token_account@)
            &&& spec_holder_index(old(ledger).holders@, token_account@) == -1
            &&& mi >= 0
            &&& old(ledger).mints@[mi].authority matches Some(a) && a@ == payer@
            &&& old(ledger).mints@[mi].supply + amount <= u64::MAX
        }),
        r is Err ==> *final(ledger) == *old(ledger) && r == Err::<(), LaunchError>(
            LaunchError::ExternalCallFailed,
        ),
        r is Ok ==> ({
            let mi = spec_mint_index(old(ledger).mints@, mint@);
            &&& final(ledger).accounts@.len() == old(ledger).accounts@.len() + 1
            &&& final(ledger).accounts@.drop_last() =~= old(ledger).accounts@
            &&& account_rec_is(
                final(ledger).accounts@.last(),
                token_account@,
                payer@,
                token_program@,
                TOKEN_ACCOUNT_SIZE,
            )
            &&& final(ledger).holders@.len() == old(ledger).holders@.len() + 1
            &&& final(ledger).holders@.drop_last() =~= old(ledger).holders@
            &&& holder_entry_is(
                final(ledger).holders@.last(),
                token_account@,
                mint@,
                payer@,
                amount,
            )
            &&& final(ledger).mints@ =~= old(ledger).mints@.update(
                mi,
                (crate::ledger::MintEntry {
                    supply: (old(ledger).mints@[mi].supply + amount) as u64,
                    ..old(ledger).mints@[mi]
                }),
            )
            &&& final(ledger).records@ == old(ledger).records@
        }),
{
    if ledger.is_allocated(token_account) {
        return Err(LaunchError::ExternalCallFailed);
    }
    if ledger.get_holder(token_account).is_some() {
        return Err(LaunchError::ExternalCallFailed);
    }
    let mint_entry = match ledger.get_mint(mint) {
        Some(m) => m,
        None => {
            return Err(LaunchError::ExternalCallFailed);
        },
    };
    let authorized = match mint_entry.authority {
        Some(a) => a == *payer,
        None => false,
    };
    if !authorized {
        return Err(LaunchError::ExternalCallFailed);
    }
    if amount > u64::MAX - mint_entry.supply {
        return Err(LaunchError::ExternalCallFailed);
    }
    let ghost l0 = *ledger;
    match cpi::initialize_token_account::process(payer, token_account, mint, token_program, ledger
    ) {
        Ok(()) => (),
        Err(e) => {
            return Err(e);
        },
    }
    proof {
        assert(holder_addresses(ledger.holders@) =~= holder_addresses(l0.holders@).push(
            token_account@,
        ));
        lemma_addr_index_spec(holder_addresses(l0.holders@), token_account@);
        crate::ledger::lemma_addr_index_determined(
            holder_addresses(ledger.holders@),
            token_account@,
            l0.holders@.len() as int,
        );
    }
    match cpi::mint_to::process(mint, token_account, payer, amount, ledger) {
        Ok(()) => (),
        Err(e) => {
            return Err(e);
        },
    }
    proof {
        assert(ledger.holders@.drop_last() =~= l0.holders@);
        assert(ledger.accounts@.drop_last() =~= l0.accounts@);
    }
    Ok(())
}

/// Launch a legacy fungible token: verify the legacy ledger target,
/// initialize the mint, and, when supply is requested, fund a holder
/// account with it.
fn launch_spl_token_legacy(
    payer: &Identity,
    mint_account: &Identity,
    token_account: &Identity,
    token_program: &Identity,
    config: &LaunchConfig,
    ledger: &mut Ledger,
) -> (r: Result<(), LaunchError>)
    ensures
        r is Ok <==> spec_fungible_failure(
            *old(ledger),
            TOKEN_PROGRAM_ID@,
            token_program@,
            mint_account@,
            token_account@,
            config.total_supply,
        ) is None,
        r matches Err(e) ==> Some(e) == spec_fungible_failure(
            *old(ledger),
            TOKEN_PROGRAM_ID@,
            token_program@,
            mint_account@,
            token_account@,
            config.total_supply,
        ) && *final(ledger) == *old(ledger),
        r is Ok ==> spec_pipeline_state(
            *old(ledger),
            *final(ledger),
            payer@,
            mint_account@,
            token_account@,
            token_program@,
            config.decimals,
            config.total_supply,
            config.total_supply > 0,
            false,
        ),
{
    let expected = crate::constants::token_program_id();
    if !(*token_program == expected) {
        return Err(LaunchError::WrongServiceTarget);
    }
    launch_fungible(payer, mint_account, token_account, token_program, config, ledger)
}

/// Launch an extended fungible token: verify the extended ledger target,
/// initialize the mint, and, when supply is requested, fund a holder
/// account with it.
fn launch_spl_token_2022(
    payer: &Identity,
    mint_account: &Identity,
    token_account: &Identity,
    token_program: &Identity,
    config: &LaunchConfig,
    ledger: &mut Ledger,
) -> (r: Result<(), LaunchError>)
    ensures
        r is Ok <==> spec_fungible_failure(
            *old(ledger),
            TOKEN_2022_PROGRAM_ID@,
            token_program@,
            mint_account@,
            token_account@,
            config.total_supply,
        ) is None,
        r matches Err(e) ==> Some(e) == spec_fungible_failure(
            *old(ledger),
            TOKEN_2022_PROGRAM_ID@,
            token_program@,
            mint_account@,
            token_account@,
            config.total_supply,
        ) && *final(ledger) == *old(ledger),
        r is Ok ==> spec_pipeline_state(
            *old(ledger),
            *final(ledger),
            payer@,
            mint_account@,
            token_account@,
            token_program@,
            config.decimals,
            config.total_supply,
            config.total_supply > 0,
            false,
        ),
{
    let expected = crate::constants::token_2022_program_id();
    if !(*token_program == expected) {
        return Err(LaunchError::WrongServiceTarget);
    }
    launch_fungible(payer, mint_account, token_account, token_program, config, ledger)
}

/// The service-independent part of a fungible launch: initialize the mint,
/// then fund a holder account when supply is requested.
fn launch_fungible(
    payer: &Identity,
    mint_account: &Identity,
    token_account: &Identity,
    token_program: &Identity,
    config: &LaunchConfig,
    ledger: &mut Ledger,
) -> (r: Result<(), LaunchError>)
    ensures
        r is Ok <==> !(spec_has_account(old(ledger).accounts@, mint_account@) || spec_mint_index(
            old(ledger).mints@,
            mint_account@,
        ) >= 0) && !(config.total_supply > 0 && (spec_has_account(
            old(ledger).accounts@,
            token_account@,
        ) || token_account@ == mint_account@ || spec_holder_index(
            old(ledger).holders@,
            token_account@,
        ) >= 0)),
        r is Err ==> *final(ledger) == *old(ledger) && r == Err::<(), LaunchError>(
            LaunchError::ExternalCallFailed,
        ),
        r is Ok ==> spec_pipeline_state(
            *old(ledger),
            *final(ledger),
            payer@,
            mint_account@,
            token_account@,
            token_program@,
            config.decimals,
            config.total_supply,
            config.total_supply > 0,
            false,
        ),
{
    if ledger.is_allocated(mint_account) {
        return Err(LaunchError::ExternalCallFailed);
    }
    if ledger.get_mint(mint_account).is_some() {
        return Err(LaunchError::ExternalCallFailed);
    }
    if config.total_supply > 0 {
        let occupied = ledger.is_allocated(token_account) || *token_account == *mint_account
            || ledger.get_holder(token_account).is_some();
        if occupied {
            return Err(LaunchError::ExternalCallFailed);
        }
    }
    let ghost l0 = *ledger;
    match cpi::initialize_mint::process(payer, mint_account, token_program, ledger, config.decimals
    ) {
        Ok(()) => (),
        Err(e) => {
            return Err(e);
        },
    }
    if config.total_supply > 0 {
        proof {
            lemma_addr_index_spec(account_addresses(l0.accounts@), token_account@);
            assert(account_addresses(ledger.accounts@) =~= account_addresses(l0.accounts@).push(
                mint_account@,
            ));
            lemma_addr_index_none(account_addresses(ledger.accounts@), token_account@);
            lemma_addr_index_spec(crate::ledger::mint_addresses(l0.mints@), mint_account@);
            assert(crate::ledger::mint_addresses(ledger.mints@) =~= crate::ledger::mint_addresses(
                l0.mints@,
            ).push(mint_account@));
            crate::ledger::lemma_addr_index_determined(
                crate::ledger::mint_addresses(ledger.mints@),
                mint_account@,
                l0.mints@.len() as int,
            );
        }
        match create_and_mint_to_token_account(
            payer,
            mint_account,
            token_account,
            token_program,
            config.total_supply,
            ledger,
        ) {
            Ok(()) => (),
            Err(e) => {
                return Err(e);
            },
        }
        proof {
            assert(ledger.mints@ =~= l0.mints@.push(ledger.mints@.last()));
            assert(ledger.mints@.drop_last() =~= l0.mints@);
            assert(ledger.accounts@.subrange(0, l0.accounts@.len() as int) =~= l0.accounts@);
        }
    } else {
        proof {
            assert(ledger.accounts@.subrange(0, l0.accounts@.len() as int) =~= l0.accounts@);
        }
    }
    Ok(())
}

/// Launch a non-fungible asset: initialize the mint with zero decimals,
/// fund a holder account with exactly one unit whatever supply was
/// requested, and permanently revoke the mint authority.
fn launch_standard_nft(
    payer: &Identity,
    mint_account: &Identity,
    token_account: &Identity,
    token_program: &Identity,
    config: &LaunchConfig,
    ledger: &mut Ledger,
) -> (r: Result<(), LaunchError>)
    ensures
        r is Ok <==> spec_nft_failure(*old(ledger), mint_account@, token_account@) is None,
        r matches Err(e) ==> Some(e) == spec_nft_failure(
            *old(ledger),
            mint_account@,
            token_account@,
        ) && *final(ledger) == *old(ledger),
        r is Ok ==> spec_pipeline_state(
            *old(ledger),
            *final(ledger),
            payer@,
            mint_account@,
            token_account@,
            token_program@,
            0u8,
            1u64,
            true,
            true,
        ),
{
    if ledger.is_allocated(mint_account) {
        return Err(LaunchError::ExternalCallFailed);
    }
    if ledger.get_mint(mint_account).is_some() {
        return Err(LaunchError::ExternalCallFailed);
    }
    let occupied = ledger.is_allocated(token_account) || *token_account == *mint_account
        || ledger.get_holder(token_account).is_some();
    if occupied {
        return Err(LaunchError::ExternalCallFailed);
    }
    let ghost l0 = *ledger;
    match cpi::initialize_mint::process(payer, mint_account, token_program, ledger, 0) {
        Ok(()) => (),
        Err(e) => {
            return Err(e);
        },
    }
    proof {
        lemma_addr_index_spec(account_addresses(l0.accounts@), token_account@);
        assert(account_addresses(ledger.accounts@) =~= account_addresses(l0.accounts@).push(
            mint_account@,
        ));
        lemma_addr_index_none(account_addresses(ledger.accounts@), token_account@);
        lemma_addr_index_spec(crate::ledger::mint_addresses(l0.mints@), mint_account@);
        assert(crate::ledger::mint_addresses(ledger.mints@) =~= crate::ledger::mint_addresses(
            l0.mints@,
        ).push(mint_account@));
        crate::ledger::lemma_addr_index_determined(
            crate::ledger::mint_addresses(ledger.mints@),
            mint_account@,
            l0.mints@.len() as int,
        );
    }
    match create_and_mint_to_token_account(
        payer,
        mint_account,
        token_account,
        token_program,
        1,
        ledger,
    ) {
        Ok(()) => (),
        Err(e) => {
            return Err(e);
        },
    }
    let ghost l2 = *ledger;
    proof {
        assert(crate::ledger::mint_addresses(l2.mints@) =~= crate::ledger::mint_addresses(
            l0.mints@,
        ).push(mint_account@));
        crate::ledger::lemma_addr_index_determined(
            crate::ledger::mint_addresses(l2.mints@),
            mint_account@,
            l0.mints@.len() as int,
        );
    }
    match cpi::set_authority::process(mint_account, payer, ledger) {
        Ok(()) => (),
        Err(e) => {
            return Err(e);
        },
    }
    proof {
        assert(ledger.mints@.drop_last() =~= l0.mints@);
        assert(ledger.holders@.drop_last() =~= l0.holders@);
        assert(ledger.accounts@.subrange(0, l0.accounts@.len() as int) =~= l0.accounts@);
    }
    Ok(())
}

/// Derive the record address for the mint, verify the caller supplied
/// exactly that address, and allocate and populate the immutable asset
/// record there, funded by `payer` and owned by this processor's authority
/// domain.
fn create_launched_asset_account(
    program_id: &Identity,
    payer: &Identity,
    mint: &Identity,
    metadata_account: &Identity,
    config: &LaunchConfig,
    ledger: &mut Ledger,
) -> (r: Result<Asset, LaunchError>)
    requires
        config_within_bounds(config@),
    ensures
        r is Ok <==> spec_record_failure(
            *old(ledger),
            program_id@,
            mint@,
            metadata_account@,
        ) is None,
        r matches Err(e) ==> Some(e) == spec_record_failure(
            *old(ledger),
            program_id@,
            mint@,
            metadata_account@,
        ) && *final(ledger) == *old(ledger),
        r matches Ok(asset) ==> ({
            let derived = pda_of(spec_launched_asset_seed(), mint@, program_id@)->Some_0.0;
            let record_bytes = spec_encode_asset(spec_launched_asset(config@, mint@));
            &&& asset@ == spec_launched_asset(config@, mint@)
            &&& final(ledger).accounts@.len() == old(ledger).accounts@.len() + 1
            &&& final(ledger).accounts@.drop_last() =~= old(ledger).accounts@
            &&& account_rec_is(
                final(ledger).accounts@.last(),
                derived,
                payer@,
                program_id@,
                record_bytes.len() as u64,
            )
            &&& final(ledger).records@.len() == old(ledger).records@.len() + 1
            &&& final(ledger).records@.drop_last() =~= old(ledger).records@
            &&& final(ledger).records@.last().address@ == derived
            &&& final(ledger).records@.last().data@ == record_bytes
            &&& final(ledger).mints@ == old(ledger).mints@
            &&& final(ledger).holders@ == old(ledger).holders@
        }),
{
    let derived = match get_launched_asset_pda(program_id, mint) {
        Some(p) => p,
        None => {
            return Err(LaunchError::ExternalCallFailed);
        },
    };
    if !(*metadata_account == derived.0) {
        return Err(LaunchError::AddressMismatch);
    }
    if ledger.is_allocated(&derived.0) {
        return Err(LaunchError::ExternalCallFailed);
    }
    if ledger.get_record_data(&derived.0).is_some() {
        return Err(LaunchError::ExternalCallFailed);
    }
    let launched_supply: u64 = match config.asset_type {
        AssetType::StandardNft => 1,
        AssetType::SplTokenLegacy => config.total_supply,
        AssetType::SplToken2022 => config.total_supply,
    };
    let asset = Asset {
        asset_type: config.asset_type,
        mint: *mint,
        creator: config.creator,
        name: vstd::slice::slice_to_vec(config.name.as_slice()),
        symbol: vstd::slice::slice_to_vec(config.symbol.as_slice()),
        total_supply: launched_supply,
        launch_timestamp: 0,
    };
    let data = crate::codec::encode_asset(&asset);
    match ledger.create_account(payer, &derived.0, data.len() as u64, program_id) {
        Ok(()) => (),
        Err(e) => {
            return Err(e);
        },
    }
    match ledger.write_record(&derived.0, data) {
        Ok(()) => (),
        Err(e) => {
            return Err(e);
        },
    }
    Ok(asset)
}

/// Launch an asset.
///
/// The accounts arrive in a fixed order: payer, mint, holder account,
/// record account, system program, ledger-service program. Exactly the
/// launches with no failure in `spec_first_failure` succeed; a failed
/// launch reports the first failure in checking order and leaves the
/// ledger untouched, and a successful one leaves the state and returns the
/// record that `spec_launch_success` describes.
pub fn launch_asset(
    program_id: &Identity,
    accounts: &Vec<AccountEntry>,
    config: &LaunchConfig,
    ledger: &mut Ledger,
) -> (r: Result<Asset, LaunchError>)
    ensures
        r is Ok <==> spec_first_failure(program_id@, accounts@, config@, *old(ledger)) is None,
        r matches Err(e) ==> Some(e) == spec_first_failure(
            program_id@,
            accounts@,
            config@,
            *old(ledger),
        ) && *final(ledger) == *old(ledger),
        r matches Ok(asset) ==> spec_launch_success(
            program_id@,
            accounts@,
            config@,
            *old(ledger),
            *final(ledger),
            asset@,
        ),
{
    match validate_launch_config(config) {
        Ok(()) => (),
        Err(v) => {
            return Err(LaunchError::InvalidConfig(v));
        },
    }
    if accounts.len() < 6 {
        return Err(LaunchError::MissingAuthorization);
    }
    let payer = accounts[0];
    let mint_account = accounts[1];
    let token_account = accounts[2];
    let metadata_account = accounts[3];
    let token_program = accounts[5];
    if !payer.is_signer {
        return Err(LaunchError::MissingAuthorization);
    }
    // Re-create every failure the pipeline could hit before any effect, so
    // that a launch that would abort later performs no effect at all.
    match config.asset_type {
        AssetType::SplTokenLegacy => {
            let expected = crate::constants::token_program_id();
            if !(token_program.key == expected) {
                return Err(LaunchError::WrongServiceTarget);
            }
        },
        AssetType::SplToken2022 => {
            let expected = crate::constants::token_2022_program_id();
            if !(token_program.key == expected) {
                return Err(LaunchError::WrongServiceTarget);
            }
        },
        AssetType::StandardNft => (),
    }
    let needs_holder = match config.asset_type {
        AssetType::StandardNft => true,
        AssetType::SplTokenLegacy => config.total_supply > 0,
        AssetType::SplToken2022 => config.total_supply > 0,
    };
    if ledger.is_allocated(&mint_account.key) || ledger.get_mint(&mint_account.key).is_some() {
        return Err(LaunchError::ExternalCallFailed);
    }
    if needs_holder {
        let occupied = ledger.is_allocated(&token_account.key) || token_account.key
            == mint_account.key || ledger.get_holder(&token_account.key).is_some();
        if occupied {
            return Err(LaunchError::ExternalCallFailed);
        }
    }
    let derived = match get_launched_asset_pda(program_id, &mint_account.key) {
        Some(p) => p,
        None => {
            return Err(LaunchError::ExternalCallFailed);
        },
    };
    if !(metadata_account.key == derived.0) {
        return Err(LaunchError::AddressMismatch);
    }
    let record_occupied = ledger.is_allocated(&derived.0) || derived.0 == mint_account.key || (
    needs_holder && derived.0 == token_account.key) || ledger.get_record_data(
        &derived.0,
    ).is_some();
    if record_occupied {
        return Err(LaunchError::ExternalCallFailed);
    }
    let ghost l0 = *ledger;
    let pipeline_result = match config.asset_type {
        AssetType::SplTokenLegacy => launch_spl_token_legacy(
            &payer.key,
            &mint_account.key,
            &token_account.key,
            &token_program.key,
            config,
            ledger,
        ),
        AssetType::SplToken2022 => launch_spl_token_2022(
            &payer.key,
            &mint_account.key,
            &token_account.key,
            &token_program.key,
            config,
            ledger,
        ),
        AssetType::StandardNft => launch_standard_nft(
            &payer.key,
            &mint_account.key,
            &token_account.key,
            &token_program.key,
            config,
            ledger,
        ),
    };
    match pipeline_result {
        Ok(()) => (),
        Err(e) => {
            return Err(e);
        },
    }
    let ghost l1 = *ledger;
    let ghost base = l0.accounts@.len() as int;
    proof {
        // The derived address is still free after the pipeline ran.
        lemma_addr_index_spec(account_addresses(l0.accounts@), derived.0@);
        assert forall|j: int|
            0 <= j < account_addresses(l1.accounts@).len() implies account_addresses(
            l1.accounts@,
        )[j] != derived.0@ by {
            if j < base {
                assert(l1.accounts@.subrange(0, base)[j] == l0.accounts@[j]);
                assert(account_addresses(l0.accounts@)[j] == l0.accounts@[j].address@);
            }
        }
        lemma_addr_index_none(account_addresses(l1.accounts@), derived.0@);
    }
    let record_result = create_launched_asset_account(
        program_id,
        &payer.key,
        &mint_account.key,
        &metadata_account.key,
        config,
        ledger,
    );
    match record_result {
        Ok(asset) => {
            proof {
                assert(ledger.accounts@.subrange(0, base) =~= l1.accounts@.subrange(0, base));
                assert(ledger.records@.drop_last() =~= l0.records@);
            }
            Ok(asset)
        },
        Err(e) => Err(e),
    }
}

/// Once an asset has launched, launching against the same mint identity
/// again fails at the storage-allocation step, whatever is requested: the
/// mint address is already occupied.
pub proof fn lemma_relaunch_same_mint_fails(
    program_id: Seq<u8>,
    accounts: Seq<AccountEntry>,
    c: LaunchConfigV,
    l0: Ledger,
    l1: Ledger,
    asset: AssetV,
    program_id2: Seq<u8>,
    accounts2: Seq<AccountEntry>,
    c2: LaunchConfigV,
)
    requires
        accounts.len() >= 6,
        spec_launch_success(program_id, accounts, c, l0, l1, asset),
        accounts2.len() >= 6,
        accounts2[1].key@ == accounts[1].key@,
        spec_validate_launch_config(c2) is Ok,
        accounts2[0].is_signer,
        c2.asset_type is SplTokenLegacy ==> accounts2[5].key@ == TOKEN_PROGRAM_ID@,
        c2.asset_type is SplToken2022 ==> accounts2[5].key@ == TOKEN_2022_PROGRAM_ID@,
    ensures
        spec_first_failure(program_id2, accounts2, c2, l1) == Some(
            LaunchError::ExternalCallFailed,
        ),
{
    let mint = accounts2[1].key@;
    let base = l0.accounts@.len() as int;
    let addrs = account_addresses(l1.accounts@);
    assert(addrs[base] == mint);
    lemma_addr_index_spec(addrs, mint);
    assert(spec_has_account(l1.accounts@, mint));
}

/// Once a non-fungible asset has launched, no further supply of its mint
/// can ever be minted: the launch cleared the mint authority.
pub proof fn lemma_nft_mint_after_launch_fails(
    program_id: Seq<u8>,
    accounts: Seq<AccountEntry>,
    c: LaunchConfigV,
    l0: Ledger,
    l1: Ledger,
    asset: AssetV,
    account: Seq<u8>,
    authority: Seq<u8>,
    amount: u64,
)
    requires
        accounts.len() >= 6,
        c.asset_type is StandardNft,
        spec_first_failure(program_id, accounts, c, l0) is None,
        spec_launch_success(program_id, accounts, c, l0, l1, asset),
    ensures
        !crate::ledger::spec_mint_to_allowed(
            l1.mints@,
            l1.holders@,
            accounts[1].key@,
            account,
            authority,
            amount,
        ),
{
    let mint = accounts[1].key@;
    let old_addrs = crate::ledger::mint_addresses(l0.mints@);
    let new_addrs = crate::ledger::mint_addresses(l1.mints@);
    lemma_addr_index_spec(old_addrs, mint);
    assert(spec_mint_index(l0.mints@, mint) == -1);
    assert(new_addrs =~= old_addrs.push(mint)) by {
        assert(l1.mints@.drop_last() == l0.mints@);
        assert(forall|j: int|
            0 <= j < l0.mints@.len() ==> l1.mints@.drop_last()[j] == l0.mints@[j]);
    }
    crate::ledger::lemma_addr_index_determined(new_addrs, mint, l0.mints@.len() as int);
    assert(l1.mints@[spec_mint_index(l1.mints@, mint)].authority is None);
}

/// A launch whose supplied ledger-service target is not the one its asset
/// type needs is rejected with the wrong-target signal before any account
/// is allocated.
pub proof fn lemma_wrong_target_rejected(
    program_id: Seq<u8>,
    accounts: Seq<AccountEntry>,
    c: LaunchConfigV,
    l: Ledger,
)
    requires
        accounts.len() >= 6,
        spec_validate_launch_config(c) is Ok,
        accounts[0].is_signer,
        c.asset_type is SplTokenLegacy ==> accounts[5].key@ != TOKEN_PROGRAM_ID@,
        c.asset_type is SplToken2022 ==> accounts[5].key@ != TOKEN_2022_PROGRAM_ID@,
        !(c.asset_type is StandardNft),
    ensures
        spec_first_failure(program_id, accounts, c, l) == Some(LaunchError::WrongServiceTarget),
{
}

} // verus!
