use solana_program::pubkey::Pubkey;
use token_launch::codec::{encode_asset, encode_instruction};
use token_launch::constants::{token_2022_program_id, token_program_id};
use token_launch::cpi;
use token_launch::entrypoint::process_instruction;
use token_launch::ledger::Ledger;
use token_launch::processor::launch_asset;
use token_launch::state::{
    AccountEntry, AssetType, LaunchConfig, LaunchError, LaunchpadInstruction, Violation,
};
use token_launch::util::get_launched_asset_pda;
use token_launch::Identity;

fn unique_identity() -> Identity {
    Identity::new(Pubkey::new_unique().to_bytes())
}

struct Fixture {
    program_id: Identity,
    payer: Identity,
    mint: Identity,
    token_account: Identity,
    record: Identity,
    accounts: Vec<AccountEntry>,
}

fn fixture(token_program: Identity) -> Fixture {
    let program_id = unique_identity();
    let payer = unique_identity();
    let mint = unique_identity();
    let token_account = unique_identity();
    let (record, _bump) = get_launched_asset_pda(&program_id, &mint).unwrap();
    let accounts = vec![
        AccountEntry { key: payer, is_signer: true },
        AccountEntry { key: mint, is_signer: true },
        AccountEntry { key: token_account, is_signer: true },
        AccountEntry { key: record, is_signer: false },
        AccountEntry { key: unique_identity(), is_signer: false },
        AccountEntry { key: token_program, is_signer: false },
    ];
    Fixture { program_id, payer, mint, token_account, record, accounts }
}

fn legacy_config(name: &[u8], symbol: &[u8], decimals: u8, total_supply: u64) -> LaunchConfig {
    LaunchConfig {
        asset_type: AssetType::SplTokenLegacy,
        name: name.to_vec(),
        symbol: symbol.to_vec(),
        decimals,
        total_supply,
        metadata_uri: b"https://example.com/metadata.json".to_vec(),
        creator: unique_identity(),
        is_mutable: true,
    }
}

#[test]
fn test_launch_fungible_legacy_succeeds() {
    let f = fixture(token_program_id());
    let config = legacy_config(b"Test Token", b"TTK", 6, 1_000_000);
    let mut ledger = Ledger::new();

    let data = encode_instruction(&LaunchpadInstruction::LaunchAsset { config });
    let asset = process_instruction(&f.program_id, &f.accounts, &data, &mut ledger)
        .expect("Transaction processed successfully");

    assert_eq!(asset.total_supply, 1_000_000);
    assert_eq!(asset.asset_type, AssetType::SplTokenLegacy);
    assert_eq!(asset.mint, f.mint);
    assert_eq!(asset.name, b"Test Token".to_vec());

    let mint_entry = ledger.get_mint(&f.mint).expect("mint must exist");
    assert_eq!(mint_entry.supply, 1_000_000);
    assert_eq!(mint_entry.decimals, 6);
    assert_eq!(mint_entry.authority, Some(f.payer));

    let holder = ledger.get_holder(&f.token_account).expect("holder must exist");
    assert_eq!(holder.amount, 1_000_000);
    assert_eq!(holder.mint, f.mint);
    assert_eq!(holder.owner, f.payer);

    let record_data = ledger.get_record_data(&f.record).expect("record must exist");
    assert_eq!(record_data, &encode_asset(&asset));
}

#[test]
fn test_launch_2022_succeeds() {
    let f = fixture(token_2022_program_id());
    let mut config = legacy_config(b"Test Token 2022", b"TTK2", 9, 500_000_000);
    config.asset_type = AssetType::SplToken2022;
    let mut ledger = Ledger::new();

    let data = encode_instruction(&LaunchpadInstruction::LaunchAsset { config });
    let asset = process_instruction(&f.program_id, &f.accounts, &data, &mut ledger)
        .expect("Transaction processed successfully");
    assert_eq!(asset.total_supply, 500_000_000);
    assert_eq!(ledger.get_mint(&f.mint).unwrap().supply, 500_000_000);
}

#[test]
fn test_launch_with_maximum_supply() {
    let f = fixture(token_program_id());
    let config = legacy_config(b"Max Supply Token", b"MAX", 6, u64::MAX);
    let mut ledger = Ledger::new();

    let data = encode_instruction(&LaunchpadInstruction::LaunchAsset { config });
    let asset = process_instruction(&f.program_id, &f.accounts, &data, &mut ledger)
        .expect("Max supply token launch should succeed");
    assert_eq!(asset.total_supply, u64::MAX);
}

#[test]
fn test_launch_with_zero_supply_creates_no_holder() {
    let f = fixture(token_program_id());
    let config = legacy_config(b"Zero", b"Z", 6, 0);
    let mut ledger = Ledger::new();

    let asset = launch_asset(&f.program_id, &f.accounts, &config, &mut ledger)
        .expect("zero-supply launch should succeed");
    assert_eq!(asset.total_supply, 0);
    assert!(ledger.get_holder(&f.token_account).is_none());
    assert_eq!(ledger.get_mint(&f.mint).unwrap().supply, 0);
}

#[test]
fn test_launch_with_invalid_decimals() {
    let f = fixture(token_program_id());
    let config = legacy_config(b"Invalid Decimals Token", b"INV", 255, 1_000_000);
    let mut ledger = Ledger::new();

    let data = encode_instruction(&LaunchpadInstruction::LaunchAsset { config });
    let result = process_instruction(&f.program_id, &f.accounts, &data, &mut ledger);
    assert_eq!(
        result.unwrap_err(),
        LaunchError::InvalidConfig(Violation::DecimalsTooHigh),
        "Invalid decimals should fail"
    );
    assert!(ledger.accounts.is_empty());
}

#[test]
fn test_launch_with_long_name_should_fail() {
    let f = fixture(token_program_id());
    let config = legacy_config(&vec![b'A'; 100], b"LONG", 6, 1_000_000);
    let mut ledger = Ledger::new();

    let data = encode_instruction(&LaunchpadInstruction::LaunchAsset { config });
    let result = process_instruction(&f.program_id, &f.accounts, &data, &mut ledger);
    assert_eq!(
        result.unwrap_err(),
        LaunchError::InvalidConfig(Violation::NameTooLong),
        "Name longer than 32 characters should fail"
    );
    // No storage side effects were created.
    assert!(ledger.accounts.is_empty());
    assert!(ledger.mints.is_empty());
    assert!(ledger.holders.is_empty());
    assert!(ledger.records.is_empty());
}

#[test]
fn test_launch_with_invalid_metadata_uri() {
    // A URI that is not a well-formed URL is still within the length bound:
    // the validator checks sizes, not syntax.
    let f = fixture(token_program_id());
    let mut config = legacy_config(b"Invalid URI Token", b"IURI", 6, 1_000_000);
    config.metadata_uri = b"not-a-valid-uri".to_vec();
    let mut ledger = Ledger::new();

    let data = encode_instruction(&LaunchpadInstruction::LaunchAsset { config });
    let result = process_instruction(&f.program_id, &f.accounts, &data, &mut ledger);
    assert!(result.is_ok(), "Invalid URI result: {:?}", result.err());
}

#[test]
fn test_duplicate_mint_launch_should_fail() {
    let f = fixture(token_program_id());
    let config = legacy_config(b"Duplicate Mint Token", b"DUP", 6, 1_000_000);
    let mut ledger = Ledger::new();

    let data = encode_instruction(&LaunchpadInstruction::LaunchAsset {
        config: config.clone(),
    });
    let first = process_instruction(&f.program_id, &f.accounts, &data, &mut ledger);
    assert!(first.is_ok(), "First launch should succeed");

    // Same mint identity again: the storage allocation step collides.
    let mut accounts = f.accounts.clone();
    accounts[2].key = unique_identity();
    let second = process_instruction(&f.program_id, &accounts, &data, &mut ledger);
    assert_eq!(
        second.unwrap_err(),
        LaunchError::ExternalCallFailed,
        "Duplicate mint launch should fail"
    );
}

#[test]
fn test_nft_supply_forced_to_one() {
    let f = fixture(token_program_id());
    let mut config = legacy_config(b"Test NFT", b"NFT", 4, 5_000);
    config.asset_type = AssetType::StandardNft;
    let mut ledger = Ledger::new();

    let data = encode_instruction(&LaunchpadInstruction::LaunchAsset { config });
    let asset = process_instruction(&f.program_id, &f.accounts, &data, &mut ledger)
        .expect("Transaction processed successfully");

    // The record carries supply 1 regardless of the requested total supply,
    // and the mint was initialized with zero decimals.
    assert_eq!(asset.total_supply, 1);
    let mint_entry = ledger.get_mint(&f.mint).unwrap();
    assert_eq!(mint_entry.supply, 1);
    assert_eq!(mint_entry.decimals, 0);
    assert_eq!(mint_entry.authority, None);
    assert_eq!(ledger.get_holder(&f.token_account).unwrap().amount, 1);
}

#[test]
fn test_nft_mint_after_launch_fails() {
    let f = fixture(token_program_id());
    let mut config = legacy_config(b"Test NFT", b"NFT", 0, 1);
    config.asset_type = AssetType::StandardNft;
    let mut ledger = Ledger::new();

    let data = encode_instruction(&LaunchpadInstruction::LaunchAsset { config });
    process_instruction(&f.program_id, &f.accounts, &data, &mut ledger)
        .expect("Transaction processed successfully");

    // The mint authority was cleared: minting one more unit fails.
    let result =
        cpi::mint_to::process(&f.mint, &f.token_account, &f.payer, 1, &mut ledger);
    assert_eq!(result, Err(LaunchError::ExternalCallFailed));
    assert_eq!(ledger.get_mint(&f.mint).unwrap().supply, 1);
}

#[test]
fn test_launch_with_wrong_token_program() {
    // An extended-ledger launch whose supplied target is the legacy one.
    let f = fixture(token_program_id());
    let mut config = legacy_config(b"Wrong Token Program", b"WTP", 6, 1_000_000);
    config.asset_type = AssetType::SplToken2022;
    let mut ledger = Ledger::new();

    let data = encode_instruction(&LaunchpadInstruction::LaunchAsset { config });
    let result = process_instruction(&f.program_id, &f.accounts, &data, &mut ledger);
    assert_eq!(
        result.unwrap_err(),
        LaunchError::WrongServiceTarget,
        "Wrong token program passed should fail"
    );
    // The failure happened before any account allocation.
    assert!(ledger.accounts.is_empty());
}

#[test]
fn test_launch_with_missing_accounts() {
    let f = fixture(token_program_id());
    let config = legacy_config(b"Missing Account Token", b"MISS", 6, 1_000_000);
    let mut ledger = Ledger::new();

    let accounts = f.accounts[..4].to_vec();
    let result = launch_asset(&f.program_id, &accounts, &config, &mut ledger);
    assert_eq!(
        result.unwrap_err(),
        LaunchError::MissingAuthorization,
        "Missing accounts should fail"
    );
    assert!(ledger.accounts.is_empty());
}

#[test]
fn test_launch_without_payer_signature_fails() {
    let f = fixture(token_program_id());
    let config = legacy_config(b"Unsigned", b"UNS", 6, 1_000_000);
    let mut ledger = Ledger::new();

    let mut accounts = f.accounts.clone();
    accounts[0].is_signer = false;
    let result = launch_asset(&f.program_id, &accounts, &config, &mut ledger);
    assert_eq!(result.unwrap_err(), LaunchError::MissingAuthorization);
    assert!(ledger.accounts.is_empty());
}

#[test]
fn test_launch_with_wrong_record_account_fails() {
    let f = fixture(token_program_id());
    let config = legacy_config(b"Bad Record", b"BAD", 6, 1_000_000);
    let mut ledger = Ledger::new();

    let mut accounts = f.accounts.clone();
    accounts[3].key = unique_identity();
    let result = launch_asset(&f.program_id, &accounts, &config, &mut ledger);
    assert_eq!(result.unwrap_err(), LaunchError::AddressMismatch);
    assert!(ledger.accounts.is_empty());
}

#[test]
fn test_multiple_successful_launches() {
    let mut ledger = Ledger::new();
    let program_id = unique_identity();
    for i in 0..3u32 {
        let payer = unique_identity();
        let mint = unique_identity();
        let token_account = unique_identity();
        let (record, _bump) = get_launched_asset_pda(&program_id, &mint).unwrap();
        let accounts = vec![
            AccountEntry { key: payer, is_signer: true },
            AccountEntry { key: mint, is_signer: true },
            AccountEntry { key: token_account, is_signer: true },
            AccountEntry { key: record, is_signer: false },
            AccountEntry { key: unique_identity(), is_signer: false },
            AccountEntry { key: token_program_id(), is_signer: false },
        ];
        let name = format!("Multi Token {}", i).into_bytes();
        let symbol = format!("MT{}", i).into_bytes();
        let config = legacy_config(&name, &symbol, 6, 1_000_000);
        let result = launch_asset(&program_id, &accounts, &config, &mut ledger);
        assert!(result.is_ok(), "Multi launch {} should succeed", i);
    }
    assert_eq!(ledger.mints.len(), 3);
    assert_eq!(ledger.records.len(), 3);
}

#[test]
fn test_ledger_create_account_duplicate_fails() {
    let mut ledger = Ledger::new();
    let funder = unique_identity();
    let address = unique_identity();
    let service = unique_identity();
    assert!(ledger.create_account(&funder, &address, 10, &service).is_ok());
    assert_eq!(
        ledger.create_account(&funder, &address, 10, &service),
        Err(LaunchError::ExternalCallFailed)
    );
    assert_eq!(ledger.accounts.len(), 1);
}

#[test]
fn test_ledger_mint_to_requires_authority() {
    let mut ledger = Ledger::new();
    let payer = unique_identity();
    let mint = unique_identity();
    let token_account = unique_identity();
    let stranger = unique_identity();
    let service = unique_identity();
    cpi::initialize_mint::process(&payer, &mint, &service, &mut ledger, 2).unwrap();
    cpi::initialize_token_account::process(&payer, &token_account, &mint, &service, &mut ledger)
        .unwrap();
    assert_eq!(
        cpi::mint_to::process(&mint, &token_account, &stranger, 7, &mut ledger),
        Err(LaunchError::ExternalCallFailed)
    );
    assert!(cpi::mint_to::process(&mint, &token_account, &payer, 7, &mut ledger).is_ok());
    assert_eq!(ledger.get_mint(&mint).unwrap().supply, 7);
    assert_eq!(ledger.get_holder(&token_account).unwrap().amount, 7);
}
