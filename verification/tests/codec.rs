use solana_program::pubkey::Pubkey;
use token_launch::codec::{decode_instruction, encode_asset, encode_instruction};
use token_launch::cpi::initialize_mint::InitializeMintInstructionData;
use token_launch::cpi::initialize_token_account::InitializeTokenAccountInstructionData;
use token_launch::cpi::mint_to::MintToInstructionData;
use token_launch::cpi::set_authority::SetAuthorityInstructionData;
use token_launch::state::{Asset, AssetType, LaunchConfig, LaunchError, LaunchpadInstruction};
use token_launch::Identity;

fn unique_identity() -> Identity {
    Identity::new(Pubkey::new_unique().to_bytes())
}

fn sample_config(asset_type: AssetType) -> LaunchConfig {
    LaunchConfig {
        asset_type,
        name: b"Test Token".to_vec(),
        symbol: b"TTK".to_vec(),
        decimals: 6,
        total_supply: 1_000_000,
        metadata_uri: b"https://example.com/metadata.json".to_vec(),
        creator: unique_identity(),
        is_mutable: true,
    }
}

fn assert_round_trip(config: LaunchConfig) {
    let request = LaunchpadInstruction::LaunchAsset {
        config: config.clone(),
    };
    let bytes = encode_instruction(&request);
    let decoded = decode_instruction(&bytes).expect("encoding must decode");
    let LaunchpadInstruction::LaunchAsset { config: decoded_config } = decoded;
    assert_eq!(decoded_config.asset_type, config.asset_type);
    assert_eq!(decoded_config.name, config.name);
    assert_eq!(decoded_config.symbol, config.symbol);
    assert_eq!(decoded_config.decimals, config.decimals);
    assert_eq!(decoded_config.total_supply, config.total_supply);
    assert_eq!(decoded_config.metadata_uri, config.metadata_uri);
    assert_eq!(decoded_config.creator, config.creator);
    assert_eq!(decoded_config.is_mutable, config.is_mutable);
}

#[test]
fn test_round_trip_legacy() {
    assert_round_trip(sample_config(AssetType::SplTokenLegacy));
}

#[test]
fn test_round_trip_2022() {
    assert_round_trip(sample_config(AssetType::SplToken2022));
}

#[test]
fn test_round_trip_nft() {
    let mut config = sample_config(AssetType::StandardNft);
    config.decimals = 0;
    config.total_supply = 1;
    config.is_mutable = false;
    assert_round_trip(config);
}

#[test]
fn test_round_trip_empty_strings() {
    let mut config = sample_config(AssetType::SplTokenLegacy);
    config.name = Vec::new();
    config.symbol = Vec::new();
    config.metadata_uri = Vec::new();
    config.total_supply = 0;
    assert_round_trip(config);
}

#[test]
fn test_encode_exact_bytes() {
    let creator = unique_identity();
    let config = LaunchConfig {
        asset_type: AssetType::SplToken2022,
        name: b"AB".to_vec(),
        symbol: b"S".to_vec(),
        decimals: 9,
        total_supply: 0x0102030405060708,
        metadata_uri: b"u".to_vec(),
        creator,
        is_mutable: true,
    };
    let bytes = encode_instruction(&LaunchpadInstruction::LaunchAsset { config });

    let mut expected: Vec<u8> = Vec::new();
    expected.push(0); // request tag
    expected.push(1); // asset type tag
    expected.extend_from_slice(&2u32.to_le_bytes());
    expected.extend_from_slice(b"AB");
    expected.extend_from_slice(&1u32.to_le_bytes());
    expected.extend_from_slice(b"S");
    expected.push(9); // decimals
    expected.extend_from_slice(&0x0102030405060708u64.to_le_bytes());
    expected.extend_from_slice(&1u32.to_le_bytes());
    expected.extend_from_slice(b"u");
    expected.extend_from_slice(&creator.to_bytes());
    expected.push(1); // is_mutable
    assert_eq!(bytes, expected);
}

#[test]
fn test_decode_rejects_empty() {
    assert_eq!(
        decode_instruction(&[]).unwrap_err(),
        LaunchError::InvalidInstructionData
    );
}

#[test]
fn test_decode_rejects_unknown_tag() {
    let request = LaunchpadInstruction::LaunchAsset {
        config: sample_config(AssetType::SplTokenLegacy),
    };
    let mut bytes = encode_instruction(&request);
    bytes[0] = 1;
    assert_eq!(
        decode_instruction(&bytes).unwrap_err(),
        LaunchError::InvalidInstructionData
    );
}

#[test]
fn test_decode_rejects_truncated() {
    let request = LaunchpadInstruction::LaunchAsset {
        config: sample_config(AssetType::SplTokenLegacy),
    };
    let bytes = encode_instruction(&request);
    for cut in 0..bytes.len() {
        assert_eq!(
            decode_instruction(&bytes[..cut]).unwrap_err(),
            LaunchError::InvalidInstructionData,
            "truncation at {} must be rejected",
            cut
        );
    }
}

#[test]
fn test_decode_rejects_trailing_bytes() {
    let request = LaunchpadInstruction::LaunchAsset {
        config: sample_config(AssetType::SplTokenLegacy),
    };
    let mut bytes = encode_instruction(&request);
    bytes.push(0);
    assert_eq!(
        decode_instruction(&bytes).unwrap_err(),
        LaunchError::InvalidInstructionData
    );
}

#[test]
fn test_decode_rejects_bad_asset_type() {
    let request = LaunchpadInstruction::LaunchAsset {
        config: sample_config(AssetType::SplTokenLegacy),
    };
    let mut bytes = encode_instruction(&request);
    bytes[1] = 3;
    assert_eq!(
        decode_instruction(&bytes).unwrap_err(),
        LaunchError::InvalidInstructionData
    );
}

#[test]
fn test_decode_rejects_bad_bool() {
    let request = LaunchpadInstruction::LaunchAsset {
        config: sample_config(AssetType::SplTokenLegacy),
    };
    let mut bytes = encode_instruction(&request);
    let last = bytes.len() - 1;
    bytes[last] = 2;
    assert_eq!(
        decode_instruction(&bytes).unwrap_err(),
        LaunchError::InvalidInstructionData
    );
}

#[test]
fn test_encode_asset_exact_bytes() {
    let mint = unique_identity();
    let creator = unique_identity();
    let asset = Asset {
        asset_type: AssetType::StandardNft,
        mint,
        creator,
        name: b"NFT".to_vec(),
        symbol: b"N".to_vec(),
        total_supply: 1,
        launch_timestamp: 0,
    };
    let bytes = encode_asset(&asset);

    let mut expected: Vec<u8> = Vec::new();
    expected.push(2); // asset type tag
    expected.extend_from_slice(&mint.to_bytes());
    expected.extend_from_slice(&creator.to_bytes());
    expected.extend_from_slice(&3u32.to_le_bytes());
    expected.extend_from_slice(b"NFT");
    expected.extend_from_slice(&1u32.to_le_bytes());
    expected.extend_from_slice(b"N");
    expected.extend_from_slice(&1u64.to_le_bytes());
    expected.extend_from_slice(&0u64.to_le_bytes());
    assert_eq!(bytes, expected);
}

#[test]
fn test_initialize_mint_instruction_bytes() {
    let mint_authority = unique_identity();
    let freeze_authority = unique_identity();
    let data = InitializeMintInstructionData {
        discriminator: 20,
        decimals: 6,
        mint_authority,
        freeze_authority_option: 1,
        freeze_authority,
    };
    let bytes = data.encode();
    let mut expected: Vec<u8> = vec![20, 6];
    expected.extend_from_slice(&mint_authority.to_bytes());
    expected.push(1);
    expected.extend_from_slice(&freeze_authority.to_bytes());
    assert_eq!(bytes, expected);
    assert_eq!(bytes.len(), 67);
}

#[test]
fn test_initialize_token_account_instruction_bytes() {
    let owner = unique_identity();
    let data = InitializeTokenAccountInstructionData {
        discriminator: 18,
        owner,
    };
    let bytes = data.encode();
    let mut expected: Vec<u8> = vec![18];
    expected.extend_from_slice(&owner.to_bytes());
    assert_eq!(bytes, expected);
    assert_eq!(bytes.len(), 33);
}

#[test]
fn test_mint_to_instruction_bytes() {
    let data = MintToInstructionData {
        discriminator: 7,
        amount: 1_000_000,
    };
    let bytes = data.encode();
    let mut expected: Vec<u8> = vec![7];
    expected.extend_from_slice(&1_000_000u64.to_le_bytes());
    assert_eq!(bytes, expected);
    assert_eq!(bytes.len(), 9);
}

#[test]
fn test_set_authority_instruction_bytes() {
    let data = SetAuthorityInstructionData {
        discriminator: 6,
        authority_type: 0,
        new_authority_option: 0,
        new_authority: Identity::zeroed(),
    };
    let bytes = data.encode();
    let mut expected: Vec<u8> = vec![6, 0, 0];
    expected.extend_from_slice(&[0u8; 32]);
    assert_eq!(bytes, expected);
    assert_eq!(bytes.len(), 35);
}
