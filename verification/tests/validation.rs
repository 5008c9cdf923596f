use solana_program::pubkey::Pubkey;
use token_launch::state::{AssetType, LaunchConfig, Violation};
use token_launch::util::validate_launch_config;
use token_launch::Identity;

fn unique_identity() -> Identity {
    Identity::new(Pubkey::new_unique().to_bytes())
}

fn create_valid_config() -> LaunchConfig {
    LaunchConfig {
        asset_type: AssetType::SplTokenLegacy,
        name: b"Test Token".to_vec(),
        symbol: b"TEST".to_vec(),
        decimals: 6,
        total_supply: 1_000_000,
        metadata_uri: b"https://example.com/metadata.json".to_vec(),
        creator: unique_identity(),
        is_mutable: false,
    }
}

#[test]
fn util_test_validate_launch_config_success() {
    let config = create_valid_config();
    let result = validate_launch_config(&config);
    assert!(result.is_ok(), "Valid config should pass validation");
}

#[test]
fn util_test_validate_launch_config_name_too_long() {
    let mut config = create_valid_config();
    config.name = vec![b'A'; 33];

    let result = validate_launch_config(&config);
    assert_eq!(result, Err(Violation::NameTooLong));
}

#[test]
fn test_validate_launch_config_symbol_too_long() {
    let mut config = create_valid_config();
    config.symbol = vec![b'B'; 11];

    let result = validate_launch_config(&config);
    assert_eq!(result, Err(Violation::SymbolTooLong));
}

#[test]
fn test_validate_launch_config_uri_too_long() {
    let mut config = create_valid_config();
    let mut uri = b"https://example.com/".to_vec();
    uri.extend(vec![b'x'; 200]);
    config.metadata_uri = uri;

    let result = validate_launch_config(&config);
    assert_eq!(result, Err(Violation::UriTooLong));
}

#[test]
fn util_test_validate_launch_config_decimals_too_high() {
    let mut config = create_valid_config();
    config.decimals = 10;

    let result = validate_launch_config(&config);
    assert_eq!(result, Err(Violation::DecimalsTooHigh));
}

#[test]
fn lib_test_validate_launch_config_success() {
    let valid_config = LaunchConfig {
        asset_type: AssetType::SplTokenLegacy,
        name: b"Valid Token".to_vec(),
        symbol: b"VALID".to_vec(),
        decimals: 6,
        total_supply: 1_000_000,
        metadata_uri: b"https://example.com/metadata.json".to_vec(),
        creator: unique_identity(),
        is_mutable: true,
    };

    assert!(validate_launch_config(&valid_config).is_ok());
}

#[test]
fn lib_test_validate_launch_config_name_too_long() {
    let invalid_config = LaunchConfig {
        asset_type: AssetType::SplTokenLegacy,
        name: vec![b'A'; 50],
        symbol: b"VALID".to_vec(),
        decimals: 6,
        total_supply: 1_000_000,
        metadata_uri: b"https://example.com/metadata.json".to_vec(),
        creator: unique_identity(),
        is_mutable: true,
    };

    assert!(validate_launch_config(&invalid_config).is_err());
}

#[test]
fn lib_test_validate_launch_config_decimals_too_high() {
    let invalid_config = LaunchConfig {
        asset_type: AssetType::SplTokenLegacy,
        name: b"Valid Token".to_vec(),
        symbol: b"VALID".to_vec(),
        decimals: 15,
        total_supply: 1_000_000,
        metadata_uri: b"https://example.com/metadata.json".to_vec(),
        creator: unique_identity(),
        is_mutable: true,
    };

    assert!(validate_launch_config(&invalid_config).is_err());
}

#[test]
fn test_validate_boundary_lengths_pass() {
    let mut config = create_valid_config();
    config.name = vec![b'N'; 32];
    config.symbol = vec![b'S'; 10];
    config.metadata_uri = vec![b'u'; 200];
    config.decimals = 9;
    assert!(validate_launch_config(&config).is_ok());
}

#[test]
fn test_validate_reports_first_violation_only() {
    let mut config = create_valid_config();
    config.name = vec![b'A'; 33];
    config.symbol = vec![b'B'; 11];
    config.decimals = 12;
    assert_eq!(validate_launch_config(&config), Err(Violation::NameTooLong));

    let mut config = create_valid_config();
    config.symbol = vec![b'B'; 11];
    config.decimals = 12;
    assert_eq!(validate_launch_config(&config), Err(Violation::SymbolTooLong));

    let mut config = create_valid_config();
    config.metadata_uri = vec![b'u'; 201];
    config.decimals = 12;
    assert_eq!(validate_launch_config(&config), Err(Violation::UriTooLong));
}

#[test]
fn test_asset_type_variants() {
    let spl_legacy = AssetType::SplTokenLegacy;
    let spl_2022 = AssetType::SplToken2022;
    let nft = AssetType::StandardNft;

    assert_eq!(spl_legacy, AssetType::SplTokenLegacy);
    assert_eq!(spl_2022, AssetType::SplToken2022);
    assert_eq!(nft, AssetType::StandardNft);

    assert_ne!(spl_legacy, spl_2022);
    assert_ne!(nft, spl_legacy);
}

#[test]
fn test_launch_config_creation() {
    let config = LaunchConfig {
        asset_type: AssetType::SplToken2022,
        name: b"Test Token 2022".to_vec(),
        symbol: b"TEST22".to_vec(),
        decimals: 9,
        total_supply: 1_000_000_000,
        metadata_uri: b"https://test.com/metadata".to_vec(),
        creator: unique_identity(),
        is_mutable: false,
    };

    assert_eq!(config.name, b"Test Token 2022".to_vec());
    assert_eq!(config.symbol, b"TEST22".to_vec());
    assert_eq!(config.decimals, 9);
    assert_eq!(config.total_supply, 1_000_000_000);
    assert_eq!(config.asset_type, AssetType::SplToken2022);
    assert!(!config.is_mutable);
}

fn parse_asset_type(s: &str) -> Result<AssetType, &'static str> {
    match s {
        "spl-legacy" => Ok(AssetType::SplTokenLegacy),
        "spl-2022" => Ok(AssetType::SplToken2022),
        "nft" => Ok(AssetType::StandardNft),
        _ => Err("Invalid asset type"),
    }
}

#[test]
fn test_asset_type_parsing() {
    assert!(matches!(
        parse_asset_type("spl-legacy"),
        Ok(AssetType::SplTokenLegacy)
    ));
    assert!(matches!(
        parse_asset_type("spl-2022"),
        Ok(AssetType::SplToken2022)
    ));
    assert!(matches!(parse_asset_type("nft"), Ok(AssetType::StandardNft)));
    assert!(parse_asset_type("invalid").is_err());
}
