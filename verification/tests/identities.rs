use std::str::FromStr;

use solana_program::pubkey::Pubkey;
use token_launch::constants::{id, token_2022_program_id, token_program_id, PROGRAM_ID};
use token_launch::state::{LaunchError, Violation};
use token_launch::Identity;

#[test]
fn test_token_program_identity_bytes() {
    let expected = Pubkey::from_str("TokenkegQfeZyiNwAJbNbGKPFXCWuBvf9Ss623VQ5DA").unwrap();
    assert_eq!(token_program_id().to_bytes(), expected.to_bytes());
}

#[test]
fn test_token_2022_program_identity_bytes() {
    let expected = Pubkey::from_str("TokenzQdBNbLqP5VEhdkAS6EPFLC1PHnBqCXEpPxuEb").unwrap();
    assert_eq!(token_2022_program_id().to_bytes(), expected.to_bytes());
}

#[test]
fn test_processor_identity_bytes() {
    let expected = Pubkey::from_str("4n6ByGTtLj4fTgLApV2aigC3XzWZhCmYkNbcfVheGzd8").unwrap();
    assert_eq!(id().to_bytes(), expected.to_bytes());
    assert_eq!(PROGRAM_ID, expected.to_bytes());
}

#[test]
fn test_identity_equality_is_by_bytes() {
    let a = Identity::new([7u8; 32]);
    let b = Identity::new([7u8; 32]);
    let mut differing = [7u8; 32];
    differing[31] = 8;
    let c = Identity::new(differing);
    assert_eq!(a, b);
    assert_ne!(a, c);
    assert_eq!(Identity::zeroed().to_bytes(), [0u8; 32]);
}

#[test]
fn test_error_descriptions() {
    assert_eq!(Violation::NameTooLong.describe(), "name too long");
    assert_eq!(Violation::SymbolTooLong.describe(), "symbol too long");
    assert_eq!(Violation::UriTooLong.describe(), "uri too long");
    assert_eq!(Violation::DecimalsTooHigh.describe(), "decimals too high");
    assert_eq!(
        LaunchError::InvalidInstructionData.describe(),
        "invalid instruction data"
    );
    assert_eq!(
        LaunchError::InvalidConfig(Violation::NameTooLong).describe(),
        "name too long"
    );
    assert_eq!(
        LaunchError::MissingAuthorization.describe(),
        "missing required authorization"
    );
    assert_eq!(
        LaunchError::WrongServiceTarget.describe(),
        "wrong ledger service target"
    );
    assert_eq!(
        LaunchError::AddressMismatch.describe(),
        "record address mismatch"
    );
    assert_eq!(
        LaunchError::ExternalCallFailed.describe(),
        "ledger service call failed"
    );
}
