//! Address validation against the chain SDK's real parser.

use indexer_core::address::validate_address;
use indexer_core::error::AppError;

#[test]
fn well_formed_addresses_are_accepted() {
    // The system program id: base58 for 32 zero bytes.
    let system_program = String::from("11111111111111111111111111111111");
    assert_eq!(validate_address(&system_program), Ok(()));

    let token_program = String::from("TokenkegQfeZyiNwAJbNbGKPFXCWuBvf9Ss623VQ5DA");
    assert_eq!(validate_address(&token_program), Ok(()));
}

#[test]
fn malformed_addresses_are_rejected_before_any_work() {
    // Not base58 at all.
    let junk = String::from("not an address!");
    assert_eq!(validate_address(&junk), Err(AppError::InvalidAddress));

    // Base58, but far too short for a 32-byte key.
    let short = String::from("abc");
    assert_eq!(validate_address(&short), Err(AppError::InvalidAddress));

    // Too long for a key.
    let long = String::from(
        "1111111111111111111111111111111111111111111111111111111111111111111",
    );
    assert_eq!(validate_address(&long), Err(AppError::InvalidAddress));

    let empty = String::new();
    assert_eq!(validate_address(&empty), Err(AppError::InvalidAddress));
}
