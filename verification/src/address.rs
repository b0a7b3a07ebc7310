//! Address validation: the one check that runs before any I/O.
//!
//! An address is a base58-encoded 32-byte public key. Whether a string is
//! one is decided by the chain SDK's own parser; the pipeline only needs
//! the yes/no answer, rejects a malformed key with `InvalidAddress`, and
//! never touches the store or the upstream for it.

use vstd::prelude::*;

use crate::error::AppError;

verus! {

/// Whether the chain SDK accepts this string as an account address: a
/// base58 rendering of exactly 32 bytes. The answer is a function of the
/// characters alone.
pub uninterp spec fn pubkey_accepted(s: Seq<char>) -> bool;

/// Relies on `solana_pubkey::Pubkey`'s `FromStr` (the parser of
/// `solana_address::Address`): a pure base58 decode of the input string,
/// deterministic in its characters, `Ok` exactly when they spell a
/// 32-byte key.
#[verifier::external_body]
fn parse_pubkey_ok(address: &str) -> (r: bool)
    ensures
        r == pubkey_accepted(address@),
{
    <solana_pubkey::Pubkey as core::str::FromStr>::from_str(address).is_ok()
}

/// Accept or reject an address before any work is spent on it: `Ok` for
/// a well-formed key, `InvalidAddress` for anything else.
pub fn validate_address(address: &String) -> (r: Result<(), AppError>)
    ensures
        r is Ok <==> pubkey_accepted(address@),
        r matches Err(e) ==> e == AppError::InvalidAddress,
{
    if parse_pubkey_ok(address.as_str()) {
        Ok(())
    } else {
        Err(AppError::InvalidAddress)
    }
}

} // verus!
