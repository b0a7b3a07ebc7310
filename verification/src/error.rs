//! The pipeline's error taxonomy. Every failure of a run is recovered at the
//! engine boundary into one of these values and surfaced as a single
//! terminal `Error` event; read-path failures map to an HTTP status.

use vstd::prelude::*;
use vstd::string::StringExecFns;

verus! {

/// Everything that can go wrong in the pipeline.
///
/// `InvalidAddress`, `AlreadyIndexed` and `NotIndexed` are precondition
/// violations the user can correct; `NoTransactions` is a terminal
/// business-rule failure of a first-time run; `Upstream` and `Storage` carry
/// the message of a failed RPC or persistence call; `NotFound` names a
/// resource absent on a read path.
#[derive(Clone, Debug, PartialEq)]
pub enum AppError {
    InvalidAddress,
    AlreadyIndexed,
    NotIndexed,
    NoTransactions,
    Upstream(String),
    Storage(String),
    NotFound(String),
}

impl AppError {
    /// The human-readable message for this error.
    pub open spec fn spec_message(&self) -> Seq<char> {
        match self {
            AppError::InvalidAddress => "Invalid Address"@,
            AppError::AlreadyIndexed => "Account is already indexed"@,
            AppError::NotIndexed => "Account is not indexed"@,
            AppError::NoTransactions => "No transactions found for this address"@,
            AppError::Upstream(detail) => "Solana Error - "@ + detail@,
            AppError::Storage(detail) => "Database Error - "@ + detail@,
            AppError::NotFound(what) => what@ + " Not Found"@,
        }
    }

    /// The HTTP status that a read path answers with on this error:
    /// bad request for the user-correctable precondition failures, not
    /// found for an absent resource, internal error for the rest.
    pub open spec fn spec_status_code(&self) -> u16 {
        match self {
            AppError::InvalidAddress => 400,
            AppError::AlreadyIndexed => 400,
            AppError::NotIndexed => 400,
            AppError::NoTransactions => 500,
            AppError::Upstream(_) => 500,
            AppError::Storage(_) => 500,
            AppError::NotFound(_) => 404,
        }
    }

    /// Render the human-readable message.
    pub fn message(&self) -> (r: String)
        ensures
            r@ == self.spec_message(),
    {
        match self {
            AppError::InvalidAddress => String::from_str("Invalid Address"),
            AppError::AlreadyIndexed => String::from_str("Account is already indexed"),
            AppError::NotIndexed => String::from_str("Account is not indexed"),
            AppError::NoTransactions => String::from_str("No transactions found for this address"),
            AppError::Upstream(detail) => String::from_str("Solana Error - ").concat(detail.as_str()),
            AppError::Storage(detail) => String::from_str("Database Error - ").concat(detail.as_str()),
            AppError::NotFound(what) => what.clone().concat(" Not Found"),
        }
    }

    /// The HTTP status code for this error.
    pub fn status_code(&self) -> (r: u16)
        ensures
            r == self.spec_status_code(),
    {
        match self {
            AppError::InvalidAddress => 400,
            AppError::AlreadyIndexed => 400,
            AppError::NotIndexed => 400,
            AppError::NoTransactions => 500,
            AppError::Upstream(_) => 500,
            AppError::Storage(_) => 500,
            AppError::NotFound(_) => 404,
        }
    }
}

} // verus!
