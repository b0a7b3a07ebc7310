//! The typed progress events that a run publishes into its session.

use vstd::prelude::*;

use crate::error::AppError;
use crate::models::Account;

verus! {

/// One progress event of an ingestion or refresh run.
///
/// Consumers observe these in emission order. `Indexing` opens a
/// first-time run; a refresh opens directly with the refreshed
/// `AccountData`, and `Syncing` stands in the vocabulary for transports
/// that label such a stream. `fetched` counts the records of the batch
/// just processed; `total` is a fresh count read back from the store, so
/// that late observers see an absolute figure. `Completed` and `Error`
/// are the terminal events.
#[derive(Clone, Debug, PartialEq)]
pub enum SyncStatus {
    Indexing,
    Syncing,
    AccountData(Account),
    TransactionSignatures { fetched: u64, total: u64 },
    TransactionDetails { fetched: u64, total: u64 },
    Completed,
    Error(AppError),
}

impl SyncStatus {
    /// Whether this event ends the run's stream.
    pub open spec fn is_terminal(&self) -> bool {
        self is Completed || self is Error
    }

    /// The name under which the transport labels this event.
    pub open spec fn spec_event_name(&self) -> Seq<char> {
        match self {
            SyncStatus::Indexing => "indexing"@,
            SyncStatus::Syncing => "syncing"@,
            SyncStatus::AccountData(_) => "account-data"@,
            SyncStatus::TransactionSignatures { .. } => "signatures-fetched"@,
            SyncStatus::TransactionDetails { .. } => "transactions-fetched"@,
            SyncStatus::Error(_) => "error"@,
            SyncStatus::Completed => "close"@,
        }
    }

    /// The transport-facing label of this event.
    pub fn event_name(&self) -> (r: &'static str)
        ensures
            r@ == self.spec_event_name(),
    {
        match self {
            SyncStatus::Indexing => "indexing",
            SyncStatus::Syncing => "syncing",
            SyncStatus::AccountData(_) => "account-data",
            SyncStatus::TransactionSignatures { .. } => "signatures-fetched",
            SyncStatus::TransactionDetails { .. } => "transactions-fetched",
            SyncStatus::Error(_) => "error",
            SyncStatus::Completed => "close",
        }
    }
}

} // verus!
