//! Records that the pipeline persists, and the small value types that the
//! read API hands around. Timestamps are milliseconds since the Unix epoch,
//! supplied by the caller of whichever function stamps the record.

use vstd::prelude::*;

verus! {

/// Persisted snapshot of an on-chain account. Created on first successful
/// account fetch, overwritten in place on refresh. Keyed by `address`.
#[derive(Clone, Debug, PartialEq)]
pub struct Account {
    pub address: String,
    pub lamports: i64,
    pub owner: String,
    pub executable: bool,
    pub data_length: i64,
    pub rent_epoch: i64,
    pub indexed_at: i64,
    pub last_updated_at: i64,
}

/// The mutable fields of an [`Account`], as a refresh writes them back.
#[derive(Clone, Debug, PartialEq)]
pub struct UpdateAccount {
    pub lamports: i64,
    pub owner: String,
    pub executable: bool,
    pub data_length: i64,
    pub rent_epoch: i64,
    pub last_updated_at: i64,
}

/// Persisted signature record, append-only per address. Keyed by `signature`
/// within the scope of `account_address`.
#[derive(Clone, Debug, PartialEq)]
pub struct TransactionSignature {
    pub signature: String,
    pub account_address: String,
    pub slot: i64,
    pub block_time: Option<i64>,
    pub confirmation_status: String,
    pub indexed_at: i64,
}

/// Persisted full transaction record, append-only per address. The payload
/// is the upstream transaction body as text; the library never looks inside
/// it.
#[derive(Clone, Debug, PartialEq)]
pub struct Transaction {
    pub signature: String,
    pub account_address: String,
    pub slot: i64,
    pub block_time: Option<i64>,
    pub transaction: String,
    pub indexed_at: i64,
}

/// Where an address stands in the ingestion state machine.
#[derive(Clone, Copy, Debug, PartialEq, Eq, Structural)]
pub enum IndexingState {
    Idle,
    Indexing,
    Syncing,
}

/// Persisted per-address ingestion state record. Created on the first
/// ingestion attempt; moved back to `Idle` when a run completes.
#[derive(Clone, Debug, PartialEq)]
pub struct AddressIndexingState {
    pub address: String,
    pub state: IndexingState,
    pub created_at: i64,
    pub updated_at: i64,
}

/// Account snapshot as the upstream RPC reports it, already reduced to the
/// plain fields the pipeline keeps.
#[derive(Clone, Debug, PartialEq)]
pub struct AccountInfo {
    pub lamports: i64,
    pub owner: String,
    pub executable: bool,
    pub data_length: i64,
    pub rent_epoch: i64,
}

/// One entry of a signatures page as the upstream RPC reports it. Pages
/// run newest-first; the signature doubles as the pagination cursor.
#[derive(Clone, Debug, PartialEq)]
pub struct SignatureInfo {
    pub signature: String,
    pub slot: i64,
    pub block_time: Option<i64>,
    pub confirmation_status: String,
}

/// One full transaction as the upstream RPC reports it, its body already
/// rendered to text.
#[derive(Clone, Debug, PartialEq)]
pub struct TransactionInfo {
    pub slot: i64,
    pub block_time: Option<i64>,
    pub payload: String,
}

/// Counts that the stats endpoint reports for one address.
#[derive(Clone, Debug, PartialEq)]
pub struct IndexerStats {
    pub account_exists: bool,
    pub signatures: i64,
    pub transactions: i64,
}

/// Window that the paged read queries apply after sorting: drop `skip`
/// records, then return at most `limit` (a non-positive `limit` means no
/// bound, as the document store treats it).
#[derive(Clone, Copy, Debug, PartialEq)]
pub struct Pagination {
    pub skip: u64,
    pub limit: i64,
}

} // verus!
