//! The sync engine: the state machine behind initial indexing and
//! incremental refresh.
//!
//! The engine performs no I/O itself. Each call to [`SyncEngine::step`]
//! consumes the outcome of the previous call (an [`EngineEvent`]) and
//! answers with the next call to perform (an [`EngineAction`]): check or
//! fetch something upstream, write something to the store, emit a progress
//! event into the session, pause for the rate limit, or finish. The caller
//! — the in-memory runner in this crate, or the task wired to the real RPC
//! client and document store — owns the loop and owns nothing else: every
//! decision (page sizes, cursor advancement, termination, error surfacing)
//! is taken here and pinned down by [`SyncEngine::step_ok`].
//!
//! Both paths share the batch-continuation loop. Indexing bootstraps with
//! a small first page for early visible progress and then pages through
//! older history with `before` cursors; refresh bounds the walk with
//! `until` set to the latest signature already persisted, so it stops
//! exactly where the previous run ended. Any failed call aborts the run
//! with a single terminal `Error` event; an empty page ends it with
//! `Completed`.

use vstd::prelude::*;

use crate::error::AppError;
use crate::message::SyncStatus;
use crate::models::{
    Account, AccountInfo, AddressIndexingState, IndexingState, SignatureInfo, Transaction,
    TransactionInfo, TransactionSignature, UpdateAccount,
};

verus! {

/// Page size of the bootstrap fetch: small, for early visible progress.
pub const BOOTSTRAP_PAGE_LIMIT: u64 = 20;

/// Page size of every continuation fetch.
pub const CONTINUATION_PAGE_LIMIT: u64 = 1000;

/// Pause between upstream calls, in milliseconds, to respect rate limits.
pub const RATE_LIMIT_DELAY_MS: u64 = 100;

/// Which run this engine performs.
#[derive(Clone, Copy, Debug, PartialEq, Eq, Structural)]
pub enum EngineMode {
    Indexing,
    Refreshing,
}

/// Where the engine stands: each phase names the event it waits for.
#[derive(Clone, Copy, Debug, PartialEq, Eq, Structural)]
pub enum EnginePhase {
    /// Waiting for the kick-off.
    Ready,
    /// Asked whether an account record exists.
    AwaitExists,
    /// Writing the indexing-state record (`Indexing` or `Syncing`).
    AwaitStateWrite,
    /// Emitting the `Indexing` start event.
    AwaitStartEmit,
    /// Fetching the account snapshot upstream.
    AwaitAccount,
    /// Writing the account record (create on indexing, overwrite on refresh).
    AwaitAccountWrite,
    /// Emitting `AccountData`.
    AwaitAccountEmit,
    /// Fetching the small bootstrap page of signatures.
    AwaitFirstPage,
    /// Looking up the latest persisted signature as the refresh bound.
    AwaitLatest,
    /// Writing the page's signature records.
    AwaitSigWrite,
    /// Reading the fresh signature count back from the store.
    AwaitSigCount,
    /// Emitting `TransactionSignatures` progress.
    AwaitSigEmit,
    /// Pausing before the next per-signature detail fetch.
    AwaitTxSleep,
    /// Fetching one transaction detail.
    AwaitTx,
    /// Writing the page's transaction records.
    AwaitTxWrite,
    /// Reading the fresh transaction count back from the store.
    AwaitTxCount,
    /// Emitting `TransactionDetails` progress.
    AwaitTxEmit,
    /// Pausing before the next page fetch.
    AwaitPageSleep,
    /// Fetching the next continuation page.
    AwaitPage,
    /// Writing the indexing-state record back to `Idle`.
    AwaitIdleWrite,
    /// Emitting the terminal `Completed`.
    AwaitCompleteEmit,
    /// Emitting the terminal `Error`.
    AwaitErrorEmit,
    /// The run is over.
    Done,
}

/// Outcome of the call the engine asked for, handed back to `step`.
#[derive(Clone, Debug, PartialEq)]
pub enum EngineEvent {
    /// Kick-off; the engine has asked for nothing yet.
    Started,
    /// Answer to `CheckAccount`.
    AccountExists(bool),
    /// A store write succeeded.
    Acked,
    /// Answer to `FetchAccount`.
    AccountFetched(AccountInfo),
    /// Answer to `UpdateAccount`: the record as the store now holds it.
    AccountUpdated(Account),
    /// Answer to `FetchSignatures`: one page, newest first.
    SignaturesPage(Vec<SignatureInfo>),
    /// Answer to `FetchTransaction`.
    TransactionFetched(TransactionInfo),
    /// Answer to `CountSignatures` or `CountTransactions`.
    Counted(u64),
    /// Answer to `FetchLatest`.
    LatestSignature(String),
    /// The `Emit` was published.
    Emitted,
    /// The `Sleep` elapsed.
    Slept,
    /// The call the engine asked for failed; any upstream or store error
    /// aborts the run.
    Failed(AppError),
}

/// The next call the engine asks its caller to perform.
#[derive(Clone, Debug, PartialEq)]
pub enum EngineAction {
    /// Ask the store whether an account record exists for the address.
    CheckAccount,
    /// Create the per-address indexing-state record.
    PutIndexingState(AddressIndexingState),
    /// Update the indexing-state record to this state, stamped with this
    /// time.
    SetIndexingState(IndexingState, i64),
    /// Publish this event into the session.
    Emit(SyncStatus),
    /// Fetch the account snapshot upstream.
    FetchAccount,
    /// Create the account record.
    StoreAccount(Account),
    /// Overwrite the mutable fields of the account record.
    UpdateAccount(UpdateAccount),
    /// Fetch one page of signatures, newest first.
    FetchSignatures { before: Option<String>, until: Option<String>, limit: u64 },
    /// Append these signature records.
    StoreSignatures(Vec<TransactionSignature>),
    /// Read the fresh signature count for the address.
    CountSignatures,
    /// Fetch the full transaction with this signature.
    FetchTransaction(String),
    /// Append these transaction records.
    StoreTransactions(Vec<Transaction>),
    /// Read the fresh transaction count for the address.
    CountTransactions,
    /// Look up the most recently persisted signature for the address.
    FetchLatest,
    /// Pause this many milliseconds.
    Sleep(u64),
    /// The run is over; true when it completed, false when it failed.
    /// The caller must now remove the session from the registry.
    Finished(bool),
}

/// The per-address sync state machine.
pub struct SyncEngine {
    /// The address this run ingests.
    pub address: String,
    /// Initial indexing or incremental refresh.
    pub mode: EngineMode,
    /// The event the engine is waiting for.
    pub phase: EnginePhase,
    /// The page of signatures being processed.
    pub page: Vec<SignatureInfo>,
    /// Transaction records built so far for the current page.
    pub batch: Vec<Transaction>,
    /// Index into `page` of the next detail fetch.
    pub tx_index: usize,
    /// Pagination cursor: fetch strictly older than this signature.
    pub cursor: Option<String>,
    /// Refresh bound: stop at this signature; `None` while indexing.
    pub until: Option<String>,
    /// Whether the page being processed is the bootstrap page.
    pub first_batch: bool,
    /// The account record written during indexing, kept to emit it.
    pub account: Option<Account>,
}

/// The signature record the engine builds from one page entry.
pub open spec fn sig_record_matches(
    r: TransactionSignature,
    s: SignatureInfo,
    addr: Seq<char>,
    now: i64,
) -> bool {
    &&& r.signature@ == s.signature@
    &&& r.account_address@ == addr
    &&& r.slot == s.slot
    &&& r.block_time == s.block_time
    &&& r.confirmation_status@ == s.confirmation_status@
    &&& r.indexed_at == now
}

/// The signature records the engine builds from one page, in page order.
pub open spec fn sig_records_match(
    rs: Seq<TransactionSignature>,
    page: Seq<SignatureInfo>,
    addr: Seq<char>,
    now: i64,
) -> bool {
    &&& rs.len() == page.len()
    &&& forall|i: int| 0 <= i < page.len() ==> sig_record_matches(#[trigger] rs[i], page[i], addr, now)
}

/// The transaction record the engine builds from one detail fetch.
pub open spec fn txn_record_matches(
    r: Transaction,
    s: SignatureInfo,
    info: TransactionInfo,
    addr: Seq<char>,
    now: i64,
) -> bool {
    &&& r.signature@ == s.signature@
    &&& r.account_address@ == addr
    &&& r.slot == info.slot
    &&& r.block_time == info.block_time
    &&& r.transaction@ == info.payload@
    &&& r.indexed_at == now
}

/// The account record the engine builds from the fetched snapshot.
pub open spec fn account_record_matches(
    a: Account,
    addr: Seq<char>,
    info: AccountInfo,
    now: i64,
) -> bool {
    &&& a.address@ == addr
    &&& a.lamports == info.lamports
    &&& a.owner@ == info.owner@
    &&& a.executable == info.executable
    &&& a.data_length == info.data_length
    &&& a.rent_epoch == info.rent_epoch
    &&& a.indexed_at == now
    &&& a.last_updated_at == now
}

/// The account update the engine builds from the refreshed snapshot.
pub open spec fn update_matches(u: UpdateAccount, info: AccountInfo, now: i64) -> bool {
    &&& u.lamports == info.lamports
    &&& u.owner@ == info.owner@
    &&& u.executable == info.executable
    &&& u.data_length == info.data_length
    &&& u.rent_epoch == info.rent_epoch
    &&& u.last_updated_at == now
}

impl SyncEngine {
    /// Safety invariant: while the detail loop runs, the index points into
    /// the page, and a page being processed is never empty.
    pub open spec fn wf(self) -> bool {
        &&& (self.phase == EnginePhase::AwaitTxSleep || self.phase == EnginePhase::AwaitTx)
            ==> self.tx_index < self.page@.len()
        &&& (self.phase == EnginePhase::AwaitSigWrite || self.phase == EnginePhase::AwaitSigCount
            || self.phase == EnginePhase::AwaitSigEmit || self.phase == EnginePhase::AwaitTxSleep
            || self.phase == EnginePhase::AwaitTx || self.phase == EnginePhase::AwaitTxWrite
            || self.phase == EnginePhase::AwaitTxCount || self.phase == EnginePhase::AwaitTxEmit)
            ==> self.page@.len() > 0
        &&& (self.phase == EnginePhase::AwaitAccountWrite && self.mode == EngineMode::Indexing)
            ==> self.account is Some
        &&& (self.phase == EnginePhase::AwaitSigWrite || self.phase == EnginePhase::AwaitSigCount
            || self.phase == EnginePhase::AwaitSigEmit) ==> self.tx_index == 0
    }

    /// Whether a failure report is a meaningful answer in this phase:
    /// exactly the phases whose pending call touches the store or the
    /// upstream. Emissions and pauses cannot fail.
    pub open spec fn can_fail(self) -> bool {
        self.phase == EnginePhase::AwaitExists
            || self.phase == EnginePhase::AwaitStateWrite || self.phase == EnginePhase::AwaitAccount
            || self.phase == EnginePhase::AwaitAccountWrite
            || self.phase == EnginePhase::AwaitFirstPage || self.phase == EnginePhase::AwaitLatest
            || self.phase == EnginePhase::AwaitSigWrite || self.phase == EnginePhase::AwaitSigCount
            || self.phase == EnginePhase::AwaitTx || self.phase == EnginePhase::AwaitTxWrite
            || self.phase == EnginePhase::AwaitTxCount || self.phase == EnginePhase::AwaitPage
            || self.phase == EnginePhase::AwaitIdleWrite
    }

    /// The event shape `step` expects next: the answer to the action it
    /// last returned.
    pub open spec fn wants(self, ev: EngineEvent) -> bool {
        match self.phase {
            EnginePhase::Ready => ev is Started,
            EnginePhase::AwaitExists => ev is AccountExists || ev is Failed,
            EnginePhase::AwaitStateWrite => ev is Acked || ev is Failed,
            EnginePhase::AwaitAccount => ev is AccountFetched || ev is Failed,
            EnginePhase::AwaitAccountWrite => {
                if self.mode == EngineMode::Indexing {
                    ev is Acked || ev is Failed
                } else {
                    ev is AccountUpdated || ev is Failed
                }
            },
            EnginePhase::AwaitFirstPage => ev is SignaturesPage || ev is Failed,
            EnginePhase::AwaitLatest => ev is LatestSignature || ev is Failed,
            EnginePhase::AwaitSigWrite => ev is Acked || ev is Failed,
            EnginePhase::AwaitSigCount => ev is Counted || ev is Failed,
            EnginePhase::AwaitTx => ev is TransactionFetched || ev is Failed,
            EnginePhase::AwaitTxWrite => ev is Acked || ev is Failed,
            EnginePhase::AwaitTxCount => ev is Counted || ev is Failed,
            EnginePhase::AwaitPage => ev is SignaturesPage || ev is Failed,
            EnginePhase::AwaitIdleWrite => ev is Acked || ev is Failed,
            EnginePhase::AwaitTxSleep => ev is Slept,
            EnginePhase::AwaitPageSleep => ev is Slept,
            EnginePhase::AwaitStartEmit => ev is Emitted,
            EnginePhase::AwaitAccountEmit => ev is Emitted,
            EnginePhase::AwaitSigEmit => ev is Emitted,
            EnginePhase::AwaitTxEmit => ev is Emitted,
            EnginePhase::AwaitCompleteEmit => ev is Emitted,
            EnginePhase::AwaitErrorEmit => ev is Emitted,
            EnginePhase::Done => false,
        }
    }

    /// Everything but the phase is untouched.
    pub open spec fn frame(pre: Self, post: Self) -> bool {
        &&& post.address == pre.address
        &&& post.mode == pre.mode
        &&& post.page == pre.page
        &&& post.batch == pre.batch
        &&& post.tx_index == pre.tx_index
        &&& post.cursor == pre.cursor
        &&& post.until == pre.until
        &&& post.first_batch == pre.first_batch
        &&& post.account == pre.account
    }

    /// A fresh page arrived: the engine keeps it, points the cursor at its
    /// oldest (last) entry, clears the detail batch, and asks the caller
    /// to persist the page's signature records.
    pub open spec fn takes_page(
        pre: Self,
        page: Seq<SignatureInfo>,
        now: i64,
        post: Self,
        act: EngineAction,
        first: bool,
    ) -> bool {
        &&& post.phase == EnginePhase::AwaitSigWrite
        &&& post.address == pre.address
        &&& post.mode == pre.mode
        &&& post.page@ == page
        &&& post.batch@ == Seq::<Transaction>::empty()
        &&& post.tx_index == 0
        &&& post.cursor matches Some(c) && c@ == page.last().signature@
        &&& post.until == pre.until
        &&& post.first_batch == first
        &&& post.account == pre.account
        &&& act matches EngineAction::StoreSignatures(rs)
            && sig_records_match(rs@, page, pre.address@, now)
    }

    /// The whole transition relation: what `step` did to the state and
    /// which action it answered, for every phase and event.
    pub open spec fn step_ok(
        pre: Self,
        ev: EngineEvent,
        now: i64,
        post: Self,
        act: EngineAction,
    ) -> bool {
        match ev {
            EngineEvent::Failed(e) => {
                &&& pre.can_fail()
                &&& Self::frame(pre, post)
                &&& post.phase == EnginePhase::AwaitErrorEmit
                &&& act == EngineAction::Emit(SyncStatus::Error(e))
            },
            _ => match pre.phase {
                EnginePhase::Ready => {
                    &&& Self::frame(pre, post)
                    &&& post.phase == EnginePhase::AwaitExists
                    &&& act == EngineAction::CheckAccount
                },
                EnginePhase::AwaitExists => {
                    &&& ev matches EngineEvent::AccountExists(exists)
                    &&& if pre.mode == EngineMode::Indexing {
                        if exists {
                            &&& Self::frame(pre, post)
                            &&& post.phase == EnginePhase::AwaitErrorEmit
                            &&& act == EngineAction::Emit(SyncStatus::Error(AppError::AlreadyIndexed))
                        } else {
                            &&& Self::frame(pre, post)
                            &&& post.phase == EnginePhase::AwaitStateWrite
                            &&& act matches EngineAction::PutIndexingState(st)
                                && st.address@ == pre.address@
                                && st.state == IndexingState::Indexing
                                && st.created_at == now && st.updated_at == now
                        }
                    } else {
                        if exists {
                            &&& Self::frame(pre, post)
                            &&& post.phase == EnginePhase::AwaitStateWrite
                            &&& act == EngineAction::SetIndexingState(IndexingState::Syncing, now)
                        } else {
                            &&& Self::frame(pre, post)
                            &&& post.phase == EnginePhase::AwaitErrorEmit
                            &&& act == EngineAction::Emit(SyncStatus::Error(AppError::NotIndexed))
                        }
                    }
                },
                EnginePhase::AwaitStateWrite => {
                    &&& Self::frame(pre, post)
                    &&& if pre.mode == EngineMode::Indexing {
                        &&& post.phase == EnginePhase::AwaitStartEmit
                        &&& act == EngineAction::Emit(SyncStatus::Indexing)
                    } else {
                        &&& post.phase == EnginePhase::AwaitAccount
                        &&& act == EngineAction::FetchAccount
                    }
                },
                EnginePhase::AwaitStartEmit => {
                    &&& Self::frame(pre, post)
                    &&& post.phase == EnginePhase::AwaitAccount
                    &&& act == EngineAction::FetchAccount
                },
                EnginePhase::AwaitAccount => {
                    &&& ev matches EngineEvent::AccountFetched(info)
                    &&& if pre.mode == EngineMode::Indexing {
                        &&& post.phase == EnginePhase::AwaitAccountWrite
                        &&& post.address == pre.address && post.mode == pre.mode
                        &&& post.page == pre.page && post.batch == pre.batch
                        &&& post.tx_index == pre.tx_index && post.cursor == pre.cursor
                        &&& post.until == pre.until && post.first_batch == pre.first_batch
                        &&& act matches EngineAction::StoreAccount(rec)
                            && account_record_matches(rec, pre.address@, info, now)
                            && post.account == Some(rec)
                    } else {
                        &&& Self::frame(pre, post)
                        &&& post.phase == EnginePhase::AwaitAccountWrite
                        &&& act matches EngineAction::UpdateAccount(u) && update_matches(u, info, now)
                    }
                },
                EnginePhase::AwaitAccountWrite => {
                    &&& Self::frame(pre, post)
                    &&& post.phase == EnginePhase::AwaitAccountEmit
                    &&& if pre.mode == EngineMode::Indexing {
                        &&& ev is Acked
                        &&& act matches EngineAction::Emit(s) && s matches SyncStatus::AccountData(a)
                            && pre.account == Some(a)
                    } else {
                        &&& ev matches EngineEvent::AccountUpdated(acct)
                        &&& act == EngineAction::Emit(SyncStatus::AccountData(acct))
                    }
                },
                EnginePhase::AwaitAccountEmit => {
                    &&& Self::frame(pre, post)
                    &&& if pre.mode == EngineMode::Indexing {
                        &&& post.phase == EnginePhase::AwaitFirstPage
                        &&& act == (EngineAction::FetchSignatures {
                            before: None,
                            until: None,
                            limit: BOOTSTRAP_PAGE_LIMIT,
                        })
                    } else {
                        &&& post.phase == EnginePhase::AwaitLatest
                        &&& act == EngineAction::FetchLatest
                    }
                },
                EnginePhase::AwaitLatest => {
                    &&& ev matches EngineEvent::LatestSignature(s)
                    &&& post.phase == EnginePhase::AwaitPageSleep
                    &&& post.address == pre.address && post.mode == pre.mode
                    &&& post.page == pre.page && post.batch == pre.batch
                    &&& post.tx_index == pre.tx_index
                    &&& post.cursor is None
                    &&& post.until == Some(s)
                    &&& post.first_batch == pre.first_batch && post.account == pre.account
                    &&& act == EngineAction::Sleep(RATE_LIMIT_DELAY_MS)
                },
                EnginePhase::AwaitFirstPage => {
                    &&& ev matches EngineEvent::SignaturesPage(page)
                    &&& if page@.len() == 0 {
                        &&& Self::frame(pre, post)
                        &&& post.phase == EnginePhase::AwaitErrorEmit
                        &&& act == EngineAction::Emit(SyncStatus::Error(AppError::NoTransactions))
                    } else {
                        Self::takes_page(pre, page@, now, post, act, true)
                    }
                },
                EnginePhase::AwaitPage => {
                    &&& ev matches EngineEvent::SignaturesPage(page)
                    &&& if page@.len() == 0 {
                        &&& Self::frame(pre, post)
                        &&& post.phase == EnginePhase::AwaitIdleWrite
                        &&& act == EngineAction::SetIndexingState(IndexingState::Idle, now)
                    } else {
                        Self::takes_page(pre, page@, now, post, act, false)
                    }
                },
                EnginePhase::AwaitSigWrite => {
                    &&& Self::frame(pre, post)
                    &&& post.phase == EnginePhase::AwaitSigCount
                    &&& act == EngineAction::CountSignatures
                },
                EnginePhase::AwaitSigCount => {
                    &&& ev matches EngineEvent::Counted(total)
                    &&& Self::frame(pre, post)
                    &&& post.phase == EnginePhase::AwaitSigEmit
                    &&& act == (EngineAction::Emit(SyncStatus::TransactionSignatures {
                        fetched: pre.page@.len() as u64,
                        total,
                    }))
                },
                EnginePhase::AwaitSigEmit => {
                    &&& Self::frame(pre, post)
                    &&& post.phase == EnginePhase::AwaitTxSleep
                    &&& act == EngineAction::Sleep(RATE_LIMIT_DELAY_MS)
                },
                EnginePhase::AwaitTxSleep => {
                    &&& Self::frame(pre, post)
                    &&& post.phase == EnginePhase::AwaitTx
                    &&& act matches EngineAction::FetchTransaction(s)
                        && s@ == pre.page@[pre.tx_index as int].signature@
                },
                EnginePhase::AwaitTx => {
                    &&& ev matches EngineEvent::TransactionFetched(info)
                    &&& post.address == pre.address && post.mode == pre.mode
                    &&& post.page == pre.page
                    &&& post.tx_index == pre.tx_index + 1
                    &&& post.cursor == pre.cursor && post.until == pre.until
                    &&& post.first_batch == pre.first_batch && post.account == pre.account
                    &&& if pre.tx_index + 1 < pre.page@.len() {
                        &&& post.phase == EnginePhase::AwaitTxSleep
                        &&& post.batch@.len() == pre.batch@.len() + 1
                        &&& post.batch@ == pre.batch@.push(post.batch@.last())
                        &&& txn_record_matches(
                            post.batch@.last(),
                            pre.page@[pre.tx_index as int],
                            info,
                            pre.address@,
                            now,
                        )
                        &&& act == EngineAction::Sleep(RATE_LIMIT_DELAY_MS)
                    } else {
                        &&& post.phase == EnginePhase::AwaitTxWrite
                        &&& post.batch@ == Seq::<Transaction>::empty()
                        &&& act matches EngineAction::StoreTransactions(b)
                            && b@.len() == pre.batch@.len() + 1
                            && b@ == pre.batch@.push(b@.last())
                            && txn_record_matches(
                            b@.last(),
                            pre.page@[pre.tx_index as int],
                            info,
                            pre.address@,
                            now,
                        )
                    }
                },
                EnginePhase::AwaitTxWrite => {
                    &&& Self::frame(pre, post)
                    &&& post.phase == EnginePhase::AwaitTxCount
                    &&& act == EngineAction::CountTransactions
                },
                EnginePhase::AwaitTxCount => {
                    &&& ev matches EngineEvent::Counted(total)
                    &&& Self::frame(pre, post)
                    &&& post.phase == EnginePhase::AwaitTxEmit
                    &&& act == (EngineAction::Emit(SyncStatus::TransactionDetails {
                        fetched: pre.page@.len() as u64,
                        total,
                    }))
                },
                EnginePhase::AwaitTxEmit => {
                    &&& Self::frame(pre, post)
                    &&& post.phase == EnginePhase::AwaitPageSleep
                    &&& act == EngineAction::Sleep(RATE_LIMIT_DELAY_MS)
                },
                EnginePhase::AwaitPageSleep => {
                    &&& Self::frame(pre, post)
                    &&& post.phase == EnginePhase::AwaitPage
                    &&& act matches EngineAction::FetchSignatures { before, until, limit }
                        && before == pre.cursor && until == pre.until
                        && limit == CONTINUATION_PAGE_LIMIT
                },
                EnginePhase::AwaitIdleWrite => {
                    &&& Self::frame(pre, post)
                    &&& post.phase == EnginePhase::AwaitCompleteEmit
                    &&& act == EngineAction::Emit(SyncStatus::Completed)
                },
                EnginePhase::AwaitCompleteEmit => {
                    &&& Self::frame(pre, post)
                    &&& post.phase == EnginePhase::Done
                    &&& act == EngineAction::Finished(true)
                },
                EnginePhase::AwaitErrorEmit => {
                    &&& Self::frame(pre, post)
                    &&& post.phase == EnginePhase::Done
                    &&& act == EngineAction::Finished(false)
                },
                EnginePhase::Done => false,
            },
        }
    }

    /// A fresh engine for first-time ingestion of `address`.
    pub fn new_indexing(address: String) -> (e: Self)
        ensures
            e.wf(),
            e.address == address,
            e.mode == EngineMode::Indexing,
            e.phase == EnginePhase::Ready,
            e.until is None,
            e.cursor is None,
    {
        SyncEngine {
            address,
            mode: EngineMode::Indexing,
            phase: EnginePhase::Ready,
            page: Vec::new(),
            batch: Vec::new(),
            tx_index: 0,
            cursor: None,
            until: None,
            first_batch: false,
            account: None,
        }
    }

    /// A fresh engine for an incremental refresh of `address`.
    pub fn new_refresh(address: String) -> (e: Self)
        ensures
            e.wf(),
            e.address == address,
            e.mode == EngineMode::Refreshing,
            e.phase == EnginePhase::Ready,
            e.until is None,
            e.cursor is None,
    {
        SyncEngine {
            address,
            mode: EngineMode::Refreshing,
            phase: EnginePhase::Ready,
            page: Vec::new(),
            batch: Vec::new(),
            tx_index: 0,
            cursor: None,
            until: None,
            first_batch: false,
            account: None,
        }
    }

    /// Advance the state machine: consume the outcome of the previous
    /// action, answer with the next one. `now` stamps every record the
    /// engine builds during this step.
    pub fn step(&mut self, ev: EngineEvent, now: i64) -> (act: EngineAction)
        requires
            old(self).wf(),
            old(self).wants(ev),
        ensures
            final(self).wf(),
            Self::step_ok(*old(self), ev, now, *final(self), act),
    {
        match ev {
            EngineEvent::Failed(e) => {
                self.phase = EnginePhase::AwaitErrorEmit;
                EngineAction::Emit(SyncStatus::Error(e))
            },
            EngineEvent::Started => {
                self.phase = EnginePhase::AwaitExists;
                EngineAction::CheckAccount
            },
            EngineEvent::AccountExists(exists) => {
                match self.mode {
                    EngineMode::Indexing => {
                        if exists {
                            self.phase = EnginePhase::AwaitErrorEmit;
                            EngineAction::Emit(SyncStatus::Error(AppError::AlreadyIndexed))
                        } else {
                            self.phase = EnginePhase::AwaitStateWrite;
                            EngineAction::PutIndexingState(AddressIndexingState {
                                address: self.address.clone(),
                                state: IndexingState::Indexing,
                                created_at: now,
                                updated_at: now,
                            })
                        }
                    },
                    EngineMode::Refreshing => {
                        if exists {
                            self.phase = EnginePhase::AwaitStateWrite;
                            EngineAction::SetIndexingState(IndexingState::Syncing, now)
                        } else {
                            self.phase = EnginePhase::AwaitErrorEmit;
                            EngineAction::Emit(SyncStatus::Error(AppError::NotIndexed))
                        }
                    },
                }
            },
            EngineEvent::Acked => {
                match self.phase {
                    EnginePhase::AwaitStateWrite => {
                        match self.mode {
                            EngineMode::Indexing => {
                                self.phase = EnginePhase::AwaitStartEmit;
                                EngineAction::Emit(SyncStatus::Indexing)
                            },
                            EngineMode::Refreshing => {
                                self.phase = EnginePhase::AwaitAccount;
                                EngineAction::FetchAccount
                            },
                        }
                    },
                    EnginePhase::AwaitAccountWrite => {
                        let rec = clone_account(self.account.as_ref().unwrap());
                        self.phase = EnginePhase::AwaitAccountEmit;
                        EngineAction::Emit(SyncStatus::AccountData(rec))
                    },
                    EnginePhase::AwaitSigWrite => {
                        self.phase = EnginePhase::AwaitSigCount;
                        EngineAction::CountSignatures
                    },
                    EnginePhase::AwaitTxWrite => {
                        self.phase = EnginePhase::AwaitTxCount;
                        EngineAction::CountTransactions
                    },
                    EnginePhase::AwaitIdleWrite => {
                        self.phase = EnginePhase::AwaitCompleteEmit;
                        EngineAction::Emit(SyncStatus::Completed)
                    },
                    _ => vstd::pervasive::unreached(),
                }
            },
            EngineEvent::Emitted => {
                match self.phase {
                    EnginePhase::AwaitStartEmit => {
                        self.phase = EnginePhase::AwaitAccount;
                        EngineAction::FetchAccount
                    },
                    EnginePhase::AwaitAccountEmit => {
                        match self.mode {
                            EngineMode::Indexing => {
                                self.phase = EnginePhase::AwaitFirstPage;
                                EngineAction::FetchSignatures {
                                    before: None,
                                    until: None,
                                    limit: BOOTSTRAP_PAGE_LIMIT,
                                }
                            },
                            EngineMode::Refreshing => {
                                self.phase = EnginePhase::AwaitLatest;
                                EngineAction::FetchLatest
                            },
                        }
                    },
                    EnginePhase::AwaitSigEmit => {
                        self.phase = EnginePhase::AwaitTxSleep;
                        EngineAction::Sleep(RATE_LIMIT_DELAY_MS)
                    },
                    EnginePhase::AwaitTxEmit => {
                        self.phase = EnginePhase::AwaitPageSleep;
                        EngineAction::Sleep(RATE_LIMIT_DELAY_MS)
                    },
                    EnginePhase::AwaitCompleteEmit => {
                        self.phase = EnginePhase::Done;
                        EngineAction::Finished(true)
                    },
                    EnginePhase::AwaitErrorEmit => {
                        self.phase = EnginePhase::Done;
                        EngineAction::Finished(false)
                    },
                    _ => vstd::pervasive::unreached(),
                }
            },
            EngineEvent::AccountFetched(info) => {
                match self.mode {
                    EngineMode::Indexing => {
                        let rec = Account {
                            address: self.address.clone(),
                            lamports: info.lamports,
                            owner: info.owner,
                            executable: info.executable,
                            data_length: info.data_length,
                            rent_epoch: info.rent_epoch,
                            indexed_at: now,
                            last_updated_at: now,
                        };
                        let copy = clone_account(&rec);
                        self.account = Some(rec);
                        self.phase = EnginePhase::AwaitAccountWrite;
                        EngineAction::StoreAccount(copy)
                    },
                    EngineMode::Refreshing => {
                        self.phase = EnginePhase::AwaitAccountWrite;
                        EngineAction::UpdateAccount(UpdateAccount {
                            lamports: info.lamports,
                            owner: info.owner,
                            executable: info.executable,
                            data_length: info.data_length,
                            rent_epoch: info.rent_epoch,
                            last_updated_at: now,
                        })
                    },
                }
            },
            EngineEvent::AccountUpdated(acct) => {
                self.phase = EnginePhase::AwaitAccountEmit;
                EngineAction::Emit(SyncStatus::AccountData(acct))
            },
            EngineEvent::LatestSignature(s) => {
                self.until = Some(s);
                self.cursor = None;
                self.phase = EnginePhase::AwaitPageSleep;
                EngineAction::Sleep(RATE_LIMIT_DELAY_MS)
            },
            EngineEvent::SignaturesPage(page) => {
                let first = matches!(self.phase, EnginePhase::AwaitFirstPage);
                if page.len() == 0 {
                    if first {
                        self.phase = EnginePhase::AwaitErrorEmit;
                        EngineAction::Emit(SyncStatus::Error(AppError::NoTransactions))
                    } else {
                        self.phase = EnginePhase::AwaitIdleWrite;
                        EngineAction::SetIndexingState(IndexingState::Idle, now)
                    }
                } else {
                    let records = build_signature_records(&page, &self.address, now);
                    self.cursor = Some(page[page.len() - 1].signature.clone());
                    self.page = page;
                    self.batch = Vec::new();
                    self.tx_index = 0;
                    self.first_batch = first;
                    self.phase = EnginePhase::AwaitSigWrite;
                    EngineAction::StoreSignatures(records)
                }
            },
            EngineEvent::Counted(total) => {
                match self.phase {
                    EnginePhase::AwaitSigCount => {
                        self.phase = EnginePhase::AwaitSigEmit;
                        EngineAction::Emit(SyncStatus::TransactionSignatures {
                            fetched: self.page.len() as u64,
                            total,
                        })
                    },
                    EnginePhase::AwaitTxCount => {
                        self.phase = EnginePhase::AwaitTxEmit;
                        EngineAction::Emit(SyncStatus::TransactionDetails {
                            fetched: self.page.len() as u64,
                            total,
                        })
                    },
                    _ => vstd::pervasive::unreached(),
                }
            },
            EngineEvent::Slept => {
                match self.phase {
                    EnginePhase::AwaitTxSleep => {
                        let s = self.page[self.tx_index].signature.clone();
                        self.phase = EnginePhase::AwaitTx;
                        EngineAction::FetchTransaction(s)
                    },
                    EnginePhase::AwaitPageSleep => {
                        self.phase = EnginePhase::AwaitPage;
                        EngineAction::FetchSignatures {
                            before: clone_opt_string(&self.cursor),
                            until: clone_opt_string(&self.until),
                            limit: CONTINUATION_PAGE_LIMIT,
                        }
                    },
                    _ => vstd::pervasive::unreached(),
                }
            },
            EngineEvent::TransactionFetched(info) => {
                proof {
                    assert(old(self).phase == EnginePhase::AwaitTx);
                }
                let n = self.page.len();
                proof {
                    assert(self.tx_index < n);
                }
                let entry = &self.page[self.tx_index];
                let rec = Transaction {
                    signature: entry.signature.clone(),
                    account_address: self.address.clone(),
                    slot: info.slot,
                    block_time: info.block_time,
                    transaction: info.payload,
                    indexed_at: now,
                };
                self.batch.push(rec);
                self.tx_index = self.tx_index + 1;
                if self.tx_index < self.page.len() {
                    self.phase = EnginePhase::AwaitTxSleep;
                    EngineAction::Sleep(RATE_LIMIT_DELAY_MS)
                } else {
                    let mut b: Vec<Transaction> = Vec::new();
                    std::mem::swap(&mut b, &mut self.batch);
                    self.phase = EnginePhase::AwaitTxWrite;
                    EngineAction::StoreTransactions(b)
                }
            },
        }
    }
}

/// A field-for-field copy of an account record.
fn clone_account(a: &Account) -> (r: Account)
    ensures
        r == *a,
{
    Account {
        address: a.address.clone(),
        lamports: a.lamports,
        owner: a.owner.clone(),
        executable: a.executable,
        data_length: a.data_length,
        rent_epoch: a.rent_epoch,
        indexed_at: a.indexed_at,
        last_updated_at: a.last_updated_at,
    }
}

/// A copy of an optional cursor value.
fn clone_opt_string(o: &Option<String>) -> (r: Option<String>)
    ensures
        r == *o,
{
    match o {
        Some(s) => Some(s.clone()),
        None => None,
    }
}

/// Build the signature records for one page, in page order, all stamped
/// with the same time.
fn build_signature_records(page: &Vec<SignatureInfo>, address: &String, now: i64) -> (rs: Vec<
    TransactionSignature,
>)
    ensures
        sig_records_match(rs@, page@, address@, now),
{
    let mut rs: Vec<TransactionSignature> = Vec::new();
    let n = page.len();
    let mut i: usize = 0;
    while i < n
        invariant
            n == page@.len(),
            i <= n,
            rs@.len() == i,
            forall|j: int| 0 <= j < i ==> sig_record_matches(
                #[trigger] rs@[j],
                page@[j],
                address@,
                now,
            ),
        decreases n - i,
    {
        let entry = &page[i];
        rs.push(TransactionSignature {
            signature: entry.signature.clone(),
            account_address: address.clone(),
            slot: entry.slot,
            block_time: entry.block_time,
            confirmation_status: entry.confirmation_status.clone(),
            indexed_at: now,
        });
        i = i + 1;
    }
    rs
}

/// Law: an address with no transaction history ends in `NoTransactions`.
///
/// When the bootstrap page of a first-time run comes back empty, the
/// engine's next and only emission is the terminal `Error` carrying
/// `NoTransactions`; it asks for no store write, so the indexing-state
/// record stays exactly where the bootstrap left it, never advanced past
/// `Indexing`.
pub proof fn lemma_empty_bootstrap_ends_in_no_transactions(
    pre: SyncEngine,
    ev: EngineEvent,
    now: i64,
    post: SyncEngine,
    act: EngineAction,
)
    requires
        SyncEngine::step_ok(pre, ev, now, post, act),
        pre.phase == EnginePhase::AwaitFirstPage,
        ev matches EngineEvent::SignaturesPage(page) && page@.len() == 0,
    ensures
        act == EngineAction::Emit(SyncStatus::Error(AppError::NoTransactions)),
        post.phase == EnginePhase::AwaitErrorEmit,
{
}

/// Law: a failed run writes nothing more.
///
/// Once the engine heads into its terminal error emission, the only
/// actions it ever issues are that emission and `Finished`: no store
/// write of any kind — in particular no `Idle` indexing-state write —
/// follows an error.
pub proof fn lemma_error_path_writes_nothing(
    pre: SyncEngine,
    ev: EngineEvent,
    now: i64,
    post: SyncEngine,
    act: EngineAction,
)
    requires
        SyncEngine::step_ok(pre, ev, now, post, act),
        pre.phase == EnginePhase::AwaitErrorEmit,
    ensures
        act == EngineAction::Finished(false),
        post.phase == EnginePhase::Done,
{
}

/// Law: the refresh bound never moves.
///
/// Every signatures page the engine requests carries exactly the `until`
/// bound it holds, and no step changes that bound once the latest
/// persisted signature fixed it: the continuation walk of a refresh stops
/// where the previous run ended.
pub proof fn lemma_continuation_keeps_until(
    pre: SyncEngine,
    ev: EngineEvent,
    now: i64,
    post: SyncEngine,
    act: EngineAction,
)
    requires
        SyncEngine::step_ok(pre, ev, now, post, act),
    ensures
        act matches EngineAction::FetchSignatures { until, .. } ==> (pre.phase
            == EnginePhase::AwaitPageSleep ==> until == pre.until),
        !(ev is LatestSignature) ==> post.until == pre.until,
{
}

} // verus!
