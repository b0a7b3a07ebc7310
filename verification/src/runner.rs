//! The in-memory runner: a whole ingestion or refresh run, executed
//! against the store and upstream models.
//!
//! The runner owns the loop that the engine's step machine prescribes: it
//! performs each requested call on the in-memory collaborators, hands the
//! outcome back, and stops at the terminal action. It is the verified
//! counterpart of the task that the service spawns per run, and its
//! contract pins the run's observable behaviour down: the session history
//! only grows, every event before the last is a progress event, and the
//! run ends — when it ends within the step budget — with exactly one
//! terminal event, `Completed` on success and `Error` carrying the
//! returned failure otherwise.
//!
//! The outcomes are owed, not merely permitted. A malformed address, a
//! violated precondition and an empty first-time history each force
//! their exact error, with the store left exactly as the failure rule
//! says; and given the step budget the fuel formulas state, a run on a
//! well-formed input must succeed, leaving the persisted collections
//! equal — entry for entry — to the upstream's ledger (for a refresh:
//! the old records untouched plus exactly the entries newer than the
//! stored latest signature).

use vstd::prelude::*;

use crate::address::{pubkey_accepted, validate_address};
use crate::engine::{
    account_record_matches, sig_record_matches, txn_record_matches, EngineAction, EngineEvent,
    EngineMode, EnginePhase, SyncEngine, BOOTSTRAP_PAGE_LIMIT, CONTINUATION_PAGE_LIMIT,
};
use crate::error::AppError;
use crate::message::SyncStatus;
use crate::models::{IndexingState, Transaction, TransactionSignature};
use crate::registry::SessionRegistry;
use crate::store::Store;
use crate::upstream::{
    ledger_has_sig, ledger_sig_index, lemma_page_len_bounded, lemma_page_len_unbounded,
    LedgerEntry, UpstreamLedger,
};

verus! {

/// A field-for-field copy of an error value.
fn clone_app_error(e: &AppError) -> (r: AppError)
    ensures
        r == *e,
{
    match e {
        AppError::InvalidAddress => AppError::InvalidAddress,
        AppError::AlreadyIndexed => AppError::AlreadyIndexed,
        AppError::NotIndexed => AppError::NotIndexed,
        AppError::NoTransactions => AppError::NoTransactions,
        AppError::Upstream(d) => AppError::Upstream(d.clone()),
        AppError::Storage(d) => AppError::Storage(d.clone()),
        AppError::NotFound(w) => AppError::NotFound(w.clone()),
    }
}

/// What a finished run guarantees of the session history it leaves
/// behind, relative to the history `h0` it found: the old events stand
/// untouched, at least one event was added, every added event before the
/// last is a progress event, and the last is the single terminal event —
/// `Completed` exactly when the run succeeded, the returned error
/// otherwise.
pub open spec fn run_reported(h0: Seq<SyncStatus>, h1: Seq<SyncStatus>, res: Result<
    (),
    AppError,
>) -> bool {
    &&& h1.len() > h0.len()
    &&& h1.take(h0.len() as int) == h0
    &&& forall|i: int| h0.len() <= i < h1.len() - 1 ==> !(#[trigger] h1[i]).is_terminal()
    &&& h1.last().is_terminal()
    &&& (res is Ok <==> h1.last() == SyncStatus::Completed)
    &&& (res matches Err(e) ==> h1.last() == SyncStatus::Error(e))
}

/// Steps the continuation loop still needs when `r` ledger entries are
/// left to walk: each page round costs its fixed overhead plus two steps
/// per record, and the closing empty page costs four.
pub open spec fn steps_left(r: int) -> int
    decreases r,
{
    if r <= 0 {
        4
    } else {
        let s = if r < CONTINUATION_PAGE_LIMIT as int {
            r
        } else {
            CONTINUATION_PAGE_LIMIT as int
        };
        8 + 2 * s + steps_left(r - s)
    }
}

/// The continuation loop always needs a few more steps.
proof fn lemma_steps_left_pos(r: int)
    ensures
        steps_left(r) >= 4,
    decreases r,
{
    if r > 0 {
        let s = if r < CONTINUATION_PAGE_LIMIT as int {
            r
        } else {
            CONTINUATION_PAGE_LIMIT as int
        };
        lemma_steps_left_pos(r - s);
    }
}

/// Fuel that indexes a ledger of `n` entries to completion.
pub open spec fn indexing_fuel(n: int) -> int {
    let s1 = if n < BOOTSTRAP_PAGE_LIMIT as int {
        n
    } else {
        BOOTSTRAP_PAGE_LIMIT as int
    };
    14 + 2 * s1 + steps_left(n - s1)
}

/// Fuel that refreshes to completion when `k` ledger entries are newer
/// than the stored latest signature.
pub open spec fn refresh_fuel(k: int) -> int {
    7 + steps_left(k)
}

/// What a run has persisted into the signature collection: exactly the
/// first `pos` ledger entries as records of this address stamped `now`,
/// on top of what the store held before — none dropped, none invented,
/// nothing that was stored before touched.
pub open spec fn sigs_ingested(
    st: Store,
    st0: Store,
    a: Seq<char>,
    ent: Seq<LedgerEntry>,
    pos: int,
    now: i64,
) -> bool {
    &&& st.spec_signatures(a).len() == st0.spec_signatures(a).len() + pos
    &&& forall|y: TransactionSignature| st0.spec_signatures(a).contains(y)
        ==> #[trigger] st.spec_signatures(a).contains(y)
    &&& forall|y: TransactionSignature| #[trigger] st.spec_signatures(a).contains(y) ==> (
        st0.spec_signatures(a).contains(y) || exists|i: int|
            0 <= i < pos && #[trigger] sig_record_matches(y, ent[i].info, a, now))
    &&& forall|i: int| 0 <= i < pos ==> #[trigger] sig_ingested_at(st, a, ent[i], now)
}

/// Some persisted signature record is this ledger entry's.
pub open spec fn sig_ingested_at(st: Store, a: Seq<char>, e: LedgerEntry, now: i64) -> bool {
    exists|y: TransactionSignature| #[trigger] st.spec_signatures(a).contains(y)
        && sig_record_matches(y, e.info, a, now)
}

/// The transaction-collection twin of `sigs_ingested`.
pub open spec fn txns_ingested(
    st: Store,
    st0: Store,
    a: Seq<char>,
    ent: Seq<LedgerEntry>,
    pos: int,
    now: i64,
) -> bool {
    &&& st.spec_transactions(a).len() == st0.spec_transactions(a).len() + pos
    &&& forall|y: Transaction| st0.spec_transactions(a).contains(y)
        ==> #[trigger] st.spec_transactions(a).contains(y)
    &&& forall|y: Transaction| #[trigger] st.spec_transactions(a).contains(y) ==> (
        st0.spec_transactions(a).contains(y) || exists|i: int|
            0 <= i < pos && #[trigger] txn_record_matches(y, ent[i].info, ent[i].detail, a, now))
    &&& forall|i: int| 0 <= i < pos ==> #[trigger] txn_ingested_at(st, a, ent[i], now)
}

/// Some persisted transaction record is this ledger entry's.
pub open spec fn txn_ingested_at(st: Store, a: Seq<char>, e: LedgerEntry, now: i64) -> bool {
    exists|y: Transaction| #[trigger] st.spec_transactions(a).contains(y)
        && txn_record_matches(y, e.info, e.detail, a, now)
}

/// The indexing-state record reads as this state, stamped as given.
pub open spec fn state_rec(st: Store, a: Seq<char>, state: IndexingState, created: i64, updated: i64) -> bool {
    &&& st.spec_has_state(a)
    &&& st.spec_state(a).address@ == a
    &&& st.spec_state(a).state == state
    &&& st.spec_state(a).created_at == created
    &&& st.spec_state(a).updated_at == updated
}

/// The account record equals the upstream snapshot, first indexed now.
pub open spec fn acct_stored(st: Store, a: Seq<char>, up: UpstreamLedger, now: i64) -> bool {
    &&& st.spec_has_account(a)
    &&& up.spec_account() matches Some(acc) && account_record_matches(
        st.spec_account(a),
        a,
        acc,
        now,
    )
}

/// The store before the bootstrap account write: nothing persisted for
/// the address but the `Indexing` state record of this attempt.
pub open spec fn boot_clean(st: Store, a: Seq<char>, now: i64) -> bool {
    &&& !st.spec_has_account(a)
    &&& st.spec_signatures(a).len() == 0
    &&& st.spec_transactions(a).len() == 0
    &&& state_rec(st, a, IndexingState::Indexing, now, now)
}

/// The store after the bootstrap account write, before any page.
pub open spec fn boot_done(st: Store, a: Seq<char>, up: UpstreamLedger, now: i64) -> bool {
    &&& acct_stored(st, a, up, now)
    &&& st.spec_signatures(a).len() == 0
    &&& st.spec_transactions(a).len() == 0
    &&& state_rec(st, a, IndexingState::Indexing, now, now)
}

/// Mid-chunk shape: the engine's page is the ledger slice ending at the
/// run's signature position, the cursor sits on its oldest entry, and
/// the signatures up to that position are ingested.
pub open spec fn mid_chunk(
    eng: SyncEngine,
    st: Store,
    st0: Store,
    a: Seq<char>,
    ent: Seq<LedgerEntry>,
    now: i64,
) -> bool {
    let pos = st.spec_signatures(a).len() as int - st0.spec_signatures(a).len() as int;
    let s = eng.page@.len() as int;
    &&& 0 < s <= pos <= ent.len()
    &&& forall|i: int| 0 <= i < s ==> (#[trigger] eng.page@[i]) == ent[pos - s + i].info
    &&& eng.cursor matches Some(c) && c@ == ent[pos - 1].info.signature@
    &&& sigs_ingested(st, st0, a, ent, pos, now)
}

/// The detail batch built so far renders the page's first entries.
pub open spec fn batch_ok(
    eng: SyncEngine,
    a: Seq<char>,
    ent: Seq<LedgerEntry>,
    now: i64,
    c0: int,
) -> bool {
    &&& eng.batch@.len() == eng.tx_index
    &&& forall|i: int| 0 <= i < eng.batch@.len() ==> txn_record_matches(
        #[trigger] eng.batch@[i],
        ent[c0 + i].info,
        ent[c0 + i].detail,
        a,
        now,
    )
}

/// Everything that holds at the loop top of a first-time ingestion that
/// can only succeed: which event is in hand, what the store holds, where
/// the engine stands in the ledger, and how many steps remain.
pub open spec fn good_indexing_inv(
    eng: SyncEngine,
    ev: EngineEvent,
    st: Store,
    st0: Store,
    up: UpstreamLedger,
    a: Seq<char>,
    now: i64,
    remaining: u64,
    fuel: u64,
    em: Seq<SyncStatus>,
) -> bool {
    let ent = up.spec_entries();
    let n = ent.len() as int;
    let pos = st.spec_signatures(a).len() as int - st0.spec_signatures(a).len() as int;
    let s = eng.page@.len() as int;
    let t = eng.tx_index as int;
    let first_len = if n < BOOTSTRAP_PAGE_LIMIT as int {
        n
    } else {
        BOOTSTRAP_PAGE_LIMIT as int
    };
    &&& eng.mode == EngineMode::Indexing
    &&& eng.until is None
    &&& match eng.phase {
        EnginePhase::Ready => remaining == fuel && ev is Started && st == st0 && em.len() == 0,
        EnginePhase::AwaitExists => remaining == fuel - 1 && ev == EngineEvent::AccountExists(
            false,
        ) && st == st0 && em.len() == 0,
        EnginePhase::AwaitStateWrite => remaining == fuel - 2 && ev is Acked && boot_clean(
            st,
            a,
            now,
        ) && em.len() == 0,
        EnginePhase::AwaitStartEmit => remaining == fuel - 3 && ev is Emitted && boot_clean(
            st,
            a,
            now,
        ) && em.len() == 1 && em[0] == SyncStatus::Indexing,
        EnginePhase::AwaitAccount => remaining == fuel - 4 && (ev
            matches EngineEvent::AccountFetched(acc) && Some(acc) == up.spec_account())
            && boot_clean(st, a, now) && em.len() == 1 && em[0] == SyncStatus::Indexing,
        EnginePhase::AwaitAccountWrite => remaining == fuel - 5 && ev is Acked && boot_done(
            st,
            a,
            up,
            now,
        ) && em.len() == 1 && em[0] == SyncStatus::Indexing && (eng.account matches Some(ac)
            && (up.spec_account() matches Some(acc) && account_record_matches(ac, a, acc, now))),
        EnginePhase::AwaitAccountEmit => remaining == fuel - 6 && ev is Emitted && boot_done(
            st,
            a,
            up,
            now,
        ) && em.len() == 2 && boot_events_ok(em, up, a, now),
        EnginePhase::AwaitFirstPage => remaining == fuel - 7 && boot_done(st, a, up, now) && (ev
            matches EngineEvent::SignaturesPage(p) && p@.len() == first_len && (forall|i: int|
            0 <= i < p@.len() ==> (#[trigger] p@[i]) == ent[i].info)) && em.len() == 2
            && boot_events_ok(em, up, a, now),
        EnginePhase::AwaitSigWrite => ev is Acked && mid_chunk(eng, st, st0, a, ent, now)
            && acct_stored(st, a, up, now) && state_rec(st, a, IndexingState::Indexing, now, now)
            && eng.batch@.len() == 0 && txns_ingested(st, st0, a, ent, pos - s, now) && remaining
            >= 6 + 2 * s + steps_left(n - pos) && s == chunk_size(pos - s, n)
            && boot_events_ok(em, up, a, now) && em.len() == 2 + 2 * chunk_count(0, pos - s, n)
            && chunk_events_ok(em, 2, 0, pos - s, n),
        EnginePhase::AwaitSigCount => ev == EngineEvent::Counted(pos as u64) && mid_chunk(
            eng,
            st,
            st0,
            a,
            ent,
            now,
        ) && acct_stored(st, a, up, now) && state_rec(st, a, IndexingState::Indexing, now, now)
            && eng.batch@.len() == 0 && txns_ingested(st, st0, a, ent, pos - s, now) && remaining
            >= 5 + 2 * s + steps_left(n - pos) && s == chunk_size(pos - s, n)
            && boot_events_ok(em, up, a, now) && em.len() == 2 + 2 * chunk_count(0, pos - s, n)
            && chunk_events_ok(em, 2, 0, pos - s, n),
        EnginePhase::AwaitSigEmit => ev is Emitted && mid_chunk(eng, st, st0, a, ent, now)
            && acct_stored(st, a, up, now) && state_rec(st, a, IndexingState::Indexing, now, now)
            && eng.batch@.len() == 0 && txns_ingested(st, st0, a, ent, pos - s, now) && remaining
            >= 4 + 2 * s + steps_left(n - pos) && s == chunk_size(pos - s, n)
            && boot_events_ok(em, up, a, now) && em.len() == 3 + 2 * chunk_count(0, pos - s, n)
            && chunk_events_ok(em, 2, 0, pos - s, n) && em.last() == (
            SyncStatus::TransactionSignatures { fetched: s as u64, total: pos as u64 }),
        EnginePhase::AwaitTxSleep => ev is Slept && mid_chunk(eng, st, st0, a, ent, now)
            && acct_stored(st, a, up, now) && state_rec(st, a, IndexingState::Indexing, now, now)
            && batch_ok(eng, a, ent, now, pos - s) && txns_ingested(st, st0, a, ent, pos - s, now)
            && remaining >= 2 * (s - t) + 3 + steps_left(n - pos) && s == chunk_size(pos - s, n)
            && boot_events_ok(em, up, a, now) && em.len() == 3 + 2 * chunk_count(0, pos - s, n)
            && chunk_events_ok(em, 2, 0, pos - s, n) && em.last() == (
            SyncStatus::TransactionSignatures { fetched: s as u64, total: pos as u64 }),
        EnginePhase::AwaitTx => (ev matches EngineEvent::TransactionFetched(d) && d == ent[pos - s
            + t].detail) && mid_chunk(eng, st, st0, a, ent, now) && acct_stored(st, a, up, now)
            && state_rec(st, a, IndexingState::Indexing, now, now) && batch_ok(
            eng,
            a,
            ent,
            now,
            pos - s,
        ) && txns_ingested(st, st0, a, ent, pos - s, now) && remaining >= 2 * (s - t) + 2
            + steps_left(n - pos) && s == chunk_size(pos - s, n) && boot_events_ok(em, up, a, now)
            && em.len() == 3 + 2 * chunk_count(0, pos - s, n) && chunk_events_ok(
            em,
            2,
            0,
            pos - s,
            n,
        ) && em.last() == (SyncStatus::TransactionSignatures {
            fetched: s as u64,
            total: pos as u64,
        }),
        EnginePhase::AwaitTxWrite => ev is Acked && mid_chunk(eng, st, st0, a, ent, now)
            && acct_stored(st, a, up, now) && state_rec(st, a, IndexingState::Indexing, now, now)
            && txns_ingested(st, st0, a, ent, pos, now) && remaining >= 3 + steps_left(n - pos)
            && s == chunk_size(pos - s, n) && boot_events_ok(em, up, a, now) && em.len() == 3 + 2
            * chunk_count(0, pos - s, n) && chunk_events_ok(em, 2, 0, pos - s, n) && em.last()
            == (SyncStatus::TransactionSignatures { fetched: s as u64, total: pos as u64 }),
        EnginePhase::AwaitTxCount => ev == EngineEvent::Counted(pos as u64) && mid_chunk(
            eng,
            st,
            st0,
            a,
            ent,
            now,
        ) && acct_stored(st, a, up, now) && state_rec(st, a, IndexingState::Indexing, now, now)
            && txns_ingested(st, st0, a, ent, pos, now) && remaining >= 2 + steps_left(n - pos)
            && s == chunk_size(pos - s, n) && boot_events_ok(em, up, a, now) && em.len() == 3 + 2
            * chunk_count(0, pos - s, n) && chunk_events_ok(em, 2, 0, pos - s, n) && em.last()
            == (SyncStatus::TransactionSignatures { fetched: s as u64, total: pos as u64 }),
        EnginePhase::AwaitTxEmit => ev is Emitted && mid_chunk(eng, st, st0, a, ent, now)
            && acct_stored(st, a, up, now) && state_rec(st, a, IndexingState::Indexing, now, now)
            && txns_ingested(st, st0, a, ent, pos, now) && remaining >= 1 + steps_left(n - pos)
            && boot_events_ok(em, up, a, now) && em.len() == 2 + 2 * chunk_count(0, pos, n)
            && chunk_events_ok(em, 2, 0, pos, n),
        EnginePhase::AwaitPageSleep => ev is Slept && 1 <= pos <= n && (eng.cursor matches Some(c)
            && c@ == ent[pos - 1].info.signature@) && acct_stored(st, a, up, now) && state_rec(
            st,
            a,
            IndexingState::Indexing,
            now,
            now,
        ) && sigs_ingested(st, st0, a, ent, pos, now) && txns_ingested(st, st0, a, ent, pos, now)
            && remaining >= steps_left(n - pos) && boot_events_ok(em, up, a, now) && em.len()
            == 2 + 2 * chunk_count(0, pos, n) && chunk_events_ok(em, 2, 0, pos, n),
        EnginePhase::AwaitPage => (ev matches EngineEvent::SignaturesPage(p) && p@.len() == (if n
            - pos < CONTINUATION_PAGE_LIMIT as int {
            n - pos
        } else {
            CONTINUATION_PAGE_LIMIT as int
        }) && (forall|i: int| 0 <= i < p@.len() ==> (#[trigger] p@[i]) == ent[pos + i].info)) && 1
            <= pos <= n && acct_stored(st, a, up, now) && state_rec(
            st,
            a,
            IndexingState::Indexing,
            now,
            now,
        ) && sigs_ingested(st, st0, a, ent, pos, now) && txns_ingested(st, st0, a, ent, pos, now)
            && remaining + 1 >= steps_left(n - pos) && boot_events_ok(em, up, a, now) && em.len()
            == 2 + 2 * chunk_count(0, pos, n) && chunk_events_ok(em, 2, 0, pos, n),
        EnginePhase::AwaitIdleWrite => ev is Acked && pos == n && acct_stored(st, a, up, now)
            && state_rec(st, a, IndexingState::Idle, now, now) && sigs_ingested(
            st,
            st0,
            a,
            ent,
            n,
            now,
        ) && txns_ingested(st, st0, a, ent, n, now) && remaining >= 2 && boot_events_ok(
            em,
            up,
            a,
            now,
        ) && em.len() == 2 + 2 * chunk_count(0, n, n) && chunk_events_ok(em, 2, 0, n, n),
        EnginePhase::AwaitCompleteEmit => ev is Emitted && pos == n && acct_stored(st, a, up, now)
            && state_rec(st, a, IndexingState::Idle, now, now) && sigs_ingested(
            st,
            st0,
            a,
            ent,
            n,
            now,
        ) && txns_ingested(st, st0, a, ent, n, now) && remaining >= 1 && boot_events_ok(
            em,
            up,
            a,
            now,
        ) && em.len() == 3 + 2 * chunk_count(0, n, n) && chunk_events_ok(em, 2, 0, n, n)
            && em.last() == SyncStatus::Completed,
        _ => false,
    }
}

/// The account record after a refresh overwrite: the snapshot's fields,
/// the first-indexed stamp preserved, the update stamp moved.
pub open spec fn acct_refreshed(
    st: Store,
    st0: Store,
    a: Seq<char>,
    up: UpstreamLedger,
    now: i64,
) -> bool {
    &&& st.spec_has_account(a)
    &&& st.spec_account(a).address@ == a
    &&& up.spec_account() matches Some(acc) && {
        &&& st.spec_account(a).lamports == acc.lamports
        &&& st.spec_account(a).owner@ == acc.owner@
        &&& st.spec_account(a).executable == acc.executable
        &&& st.spec_account(a).data_length == acc.data_length
        &&& st.spec_account(a).rent_epoch == acc.rent_epoch
    }
    &&& st.spec_account(a).indexed_at == st0.spec_account(a).indexed_at
    &&& st.spec_account(a).last_updated_at == now
}

/// Everything that holds at the loop top of a refresh that can only
/// succeed, phase by phase; `k` is the ledger position of the stored
/// latest signature, the exclusive bound of the walk.
pub open spec fn good_refresh_inv(
    eng: SyncEngine,
    ev: EngineEvent,
    st: Store,
    st0: Store,
    up: UpstreamLedger,
    a: Seq<char>,
    now: i64,
    remaining: u64,
    fuel: u64,
) -> bool {
    let ent = up.spec_entries();
    let s0 = st0.spec_signatures(a)[0].signature@;
    let k = ledger_sig_index(ent, s0);
    let pos = st.spec_signatures(a).len() as int - st0.spec_signatures(a).len() as int;
    let s = eng.page@.len() as int;
    let t = eng.tx_index as int;
    let created0 = st0.spec_state(a).created_at;
    &&& eng.mode == EngineMode::Refreshing
    &&& match eng.phase {
        EnginePhase::Ready => remaining == fuel && ev is Started && st == st0 && eng.until
            is None,
        EnginePhase::AwaitExists => remaining == fuel - 1 && ev == EngineEvent::AccountExists(
            true,
        ) && st == st0 && eng.until is None,
        EnginePhase::AwaitStateWrite => remaining == fuel - 2 && ev is Acked && eng.until is None
            && st.spec_signatures(a) == st0.spec_signatures(a) && st.spec_transactions(a)
            == st0.spec_transactions(a) && st.spec_has_account(a) && st.spec_account(a)
            == st0.spec_account(a) && state_rec(st, a, IndexingState::Syncing, created0, now),
        EnginePhase::AwaitAccount => remaining == fuel - 3 && (ev
            matches EngineEvent::AccountFetched(acc) && Some(acc) == up.spec_account())
            && eng.until is None && st.spec_signatures(a) == st0.spec_signatures(a)
            && st.spec_transactions(a) == st0.spec_transactions(a) && st.spec_has_account(a)
            && st.spec_account(a) == st0.spec_account(a) && state_rec(
            st,
            a,
            IndexingState::Syncing,
            created0,
            now,
        ),
        EnginePhase::AwaitAccountWrite => remaining == fuel - 4 && (ev
            matches EngineEvent::AccountUpdated(acct) && acct == st.spec_account(a))
            && eng.until is None && st.spec_signatures(a) == st0.spec_signatures(a)
            && st.spec_transactions(a) == st0.spec_transactions(a) && acct_refreshed(
            st,
            st0,
            a,
            up,
            now,
        ) && state_rec(st, a, IndexingState::Syncing, created0, now),
        EnginePhase::AwaitAccountEmit => remaining == fuel - 5 && ev is Emitted && eng.until
            is None && st.spec_signatures(a) == st0.spec_signatures(a) && st.spec_transactions(a)
            == st0.spec_transactions(a) && acct_refreshed(st, st0, a, up, now) && state_rec(
            st,
            a,
            IndexingState::Syncing,
            created0,
            now,
        ),
        EnginePhase::AwaitLatest => remaining == fuel - 6 && (ev
            matches EngineEvent::LatestSignature(sg) && sg@ == s0) && eng.until is None
            && st.spec_signatures(a) == st0.spec_signatures(a) && st.spec_transactions(a)
            == st0.spec_transactions(a) && acct_refreshed(st, st0, a, up, now) && state_rec(
            st,
            a,
            IndexingState::Syncing,
            created0,
            now,
        ),
        EnginePhase::AwaitSigWrite => ev is Acked && (eng.until matches Some(u) && u@ == s0)
            && mid_chunk(eng, st, st0, a, ent, now) && pos <= k && acct_refreshed(
            st,
            st0,
            a,
            up,
            now,
        ) && state_rec(st, a, IndexingState::Syncing, created0, now) && eng.batch@.len() == 0
            && txns_ingested(st, st0, a, ent, pos - s, now) && remaining >= 6 + 2 * s
            + steps_left(k - pos),
        EnginePhase::AwaitSigCount => ev is Counted && (eng.until matches Some(u) && u@ == s0)
            && mid_chunk(eng, st, st0, a, ent, now) && pos <= k && acct_refreshed(
            st,
            st0,
            a,
            up,
            now,
        ) && state_rec(st, a, IndexingState::Syncing, created0, now) && eng.batch@.len() == 0
            && txns_ingested(st, st0, a, ent, pos - s, now) && remaining >= 5 + 2 * s
            + steps_left(k - pos),
        EnginePhase::AwaitSigEmit => ev is Emitted && (eng.until matches Some(u) && u@ == s0)
            && mid_chunk(eng, st, st0, a, ent, now) && pos <= k && acct_refreshed(
            st,
            st0,
            a,
            up,
            now,
        ) && state_rec(st, a, IndexingState::Syncing, created0, now) && eng.batch@.len() == 0
            && txns_ingested(st, st0, a, ent, pos - s, now) && remaining >= 4 + 2 * s
            + steps_left(k - pos),
        EnginePhase::AwaitTxSleep => ev is Slept && (eng.until matches Some(u) && u@ == s0)
            && mid_chunk(eng, st, st0, a, ent, now) && pos <= k && acct_refreshed(
            st,
            st0,
            a,
            up,
            now,
        ) && state_rec(st, a, IndexingState::Syncing, created0, now) && batch_ok(
            eng,
            a,
            ent,
            now,
            pos - s,
        ) && txns_ingested(st, st0, a, ent, pos - s, now) && remaining >= 2 * (s - t) + 3
            + steps_left(k - pos),
        EnginePhase::AwaitTx => (ev matches EngineEvent::TransactionFetched(d) && d == ent[pos - s
            + t].detail) && (eng.until matches Some(u) && u@ == s0) && mid_chunk(
            eng,
            st,
            st0,
            a,
            ent,
            now,
        ) && pos <= k && acct_refreshed(st, st0, a, up, now) && state_rec(
            st,
            a,
            IndexingState::Syncing,
            created0,
            now,
        ) && batch_ok(eng, a, ent, now, pos - s) && txns_ingested(st, st0, a, ent, pos - s, now)
            && remaining >= 2 * (s - t) + 2 + steps_left(k - pos),
        EnginePhase::AwaitTxWrite => ev is Acked && (eng.until matches Some(u) && u@ == s0)
            && mid_chunk(eng, st, st0, a, ent, now) && pos <= k && acct_refreshed(
            st,
            st0,
            a,
            up,
            now,
        ) && state_rec(st, a, IndexingState::Syncing, created0, now) && txns_ingested(
            st,
            st0,
            a,
            ent,
            pos,
            now,
        ) && remaining >= 3 + steps_left(k - pos),
        EnginePhase::AwaitTxCount => ev is Counted && (eng.until matches Some(u) && u@ == s0)
            && mid_chunk(eng, st, st0, a, ent, now) && pos <= k && acct_refreshed(
            st,
            st0,
            a,
            up,
            now,
        ) && state_rec(st, a, IndexingState::Syncing, created0, now) && txns_ingested(
            st,
            st0,
            a,
            ent,
            pos,
            now,
        ) && remaining >= 2 + steps_left(k - pos),
        EnginePhase::AwaitTxEmit => ev is Emitted && (eng.until matches Some(u) && u@ == s0)
            && mid_chunk(eng, st, st0, a, ent, now) && pos <= k && acct_refreshed(
            st,
            st0,
            a,
            up,
            now,
        ) && state_rec(st, a, IndexingState::Syncing, created0, now) && txns_ingested(
            st,
            st0,
            a,
            ent,
            pos,
            now,
        ) && remaining >= 1 + steps_left(k - pos),
        EnginePhase::AwaitPageSleep => ev is Slept && (eng.until matches Some(u) && u@ == s0) && (
        (pos == 0 && eng.cursor is None) || (1 <= pos && (eng.cursor matches Some(c) && c@
            == ent[pos - 1].info.signature@))) && 0 <= pos <= k && acct_refreshed(
            st,
            st0,
            a,
            up,
            now,
        ) && state_rec(st, a, IndexingState::Syncing, created0, now) && sigs_ingested(
            st,
            st0,
            a,
            ent,
            pos,
            now,
        ) && txns_ingested(st, st0, a, ent, pos, now) && remaining >= steps_left(k - pos),
        EnginePhase::AwaitPage => (ev matches EngineEvent::SignaturesPage(p) && p@.len() == (if k
            - pos < CONTINUATION_PAGE_LIMIT as int {
            k - pos
        } else {
            CONTINUATION_PAGE_LIMIT as int
        }) && (forall|i: int| 0 <= i < p@.len() ==> (#[trigger] p@[i]) == ent[pos + i].info)) && (
        eng.until matches Some(u) && u@ == s0) && 0 <= pos <= k && acct_refreshed(
            st,
            st0,
            a,
            up,
            now,
        ) && state_rec(st, a, IndexingState::Syncing, created0, now) && sigs_ingested(
            st,
            st0,
            a,
            ent,
            pos,
            now,
        ) && txns_ingested(st, st0, a, ent, pos, now) && remaining + 1 >= steps_left(k - pos),
        EnginePhase::AwaitIdleWrite => ev is Acked && pos == k && acct_refreshed(
            st,
            st0,
            a,
            up,
            now,
        ) && state_rec(st, a, IndexingState::Idle, created0, now) && sigs_ingested(
            st,
            st0,
            a,
            ent,
            k,
            now,
        ) && txns_ingested(st, st0, a, ent, k, now) && remaining >= 2,
        EnginePhase::AwaitCompleteEmit => ev is Emitted && pos == k && acct_refreshed(
            st,
            st0,
            a,
            up,
            now,
        ) && state_rec(st, a, IndexingState::Idle, created0, now) && sigs_ingested(
            st,
            st0,
            a,
            ent,
            k,
            now,
        ) && txns_ingested(st, st0, a, ent, k, now) && remaining >= 1,
        _ => false,
    }
}

/// The page the walk takes at ledger position `p`: the small bootstrap
/// page first, the continuation cap after.
pub open spec fn chunk_size(p: int, n: int) -> int {
    if p == 0 {
        if n < BOOTSTRAP_PAGE_LIMIT as int {
            n
        } else {
            BOOTSTRAP_PAGE_LIMIT as int
        }
    } else {
        if n - p < CONTINUATION_PAGE_LIMIT as int {
            n - p
        } else {
            CONTINUATION_PAGE_LIMIT as int
        }
    }
}

/// How many pages cover ledger positions `p` up to `done`.
pub open spec fn chunk_count(p: int, done: int, n: int) -> int
    decreases done - p,
{
    if p >= done || chunk_size(p, n) <= 0 {
        0
    } else {
        let q = p + chunk_size(p, n);
        if q <= done {
            1 + chunk_count(q, done, n)
        } else {
            0
        }
    }
}

/// The emitted progress pairs of the pages covering positions `p` up to
/// `done`, sitting in the history from index `idx` on: one signatures
/// event and one details event per page, `fetched` the page's size and
/// `total` the absolute persisted count after it.
pub open spec fn chunk_events_ok(em: Seq<SyncStatus>, idx: int, p: int, done: int, n: int) -> bool
    decreases done - p,
{
    if p >= done {
        true
    } else if chunk_size(p, n) <= 0 {
        false
    } else {
        let s = chunk_size(p, n);
        let q = p + s;
        if q <= done {
            &&& 0 <= idx && idx + 2 <= em.len()
            &&& em[idx] == (SyncStatus::TransactionSignatures {
                fetched: s as u64,
                total: q as u64,
            })
            &&& em[idx + 1] == (SyncStatus::TransactionDetails {
                fetched: s as u64,
                total: q as u64,
            })
            &&& chunk_events_ok(em, idx + 2, q, done, n)
        } else {
            false
        }
    }
}

/// The two bootstrap events of a first-time run: the start announcement
/// and the persisted account snapshot.
pub open spec fn boot_events_ok(em: Seq<SyncStatus>, up: UpstreamLedger, a: Seq<char>, now: i64) -> bool {
    &&& em.len() >= 2
    &&& em[0] == SyncStatus::Indexing
    &&& em[1] matches SyncStatus::AccountData(acct) && (up.spec_account() matches Some(acc)
        && account_record_matches(acct, a, acc, now))
}

/// Chunk-event prefixes are untouched by appending to the history.
proof fn lemma_chunk_events_push(em: Seq<SyncStatus>, x: SyncStatus, idx: int, p: int, done: int, n: int)
    requires
        chunk_events_ok(em, idx, p, done, n),
    ensures
        chunk_events_ok(em.push(x), idx, p, done, n),
    decreases done - p,
{
    if p < done && chunk_size(p, n) > 0 {
        let q = p + chunk_size(p, n);
        if q <= done {
            lemma_chunk_events_push(em, x, idx + 2, q, done, n);
        }
    }
}

/// A complete page's event pair at the end of the trail extends the
/// chunk coverage by that page.
proof fn lemma_chunk_events_extend(em: Seq<SyncStatus>, idx: int, p: int, done: int, n: int)
    requires
        0 <= p <= done <= n,
        chunk_events_ok(em, idx, p, done, n),
        done < n,
        done + chunk_size(done, n) <= n,
        0 <= idx,
        idx + 2 * chunk_count(p, done, n) + 2 <= em.len(),
        em[idx + 2 * chunk_count(p, done, n)] == (SyncStatus::TransactionSignatures {
            fetched: chunk_size(done, n) as u64,
            total: (done + chunk_size(done, n)) as u64,
        }),
        em[idx + 2 * chunk_count(p, done, n) + 1] == (SyncStatus::TransactionDetails {
            fetched: chunk_size(done, n) as u64,
            total: (done + chunk_size(done, n)) as u64,
        }),
    ensures
        chunk_events_ok(em, idx, p, done + chunk_size(done, n), n),
        chunk_count(p, done + chunk_size(done, n), n) == chunk_count(p, done, n) + 1,
    decreases done - p,
{
    assert(chunk_size(done, n) >= 1);
    let s_new = chunk_size(done, n);
    let far = done + s_new;
    if p >= done {
        assert(chunk_count(p, done, n) == 0);
        assert(chunk_events_ok(em, idx + 2, far, far, n));
        assert(chunk_count(far, far, n) == 0);
        assert(chunk_count(p, far, n) == 1);
        assert(chunk_events_ok(em, idx, p, far, n));
    } else {
        assert(chunk_size(p, n) >= 1);
        let q = p + chunk_size(p, n);
        assert(q <= done);
        assert(chunk_count(p, done, n) == 1 + chunk_count(q, done, n));
        lemma_chunk_events_extend(em, idx + 2, q, done, n);
        assert(chunk_count(p, far, n) == 1 + chunk_count(q, far, n));
        assert(chunk_events_ok(em, idx, p, far, n));
    }
}

/// Appending a persisted batch that renders the ledger's next `len`
/// entries keeps the signature collection exactly ingested.
proof fn lemma_sigs_ingest_extend(
    st_old: Store,
    st_new: Store,
    st0: Store,
    a: Seq<char>,
    ent: Seq<LedgerEntry>,
    pos0: int,
    len: int,
    now: i64,
    rs: Seq<TransactionSignature>,
)
    requires
        0 <= pos0,
        0 < len,
        pos0 + len <= ent.len(),
        sigs_ingested(st_old, st0, a, ent, pos0, now),
        rs.len() == len,
        forall|j: int| 0 <= j < len ==> sig_record_matches(
            #[trigger] rs[j],
            ent[pos0 + j].info,
            a,
            now,
        ),
        st_new.spec_signatures(a).len() == st_old.spec_signatures(a).len() + len,
        forall|y: TransactionSignature| #[trigger] st_new.spec_signatures(a).contains(y) <==> (
        st_old.spec_signatures(a).contains(y) || rs.contains(y)),
    ensures
        sigs_ingested(st_new, st0, a, ent, pos0 + len, now),
{
    assert forall|y: TransactionSignature| #[trigger] st_new.spec_signatures(a).contains(y)
        implies (st0.spec_signatures(a).contains(y) || exists|i: int|
        0 <= i < pos0 + len && #[trigger] sig_record_matches(y, ent[i].info, a, now)) by {
        if !st_old.spec_signatures(a).contains(y) {
            let j = choose|j: int| 0 <= j < rs.len() && (#[trigger] rs[j]) == y;
            assert(sig_record_matches(y, ent[pos0 + j].info, a, now));
        } else {
            if !st0.spec_signatures(a).contains(y) {
                let i = choose|i: int|
                    0 <= i < pos0 && #[trigger] sig_record_matches(y, ent[i].info, a, now);
                assert(sig_record_matches(y, ent[i].info, a, now));
            }
        }
    }
    assert forall|i: int| 0 <= i < pos0 + len implies #[trigger] sig_ingested_at(
        st_new,
        a,
        ent[i],
        now,
    ) by {
        if i < pos0 {
            assert(sig_ingested_at(st_old, a, ent[i], now));
            let y = choose|y: TransactionSignature|
                #[trigger] st_old.spec_signatures(a).contains(y) && sig_record_matches(
                    y,
                    ent[i].info,
                    a,
                    now,
                );
            assert(st_new.spec_signatures(a).contains(y));
        } else {
            let y = rs[i - pos0];
            assert(rs.contains(y));
            assert(st_new.spec_signatures(a).contains(y));
        }
    }
    assert forall|y: TransactionSignature| st0.spec_signatures(a).contains(y) implies
        #[trigger] st_new.spec_signatures(a).contains(y) by {
        assert(st_old.spec_signatures(a).contains(y));
    }
}

/// The transaction twin of `lemma_sigs_ingest_extend`.
proof fn lemma_txns_ingest_extend(
    st_old: Store,
    st_new: Store,
    st0: Store,
    a: Seq<char>,
    ent: Seq<LedgerEntry>,
    pos0: int,
    len: int,
    now: i64,
    rs: Seq<Transaction>,
)
    requires
        0 <= pos0,
        0 < len,
        pos0 + len <= ent.len(),
        txns_ingested(st_old, st0, a, ent, pos0, now),
        rs.len() == len,
        forall|j: int| 0 <= j < len ==> txn_record_matches(
            #[trigger] rs[j],
            ent[pos0 + j].info,
            ent[pos0 + j].detail,
            a,
            now,
        ),
        st_new.spec_transactions(a).len() == st_old.spec_transactions(a).len() + len,
        forall|y: Transaction| #[trigger] st_new.spec_transactions(a).contains(y) <==> (
        st_old.spec_transactions(a).contains(y) || rs.contains(y)),
    ensures
        txns_ingested(st_new, st0, a, ent, pos0 + len, now),
{
    assert forall|y: Transaction| #[trigger] st_new.spec_transactions(a).contains(y) implies (
        st0.spec_transactions(a).contains(y) || exists|i: int|
        0 <= i < pos0 + len && #[trigger] txn_record_matches(
            y,
            ent[i].info,
            ent[i].detail,
            a,
            now,
        )) by {
        if !st_old.spec_transactions(a).contains(y) {
            let j = choose|j: int| 0 <= j < rs.len() && (#[trigger] rs[j]) == y;
            assert(txn_record_matches(y, ent[pos0 + j].info, ent[pos0 + j].detail, a, now));
        } else {
            if !st0.spec_transactions(a).contains(y) {
                let i = choose|i: int|
                    0 <= i < pos0 && #[trigger] txn_record_matches(
                        y,
                        ent[i].info,
                        ent[i].detail,
                        a,
                        now,
                    );
                assert(txn_record_matches(y, ent[i].info, ent[i].detail, a, now));
            }
        }
    }
    assert forall|i: int| 0 <= i < pos0 + len implies #[trigger] txn_ingested_at(
        st_new,
        a,
        ent[i],
        now,
    ) by {
        if i < pos0 {
            assert(txn_ingested_at(st_old, a, ent[i], now));
            let y = choose|y: Transaction|
                #[trigger] st_old.spec_transactions(a).contains(y) && txn_record_matches(
                    y,
                    ent[i].info,
                    ent[i].detail,
                    a,
                    now,
                );
            assert(st_new.spec_transactions(a).contains(y));
        } else {
            let y = rs[i - pos0];
            assert(rs.contains(y));
            assert(st_new.spec_transactions(a).contains(y));
        }
    }
    assert forall|y: Transaction| st0.spec_transactions(a).contains(y) implies
        #[trigger] st_new.spec_transactions(a).contains(y) by {
        assert(st_old.spec_transactions(a).contains(y));
    }
}

/// A store change that leaves the signature collection as it was keeps
/// it exactly ingested.
proof fn lemma_sigs_ingested_transfer(
    st_old: Store,
    st_new: Store,
    st0: Store,
    a: Seq<char>,
    ent: Seq<LedgerEntry>,
    pos: int,
    now: i64,
)
    requires
        sigs_ingested(st_old, st0, a, ent, pos, now),
        st_new.spec_signatures(a) == st_old.spec_signatures(a),
    ensures
        sigs_ingested(st_new, st0, a, ent, pos, now),
{
    assert forall|i: int| 0 <= i < pos implies #[trigger] sig_ingested_at(
        st_new,
        a,
        ent[i],
        now,
    ) by {
        assert(sig_ingested_at(st_old, a, ent[i], now));
        let y = choose|y: TransactionSignature|
            #[trigger] st_old.spec_signatures(a).contains(y) && sig_record_matches(
                y,
                ent[i].info,
                a,
                now,
            );
        assert(st_new.spec_signatures(a).contains(y));
    }
}

/// The transaction twin of `lemma_sigs_ingested_transfer`.
proof fn lemma_txns_ingested_transfer(
    st_old: Store,
    st_new: Store,
    st0: Store,
    a: Seq<char>,
    ent: Seq<LedgerEntry>,
    pos: int,
    now: i64,
)
    requires
        txns_ingested(st_old, st0, a, ent, pos, now),
        st_new.spec_transactions(a) == st_old.spec_transactions(a),
    ensures
        txns_ingested(st_new, st0, a, ent, pos, now),
{
    assert forall|i: int| 0 <= i < pos implies #[trigger] txn_ingested_at(
        st_new,
        a,
        ent[i],
        now,
    ) by {
        assert(txn_ingested_at(st_old, a, ent[i], now));
        let y = choose|y: Transaction|
            #[trigger] st_old.spec_transactions(a).contains(y) && txn_record_matches(
                y,
                ent[i].info,
                ent[i].detail,
                a,
                now,
            );
        assert(st_new.spec_transactions(a).contains(y));
    }
}

/// Run one engine to its terminal action, performing every requested call
/// on the in-memory models and emitting into the session registered for
/// the address. Gives up after `fuel` steps (`None`).
#[verifier::rlimit(100)]
#[verifier::spinoff_prover]
fn drive(
    engine: &mut SyncEngine,
    store: &mut Store,
    upstream: &UpstreamLedger,
    registry: &mut SessionRegistry,
    address: &String,
    now: i64,
    fuel: u64,
) -> (r: Option<Result<(), AppError>>)
    requires
        old(engine).wf(),
        old(engine).phase == EnginePhase::Ready,
        old(engine).address@ == address@,
        old(engine).until is None,
        old(store).wf(),
        upstream.wf(),
        old(registry).wf(),
        old(registry).spec_contains(address@),
    ensures
        final(store).wf(),
        final(registry).wf(),
        final(registry).spec_contains(address@),
        final(registry).started_of(address@) == old(registry).started_of(address@),
        forall|b: Seq<char>| b != address@ ==> #[trigger] final(registry).spec_contains(b)
            == old(registry).spec_contains(b),
        forall|b: Seq<char>| b != address@ && old(registry).spec_contains(b)
            ==> #[trigger] final(registry).history_of(b) == old(registry).history_of(b),
        forall|b: Seq<char>| b != address@ && old(registry).spec_contains(b)
            ==> #[trigger] final(registry).started_of(b) == old(registry).started_of(b),
        final(registry).history_of(address@).len() >= old(registry).history_of(address@).len(),
        final(registry).history_of(address@).take(
            old(registry).history_of(address@).len() as int,
        ) == old(registry).history_of(address@),
        r matches Some(res) ==> run_reported(
            old(registry).history_of(address@),
            final(registry).history_of(address@),
            res,
        ),
        r == Some(Result::<(), AppError>::Ok(())) ==> final(store).spec_has_state(address@)
            && final(store).spec_state(address@).state == IndexingState::Idle,
        old(engine).mode == EngineMode::Indexing && old(store).spec_has_account(address@)
            && fuel >= 3 ==> r == Some(Result::<(), AppError>::Err(AppError::AlreadyIndexed)),
        old(engine).mode == EngineMode::Refreshing && !old(store).spec_has_account(address@)
            && fuel >= 3 ==> r == Some(Result::<(), AppError>::Err(AppError::NotIndexed)),
        old(engine).mode == EngineMode::Indexing && old(store).spec_has_account(address@)
            ==> *final(store) == *old(store),
        old(engine).mode == EngineMode::Refreshing && !old(store).spec_has_account(address@)
            ==> *final(store) == *old(store),
        old(engine).mode == EngineMode::Indexing && !old(store).spec_has_account(address@)
            && upstream.spec_account() is Some && upstream.spec_entries().len() == 0 && fuel >= 9
            ==> {
            &&& r == Some(Result::<(), AppError>::Err(AppError::NoTransactions))
            &&& state_rec(*final(store), address@, IndexingState::Indexing, now, now)
            &&& acct_stored(*final(store), address@, *upstream, now)
            &&& final(store).spec_signatures(address@) == old(store).spec_signatures(address@)
            &&& final(store).spec_transactions(address@) == old(store).spec_transactions(
                address@,
            )
        },
        old(engine).mode == EngineMode::Indexing && !old(store).spec_has_account(address@)
            && old(store).spec_signatures(address@).len() == 0 && old(store).spec_transactions(
            address@,
        ).len() == 0 && upstream.spec_account() is Some && upstream.spec_entries().len() > 0
            && fuel >= indexing_fuel(upstream.spec_entries().len() as int) ==> {
            let ent = upstream.spec_entries();
            let em = final(registry).history_of(address@).skip(
                old(registry).history_of(address@).len() as int,
            );
            &&& r == Some(Result::<(), AppError>::Ok(()))
            &&& acct_stored(*final(store), address@, *upstream, now)
            &&& state_rec(*final(store), address@, IndexingState::Idle, now, now)
            &&& sigs_ingested(*final(store), *old(store), address@, ent, ent.len() as int, now)
            &&& txns_ingested(*final(store), *old(store), address@, ent, ent.len() as int, now)
            &&& em.len() == 3 + 2 * chunk_count(0, ent.len() as int, ent.len() as int)
            &&& boot_events_ok(em, *upstream, address@, now)
            &&& chunk_events_ok(em, 2, 0, ent.len() as int, ent.len() as int)
            &&& em.last() == SyncStatus::Completed
        },
        old(engine).mode == EngineMode::Refreshing && old(store).spec_has_account(address@)
            && old(store).spec_has_state(address@) && old(store).spec_signatures(
            address@,
        ).len() > 0 && upstream.spec_account() is Some && ledger_has_sig(
            upstream.spec_entries(),
            old(store).spec_signatures(address@)[0].signature@,
        ) && fuel >= refresh_fuel(
            ledger_sig_index(
                upstream.spec_entries(),
                old(store).spec_signatures(address@)[0].signature@,
            ),
        ) ==> {
            let ent = upstream.spec_entries();
            let k = ledger_sig_index(ent, old(store).spec_signatures(address@)[0].signature@);
            &&& r == Some(Result::<(), AppError>::Ok(()))
            &&& acct_refreshed(*final(store), *old(store), address@, *upstream, now)
            &&& state_rec(
                *final(store),
                address@,
                IndexingState::Idle,
                old(store).spec_state(address@).created_at,
                now,
            )
            &&& sigs_ingested(*final(store), *old(store), address@, ent, k, now)
            &&& txns_ingested(*final(store), *old(store), address@, ent, k, now)
        },
{
    let ghost gi: bool = engine.mode == EngineMode::Indexing && !store.spec_has_account(address@)
        && store.spec_signatures(address@).len() == 0 && store.spec_transactions(
        address@,
    ).len() == 0 && upstream.spec_account() is Some && upstream.spec_entries().len() > 0 && fuel
        >= indexing_fuel(upstream.spec_entries().len() as int);
    let ghost gr: bool = engine.mode == EngineMode::Refreshing && store.spec_has_account(address@)
        && store.spec_has_state(address@) && store.spec_signatures(address@).len() > 0
        && upstream.spec_account() is Some && ledger_has_sig(
        upstream.spec_entries(),
        store.spec_signatures(address@)[0].signature@,
    ) && fuel >= refresh_fuel(
        ledger_sig_index(
            upstream.spec_entries(),
            store.spec_signatures(address@)[0].signature@,
        ),
    );
    let ghost h0 = registry.history_of(address@);
    let mut ev = EngineEvent::Started;
    let mut failure: Option<AppError> = None;
    let mut remaining: u64 = fuel;
    while remaining > 0
        invariant
            engine.wf(),
            engine.wants(ev),
            engine.address@ == address@,
            store.wf(),
            upstream.wf(),
            registry.wf(),
            registry.spec_contains(address@),
            h0 == old(registry).history_of(address@),
            registry.started_of(address@) == old(registry).started_of(address@),
            forall|b: Seq<char>| b != address@ ==> #[trigger] registry.spec_contains(b) == old(
                registry,
            ).spec_contains(b),
            forall|b: Seq<char>| b != address@ && old(registry).spec_contains(b)
                ==> #[trigger] registry.history_of(b) == old(registry).history_of(b),
            forall|b: Seq<char>| b != address@ && old(registry).spec_contains(b)
                ==> #[trigger] registry.started_of(b) == old(registry).started_of(b),
            registry.history_of(address@).len() >= h0.len(),
            registry.history_of(address@).take(h0.len() as int) == h0,
            engine.phase == EnginePhase::AwaitCompleteEmit ==> {
                &&& registry.history_of(address@).len() > h0.len()
                &&& registry.history_of(address@).last() == SyncStatus::Completed
                &&& forall|i: int| h0.len() <= i < registry.history_of(address@).len() - 1
                    ==> !(#[trigger] registry.history_of(address@)[i]).is_terminal()
            },
            engine.phase == EnginePhase::AwaitErrorEmit ==> {
                &&& registry.history_of(address@).len() > h0.len()
                &&& failure matches Some(e) && registry.history_of(address@).last()
                    == SyncStatus::Error(e)
                &&& forall|i: int| h0.len() <= i < registry.history_of(address@).len() - 1
                    ==> !(#[trigger] registry.history_of(address@)[i]).is_terminal()
            },
            (engine.phase != EnginePhase::AwaitCompleteEmit && engine.phase
                != EnginePhase::AwaitErrorEmit) ==> forall|i: int|
                h0.len() <= i < registry.history_of(address@).len()
                    ==> !(#[trigger] registry.history_of(address@)[i]).is_terminal(),
            gi == (old(engine).mode == EngineMode::Indexing && !old(store).spec_has_account(
                address@,
            ) && old(store).spec_signatures(address@).len() == 0 && old(
                store,
            ).spec_transactions(address@).len() == 0 && upstream.spec_account() is Some
                && upstream.spec_entries().len() > 0 && fuel >= indexing_fuel(
                upstream.spec_entries().len() as int,
            )),
            gi ==> good_indexing_inv(
                *engine,
                ev,
                *store,
                *old(store),
                *upstream,
                address@,
                now,
                remaining,
                fuel,
                registry.history_of(address@).skip(h0.len() as int),
            ),
            gr == (old(engine).mode == EngineMode::Refreshing && old(store).spec_has_account(
                address@,
            ) && old(store).spec_has_state(address@) && old(store).spec_signatures(
                address@,
            ).len() > 0 && upstream.spec_account() is Some && ledger_has_sig(
                upstream.spec_entries(),
                old(store).spec_signatures(address@)[0].signature@,
            ) && fuel >= refresh_fuel(
                ledger_sig_index(
                    upstream.spec_entries(),
                    old(store).spec_signatures(address@)[0].signature@,
                ),
            )),
            gr ==> good_refresh_inv(
                *engine,
                ev,
                *store,
                *old(store),
                *upstream,
                address@,
                now,
                remaining,
                fuel,
            ),
            (old(engine).mode == EngineMode::Indexing && !old(store).spec_has_account(address@)
                && upstream.spec_account() is Some && upstream.spec_entries().len() == 0) ==> {
                &&& store.spec_signatures(address@) == old(store).spec_signatures(address@)
                &&& store.spec_transactions(address@) == old(store).spec_transactions(address@)
                &&& if engine.phase == EnginePhase::Ready {
                    remaining == fuel && ev is Started && *store == *old(store)
                } else if engine.phase == EnginePhase::AwaitExists {
                    remaining == fuel - 1 && fuel >= 1 && ev == EngineEvent::AccountExists(false)
                        && *store == *old(store)
                } else if engine.phase == EnginePhase::AwaitStateWrite {
                    remaining == fuel - 2 && fuel >= 2 && ev is Acked && !store.spec_has_account(
                        address@,
                    ) && state_rec(*store, address@, IndexingState::Indexing, now, now)
                } else if engine.phase == EnginePhase::AwaitStartEmit {
                    remaining == fuel - 3 && fuel >= 3 && ev is Emitted && !store.spec_has_account(
                        address@,
                    ) && state_rec(*store, address@, IndexingState::Indexing, now, now)
                } else if engine.phase == EnginePhase::AwaitAccount {
                    remaining == fuel - 4 && fuel >= 4 && (ev matches EngineEvent::AccountFetched(
                        acc,
                    ) && Some(acc) == upstream.spec_account()) && !store.spec_has_account(address@)
                        && state_rec(*store, address@, IndexingState::Indexing, now, now)
                } else if engine.phase == EnginePhase::AwaitAccountWrite {
                    remaining == fuel - 5 && fuel >= 5 && ev is Acked && acct_stored(
                        *store,
                        address@,
                        *upstream,
                        now,
                    ) && state_rec(*store, address@, IndexingState::Indexing, now, now)
                } else if engine.phase == EnginePhase::AwaitAccountEmit {
                    remaining == fuel - 6 && fuel >= 6 && ev is Emitted && acct_stored(
                        *store,
                        address@,
                        *upstream,
                        now,
                    ) && state_rec(*store, address@, IndexingState::Indexing, now, now)
                } else if engine.phase == EnginePhase::AwaitFirstPage {
                    remaining == fuel - 7 && fuel >= 7 && (ev matches EngineEvent::SignaturesPage(
                        p,
                    ) && p@.len() == 0) && acct_stored(*store, address@, *upstream, now)
                        && state_rec(*store, address@, IndexingState::Indexing, now, now)
                } else {
                    engine.phase == EnginePhase::AwaitErrorEmit && remaining == fuel - 8 && fuel
                        >= 8 && ev is Emitted && failure == Some(AppError::NoTransactions)
                        && acct_stored(*store, address@, *upstream, now) && state_rec(
                        *store,
                        address@,
                        IndexingState::Indexing,
                        now,
                        now,
                    )
                }
            },
            (engine.phase == EnginePhase::AwaitIdleWrite && ev is Acked) ==> (
                store.spec_has_state(address@) && store.spec_state(address@).state
                    == IndexingState::Idle),
            engine.phase == EnginePhase::AwaitCompleteEmit ==> (store.spec_has_state(address@)
                && store.spec_state(address@).state == IndexingState::Idle),
            engine.mode == old(engine).mode,
            (old(engine).mode == EngineMode::Indexing && old(store).spec_has_account(address@))
                ==> {
                &&& *store == *old(store)
                &&& if engine.phase == EnginePhase::Ready {
                    remaining == fuel && ev is Started
                } else if engine.phase == EnginePhase::AwaitExists {
                    remaining == fuel - 1 && fuel >= 1 && ev == EngineEvent::AccountExists(true)
                } else {
                    engine.phase == EnginePhase::AwaitErrorEmit && remaining == fuel - 2
                        && fuel >= 2 && ev is Emitted && failure == Some(
                        AppError::AlreadyIndexed,
                    )
                }
            },
            (old(engine).mode == EngineMode::Refreshing && !old(store).spec_has_account(
                address@,
            )) ==> {
                &&& *store == *old(store)
                &&& if engine.phase == EnginePhase::Ready {
                    remaining == fuel && ev is Started
                } else if engine.phase == EnginePhase::AwaitExists {
                    remaining == fuel - 1 && fuel >= 1 && ev == EngineEvent::AccountExists(
                        false,
                    )
                } else {
                    engine.phase == EnginePhase::AwaitErrorEmit && remaining == fuel - 2
                        && fuel >= 2 && ev is Emitted && failure == Some(AppError::NotIndexed)
                }
            },
        decreases remaining,
    {
        let ghost pre_engine = *engine;
        let act = engine.step(ev, now);
        match act {
            EngineAction::CheckAccount => {
                ev = EngineEvent::AccountExists(store.check_account_exists(address));
            },
            EngineAction::PutIndexingState(st) => {
                store.put_address_indexing_state(st);
                ev = EngineEvent::Acked;
            },
            EngineAction::SetIndexingState(st, t) => {
                let ghost st_pre = *store;
                ev = match store.update_address_indexing_state(address, st, t) {
                    Ok(_) => {
                        proof {
                            if gi || gr {
                                let ent = upstream.spec_entries();
                                let st0 = *old(store);
                                let pos = st_pre.spec_signatures(address@).len() as int
                                    - st0.spec_signatures(address@).len() as int;
                                if gr && pre_engine.phase == EnginePhase::AwaitExists {
                                    assert(sigs_ingested(st_pre, st0, address@, ent, 0, now));
                                    assert(txns_ingested(st_pre, st0, address@, ent, 0, now));
                                }
                                lemma_sigs_ingested_transfer(
                                    st_pre,
                                    *store,
                                    st0,
                                    address@,
                                    ent,
                                    pos,
                                    now,
                                );
                                lemma_txns_ingested_transfer(
                                    st_pre,
                                    *store,
                                    st0,
                                    address@,
                                    ent,
                                    pos,
                                    now,
                                );
                            }
                        }
                        EngineEvent::Acked
                    },
                    Err(e) => EngineEvent::Failed(e),
                };
            },
            EngineAction::Emit(e) => {
                if let SyncStatus::Error(ae) = &e {
                    failure = Some(clone_app_error(ae));
                }
                let ghost e_v = e;
                let ghost em_pre = registry.history_of(address@).skip(h0.len() as int);
                registry.emit_event(address, e);
                proof {
                    assert(registry.history_of(address@).skip(h0.len() as int) =~= em_pre.push(
                        e_v,
                    ));
                    if gi {
                        let ent = upstream.spec_entries();
                        let n = ent.len() as int;
                        let pos = store.spec_signatures(address@).len() as int - old(
                            store,
                        ).spec_signatures(address@).len() as int;
                        let em_now = em_pre.push(e_v);
                        if pre_engine.phase == EnginePhase::AwaitSigCount {
                            lemma_chunk_events_push(
                                em_pre,
                                e_v,
                                2,
                                0,
                                pos - pre_engine.page@.len() as int,
                                n,
                            );
                        }
                        if pre_engine.phase == EnginePhase::AwaitTxCount {
                            let s_len = pre_engine.page@.len() as int;
                            let done = pos - s_len;
                            lemma_chunk_events_push(em_pre, e_v, 2, 0, done, n);
                            lemma_chunk_events_extend(em_now, 2, 0, done, n);
                        }
                        if pre_engine.phase == EnginePhase::AwaitIdleWrite {
                            lemma_chunk_events_push(em_pre, e_v, 2, 0, pos, n);
                        }
                    }
                }
                ev = EngineEvent::Emitted;
            },
            EngineAction::FetchAccount => {
                ev = match upstream.get_account() {
                    Ok(info) => EngineEvent::AccountFetched(info),
                    Err(e) => EngineEvent::Failed(e),
                };
            },
            EngineAction::StoreAccount(a) => {
                ev = match store.insert_account(a) {
                    Ok(_) => EngineEvent::Acked,
                    Err(e) => EngineEvent::Failed(e),
                };
            },
            EngineAction::UpdateAccount(u) => {
                ev = match store.update_account(address, u) {
                    Ok(acct) => EngineEvent::AccountUpdated(acct),
                    Err(e) => EngineEvent::Failed(e),
                };
            },
            EngineAction::FetchSignatures { before, until, limit } => {
                proof {
                    if gi {
                        let ent = upstream.spec_entries();
                        let n = ent.len() as int;
                        if pre_engine.phase == EnginePhase::AwaitAccountEmit {
                            lemma_page_len_unbounded(ent, 0, BOOTSTRAP_PAGE_LIMIT as int);
                        } else {
                            let pos = store.spec_signatures(address@).len() as int - old(
                                store,
                            ).spec_signatures(address@).len() as int;
                            let c = ent[pos - 1].info.signature@;
                            assert(ledger_has_sig(ent, c));
                            let j = ledger_sig_index(ent, c);
                            assert(0 <= j < n && ent[j].info.signature@ == c);
                            assert(j == pos - 1);
                            lemma_page_len_unbounded(ent, pos, CONTINUATION_PAGE_LIMIT as int);
                        }
                    }
                    if gr {
                        let ent = upstream.spec_entries();
                        let n = ent.len() as int;
                        let s0 = old(store).spec_signatures(address@)[0].signature@;
                        let k = ledger_sig_index(ent, s0);
                        assert(0 <= k < n && ent[k].info.signature@ == s0);
                        let pos = store.spec_signatures(address@).len() as int - old(
                            store,
                        ).spec_signatures(address@).len() as int;
                        if pos >= 1 {
                            let c = ent[pos - 1].info.signature@;
                            assert(ledger_has_sig(ent, c));
                            let j = ledger_sig_index(ent, c);
                            assert(0 <= j < n && ent[j].info.signature@ == c);
                            assert(j == pos - 1);
                        }
                        lemma_page_len_bounded(
                            ent,
                            pos,
                            s0,
                            CONTINUATION_PAGE_LIMIT as int,
                            k,
                        );
                    }
                }
                ev = match upstream.signatures_page(&before, &until, limit) {
                    Ok(page) => EngineEvent::SignaturesPage(page),
                    Err(e) => EngineEvent::Failed(e),
                };
            },
            EngineAction::StoreSignatures(rs) => {
                let ghost st_pre = *store;
                let ghost rs_v = rs@;
                proof {
                    if gi || gr {
                        let ent = upstream.spec_entries();
                        let n = ent.len() as int;
                        let st0 = *old(store);
                        let pos0 = st_pre.spec_signatures(address@).len() as int
                            - st0.spec_signatures(address@).len() as int;
                        let len = rs_v.len() as int;
                        assert(len > 0);
                        assert(forall|j: int| 0 <= j < len ==> sig_record_matches(
                            #[trigger] rs_v[j],
                            ent[pos0 + j].info,
                            address@,
                            now,
                        ));
                        assert(rs_v[0].account_address@ == address@);
                        assert(crate::store::sig_batch_uniform(rs_v)) by {
                            assert(forall|j: int| 0 <= j < len
                                ==> (#[trigger] rs_v[j].account_address@) == address@);
                        }
                        assert(sigs_ingested(st_pre, st0, address@, ent, pos0, now));
                        if gi && pre_engine.phase == EnginePhase::AwaitPage {
                            assert(steps_left(n - pos0) == 8 + 2 * len + steps_left(
                                n - pos0 - len,
                            ));
                        }
                        if gr {
                            let s0 = st0.spec_signatures(address@)[0].signature@;
                            let k = ledger_sig_index(ent, s0);
                            assert(steps_left(k - pos0) == 8 + 2 * len + steps_left(
                                k - pos0 - len,
                            ));
                        }
                    }
                }
                ev = match store.insert_transactions_signatures(rs) {
                    Ok(_) => {
                        proof {
                            if gi || gr {
                                let ent = upstream.spec_entries();
                                let st0 = *old(store);
                                let pos0 = st_pre.spec_signatures(address@).len() as int
                                    - st0.spec_signatures(address@).len() as int;
                                assert(rs_v.len() > 0);
                                assert(rs_v[0].account_address@ == address@);
                                assert(store.spec_signatures(address@).len()
                                    == st_pre.spec_signatures(address@).len() + rs_v.len());
                                if pre_engine.phase == EnginePhase::AwaitPage {
                                    if gr && pos0 == 0 {
                                        assert(txns_ingested(
                                            st_pre,
                                            st0,
                                            address@,
                                            ent,
                                            0,
                                            now,
                                        ));
                                    }
                                    lemma_txns_ingested_transfer(
                                        st_pre,
                                        *store,
                                        st0,
                                        address@,
                                        ent,
                                        pos0,
                                        now,
                                    );
                                } else {
                                    assert(store.spec_transactions(address@).len() == 0);
                                    assert(txns_ingested(*store, st0, address@, ent, 0, now));
                                }
                                lemma_sigs_ingest_extend(
                                    st_pre,
                                    *store,
                                    st0,
                                    address@,
                                    ent,
                                    pos0,
                                    rs_v.len() as int,
                                    now,
                                    rs_v,
                                );
                            }
                        }
                        EngineEvent::Acked
                    },
                    Err(e) => EngineEvent::Failed(e),
                };
            },
            EngineAction::CountSignatures => {
                ev = EngineEvent::Counted(store.get_signatures_count(address));
            },
            EngineAction::FetchTransaction(sg) => {
                proof {
                    if gi || gr {
                        let ent = upstream.spec_entries();
                        let pos = store.spec_signatures(address@).len() as int - old(
                            store,
                        ).spec_signatures(address@).len() as int;
                        let s_len = engine.page@.len() as int;
                        let t = engine.tx_index as int;
                        let target = pos - s_len + t;
                        assert(sg@ == ent[target].info.signature@);
                        assert(ledger_has_sig(ent, sg@));
                        let j = ledger_sig_index(ent, sg@);
                        assert(0 <= j < ent.len() && ent[j].info.signature@ == sg@);
                        assert(j == target);
                    }
                }
                ev = match upstream.get_transaction(&sg) {
                    Ok(t) => EngineEvent::TransactionFetched(t),
                    Err(e) => EngineEvent::Failed(e),
                };
            },
            EngineAction::StoreTransactions(b) => {
                let ghost st_pre = *store;
                let ghost b_v = b@;
                proof {
                    if gi || gr {
                        let ent = upstream.spec_entries();
                        let st0 = *old(store);
                        let pos = st_pre.spec_signatures(address@).len() as int
                            - st0.spec_signatures(address@).len() as int;
                        let s_len = pre_engine.page@.len() as int;
                        let c0 = pos - s_len;
                        assert(b_v.len() == s_len && s_len > 0);
                        assert(forall|j: int| 0 <= j < b_v.len() ==> txn_record_matches(
                            #[trigger] b_v[j],
                            ent[c0 + j].info,
                            ent[c0 + j].detail,
                            address@,
                            now,
                        ));
                        assert(b_v[0].account_address@ == address@);
                        assert(crate::store::txn_batch_uniform(b_v)) by {
                            assert(forall|j: int| 0 <= j < b_v.len()
                                ==> (#[trigger] b_v[j].account_address@) == address@);
                        }
                    }
                }
                ev = match store.insert_transactions(b) {
                    Ok(_) => {
                        proof {
                            if gi || gr {
                                let ent = upstream.spec_entries();
                                let st0 = *old(store);
                                let pos = st_pre.spec_signatures(address@).len() as int
                                    - st0.spec_signatures(address@).len() as int;
                                let s_len = pre_engine.page@.len() as int;
                                lemma_sigs_ingested_transfer(
                                    st_pre,
                                    *store,
                                    st0,
                                    address@,
                                    ent,
                                    pos,
                                    now,
                                );
                                lemma_txns_ingest_extend(
                                    st_pre,
                                    *store,
                                    st0,
                                    address@,
                                    ent,
                                    pos - s_len,
                                    s_len,
                                    now,
                                    b_v,
                                );
                            }
                        }
                        EngineEvent::Acked
                    },
                    Err(e) => EngineEvent::Failed(e),
                };
            },
            EngineAction::CountTransactions => {
                ev = EngineEvent::Counted(store.get_transactions_count(address));
            },
            EngineAction::FetchLatest => {
                ev = match store.get_latest_signature(address) {
                    Ok(sg) => EngineEvent::LatestSignature(sg),
                    Err(e) => EngineEvent::Failed(e),
                };
            },
            EngineAction::Sleep(_) => {
                ev = EngineEvent::Slept;
            },
            EngineAction::Finished(ok) => {
                proof {
                    assert(pre_engine.phase == EnginePhase::AwaitCompleteEmit || pre_engine.phase
                        == EnginePhase::AwaitErrorEmit);
                }
                if ok {
                    return Some(Ok(()));
                } else {
                    match failure {
                        Some(e) => {
                            return Some(Err(e));
                        },
                        None => {
                            return vstd::pervasive::unreached();
                        },
                    }
                }
            },
        }
        remaining = remaining - 1;
    }
    proof {
        if gi {
            let ent = upstream.spec_entries();
            let n = ent.len() as int;
            let pos = store.spec_signatures(address@).len() as int - old(
                store,
            ).spec_signatures(address@).len() as int;
            let s1 = if n < BOOTSTRAP_PAGE_LIMIT as int {
                n
            } else {
                BOOTSTRAP_PAGE_LIMIT as int
            };
            lemma_steps_left_pos(n - pos);
            lemma_steps_left_pos(n - s1);
            assert(false);
        }
        if gr {
            let ent = upstream.spec_entries();
            let s0 = old(store).spec_signatures(address@)[0].signature@;
            let k = ledger_sig_index(ent, s0);
            let pos = store.spec_signatures(address@).len() as int - old(
                store,
            ).spec_signatures(address@).len() as int;
            lemma_steps_left_pos(k - pos);
            lemma_steps_left_pos(k);
            assert(false);
        }
    }
    None
}

/// First-time ingestion of an address, run to completion against the
/// in-memory models: the precondition check, the indexing-state record,
/// the account snapshot, the small bootstrap page, the per-signature
/// detail fetches, and the cursor-driven continuation loop, publishing
/// every progress event into the session registered for the address.
/// Gives up after `fuel` engine steps (`None`); otherwise reports the
/// run's outcome, which the session history reflects as `run_reported`
/// states. The outcome is owed, not merely permitted: a malformed
/// address yields exactly `InvalidAddress` with one terminal event and
/// no store access; an already-indexed address exactly `AlreadyIndexed`
/// with the store untouched; an empty upstream history exactly
/// `NoTransactions`, with the state record left at `Indexing` and no
/// signature or transaction persisted; and on a stocked upstream, with
/// fuel for the ledger's length, the run returns `Ok` having persisted
/// the account snapshot, every ledger entry's signature and transaction
/// exactly once, the state record at `Idle`, and having emitted exactly
/// the prescribed sequence: `Indexing`, the account snapshot, one
/// progress pair per page — `fetched` the page's size, `total` the
/// absolute persisted count — and the terminal `Completed`.
pub fn indexer(
    store: &mut Store,
    upstream: &UpstreamLedger,
    registry: &mut SessionRegistry,
    address: &String,
    now: i64,
    fuel: u64,
) -> (r: Option<Result<(), AppError>>)
    requires
        old(store).wf(),
        upstream.wf(),
        old(registry).wf(),
        old(registry).spec_contains(address@),
    ensures
        final(store).wf(),
        final(registry).wf(),
        final(registry).spec_contains(address@),
        final(registry).started_of(address@) == old(registry).started_of(address@),
        forall|b: Seq<char>| b != address@ ==> #[trigger] final(registry).spec_contains(b)
            == old(registry).spec_contains(b),
        forall|b: Seq<char>| b != address@ && old(registry).spec_contains(b)
            ==> #[trigger] final(registry).history_of(b) == old(registry).history_of(b),
        forall|b: Seq<char>| b != address@ && old(registry).spec_contains(b)
            ==> #[trigger] final(registry).started_of(b) == old(registry).started_of(b),
        final(registry).history_of(address@).len() >= old(registry).history_of(address@).len(),
        final(registry).history_of(address@).take(
            old(registry).history_of(address@).len() as int,
        ) == old(registry).history_of(address@),
        r matches Some(res) ==> run_reported(
            old(registry).history_of(address@),
            final(registry).history_of(address@),
            res,
        ),
        r == Some(Result::<(), AppError>::Ok(())) ==> final(store).spec_has_state(address@)
            && final(store).spec_state(address@).state == IndexingState::Idle,
        !pubkey_accepted(address@) ==> {
            &&& r == Some(Result::<(), AppError>::Err(AppError::InvalidAddress))
            &&& *final(store) == *old(store)
            &&& final(registry).history_of(address@) == old(registry).history_of(address@).push(
                SyncStatus::Error(AppError::InvalidAddress),
            )
        },
        pubkey_accepted(address@) && old(store).spec_has_account(address@) && fuel >= 3 ==> r
            == Some(Result::<(), AppError>::Err(AppError::AlreadyIndexed)),
        pubkey_accepted(address@) && old(store).spec_has_account(address@) ==> *final(store)
            == *old(store),
        pubkey_accepted(address@) && !old(store).spec_has_account(address@)
            && upstream.spec_account() is Some && upstream.spec_entries().len() == 0 && fuel >= 9
            ==> {
            &&& r == Some(Result::<(), AppError>::Err(AppError::NoTransactions))
            &&& state_rec(*final(store), address@, IndexingState::Indexing, now, now)
            &&& acct_stored(*final(store), address@, *upstream, now)
            &&& final(store).spec_signatures(address@) == old(store).spec_signatures(address@)
            &&& final(store).spec_transactions(address@) == old(store).spec_transactions(
                address@,
            )
        },
        pubkey_accepted(address@) && !old(store).spec_has_account(address@) && old(
            store,
        ).spec_signatures(address@).len() == 0 && old(store).spec_transactions(address@).len()
            == 0 && upstream.spec_account() is Some && upstream.spec_entries().len() > 0 && fuel
            >= indexing_fuel(upstream.spec_entries().len() as int) ==> {
            let ent = upstream.spec_entries();
            &&& r == Some(Result::<(), AppError>::Ok(()))
            &&& acct_stored(*final(store), address@, *upstream, now)
            &&& state_rec(*final(store), address@, IndexingState::Idle, now, now)
            &&& sigs_ingested(*final(store), *old(store), address@, ent, ent.len() as int, now)
            &&& txns_ingested(*final(store), *old(store), address@, ent, ent.len() as int, now)
        },
{
    if validate_address(address).is_err() {
        let ghost h0 = registry.history_of(address@);
        registry.emit_event(address, SyncStatus::Error(AppError::InvalidAddress));
        proof {
            assert(registry.history_of(address@).take(h0.len() as int) =~= h0);
        }
        return Some(Err(AppError::InvalidAddress));
    }
    let mut engine = SyncEngine::new_indexing(address.clone());
    drive(&mut engine, store, upstream, registry, address, now, fuel)
}

/// Incremental refresh of an already-indexed address, run to completion
/// against the in-memory models: the precondition check, the account
/// overwrite, the `until` bound read from the latest persisted signature,
/// and the bounded continuation walk. Gives up after `fuel` engine steps
/// (`None`); otherwise reports the run's outcome, which the session
/// history reflects as `run_reported` states. The outcome is owed: a
/// malformed address yields exactly `InvalidAddress`; an unindexed
/// address exactly `NotIndexed` with the store untouched; and on an
/// upstream that still holds the stored latest signature at position
/// `k`, with fuel for `k` entries, the run returns `Ok` having persisted
/// exactly the `k` newer entries on top of the untouched old records,
/// overwritten the account in place, and left the state record at
/// `Idle`.
pub fn refresher(
    store: &mut Store,
    upstream: &UpstreamLedger,
    registry: &mut SessionRegistry,
    address: &String,
    now: i64,
    fuel: u64,
) -> (r: Option<Result<(), AppError>>)
    requires
        old(store).wf(),
        upstream.wf(),
        old(registry).wf(),
        old(registry).spec_contains(address@),
    ensures
        final(store).wf(),
        final(registry).wf(),
        final(registry).spec_contains(address@),
        final(registry).started_of(address@) == old(registry).started_of(address@),
        forall|b: Seq<char>| b != address@ ==> #[trigger] final(registry).spec_contains(b)
            == old(registry).spec_contains(b),
        forall|b: Seq<char>| b != address@ && old(registry).spec_contains(b)
            ==> #[trigger] final(registry).history_of(b) == old(registry).history_of(b),
        forall|b: Seq<char>| b != address@ && old(registry).spec_contains(b)
            ==> #[trigger] final(registry).started_of(b) == old(registry).started_of(b),
        final(registry).history_of(address@).len() >= old(registry).history_of(address@).len(),
        final(registry).history_of(address@).take(
            old(registry).history_of(address@).len() as int,
        ) == old(registry).history_of(address@),
        r matches Some(res) ==> run_reported(
            old(registry).history_of(address@),
            final(registry).history_of(address@),
            res,
        ),
        r == Some(Result::<(), AppError>::Ok(())) ==> final(store).spec_has_state(address@)
            && final(store).spec_state(address@).state == IndexingState::Idle,
        !pubkey_accepted(address@) ==> {
            &&& r == Some(Result::<(), AppError>::Err(AppError::InvalidAddress))
            &&& *final(store) == *old(store)
            &&& final(registry).history_of(address@) == old(registry).history_of(address@).push(
                SyncStatus::Error(AppError::InvalidAddress),
            )
        },
        pubkey_accepted(address@) && !old(store).spec_has_account(address@) && fuel >= 3 ==> r
            == Some(Result::<(), AppError>::Err(AppError::NotIndexed)),
        pubkey_accepted(address@) && !old(store).spec_has_account(address@) ==> *final(store)
            == *old(store),
        pubkey_accepted(address@) && old(store).spec_has_account(address@) && old(
            store,
        ).spec_has_state(address@) && old(store).spec_signatures(address@).len() > 0
            && upstream.spec_account() is Some && ledger_has_sig(
            upstream.spec_entries(),
            old(store).spec_signatures(address@)[0].signature@,
        ) && fuel >= refresh_fuel(
            ledger_sig_index(
                upstream.spec_entries(),
                old(store).spec_signatures(address@)[0].signature@,
            ),
        ) ==> {
            let ent = upstream.spec_entries();
            let k = ledger_sig_index(ent, old(store).spec_signatures(address@)[0].signature@);
            &&& r == Some(Result::<(), AppError>::Ok(()))
            &&& acct_refreshed(*final(store), *old(store), address@, *upstream, now)
            &&& state_rec(
                *final(store),
                address@,
                IndexingState::Idle,
                old(store).spec_state(address@).created_at,
                now,
            )
            &&& sigs_ingested(*final(store), *old(store), address@, ent, k, now)
            &&& txns_ingested(*final(store), *old(store), address@, ent, k, now)
        },
{
    if validate_address(address).is_err() {
        let ghost h0 = registry.history_of(address@);
        registry.emit_event(address, SyncStatus::Error(AppError::InvalidAddress));
        proof {
            assert(registry.history_of(address@).take(h0.len() as int) =~= h0);
        }
        return Some(Err(AppError::InvalidAddress));
    }
    let mut engine = SyncEngine::new_refresh(address.clone());
    drive(&mut engine, store, upstream, registry, address, now, fuel)
}

} // verus!
