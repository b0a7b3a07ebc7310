//! Whole-run scenarios: ingestion and refresh executed against the
//! in-memory store and upstream models.

use indexer_core::error::AppError;
use indexer_core::message::SyncStatus;
use indexer_core::models::{AccountInfo, IndexingState, SignatureInfo, TransactionInfo};
use indexer_core::registry::SessionRegistry;
use indexer_core::runner::{indexer, refresher};
use indexer_core::store::Store;
use indexer_core::upstream::{LedgerEntry, UpstreamLedger};

const FUEL: u64 = 100_000;
const NOW: i64 = 1_700_000_000_000;

fn account_info() -> AccountInfo {
    AccountInfo {
        lamports: 5_000_000,
        owner: String::from("owner-program"),
        executable: false,
        data_length: 128,
        rent_epoch: 300,
    }
}

fn entry(slot: i64) -> LedgerEntry {
    LedgerEntry {
        info: SignatureInfo {
            signature: format!("sig{}", slot),
            slot,
            block_time: Some(1_000 + slot),
            confirmation_status: String::from("finalized"),
        },
        detail: TransactionInfo {
            slot,
            block_time: Some(1_000 + slot),
            payload: format!("tx{}", slot),
        },
    }
}

/// An upstream holding `count` signatures with slots `count..1`, newest
/// first, plus the account snapshot.
fn upstream_with(count: i64) -> UpstreamLedger {
    let mut up = UpstreamLedger::new();
    up.set_account(account_info());
    let mut slot = count;
    while slot >= 1 {
        up.push_entry(entry(slot));
        slot -= 1;
    }
    up
}

fn history_of(registry: &SessionRegistry, address: &String) -> Vec<SyncStatus> {
    let session = registry.session(address);
    let mut out = Vec::new();
    let mut i = 0;
    while i < session.history_len() {
        out.push(session.event_at(i).clone());
        i += 1;
    }
    out
}

#[test]
fn indexing_run_with_25_signatures() {
    let address = String::from("11111111111111111111111111111111");
    let mut store = Store::new();
    let upstream = upstream_with(25);
    let mut registry = SessionRegistry::new();
    registry.get_or_create_session(&address);
    assert!(registry.try_claim_start(&address));

    let outcome = indexer(&mut store, &upstream, &mut registry, &address, NOW, FUEL);
    assert_eq!(outcome, Some(Ok(())));

    let history = history_of(&registry, &address);
    assert_eq!(history.len(), 7);
    assert_eq!(history[0], SyncStatus::Indexing);
    match &history[1] {
        SyncStatus::AccountData(acct) => {
            assert_eq!(acct.address, address);
            assert_eq!(acct.lamports, 5_000_000);
            assert_eq!(acct.owner, "owner-program");
            assert_eq!(acct.data_length, 128);
            assert_eq!(acct.rent_epoch, 300);
            assert_eq!(acct.indexed_at, NOW);
            assert_eq!(acct.last_updated_at, NOW);
        },
        other => panic!("expected account data, got {:?}", other),
    }
    assert_eq!(history[2], SyncStatus::TransactionSignatures { fetched: 20, total: 20 });
    assert_eq!(history[3], SyncStatus::TransactionDetails { fetched: 20, total: 20 });
    assert_eq!(history[4], SyncStatus::TransactionSignatures { fetched: 5, total: 25 });
    assert_eq!(history[5], SyncStatus::TransactionDetails { fetched: 5, total: 25 });
    assert_eq!(history[6], SyncStatus::Completed);

    // A late observer attached through the registry replays the full
    // history.
    let mut feed = registry.attach(&address);
    let session = registry.session(&address);
    let mut replayed = 0;
    while feed.next_event(session).is_some() {
        replayed += 1;
    }
    assert_eq!(replayed, 7);

    assert!(store.check_account_exists(&address));
    assert_eq!(store.get_signatures_count(&address), 25);
    assert_eq!(store.get_transactions_count(&address), 25);
    let state = store.get_address_indexing_state(&address).expect("state record");
    assert_eq!(state.state, IndexingState::Idle);
    assert_eq!(store.get_latest_signature(&address), Ok(String::from("sig25")));
}

#[test]
fn concurrent_attach_single_indexing_run() {
    let address = String::from("Vote111111111111111111111111111111111111111");
    let mut store = Store::new();
    let upstream = upstream_with(3);
    let mut registry = SessionRegistry::new();

    // Two requests race for a never-before-seen address: get-or-create is
    // idempotent and the start is claimed exactly once.
    registry.get_or_create_session(&address);
    registry.get_or_create_session(&address);
    let first_claim = registry.try_claim_start(&address);
    let second_claim = registry.try_claim_start(&address);
    assert!(first_claim);
    assert!(!second_claim);

    // Only the claiming request runs the engine.
    let outcome = indexer(&mut store, &upstream, &mut registry, &address, NOW, FUEL);
    assert_eq!(outcome, Some(Ok(())));

    let history = history_of(&registry, &address);
    let indexing_events = history
        .iter()
        .filter(|e| matches!(e, SyncStatus::Indexing))
        .count();
    assert_eq!(indexing_events, 1);
}

#[test]
fn indexing_empty_history_errors_with_no_transactions() {
    let address = String::from("Stake11111111111111111111111111111111111111");
    let mut store = Store::new();
    let mut upstream = UpstreamLedger::new();
    upstream.set_account(account_info());
    let mut registry = SessionRegistry::new();
    registry.get_or_create_session(&address);

    let outcome = indexer(&mut store, &upstream, &mut registry, &address, NOW, FUEL);
    assert_eq!(outcome, Some(Err(AppError::NoTransactions)));

    let history = history_of(&registry, &address);
    assert_eq!(history.last(), Some(&SyncStatus::Error(AppError::NoTransactions)));

    // The state record was created for the attempt and never advanced
    // past Indexing, and nothing else was persisted for the address.
    let state = store.get_address_indexing_state(&address).expect("state record");
    assert_eq!(state.state, IndexingState::Indexing);
    assert_eq!(store.get_signatures_count(&address), 0);
    assert_eq!(store.get_transactions_count(&address), 0);
}

#[test]
fn session_removed_after_run_gives_fresh_session() {
    let address = String::from("SysvarRent111111111111111111111111111111111");
    let mut store = Store::new();
    let upstream = upstream_with(2);
    let mut registry = SessionRegistry::new();
    registry.get_or_create_session(&address);
    registry.try_claim_start(&address);

    let outcome = indexer(&mut store, &upstream, &mut registry, &address, NOW, FUEL);
    assert_eq!(outcome, Some(Ok(())));
    assert!(registry.session(&address).history_len() > 0);

    // The spawning caller removes the session after the terminal event.
    assert!(registry.remove_session(&address));
    assert!(!registry.contains_session(&address));
    assert!(!registry.remove_session(&address));

    // A later request starts clean: empty history, start unclaimed.
    registry.get_or_create_session(&address);
    assert_eq!(registry.session(&address).history_len(), 0);
    assert!(registry.try_claim_start(&address));
}

#[test]
fn refresh_persists_only_newly_discovered_signatures() {
    let address = String::from("So11111111111111111111111111111111111111112");
    let mut store = Store::new();
    let mut registry = SessionRegistry::new();
    registry.get_or_create_session(&address);

    // First-time ingestion of 5 signatures (slots 5..1).
    let upstream_before = upstream_with(5);
    let outcome = indexer(&mut store, &upstream_before, &mut registry, &address, NOW, FUEL);
    assert_eq!(outcome, Some(Ok(())));
    assert_eq!(store.get_signatures_count(&address), 5);
    assert_eq!(store.get_latest_signature(&address), Ok(String::from("sig5")));
    registry.remove_session(&address);

    // Three newer transactions land upstream (slots 8, 7, 6).
    let upstream_after = upstream_with(8);

    registry.get_or_create_session(&address);
    let later = NOW + 60_000;
    let outcome = refresher(&mut store, &upstream_after, &mut registry, &address, later, FUEL);
    assert_eq!(outcome, Some(Ok(())));

    // Count after = count before + exactly the newly discovered three;
    // nothing stored before the refresh was persisted again.
    assert_eq!(store.get_signatures_count(&address), 8);
    assert_eq!(store.get_transactions_count(&address), 8);
    assert_eq!(store.get_latest_signature(&address), Ok(String::from("sig8")));
    let all = store.get_transaction_signatures(
        &address,
        indexer_core::models::Pagination { skip: 0, limit: 0 },
    );
    let names: Vec<&str> = all.iter().map(|r| r.signature.as_str()).collect();
    assert_eq!(names, vec!["sig8", "sig7", "sig6", "sig5", "sig4", "sig3", "sig2", "sig1"]);

    let history = history_of(&registry, &address);
    assert_eq!(history.len(), 4);
    match &history[0] {
        SyncStatus::AccountData(acct) => {
            // The refresh overwrote the record in place: the first-indexed
            // stamp stays, the update stamp moves.
            assert_eq!(acct.indexed_at, NOW);
            assert_eq!(acct.last_updated_at, later);
        },
        other => panic!("expected account data, got {:?}", other),
    }
    assert_eq!(history[1], SyncStatus::TransactionSignatures { fetched: 3, total: 8 });
    assert_eq!(history[2], SyncStatus::TransactionDetails { fetched: 3, total: 8 });
    assert_eq!(history[3], SyncStatus::Completed);
}

#[test]
fn indexing_an_already_indexed_address_is_rejected() {
    let address = String::from("ComputeBudget111111111111111111111111111111");
    let mut store = Store::new();
    let upstream = upstream_with(2);
    let mut registry = SessionRegistry::new();
    registry.get_or_create_session(&address);
    assert_eq!(
        indexer(&mut store, &upstream, &mut registry, &address, NOW, FUEL),
        Some(Ok(()))
    );
    registry.remove_session(&address);

    registry.get_or_create_session(&address);
    let outcome = indexer(&mut store, &upstream, &mut registry, &address, NOW, FUEL);
    assert_eq!(outcome, Some(Err(AppError::AlreadyIndexed)));
    let history = history_of(&registry, &address);
    assert_eq!(history.last(), Some(&SyncStatus::Error(AppError::AlreadyIndexed)));
}

#[test]
fn refreshing_an_unindexed_address_is_rejected() {
    let address = String::from("SysvarC1ock11111111111111111111111111111111");
    let mut store = Store::new();
    let upstream = upstream_with(2);
    let mut registry = SessionRegistry::new();
    registry.get_or_create_session(&address);

    let outcome = refresher(&mut store, &upstream, &mut registry, &address, NOW, FUEL);
    assert_eq!(outcome, Some(Err(AppError::NotIndexed)));
    let history = history_of(&registry, &address);
    assert_eq!(history.last(), Some(&SyncStatus::Error(AppError::NotIndexed)));
}

#[test]
fn upstream_account_failure_surfaces_as_single_error_event() {
    let address = String::from("TokenkegQfeZyiNwAJbNbGKPFXCWuBvf9Ss623VQ5DA");
    let mut store = Store::new();
    // An upstream that knows no account: the fetch fails mid-run.
    let mut upstream = UpstreamLedger::new();
    upstream.push_entry(entry(1));
    let mut registry = SessionRegistry::new();
    registry.get_or_create_session(&address);

    let outcome = indexer(&mut store, &upstream, &mut registry, &address, NOW, FUEL);
    match outcome {
        Some(Err(AppError::Upstream(_))) => {},
        other => panic!("expected an upstream failure, got {:?}", other),
    }

    // Exactly one terminal event, and it is the last.
    let history = history_of(&registry, &address);
    let terminal = history
        .iter()
        .filter(|e| matches!(e, SyncStatus::Completed | SyncStatus::Error(_)))
        .count();
    assert_eq!(terminal, 1);
    assert!(matches!(history.last(), Some(SyncStatus::Error(AppError::Upstream(_)))));
}

#[test]
fn run_out_of_fuel_reports_nothing() {
    let address = String::from("BPFLoaderUpgradeab1e11111111111111111111111");
    let mut store = Store::new();
    let upstream = upstream_with(3);
    let mut registry = SessionRegistry::new();
    registry.get_or_create_session(&address);

    let outcome = indexer(&mut store, &upstream, &mut registry, &address, NOW, 2);
    assert_eq!(outcome, None);
}

#[test]
fn malformed_address_is_rejected_before_any_store_access() {
    // A run on a string that is no base58 32-byte key never touches the
    // store or the upstream: it emits the one terminal event and answers
    // with the invalid-address error.
    let address = String::from("AAA1");
    let mut store = Store::new();
    let upstream = upstream_with(3);
    let mut registry = SessionRegistry::new();
    registry.get_or_create_session(&address);

    let outcome = indexer(&mut store, &upstream, &mut registry, &address, NOW, FUEL);
    assert_eq!(outcome, Some(Err(AppError::InvalidAddress)));
    let history = history_of(&registry, &address);
    assert_eq!(history, vec![SyncStatus::Error(AppError::InvalidAddress)]);
    assert!(!store.check_account_exists(&address));
    assert_eq!(store.get_signatures_count(&address), 0);

    let refresh_target = String::from("BBB2");
    registry.get_or_create_session(&refresh_target);
    let outcome = refresher(&mut store, &upstream, &mut registry, &refresh_target, NOW, FUEL);
    assert_eq!(outcome, Some(Err(AppError::InvalidAddress)));
}
