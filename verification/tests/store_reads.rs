//! The store model's write rules and read queries, and the error
//! taxonomy's renderings.

use indexer_core::error::AppError;
use indexer_core::message::SyncStatus;
use indexer_core::models::{
    Account, AddressIndexingState, IndexingState, Pagination, Transaction, TransactionSignature,
    UpdateAccount,
};
use indexer_core::store::Store;

const NOW: i64 = 1_700_000_000_000;

fn account(address: &str) -> Account {
    Account {
        address: String::from(address),
        lamports: 10,
        owner: String::from("owner"),
        executable: true,
        data_length: 64,
        rent_epoch: 5,
        indexed_at: NOW,
        last_updated_at: NOW,
    }
}

fn sig(address: &str, name: &str, slot: i64) -> TransactionSignature {
    TransactionSignature {
        signature: String::from(name),
        account_address: String::from(address),
        slot,
        block_time: Some(slot),
        confirmation_status: String::from("finalized"),
        indexed_at: NOW,
    }
}

fn txn(address: &str, name: &str, slot: i64) -> Transaction {
    Transaction {
        signature: String::from(name),
        account_address: String::from(address),
        slot,
        block_time: Some(slot),
        transaction: format!("payload-{}", name),
        indexed_at: NOW,
    }
}

#[test]
fn account_create_read_update() {
    let mut store = Store::new();
    let addr = String::from("acct");
    assert!(!store.check_account_exists(&addr));
    assert!(store.get_account(&addr).is_none());

    assert_eq!(store.insert_account(account("acct")), Ok(()));
    assert!(store.check_account_exists(&addr));
    assert_eq!(store.get_account(&addr).unwrap().lamports, 10);

    // The address is the key: a second create is refused.
    match store.insert_account(account("acct")) {
        Err(AppError::Storage(_)) => {},
        other => panic!("expected a storage error, got {:?}", other),
    }

    // An update overwrites in place and keeps the first-indexed stamp.
    let updated = store
        .update_account(
            &addr,
            UpdateAccount {
                lamports: 99,
                owner: String::from("owner2"),
                executable: false,
                data_length: 65,
                rent_epoch: 6,
                last_updated_at: NOW + 1,
            },
        )
        .unwrap();
    assert_eq!(updated.lamports, 99);
    assert_eq!(updated.indexed_at, NOW);
    assert_eq!(updated.last_updated_at, NOW + 1);
    assert_eq!(store.get_account(&addr).unwrap().owner, "owner2");

    let missing = String::from("nobody");
    assert_eq!(
        store.update_account(
            &missing,
            UpdateAccount {
                lamports: 0,
                owner: String::new(),
                executable: false,
                data_length: 0,
                rent_epoch: 0,
                last_updated_at: 0,
            },
        ),
        Err(AppError::NotFound(String::from("Account")))
    );
}

#[test]
fn indexing_state_upsert_and_update() {
    let mut store = Store::new();
    let addr = String::from("st");
    assert!(store.get_address_indexing_state(&addr).is_none());
    assert!(matches!(
        store.update_address_indexing_state(&addr, IndexingState::Idle, NOW),
        Err(AppError::NotFound(_))
    ));

    store.put_address_indexing_state(AddressIndexingState {
        address: String::from("st"),
        state: IndexingState::Indexing,
        created_at: NOW,
        updated_at: NOW,
    });
    let st = store.get_address_indexing_state(&addr).unwrap();
    assert_eq!(st.state, IndexingState::Indexing);
    assert_eq!(st.created_at, NOW);

    assert_eq!(
        store.update_address_indexing_state(&addr, IndexingState::Idle, NOW + 5),
        Ok(())
    );
    let st = store.get_address_indexing_state(&addr).unwrap();
    assert_eq!(st.state, IndexingState::Idle);
    assert_eq!(st.created_at, NOW);
    assert_eq!(st.updated_at, NOW + 5);
}

#[test]
fn signature_reads_are_newest_first_and_windowed() {
    let mut store = Store::new();
    let addr = String::from("pg");
    // Append out of order; reads come back sorted by slot, newest first.
    let batch = vec![
        sig("pg", "s3", 3),
        sig("pg", "s1", 1),
        sig("pg", "s5", 5),
        sig("pg", "s2", 2),
        sig("pg", "s4", 4),
    ];
    assert_eq!(store.insert_transactions_signatures(batch), Ok(()));
    assert_eq!(store.get_signatures_count(&addr), 5);
    assert_eq!(store.get_latest_signature(&addr), Ok(String::from("s5")));

    let all = store.get_transaction_signatures(&addr, Pagination { skip: 0, limit: 0 });
    let names: Vec<&str> = all.iter().map(|r| r.signature.as_str()).collect();
    assert_eq!(names, vec!["s5", "s4", "s3", "s2", "s1"]);

    let window = store.get_transaction_signatures(&addr, Pagination { skip: 1, limit: 2 });
    let names: Vec<&str> = window.iter().map(|r| r.signature.as_str()).collect();
    assert_eq!(names, vec!["s4", "s3"]);

    let beyond = store.get_transaction_signatures(&addr, Pagination { skip: 9, limit: 3 });
    assert!(beyond.is_empty());

    // A batch that mixes addresses is refused whole.
    let mixed = vec![sig("pg", "s6", 6), sig("other", "s7", 7)];
    assert!(matches!(
        store.insert_transactions_signatures(mixed),
        Err(AppError::Storage(_))
    ));
    assert_eq!(store.get_signatures_count(&addr), 5);

    let empty_addr = String::from("empty");
    assert_eq!(store.get_signatures_count(&empty_addr), 0);
    assert!(matches!(
        store.get_latest_signature(&empty_addr),
        Err(AppError::NotFound(_))
    ));
}

#[test]
fn transaction_reads_and_lookup() {
    let mut store = Store::new();
    let addr = String::from("tx");
    let batch = vec![txn("tx", "t2", 2), txn("tx", "t1", 1), txn("tx", "t3", 3)];
    assert_eq!(store.insert_transactions(batch), Ok(()));
    assert_eq!(store.get_transactions_count(&addr), 3);

    let all = store.get_transactions(&addr, Pagination { skip: 0, limit: 0 });
    let slots: Vec<i64> = all.iter().map(|r| r.slot).collect();
    assert_eq!(slots, vec![3, 2, 1]);

    let wanted = String::from("t2");
    let found = store.get_transaction(&addr, &wanted).unwrap();
    assert_eq!(found.transaction, "payload-t2");

    let missing = String::from("t9");
    assert!(store.get_transaction(&addr, &missing).is_none());
}

#[test]
fn indexer_stats_require_the_account() {
    let mut store = Store::new();
    let addr = String::from("stats");
    assert!(matches!(
        store.get_indexer_stats(&addr),
        Err(AppError::NotFound(_))
    ));

    assert_eq!(store.insert_account(account("stats")), Ok(()));
    assert_eq!(
        store.insert_transactions_signatures(vec![sig("stats", "a", 1), sig("stats", "b", 2)]),
        Ok(())
    );
    assert_eq!(store.insert_transactions(vec![txn("stats", "a", 1)]), Ok(()));

    let stats = store.get_indexer_stats(&addr).unwrap();
    assert!(stats.account_exists);
    assert_eq!(stats.signatures, 2);
    assert_eq!(stats.transactions, 1);
}

#[test]
fn error_messages_and_status_codes() {
    assert_eq!(AppError::InvalidAddress.message(), "Invalid Address");
    assert_eq!(AppError::AlreadyIndexed.message(), "Account is already indexed");
    assert_eq!(AppError::NotIndexed.message(), "Account is not indexed");
    assert_eq!(
        AppError::NoTransactions.message(),
        "No transactions found for this address"
    );
    assert_eq!(
        AppError::Upstream(String::from("timeout")).message(),
        "Solana Error - timeout"
    );
    assert_eq!(
        AppError::Storage(String::from("write failed")).message(),
        "Database Error - write failed"
    );
    assert_eq!(
        AppError::NotFound(String::from("Account")).message(),
        "Account Not Found"
    );

    assert_eq!(AppError::InvalidAddress.status_code(), 400);
    assert_eq!(AppError::AlreadyIndexed.status_code(), 400);
    assert_eq!(AppError::NotIndexed.status_code(), 400);
    assert_eq!(AppError::NoTransactions.status_code(), 500);
    assert_eq!(AppError::Upstream(String::new()).status_code(), 500);
    assert_eq!(AppError::Storage(String::new()).status_code(), 500);
    assert_eq!(AppError::NotFound(String::new()).status_code(), 404);
}

#[test]
fn event_names_match_the_transport_labels() {
    assert_eq!(SyncStatus::Indexing.event_name(), "indexing");
    assert_eq!(SyncStatus::Syncing.event_name(), "syncing");
    assert_eq!(
        SyncStatus::AccountData(account("x")).event_name(),
        "account-data"
    );
    assert_eq!(
        SyncStatus::TransactionSignatures { fetched: 1, total: 2 }.event_name(),
        "signatures-fetched"
    );
    assert_eq!(
        SyncStatus::TransactionDetails { fetched: 1, total: 2 }.event_name(),
        "transactions-fetched"
    );
    assert_eq!(SyncStatus::Completed.event_name(), "close");
    assert_eq!(
        SyncStatus::Error(AppError::NoTransactions).event_name(),
        "error"
    );
}
