//! The upstream model's cursor semantics: where a page starts, where it
//! stops, and how the bounds fail.

use indexer_core::error::AppError;
use indexer_core::models::{SignatureInfo, TransactionInfo};
use indexer_core::upstream::{LedgerEntry, UpstreamLedger};

fn entry(slot: i64) -> LedgerEntry {
    LedgerEntry {
        info: SignatureInfo {
            signature: format!("sig{}", slot),
            slot,
            block_time: None,
            confirmation_status: String::from("finalized"),
        },
        detail: TransactionInfo { slot, block_time: None, payload: format!("tx{}", slot) },
    }
}

/// Slots 9..1, newest first.
fn ledger() -> UpstreamLedger {
    let mut up = UpstreamLedger::new();
    let mut slot = 9;
    while slot >= 1 {
        up.push_entry(entry(slot));
        slot -= 1;
    }
    up
}

fn names(page: &[SignatureInfo]) -> Vec<&str> {
    page.iter().map(|s| s.signature.as_str()).collect()
}

#[test]
fn first_page_starts_at_the_newest_entry() {
    let up = ledger();
    let page = up.signatures_page(&None, &None, 4).unwrap();
    assert_eq!(names(&page), vec!["sig9", "sig8", "sig7", "sig6"]);
}

#[test]
fn before_cursor_resumes_just_after_its_signature() {
    let up = ledger();
    let page = up
        .signatures_page(&Some(String::from("sig6")), &None, 100)
        .unwrap();
    assert_eq!(names(&page), vec!["sig5", "sig4", "sig3", "sig2", "sig1"]);
}

#[test]
fn until_bound_is_exclusive_and_stops_the_walk() {
    let up = ledger();
    let page = up
        .signatures_page(&None, &Some(String::from("sig4")), 100)
        .unwrap();
    assert_eq!(names(&page), vec!["sig9", "sig8", "sig7", "sig6", "sig5"]);

    // With both bounds, the window sits strictly between them.
    let page = up
        .signatures_page(&Some(String::from("sig8")), &Some(String::from("sig5")), 100)
        .unwrap();
    assert_eq!(names(&page), vec!["sig7", "sig6"]);
}

#[test]
fn unknown_cursor_fails_as_the_rpc_fails() {
    let up = ledger();
    match up.signatures_page(&Some(String::from("nowhere")), &None, 10) {
        Err(AppError::Upstream(_)) => {},
        other => panic!("expected an upstream failure, got {:?}", other),
    }

    // An unknown `until` is no error: the walk just runs to the oldest
    // entry.
    let page = up
        .signatures_page(&None, &Some(String::from("nowhere")), 100)
        .unwrap();
    assert_eq!(page.len(), 9);
}

#[test]
fn transaction_lookup_by_signature() {
    let up = ledger();
    let sig = String::from("sig3");
    let txn = up.get_transaction(&sig).unwrap();
    assert_eq!(txn.payload, "tx3");
    assert_eq!(txn.slot, 3);

    let missing = String::from("sig99");
    match up.get_transaction(&missing) {
        Err(AppError::Upstream(_)) => {},
        other => panic!("expected an upstream failure, got {:?}", other),
    }
}
