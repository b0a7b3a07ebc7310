//! The session hub and the replay-then-live feed.

use indexer_core::message::SyncStatus;
use indexer_core::session::AddressSession;

fn progress(fetched: u64, total: u64) -> SyncStatus {
    SyncStatus::TransactionSignatures { fetched, total }
}

#[test]
fn late_observer_receives_all_history_then_live_events() {
    let mut session = AddressSession::new();
    session.emit_event(SyncStatus::Indexing);
    session.emit_event(progress(20, 20));
    session.emit_event(progress(5, 25));

    // Attach after three events: the feed replays all three...
    let mut feed = session.attach();
    assert!(feed.in_replay());
    let mut received = Vec::new();
    while let Some(e) = feed.next_event(&session) {
        received.push(e.clone());
    }
    assert_eq!(received.len(), 3);

    // ...and then yields exactly the events emitted afterwards, in order,
    // with no duplicate and no gap.
    session.emit_event(progress(7, 32));
    session.emit_event(SyncStatus::Completed);
    while let Some(e) = feed.next_event(&session) {
        received.push(e.clone());
    }
    assert_eq!(
        received,
        vec![
            SyncStatus::Indexing,
            progress(20, 20),
            progress(5, 25),
            progress(7, 32),
            SyncStatus::Completed,
        ]
    );
    assert!(feed.next_event(&session).is_none());
}

#[test]
fn feed_leaves_replay_at_the_attach_boundary() {
    let mut session = AddressSession::new();
    session.emit_event(SyncStatus::Indexing);
    let mut feed = session.attach();
    session.emit_event(SyncStatus::Completed);

    assert!(feed.in_replay());
    assert_eq!(feed.next_event(&session), Some(&SyncStatus::Indexing));
    // The replay part ends after one event; what follows is live.
    assert!(!feed.in_replay());
    assert_eq!(feed.next_event(&session), Some(&SyncStatus::Completed));
    assert_eq!(feed.next_event(&session), None);
}

#[test]
fn start_is_claimed_exactly_once() {
    let mut session = AddressSession::new();
    assert!(!session.is_started());

    assert!(session.try_claim_start());
    assert!(session.is_started());

    // Every later claim loses, and emitting events never resets the flag.
    assert!(!session.try_claim_start());
    session.emit_event(SyncStatus::Indexing);
    assert!(!session.try_claim_start());
    assert!(session.is_started());
}

#[test]
fn emit_appends_in_order() {
    let mut session = AddressSession::new();
    assert_eq!(session.history_len(), 0);
    session.emit_event(SyncStatus::Indexing);
    session.emit_event(SyncStatus::Syncing);
    assert_eq!(session.history_len(), 2);
    assert_eq!(session.event_at(0), &SyncStatus::Indexing);
    assert_eq!(session.event_at(1), &SyncStatus::Syncing);
}
