//! Per-address session: the unit of fan-out.
//!
//! A session pairs the append-only history of every event a run has emitted
//! with the start-once flag that elects the single task responsible for
//! running the engine. In the running service the history sits behind a
//! reader/writer lock, the flag is flipped by an atomic test-and-set, and a
//! bounded broadcast channel carries live events; this module is the
//! sequential model that those pieces implement, and the contracts here are
//! what the rest of the library and its laws are proved against.
//!
//! The live-feed adapter composes replay-then-live for a newly attaching
//! observer. The discipline chosen here (and expected of the transport) is
//! "snapshot under the same lock that serializes with emit": the replay
//! snapshot and the live subscription are taken atomically with respect to
//! `emit_event`, so an event is either in the snapshot or delivered live,
//! never both and never neither.

use vstd::prelude::*;

use crate::message::SyncStatus;

verus! {

/// How many in-flight events the live broadcast channel buffers before a
/// slow observer is told it lagged. Replay never lags: it reads the
/// history, not the channel.
pub const BROADCAST_CAPACITY: usize = 10;

/// Per-address coordination hub: ordered event history plus the start-once
/// flag.
pub struct AddressSession {
    history: Vec<SyncStatus>,
    started: bool,
}

impl AddressSession {
    /// Every event emitted through this session so far, in emission order.
    pub closed spec fn history(&self) -> Seq<SyncStatus> {
        self.history@
    }

    /// Whether some caller has already claimed responsibility for running
    /// the engine bound to this session.
    pub closed spec fn started(&self) -> bool {
        self.started
    }

    /// A fresh session: no history, nobody has claimed the start.
    pub fn new() -> (s: Self)
        ensures
            s.history() == Seq::<SyncStatus>::empty(),
            !s.started(),
    {
        AddressSession { history: Vec::new(), started: false }
    }

    /// Append the event to the history and publish it to current
    /// subscribers. Publishing to nobody is a no-op for delivery, but the
    /// append always happens, so late subscribers still observe the event
    /// via replay.
    pub fn emit_event(&mut self, event: SyncStatus)
        ensures
            final(self).history() == old(self).history().push(event),
            final(self).started() == old(self).started(),
    {
        self.history.push(event);
    }

    /// Atomic test-and-set on the start flag: returns true exactly once
    /// across all callers for this session's lifetime. The caller that
    /// receives true, and only that caller, must spawn the engine.
    pub fn try_claim_start(&mut self) -> (claimed: bool)
        ensures
            claimed == !old(self).started(),
            final(self).started(),
            final(self).history() == old(self).history(),
    {
        let was = self.started;
        self.started = true;
        !was
    }

    /// Whether the run bound to this session has been claimed.
    pub fn is_started(&self) -> (b: bool)
        ensures
            b == self.started(),
    {
        self.started
    }

    /// Number of events emitted so far.
    pub fn history_len(&self) -> (n: usize)
        ensures
            n == self.history().len(),
    {
        self.history.len()
    }

    /// The event at position `i` of the history.
    pub fn event_at(&self, i: usize) -> (e: &SyncStatus)
        requires
            i < self.history().len(),
        ensures
            *e == self.history()[i as int],
    {
        &self.history[i]
    }

    /// Attach a new observer: the returned feed replays the history as it
    /// stands now, then yields each later event exactly once, in order.
    pub fn attach(&self) -> (f: LiveFeed)
        ensures
            f.attached_at() == self.history().len(),
            f.delivered() == 0,
    {
        LiveFeed { attached_at: self.history.len(), cursor: 0 }
    }
}

/// One observer's feed over a session: the snapshot-then-live composition.
///
/// Events with index below `attached_at` are the replay part (they were
/// already in the history when the observer attached); the rest are the
/// live part. `cursor` counts how many events this observer has received.
pub struct LiveFeed {
    attached_at: usize,
    cursor: usize,
}

impl LiveFeed {
    /// History length at the moment this feed was attached: the boundary
    /// between replay and live delivery.
    pub closed spec fn attached_at(&self) -> int {
        self.attached_at as int
    }

    /// How many events this feed has delivered so far.
    pub closed spec fn delivered(&self) -> int {
        self.cursor as int
    }

    /// Whether the next event is still part of the replay snapshot.
    pub fn in_replay(&self) -> (r: bool)
        ensures
            r == (self.delivered() < self.attached_at()),
    {
        self.cursor < self.attached_at
    }

    /// Deliver the next event of the session, if one is available: the
    /// feed hands out `session.history()[delivered]` and advances, so the
    /// observer receives every event exactly once, in emission order.
    pub fn next_event<'a>(&mut self, session: &'a AddressSession) -> (r: Option<&'a SyncStatus>)
        requires
            old(self).attached_at() <= session.history().len(),
        ensures
            final(self).attached_at() == old(self).attached_at(),
            old(self).delivered() < session.history().len() ==> {
                &&& r matches Some(e) && *e == session.history()[old(self).delivered()]
                &&& final(self).delivered() == old(self).delivered() + 1
            },
            old(self).delivered() >= session.history().len() ==> {
                &&& r is None
                &&& final(self).delivered() == old(self).delivered()
            },
    {
        if self.cursor < session.history_len() {
            let e = session.event_at(self.cursor);
            self.cursor = self.cursor + 1;
            Some(e)
        } else {
            None
        }
    }
}

/// Law: replay-then-live is complete, without duplicate or gap.
///
/// An observer that attaches after `k` events have been emitted replays
/// exactly those `k` events and then receives exactly the events emitted
/// after the attach point: the concatenation of the two parts is the
/// session's entire history, each event once, in emission order. `h` is
/// the history at any later moment; its first `k` events are the replay
/// snapshot, because `emit_event` only ever appends.
pub proof fn lemma_replay_then_live_is_complete(h: Seq<SyncStatus>, k: int)
    requires
        0 <= k <= h.len(),
    ensures
        h.take(k) + h.skip(k) == h,
{
    assert(h.take(k) + h.skip(k) =~= h);
}

/// Law: the start of a run is claimed exactly once.
///
/// However many times `try_claim_start` is called on one session, at most
/// one call returns true, and on a session whose flag is still unset the
/// first call does: of `n >= 1` consecutive claims starting from flag
/// state `started`, exactly one succeeds when the flag was unset, and none
/// succeeds when it was already set. `emit_event` never resets the flag,
/// so interleaving emissions changes nothing.
pub proof fn lemma_exactly_one_claim_succeeds(started: bool, n: nat)
    requires
        n >= 1,
    ensures
        claims_won(started, n) == if started { 0int } else { 1int },
    decreases n,
{
    if n == 1 {
        assert(claims_won(true, 0) == 0);
    } else {
        lemma_exactly_one_claim_succeeds(true, (n - 1) as nat);
    }
}

/// How many of `n` consecutive `try_claim_start` calls return true when
/// the flag starts in state `started`: each call returns the negation of
/// the flag it finds and leaves the flag set, as `try_claim_start`'s
/// contract states.
pub open spec fn claims_won(started: bool, n: nat) -> int
    decreases n,
{
    if n == 0 {
        0
    } else {
        (if started { 0int } else { 1int }) + claims_won(true, (n - 1) as nat)
    }
}

} // verus!
