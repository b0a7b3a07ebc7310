//! The session registry: a map from address to its session, the unit of
//! deduplication.
//!
//! `get_or_create_session` is idempotent — it never replaces a live session
//! — and `remove_session` tears an entry down after the bound run reaches a
//! terminal state, so that a later request for the same address starts a
//! clean session instead of attaching to a dead one. In the running service
//! the map is a sharded concurrent structure so unrelated addresses do not
//! contend; this module is the sequential model of that map, and the
//! contracts here are what deduplication and teardown are proved against.

use vstd::prelude::*;

use crate::message::SyncStatus;
use crate::session::{AddressSession, LiveFeed};

verus! {

/// One registry slot: an address and the session bound to it.
struct RegistryEntry {
    address: String,
    session: AddressSession,
}

/// Map from address to live session.
pub struct SessionRegistry {
    entries: Vec<RegistryEntry>,
}

impl SessionRegistry {
    /// Well-formedness: one session per address.
    pub closed spec fn wf(&self) -> bool {
        forall|i: int, j: int|
            0 <= i < j < self.entries@.len() ==> self.entries@[i].address@ != self.entries@[j].address@
    }

    /// Whether a session is registered for this address.
    pub closed spec fn spec_contains(&self, a: Seq<char>) -> bool {
        exists|i: int| 0 <= i < self.entries@.len() && self.entries@[i].address@ == a
    }

    /// The slot of the (unique) entry for this address.
    spec fn entry_index(&self, a: Seq<char>) -> int {
        choose|i: int| 0 <= i < self.entries@.len() && self.entries@[i].address@ == a
    }

    /// The event history of the session registered for this address.
    pub closed spec fn history_of(&self, a: Seq<char>) -> Seq<SyncStatus> {
        self.entries@[self.entry_index(a)].session.history()
    }

    /// Whether the run for this address has already been claimed.
    pub closed spec fn started_of(&self, a: Seq<char>) -> bool {
        self.entries@[self.entry_index(a)].session.started()
    }

    /// How many sessions are registered.
    pub closed spec fn spec_len(&self) -> nat {
        self.entries@.len()
    }

    /// An empty registry.
    pub fn new() -> (r: Self)
        ensures
            r.wf(),
            r.spec_len() == 0,
            forall|a: Seq<char>| !r.spec_contains(a),
    {
        SessionRegistry { entries: Vec::new() }
    }

    /// The slot holding `address`, if one does.
    fn find(&self, address: &String) -> (r: Option<usize>)
        requires
            self.wf(),
        ensures
            match r {
                Some(i) => {
                    &&& i < self.entries@.len()
                    &&& self.entries@[i as int].address@ == address@
                    &&& self.spec_contains(address@)
                    &&& i == self.entry_index(address@)
                },
                None => !self.spec_contains(address@),
            },
    {
        let n = self.entries.len();
        let mut i: usize = 0;
        while i < n
            invariant
                n == self.entries@.len(),
                i <= n,
                self.wf(),
                forall|j: int| 0 <= j < i ==> self.entries@[j].address@ != address@,
            decreases n - i,
        {
            if self.entries[i].address == *address {
                proof {
                    let k = self.entry_index(address@);
                    assert(0 <= k < self.entries@.len() && self.entries@[k].address@ == address@);
                    assert(k == i);
                }
                return Some(i);
            }
            i = i + 1;
        }
        None
    }

    /// Whether a session is registered for this address.
    pub fn contains_session(&self, address: &String) -> (r: bool)
        requires
            self.wf(),
        ensures
            r == self.spec_contains(address@),
    {
        self.find(address).is_some()
    }

    /// Idempotent get-or-create: if the address already has a session,
    /// nothing changes; otherwise a fresh session — empty history, start
    /// unclaimed — is registered. Either way the address is registered
    /// afterwards, and no other address is touched.
    pub fn get_or_create_session(&mut self, address: &String)
        requires
            old(self).wf(),
        ensures
            final(self).wf(),
            final(self).spec_contains(address@),
            old(self).spec_contains(address@) ==> *final(self) == *old(self),
            !old(self).spec_contains(address@) ==> {
                &&& final(self).history_of(address@) == Seq::<SyncStatus>::empty()
                &&& !final(self).started_of(address@)
                &&& final(self).spec_len() == old(self).spec_len() + 1
            },
            forall|b: Seq<char>| b != address@ ==> #[trigger] final(self).spec_contains(b)
                == old(self).spec_contains(b),
            forall|b: Seq<char>| b != address@ && old(self).spec_contains(b)
                ==> #[trigger] final(self).history_of(b) == old(self).history_of(b),
            forall|b: Seq<char>| b != address@ && old(self).spec_contains(b)
                ==> #[trigger] final(self).started_of(b) == old(self).started_of(b),
    {
        if self.find(address).is_none() {
            let entry = RegistryEntry { address: address.clone(), session: AddressSession::new() };
            self.entries.push(entry);
            proof {
                let ghost n = old(self).entries@.len() as int;
                assert(self.entries@[n].address@ == address@);
                assert(self.wf()) by {
                    assert(forall|j: int| 0 <= j < n ==> self.entries@[j].address@ != address@);
                }
                assert(self.entry_index(address@) == n);
                assert forall|b: Seq<char>| b != address@ implies #[trigger] self.spec_contains(b)
                    == old(self).spec_contains(b) by {
                    if old(self).spec_contains(b) {
                        let k = old(self).entry_index(b);
                        assert(self.entries@[k].address@ == b);
                    }
                    if self.spec_contains(b) {
                        let k = choose|k: int|
                            0 <= k < self.entries@.len() && self.entries@[k].address@ == b;
                        assert(k != n);
                        assert(old(self).entries@[k].address@ == b);
                    }
                }
                assert forall|b: Seq<char>| b != address@ && old(self).spec_contains(b) implies
                    #[trigger] self.history_of(b) == old(self).history_of(b) by {
                    let k = old(self).entry_index(b);
                    assert(self.entries@[k].address@ == b);
                    assert(self.entry_index(b) == k);
                }
                assert forall|b: Seq<char>| b != address@ && old(self).spec_contains(b) implies
                    #[trigger] self.started_of(b) == old(self).started_of(b) by {
                    let k = old(self).entry_index(b);
                    assert(self.entries@[k].address@ == b);
                    assert(self.entry_index(b) == k);
                }
            }
        }
    }

    /// Remove the entry for this address if present; report whether a
    /// removal happened. Called exactly once, after the bound run reaches
    /// a terminal state.
    pub fn remove_session(&mut self, address: &String) -> (removed: bool)
        requires
            old(self).wf(),
        ensures
            final(self).wf(),
            removed == old(self).spec_contains(address@),
            !final(self).spec_contains(address@),
            removed ==> final(self).spec_len() == old(self).spec_len() - 1,
            !removed ==> *final(self) == *old(self),
            forall|b: Seq<char>| b != address@ ==> #[trigger] final(self).spec_contains(b)
                == old(self).spec_contains(b),
            forall|b: Seq<char>| b != address@ && old(self).spec_contains(b)
                ==> #[trigger] final(self).history_of(b) == old(self).history_of(b),
            forall|b: Seq<char>| b != address@ && old(self).spec_contains(b)
                ==> #[trigger] final(self).started_of(b) == old(self).started_of(b),
    {
        match self.find(address) {
            None => false,
            Some(i) => {
                self.entries.remove(i);
                proof {
                    let ghost pre = old(self).entries@;
                    let ghost post = self.entries@;
                    assert(post == pre.remove(i as int));
                    assert forall|b: Seq<char>| b != address@ implies #[trigger] self.spec_contains(b)
                        == old(self).spec_contains(b) by {
                        if old(self).spec_contains(b) {
                            let k = old(self).entry_index(b);
                            assert(k != i);
                            if k < i {
                                assert(post[k].address@ == b);
                            } else {
                                assert(post[k - 1].address@ == b);
                            }
                        }
                        if self.spec_contains(b) {
                            let k = choose|k: int| 0 <= k < post.len() && post[k].address@ == b;
                            if k < i {
                                assert(pre[k].address@ == b);
                            } else {
                                assert(pre[k + 1].address@ == b);
                            }
                        }
                    }
                    assert(!self.spec_contains(address@)) by {
                        if self.spec_contains(address@) {
                            let k = choose|k: int|
                                0 <= k < post.len() && post[k].address@ == address@;
                            if k < i {
                                assert(pre[k].address@ == address@);
                            } else {
                                assert(pre[k + 1].address@ == address@);
                            }
                        }
                    }
                    assert forall|b: Seq<char>| b != address@ && old(self).spec_contains(b) implies
                        #[trigger] self.history_of(b) == old(self).history_of(b) by {
                        let k = old(self).entry_index(b);
                        assert(k != i);
                        if k < i {
                            assert(post[k] == pre[k]);
                            assert(post[k].address@ == b);
                            assert(self.entry_index(b) == k);
                        } else {
                            assert(post[k - 1] == pre[k]);
                            assert(post[k - 1].address@ == b);
                            assert(self.entry_index(b) == k - 1);
                        }
                    }
                    assert forall|b: Seq<char>| b != address@ && old(self).spec_contains(b) implies
                        #[trigger] self.started_of(b) == old(self).started_of(b) by {
                        let k = old(self).entry_index(b);
                        assert(k != i);
                        if k < i {
                            assert(post[k] == pre[k]);
                            assert(post[k].address@ == b);
                            assert(self.entry_index(b) == k);
                        } else {
                            assert(post[k - 1] == pre[k]);
                            assert(post[k - 1].address@ == b);
                            assert(self.entry_index(b) == k - 1);
                        }
                    }
                }
                true
            },
        }
    }

    /// Emit an event into the session registered for this address.
    pub fn emit_event(&mut self, address: &String, event: SyncStatus)
        requires
            old(self).wf(),
            old(self).spec_contains(address@),
        ensures
            final(self).wf(),
            final(self).spec_contains(address@),
            final(self).history_of(address@) == old(self).history_of(address@).push(event),
            final(self).started_of(address@) == old(self).started_of(address@),
            final(self).spec_len() == old(self).spec_len(),
            forall|b: Seq<char>| b != address@ ==> #[trigger] final(self).spec_contains(b)
                == old(self).spec_contains(b),
            forall|b: Seq<char>| b != address@ && old(self).spec_contains(b)
                ==> #[trigger] final(self).history_of(b) == old(self).history_of(b),
            forall|b: Seq<char>| b != address@ && old(self).spec_contains(b)
                ==> #[trigger] final(self).started_of(b) == old(self).started_of(b),
    {
        let i = self.find(address).unwrap();
        let entry = &mut self.entries[i];
        entry.session.emit_event(event);
        proof {
            Self::lemma_update_one_slot(old(self), self, i as int, address@);
        }
    }

    /// Claim the start of the run for this address: true exactly once per
    /// session lifetime.
    pub fn try_claim_start(&mut self, address: &String) -> (claimed: bool)
        requires
            old(self).wf(),
            old(self).spec_contains(address@),
        ensures
            final(self).wf(),
            final(self).spec_contains(address@),
            claimed == !old(self).started_of(address@),
            final(self).started_of(address@),
            final(self).history_of(address@) == old(self).history_of(address@),
            final(self).spec_len() == old(self).spec_len(),
            forall|b: Seq<char>| b != address@ ==> #[trigger] final(self).spec_contains(b)
                == old(self).spec_contains(b),
            forall|b: Seq<char>| b != address@ && old(self).spec_contains(b)
                ==> #[trigger] final(self).history_of(b) == old(self).history_of(b),
            forall|b: Seq<char>| b != address@ && old(self).spec_contains(b)
                ==> #[trigger] final(self).started_of(b) == old(self).started_of(b),
    {
        let i = self.find(address).unwrap();
        let entry = &mut self.entries[i];
        let claimed = entry.session.try_claim_start();
        proof {
            Self::lemma_update_one_slot(old(self), self, i as int, address@);
        }
        claimed
    }

    /// Borrow the session registered for this address, to attach an
    /// observer or inspect the history.
    pub fn session(&self, address: &String) -> (s: &AddressSession)
        requires
            self.wf(),
            self.spec_contains(address@),
        ensures
            s.history() == self.history_of(address@),
            s.started() == self.started_of(address@),
    {
        let i = self.find(address).unwrap();
        &self.entries[i].session
    }

    /// Attach a new observer to the session registered for this address.
    pub fn attach(&self, address: &String) -> (f: LiveFeed)
        requires
            self.wf(),
            self.spec_contains(address@),
        ensures
            f.attached_at() == self.history_of(address@).len(),
            f.delivered() == 0,
    {
        self.session(address).attach()
    }

    /// After a change that touched only slot `i` (same address there, all
    /// other slots untouched), every contains/history/started fact follows.
    proof fn lemma_update_one_slot(pre: &Self, post: &Self, i: int, a: Seq<char>)
        requires
            pre.wf(),
            0 <= i < pre.entries@.len(),
            post.entries@.len() == pre.entries@.len(),
            pre.entries@[i].address@ == a,
            post.entries@[i].address@ == a,
            forall|j: int| 0 <= j < pre.entries@.len() ==> #[trigger] post.entries@[j].address@
                == pre.entries@[j].address@,
            forall|j: int| 0 <= j < pre.entries@.len() && j != i ==> #[trigger] post.entries@[j]
                == pre.entries@[j],
        ensures
            post.wf(),
            post.spec_contains(a),
            pre.spec_contains(a),
            post.entry_index(a) == i,
            pre.entry_index(a) == i,
            post.history_of(a) == post.entries@[i].session.history(),
            post.started_of(a) == post.entries@[i].session.started(),
            pre.history_of(a) == pre.entries@[i].session.history(),
            pre.started_of(a) == pre.entries@[i].session.started(),
            forall|b: Seq<char>| b != a ==> #[trigger] post.spec_contains(b) == pre.spec_contains(b),
            forall|b: Seq<char>| b != a && pre.spec_contains(b)
                ==> #[trigger] post.history_of(b) == pre.history_of(b),
            forall|b: Seq<char>| b != a && pre.spec_contains(b)
                ==> #[trigger] post.started_of(b) == pre.started_of(b),
    {
        assert(post.wf());
        assert(post.entries@[i].address@ == a);
        assert(post.spec_contains(a));
        assert(post.entry_index(a) == i);
        assert(pre.entry_index(a) == i);
        assert forall|b: Seq<char>| b != a implies #[trigger] post.spec_contains(b)
            == pre.spec_contains(b) by {
            if pre.spec_contains(b) {
                let k = pre.entry_index(b);
                assert(post.entries@[k].address@ == b);
            }
            if post.spec_contains(b) {
                let k = choose|k: int|
                    0 <= k < post.entries@.len() && post.entries@[k].address@ == b;
                assert(pre.entries@[k].address@ == b);
            }
        }
        assert forall|b: Seq<char>| b != a && pre.spec_contains(b) implies
            #[trigger] post.history_of(b) == pre.history_of(b) by {
            let k = pre.entry_index(b);
            assert(k != i);
            assert(post.entries@[k].address@ == b);
            assert(post.entry_index(b) == k);
            assert(post.entries@[k] == pre.entries@[k]);
        }
        assert forall|b: Seq<char>| b != a && pre.spec_contains(b) implies
            #[trigger] post.started_of(b) == pre.started_of(b) by {
            let k = pre.entry_index(b);
            assert(k != i);
            assert(post.entries@[k].address@ == b);
            assert(post.entry_index(b) == k);
            assert(post.entries@[k] == pre.entries@[k]);
        }
    }
}

} // verus!
