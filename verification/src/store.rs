//! In-memory reference model of the document store.
//!
//! The pipeline needs only a narrow CRUD contract from its persistence:
//! keyed account records, per-address indexing-state records, and two
//! append-only collections of signature and transaction records. This
//! module implements that contract over plain vectors with exact
//! specifications; the runner and the tests execute whole ingestion runs
//! against it, and the contracts here are the store-side half of the
//! pipeline's laws. Per address, the record collections are kept ordered
//! by slot, newest first, which is the order every read query answers in.

use vstd::prelude::*;
use vstd::string::StringExecFns;

use crate::error::AppError;
use crate::models::{
    Account, AddressIndexingState, IndexerStats, IndexingState, Pagination, Transaction,
    TransactionSignature, UpdateAccount,
};

verus! {

/// The signature records of one address, newest (highest slot) first.
struct SignatureBucket {
    address: String,
    records: Vec<TransactionSignature>,
}

/// The transaction records of one address, newest (highest slot) first.
struct TransactionBucket {
    address: String,
    records: Vec<Transaction>,
}

/// Slot order of persisted signature records: newest first.
pub open spec fn sig_sorted(s: Seq<TransactionSignature>) -> bool {
    forall|i: int, j: int| 0 <= i < j < s.len() ==> #[trigger] s[i].slot >= #[trigger] s[j].slot
}

/// Slot order of persisted transaction records: newest first.
pub open spec fn txn_sorted(s: Seq<Transaction>) -> bool {
    forall|i: int, j: int| 0 <= i < j < s.len() ==> #[trigger] s[i].slot >= #[trigger] s[j].slot
}

/// Whether all records of a signature batch carry one address: what one
/// ingestion run writes.
pub open spec fn sig_batch_uniform(s: Seq<TransactionSignature>) -> bool {
    forall|k: int| 0 <= k < s.len() ==> (#[trigger] s[k].account_address@) == s[0].account_address@
}

/// Whether all records of a transaction batch carry one address.
pub open spec fn txn_batch_uniform(s: Seq<Transaction>) -> bool {
    forall|k: int| 0 <= k < s.len() ==> (#[trigger] s[k].account_address@) == s[0].account_address@
}

/// The read window that a paged query answers: drop `skip` records, then
/// at most `limit` of them (a non-positive `limit` means no bound).
pub open spec fn page_window(len: int, p: Pagination) -> (int, int) {
    let lo = if p.skip as int <= len {
        p.skip as int
    } else {
        len
    };
    let hi = if p.limit <= 0 {
        len
    } else if lo + p.limit as int <= len {
        lo + p.limit as int
    } else {
        len
    };
    (lo, hi)
}

/// In-memory document store implementing the pipeline's CRUD contract.
pub struct Store {
    accounts: Vec<Account>,
    states: Vec<AddressIndexingState>,
    signatures: Vec<SignatureBucket>,
    transactions: Vec<TransactionBucket>,
}

impl SignatureBucket {
    spec fn wf(&self) -> bool {
        &&& forall|k: int| 0 <= k < self.records@.len() ==> (#[trigger] self.records@[k].account_address@)
            == self.address@
        &&& sig_sorted(self.records@)
    }
}

impl TransactionBucket {
    spec fn wf(&self) -> bool {
        &&& forall|k: int| 0 <= k < self.records@.len() ==> (#[trigger] self.records@[k].account_address@)
            == self.address@
        &&& txn_sorted(self.records@)
    }
}

impl Store {
    /// Well-formedness: every collection keyed by address holds one entry
    /// per address, every bucket holds records of its own address, and
    /// bucket records are ordered newest first.
    pub closed spec fn wf(&self) -> bool {
        &&& forall|i: int, j: int| 0 <= i < j < self.accounts@.len()
            ==> (#[trigger] self.accounts@[i].address@) != (#[trigger] self.accounts@[j].address@)
        &&& forall|i: int, j: int| 0 <= i < j < self.states@.len()
            ==> (#[trigger] self.states@[i].address@) != (#[trigger] self.states@[j].address@)
        &&& forall|i: int, j: int| 0 <= i < j < self.signatures@.len()
            ==> (#[trigger] self.signatures@[i].address@) != (#[trigger] self.signatures@[j].address@)
        &&& forall|i: int, j: int| 0 <= i < j < self.transactions@.len()
            ==> (#[trigger] self.transactions@[i].address@)
                != (#[trigger] self.transactions@[j].address@)
        &&& forall|i: int| 0 <= i < self.signatures@.len() ==> (#[trigger] self.signatures@[i]).wf()
        &&& forall|i: int| 0 <= i < self.transactions@.len() ==> (#[trigger] self.transactions@[i]).wf()
    }

    /// Whether an account record exists for this address.
    pub closed spec fn spec_has_account(&self, a: Seq<char>) -> bool {
        exists|i: int| 0 <= i < self.accounts@.len() && self.accounts@[i].address@ == a
    }

    spec fn account_index(&self, a: Seq<char>) -> int {
        choose|i: int| 0 <= i < self.accounts@.len() && self.accounts@[i].address@ == a
    }

    /// The account record persisted for this address.
    pub closed spec fn spec_account(&self, a: Seq<char>) -> Account {
        self.accounts@[self.account_index(a)]
    }

    /// Whether an indexing-state record exists for this address.
    pub closed spec fn spec_has_state(&self, a: Seq<char>) -> bool {
        exists|i: int| 0 <= i < self.states@.len() && self.states@[i].address@ == a
    }

    spec fn state_index(&self, a: Seq<char>) -> int {
        choose|i: int| 0 <= i < self.states@.len() && self.states@[i].address@ == a
    }

    /// The indexing-state record persisted for this address.
    pub closed spec fn spec_state(&self, a: Seq<char>) -> AddressIndexingState {
        self.states@[self.state_index(a)]
    }

    spec fn has_sig_bucket(&self, a: Seq<char>) -> bool {
        exists|i: int| 0 <= i < self.signatures@.len() && self.signatures@[i].address@ == a
    }

    spec fn sig_bucket_index(&self, a: Seq<char>) -> int {
        choose|i: int| 0 <= i < self.signatures@.len() && self.signatures@[i].address@ == a
    }

    /// The signature records persisted for this address, newest first.
    pub closed spec fn spec_signatures(&self, a: Seq<char>) -> Seq<TransactionSignature> {
        if self.has_sig_bucket(a) {
            self.signatures@[self.sig_bucket_index(a)].records@
        } else {
            Seq::empty()
        }
    }

    spec fn has_txn_bucket(&self, a: Seq<char>) -> bool {
        exists|i: int| 0 <= i < self.transactions@.len() && self.transactions@[i].address@ == a
    }

    spec fn txn_bucket_index(&self, a: Seq<char>) -> int {
        choose|i: int| 0 <= i < self.transactions@.len() && self.transactions@[i].address@ == a
    }

    /// The transaction records persisted for this address, newest first.
    pub closed spec fn spec_transactions(&self, a: Seq<char>) -> Seq<Transaction> {
        if self.has_txn_bucket(a) {
            self.transactions@[self.txn_bucket_index(a)].records@
        } else {
            Seq::empty()
        }
    }

    /// The account collection reads the same in both stores.
    pub open spec fn accounts_unchanged(pre: Self, post: Self) -> bool {
        &&& forall|b: Seq<char>| #[trigger] post.spec_has_account(b) == pre.spec_has_account(b)
        &&& forall|b: Seq<char>| pre.spec_has_account(b) ==> #[trigger] post.spec_account(b)
            == pre.spec_account(b)
    }

    /// The indexing-state collection reads the same in both stores.
    pub open spec fn states_unchanged(pre: Self, post: Self) -> bool {
        &&& forall|b: Seq<char>| #[trigger] post.spec_has_state(b) == pre.spec_has_state(b)
        &&& forall|b: Seq<char>| pre.spec_has_state(b) ==> #[trigger] post.spec_state(b)
            == pre.spec_state(b)
    }

    /// The signature collection reads the same in both stores.
    pub open spec fn signatures_unchanged(pre: Self, post: Self) -> bool {
        forall|a: Seq<char>| #[trigger] post.spec_signatures(a) == pre.spec_signatures(a)
    }

    /// The transaction collection reads the same in both stores.
    pub open spec fn transactions_unchanged(pre: Self, post: Self) -> bool {
        forall|a: Seq<char>| #[trigger] post.spec_transactions(a) == pre.spec_transactions(a)
    }

    /// An untouched account collection reads the same.
    proof fn lemma_accounts_frame(pre: &Self, post: &Self)
        requires
            pre.wf(),
            post.accounts@ == pre.accounts@,
        ensures
            Self::accounts_unchanged(*pre, *post),
    {
        assert forall|b: Seq<char>| #[trigger] post.spec_has_account(b)
            == pre.spec_has_account(b) by {
            if pre.spec_has_account(b) {
                let k = pre.account_index(b);
                assert(post.accounts@[k].address@ == b);
            }
            if post.spec_has_account(b) {
                let k = post.account_index(b);
                assert(pre.accounts@[k].address@ == b);
            }
        }
        assert forall|b: Seq<char>| pre.spec_has_account(b) implies #[trigger] post.spec_account(b)
            == pre.spec_account(b) by {
            let k = pre.account_index(b);
            assert(post.accounts@[k].address@ == b);
            assert(post.account_index(b) == k);
        }
    }

    /// An untouched indexing-state collection reads the same.
    proof fn lemma_states_frame(pre: &Self, post: &Self)
        requires
            pre.wf(),
            post.states@ == pre.states@,
        ensures
            Self::states_unchanged(*pre, *post),
    {
        assert forall|b: Seq<char>| #[trigger] post.spec_has_state(b) == pre.spec_has_state(b) by {
            if pre.spec_has_state(b) {
                let k = pre.state_index(b);
                assert(post.states@[k].address@ == b);
            }
            if post.spec_has_state(b) {
                let k = post.state_index(b);
                assert(pre.states@[k].address@ == b);
            }
        }
        assert forall|b: Seq<char>| pre.spec_has_state(b) implies #[trigger] post.spec_state(b)
            == pre.spec_state(b) by {
            let k = pre.state_index(b);
            assert(post.states@[k].address@ == b);
            assert(post.state_index(b) == k);
        }
    }

    /// An untouched signature collection reads the same.
    proof fn lemma_signatures_frame(pre: &Self, post: &Self)
        requires
            pre.wf(),
            post.signatures@ == pre.signatures@,
        ensures
            Self::signatures_unchanged(*pre, *post),
    {
        assert forall|a: Seq<char>| #[trigger] post.spec_signatures(a)
            == pre.spec_signatures(a) by {
            if pre.has_sig_bucket(a) {
                let k = pre.sig_bucket_index(a);
                assert(post.signatures@[k].address@ == a);
                assert(post.sig_bucket_index(a) == k);
            } else {
                if post.has_sig_bucket(a) {
                    let k = post.sig_bucket_index(a);
                    assert(pre.signatures@[k].address@ == a);
                }
            }
        }
    }

    /// An untouched transaction collection reads the same.
    proof fn lemma_transactions_frame(pre: &Self, post: &Self)
        requires
            pre.wf(),
            post.transactions@ == pre.transactions@,
        ensures
            Self::transactions_unchanged(*pre, *post),
    {
        assert forall|a: Seq<char>| #[trigger] post.spec_transactions(a)
            == pre.spec_transactions(a) by {
            if pre.has_txn_bucket(a) {
                let k = pre.txn_bucket_index(a);
                assert(post.transactions@[k].address@ == a);
                assert(post.txn_bucket_index(a) == k);
            } else {
                if post.has_txn_bucket(a) {
                    let k = post.txn_bucket_index(a);
                    assert(pre.transactions@[k].address@ == a);
                }
            }
        }
    }

    /// An empty store.
    pub fn new() -> (s: Self)
        ensures
            s.wf(),
            forall|a: Seq<char>| !s.spec_has_account(a),
            forall|a: Seq<char>| !s.spec_has_state(a),
            forall|a: Seq<char>| s.spec_signatures(a) == Seq::<TransactionSignature>::empty(),
            forall|a: Seq<char>| s.spec_transactions(a) == Seq::<Transaction>::empty(),
    {
        Store { accounts: Vec::new(), states: Vec::new(), signatures: Vec::new(), transactions: Vec::new() }
    }

    fn find_account(&self, address: &String) -> (r: Option<usize>)
        requires
            self.wf(),
        ensures
            match r {
                Some(i) => i < self.accounts@.len() && self.accounts@[i as int].address@ == address@
                    && self.spec_has_account(address@) && i == self.account_index(address@),
                None => !self.spec_has_account(address@),
            },
    {
        let n = self.accounts.len();
        let mut i: usize = 0;
        while i < n
            invariant
                n == self.accounts@.len(),
                i <= n,
                self.wf(),
                forall|j: int| 0 <= j < i ==> (#[trigger] self.accounts@[j].address@) != address@,
            decreases n - i,
        {
            if self.accounts[i].address == *address {
                proof {
                    let k = self.account_index(address@);
                    assert(0 <= k < self.accounts@.len() && self.accounts@[k].address@ == address@);
                    assert(k == i);
                }
                return Some(i);
            }
            i = i + 1;
        }
        None
    }

    fn find_state(&self, address: &String) -> (r: Option<usize>)
        requires
            self.wf(),
        ensures
            match r {
                Some(i) => i < self.states@.len() && self.states@[i as int].address@ == address@
                    && self.spec_has_state(address@) && i == self.state_index(address@),
                None => !self.spec_has_state(address@),
            },
    {
        let n = self.states.len();
        let mut i: usize = 0;
        while i < n
            invariant
                n == self.states@.len(),
                i <= n,
                self.wf(),
                forall|j: int| 0 <= j < i ==> (#[trigger] self.states@[j].address@) != address@,
            decreases n - i,
        {
            if self.states[i].address == *address {
                proof {
                    let k = self.state_index(address@);
                    assert(0 <= k < self.states@.len() && self.states@[k].address@ == address@);
                    assert(k == i);
                }
                return Some(i);
            }
            i = i + 1;
        }
        None
    }

    /// Whether an account record exists, as the engine's precondition
    /// check reads it.
    pub fn check_account_exists(&self, address: &String) -> (r: bool)
        requires
            self.wf(),
        ensures
            r == self.spec_has_account(address@),
    {
        self.find_account(address).is_some()
    }

    /// The persisted account record, if one exists.
    pub fn get_account(&self, address: &String) -> (r: Option<&Account>)
        requires
            self.wf(),
        ensures
            match r {
                Some(a) => self.spec_has_account(address@) && *a == self.spec_account(address@),
                None => !self.spec_has_account(address@),
            },
    {
        match self.find_account(address) {
            Some(i) => Some(&self.accounts[i]),
            None => None,
        }
    }

    /// Create the account record. The address is the record's key: a
    /// second record for the same address is refused, as a keyed store
    /// refuses a duplicate key.
    pub fn insert_account(&mut self, account: Account) -> (r: Result<(), AppError>)
        requires
            old(self).wf(),
        ensures
            final(self).wf(),
            r is Ok <==> !old(self).spec_has_account(account.address@),
            r is Err ==> *final(self) == *old(self) && r->Err_0 is Storage,
            r is Ok ==> {
                &&& final(self).spec_has_account(account.address@)
                &&& final(self).spec_account(account.address@) == account
                &&& forall|b: Seq<char>| b != account.address@
                    ==> #[trigger] final(self).spec_has_account(b) == old(self).spec_has_account(b)
                &&& forall|b: Seq<char>| b != account.address@ && old(self).spec_has_account(b)
                    ==> #[trigger] final(self).spec_account(b) == old(self).spec_account(b)
            },
            Self::states_unchanged(*old(self), *final(self)),
            Self::signatures_unchanged(*old(self), *final(self)),
            Self::transactions_unchanged(*old(self), *final(self)),
    {
        if self.find_account(&account.address).is_some() {
            return Err(AppError::Storage(String::from_str("duplicate account record")));
        }
        let ghost pre = self.accounts@;
        let ghost addr = account.address@;
        self.accounts.push(account);
        proof {
            let n = pre.len() as int;
            assert(self.accounts@[n].address@ == addr);
            assert(self.wf()) by {
                assert(forall|j: int| 0 <= j < n ==> (#[trigger] self.accounts@[j].address@) != addr);
            }
            assert(self.account_index(addr) == n);
            assert forall|b: Seq<char>| b != addr implies #[trigger] self.spec_has_account(b)
                == old(self).spec_has_account(b) by {
                if old(self).spec_has_account(b) {
                    let k = old(self).account_index(b);
                    assert(self.accounts@[k].address@ == b);
                }
                if self.spec_has_account(b) {
                    let k = choose|k: int|
                        0 <= k < self.accounts@.len() && self.accounts@[k].address@ == b;
                    assert(k != n);
                    assert(pre[k].address@ == b);
                }
            }
            assert forall|b: Seq<char>| b != addr && old(self).spec_has_account(b) implies
                #[trigger] self.spec_account(b) == old(self).spec_account(b) by {
                let k = old(self).account_index(b);
                assert(self.accounts@[k].address@ == b);
                assert(self.account_index(b) == k);
            }
            Self::lemma_states_frame(old(self), self);
            Self::lemma_signatures_frame(old(self), self);
            Self::lemma_transactions_frame(old(self), self);
        }
        Ok(())
    }

    /// Overwrite the mutable fields of the account record and return the
    /// record as persisted now; the address and the first-indexed stamp
    /// stay. Absent record: `NotFound`.
    pub fn update_account(&mut self, address: &String, update: UpdateAccount) -> (r: Result<
        Account,
        AppError,
    >)
        requires
            old(self).wf(),
        ensures
            final(self).wf(),
            r is Ok <==> old(self).spec_has_account(address@),
            r is Err ==> *final(self) == *old(self) && (r->Err_0 matches AppError::NotFound(w)
                && w@ == "Account"@),
            r matches Ok(acct) ==> {
                &&& final(self).spec_has_account(address@)
                &&& acct == final(self).spec_account(address@)
                &&& acct.address@ == address@
                &&& acct.lamports == update.lamports
                &&& acct.owner@ == update.owner@
                &&& acct.executable == update.executable
                &&& acct.data_length == update.data_length
                &&& acct.rent_epoch == update.rent_epoch
                &&& acct.indexed_at == old(self).spec_account(address@).indexed_at
                &&& acct.last_updated_at == update.last_updated_at
                &&& forall|b: Seq<char>| b != address@
                    ==> #[trigger] final(self).spec_has_account(b) == old(self).spec_has_account(b)
                &&& forall|b: Seq<char>| b != address@ && old(self).spec_has_account(b)
                    ==> #[trigger] final(self).spec_account(b) == old(self).spec_account(b)
            },
            Self::states_unchanged(*old(self), *final(self)),
            Self::signatures_unchanged(*old(self), *final(self)),
            Self::transactions_unchanged(*old(self), *final(self)),
    {
        match self.find_account(address) {
            None => Err(AppError::NotFound(String::from_str("Account"))),
            Some(i) => {
                let ghost pre = *self;
                let slot = &mut self.accounts[i];
                let indexed_at = slot.indexed_at;
                let updated = Account {
                    address: slot.address.clone(),
                    lamports: update.lamports,
                    owner: update.owner,
                    executable: update.executable,
                    data_length: update.data_length,
                    rent_epoch: update.rent_epoch,
                    indexed_at,
                    last_updated_at: update.last_updated_at,
                };
                *slot = clone_account_record(&updated);
                proof {
                    Self::lemma_account_slot_update(&pre, self, i as int, address@);
                    Self::lemma_states_frame(old(self), self);
                    Self::lemma_signatures_frame(old(self), self);
                    Self::lemma_transactions_frame(old(self), self);
                }
                Ok(updated)
            },
        }
    }

    /// After a change that touched only account slot `i`, keeping its
    /// address, every has/account fact follows.
    proof fn lemma_account_slot_update(pre: &Self, post: &Self, i: int, a: Seq<char>)
        requires
            pre.wf(),
            0 <= i < pre.accounts@.len(),
            post.accounts@.len() == pre.accounts@.len(),
            pre.accounts@[i].address@ == a,
            post.accounts@[i].address@ == a,
            forall|j: int| 0 <= j < pre.accounts@.len()
                ==> (#[trigger] post.accounts@[j].address@) == pre.accounts@[j].address@,
            forall|j: int| 0 <= j < pre.accounts@.len() && j != i
                ==> (#[trigger] post.accounts@[j]) == pre.accounts@[j],
            post.states == pre.states,
            post.signatures == pre.signatures,
            post.transactions == pre.transactions,
        ensures
            post.wf(),
            post.spec_has_account(a),
            pre.spec_has_account(a),
            post.account_index(a) == i,
            pre.account_index(a) == i,
            post.spec_account(a) == post.accounts@[i],
            forall|b: Seq<char>| b != a
                ==> #[trigger] post.spec_has_account(b) == pre.spec_has_account(b),
            forall|b: Seq<char>| b != a && pre.spec_has_account(b)
                ==> #[trigger] post.spec_account(b) == pre.spec_account(b),
    {
        assert(post.spec_has_account(a));
        assert(post.account_index(a) == i);
        assert(pre.account_index(a) == i);
        assert forall|b: Seq<char>| b != a implies #[trigger] post.spec_has_account(b)
            == pre.spec_has_account(b) by {
            if pre.spec_has_account(b) {
                let k = pre.account_index(b);
                assert(post.accounts@[k].address@ == b);
            }
            if post.spec_has_account(b) {
                let k = choose|k: int|
                    0 <= k < post.accounts@.len() && post.accounts@[k].address@ == b;
                assert(pre.accounts@[k].address@ == b);
            }
        }
        assert forall|b: Seq<char>| b != a && pre.spec_has_account(b) implies
            #[trigger] post.spec_account(b) == pre.spec_account(b) by {
            let k = pre.account_index(b);
            assert(k != i);
            assert(post.accounts@[k].address@ == b);
            assert(post.account_index(b) == k);
            assert(post.accounts@[k] == pre.accounts@[k]);
        }
    }

    /// The persisted indexing-state record, if one exists — the status
    /// endpoint's read.
    pub fn get_address_indexing_state(&self, address: &String) -> (r: Option<
        &AddressIndexingState,
    >)
        requires
            self.wf(),
        ensures
            match r {
                Some(st) => self.spec_has_state(address@) && *st == self.spec_state(address@),
                None => !self.spec_has_state(address@),
            },
    {
        match self.find_state(address) {
            Some(i) => Some(&self.states[i]),
            None => None,
        }
    }

    /// Create or overwrite the indexing-state record for its address.
    pub fn put_address_indexing_state(&mut self, st: AddressIndexingState)
        requires
            old(self).wf(),
        ensures
            final(self).wf(),
            final(self).spec_has_state(st.address@),
            final(self).spec_state(st.address@) == st,
            forall|b: Seq<char>| b != st.address@
                ==> #[trigger] final(self).spec_has_state(b) == old(self).spec_has_state(b),
            forall|b: Seq<char>| b != st.address@ && old(self).spec_has_state(b)
                ==> #[trigger] final(self).spec_state(b) == old(self).spec_state(b),
            Self::accounts_unchanged(*old(self), *final(self)),
            Self::signatures_unchanged(*old(self), *final(self)),
            Self::transactions_unchanged(*old(self), *final(self)),
    {
        let ghost addr = st.address@;
        match self.find_state(&st.address) {
            Some(i) => {
                let ghost pre = *self;
                let slot = &mut self.states[i];
                *slot = st;
                proof {
                    Self::lemma_state_slot_update(&pre, self, i as int, addr);
                    Self::lemma_accounts_frame(old(self), self);
                    Self::lemma_signatures_frame(old(self), self);
                    Self::lemma_transactions_frame(old(self), self);
                }
            },
            None => {
                let ghost pre = self.states@;
                self.states.push(st);
                proof {
                    let n = pre.len() as int;
                    assert(self.states@[n].address@ == addr);
                    assert(self.wf()) by {
                        assert(forall|j: int| 0 <= j < n
                            ==> (#[trigger] self.states@[j].address@) != addr);
                    }
                    assert(self.state_index(addr) == n);
                    assert forall|b: Seq<char>| b != addr implies #[trigger] self.spec_has_state(b)
                        == old(self).spec_has_state(b) by {
                        if old(self).spec_has_state(b) {
                            let k = old(self).state_index(b);
                            assert(self.states@[k].address@ == b);
                        }
                        if self.spec_has_state(b) {
                            let k = choose|k: int|
                                0 <= k < self.states@.len() && self.states@[k].address@ == b;
                            assert(k != n);
                            assert(pre[k].address@ == b);
                        }
                    }
                    assert forall|b: Seq<char>| b != addr && old(self).spec_has_state(b) implies
                        #[trigger] self.spec_state(b) == old(self).spec_state(b) by {
                        let k = old(self).state_index(b);
                        assert(self.states@[k].address@ == b);
                        assert(self.state_index(b) == k);
                    }
                    Self::lemma_accounts_frame(old(self), self);
                    Self::lemma_signatures_frame(old(self), self);
                    Self::lemma_transactions_frame(old(self), self);
                }
            },
        }
    }

    /// After a change that touched only state slot `i`, keeping its
    /// address, every has/state fact follows.
    proof fn lemma_state_slot_update(pre: &Self, post: &Self, i: int, a: Seq<char>)
        requires
            pre.wf(),
            0 <= i < pre.states@.len(),
            post.states@.len() == pre.states@.len(),
            pre.states@[i].address@ == a,
            post.states@[i].address@ == a,
            forall|j: int| 0 <= j < pre.states@.len()
                ==> (#[trigger] post.states@[j].address@) == pre.states@[j].address@,
            forall|j: int| 0 <= j < pre.states@.len() && j != i
                ==> (#[trigger] post.states@[j]) == pre.states@[j],
            post.accounts == pre.accounts,
            post.signatures == pre.signatures,
            post.transactions == pre.transactions,
        ensures
            post.wf(),
            post.spec_has_state(a),
            pre.spec_has_state(a),
            post.state_index(a) == i,
            pre.state_index(a) == i,
            post.spec_state(a) == post.states@[i],
            forall|b: Seq<char>| b != a
                ==> #[trigger] post.spec_has_state(b) == pre.spec_has_state(b),
            forall|b: Seq<char>| b != a && pre.spec_has_state(b)
                ==> #[trigger] post.spec_state(b) == pre.spec_state(b),
    {
        assert(post.spec_has_state(a));
        assert(post.state_index(a) == i);
        assert(pre.state_index(a) == i);
        assert forall|b: Seq<char>| b != a implies #[trigger] post.spec_has_state(b)
            == pre.spec_has_state(b) by {
            if pre.spec_has_state(b) {
                let k = pre.state_index(b);
                assert(post.states@[k].address@ == b);
            }
            if post.spec_has_state(b) {
                let k = choose|k: int| 0 <= k < post.states@.len() && post.states@[k].address@ == b;
                assert(pre.states@[k].address@ == b);
            }
        }
        assert forall|b: Seq<char>| b != a && pre.spec_has_state(b) implies
            #[trigger] post.spec_state(b) == pre.spec_state(b) by {
            let k = pre.state_index(b);
            assert(k != i);
            assert(post.states@[k].address@ == b);
            assert(post.state_index(b) == k);
            assert(post.states@[k] == pre.states@[k]);
        }
    }

    /// Move the indexing-state record of this address to a new state,
    /// stamped with this time. Absent record: `NotFound`.
    pub fn update_address_indexing_state(
        &mut self,
        address: &String,
        state: IndexingState,
        updated_at: i64,
    ) -> (r: Result<(), AppError>)
        requires
            old(self).wf(),
        ensures
            final(self).wf(),
            r is Ok <==> old(self).spec_has_state(address@),
            r is Err ==> *final(self) == *old(self) && r->Err_0 is NotFound,
            r is Ok ==> {
                &&& final(self).spec_has_state(address@)
                &&& final(self).spec_state(address@).address@ == address@
                &&& final(self).spec_state(address@).state == state
                &&& final(self).spec_state(address@).created_at == old(self).spec_state(
                    address@,
                ).created_at
                &&& final(self).spec_state(address@).updated_at == updated_at
                &&& forall|b: Seq<char>| b != address@
                    ==> #[trigger] final(self).spec_has_state(b) == old(self).spec_has_state(b)
                &&& forall|b: Seq<char>| b != address@ && old(self).spec_has_state(b)
                    ==> #[trigger] final(self).spec_state(b) == old(self).spec_state(b)
            },
            Self::accounts_unchanged(*old(self), *final(self)),
            Self::signatures_unchanged(*old(self), *final(self)),
            Self::transactions_unchanged(*old(self), *final(self)),
    {
        match self.find_state(address) {
            None => Err(AppError::NotFound(String::from_str("Indexing State"))),
            Some(i) => {
                let ghost pre = *self;
                let slot = &mut self.states[i];
                slot.state = state;
                slot.updated_at = updated_at;
                proof {
                    Self::lemma_state_slot_update(&pre, self, i as int, address@);
                    Self::lemma_accounts_frame(old(self), self);
                    Self::lemma_signatures_frame(old(self), self);
                    Self::lemma_transactions_frame(old(self), self);
                }
                Ok(())
            },
        }
    }
}

/// A field-for-field copy of an account record.
fn clone_account_record(a: &Account) -> (r: Account)
    ensures
        r == *a,
{
    Account {
        address: a.address.clone(),
        lamports: a.lamports,
        owner: a.owner.clone(),
        executable: a.executable,
        data_length: a.data_length,
        rent_epoch: a.rent_epoch,
        indexed_at: a.indexed_at,
        last_updated_at: a.last_updated_at,
    }
}

impl Store {
    fn find_sig_bucket(&self, address: &String) -> (r: Option<usize>)
        requires
            self.wf(),
        ensures
            match r {
                Some(i) => i < self.signatures@.len()
                    && self.signatures@[i as int].address@ == address@
                    && self.has_sig_bucket(address@) && i == self.sig_bucket_index(address@)
                    && self.spec_signatures(address@) == self.signatures@[i as int].records@,
                None => !self.has_sig_bucket(address@) && self.spec_signatures(address@)
                    == Seq::<TransactionSignature>::empty(),
            },
    {
        let n = self.signatures.len();
        let mut i: usize = 0;
        while i < n
            invariant
                n == self.signatures@.len(),
                i <= n,
                self.wf(),
                forall|j: int| 0 <= j < i ==> (#[trigger] self.signatures@[j].address@) != address@,
            decreases n - i,
        {
            if self.signatures[i].address == *address {
                proof {
                    let k = self.sig_bucket_index(address@);
                    assert(0 <= k < self.signatures@.len()
                        && self.signatures@[k].address@ == address@);
                    assert(k == i);
                }
                return Some(i);
            }
            i = i + 1;
        }
        None
    }

    fn find_txn_bucket(&self, address: &String) -> (r: Option<usize>)
        requires
            self.wf(),
        ensures
            match r {
                Some(i) => i < self.transactions@.len()
                    && self.transactions@[i as int].address@ == address@
                    && self.has_txn_bucket(address@) && i == self.txn_bucket_index(address@)
                    && self.spec_transactions(address@) == self.transactions@[i as int].records@,
                None => !self.has_txn_bucket(address@) && self.spec_transactions(address@)
                    == Seq::<Transaction>::empty(),
            },
    {
        let n = self.transactions.len();
        let mut i: usize = 0;
        while i < n
            invariant
                n == self.transactions@.len(),
                i <= n,
                self.wf(),
                forall|j: int| 0 <= j < i ==> (#[trigger] self.transactions@[j].address@)
                    != address@,
            decreases n - i,
        {
            if self.transactions[i].address == *address {
                proof {
                    let k = self.txn_bucket_index(address@);
                    assert(0 <= k < self.transactions@.len()
                        && self.transactions@[k].address@ == address@);
                    assert(k == i);
                }
                return Some(i);
            }
            i = i + 1;
        }
        None
    }

    /// After a change that touched only signature bucket `i`, keeping its
    /// address and its bucket invariant, every signature-view fact
    /// follows, and the other collections read unchanged.
    proof fn lemma_sig_slot_update(pre: &Self, post: &Self, i: int, a: Seq<char>)
        requires
            pre.wf(),
            0 <= i < pre.signatures@.len(),
            post.signatures@.len() == pre.signatures@.len(),
            pre.signatures@[i].address@ == a,
            post.signatures@[i].address@ == a,
            forall|j: int| 0 <= j < pre.signatures@.len()
                ==> (#[trigger] post.signatures@[j].address@) == pre.signatures@[j].address@,
            forall|j: int| 0 <= j < pre.signatures@.len() && j != i
                ==> (#[trigger] post.signatures@[j]) == pre.signatures@[j],
            post.signatures@[i].wf(),
            post.accounts@ == pre.accounts@,
            post.states@ == pre.states@,
            post.transactions@ == pre.transactions@,
        ensures
            post.wf(),
            post.has_sig_bucket(a),
            post.sig_bucket_index(a) == i,
            pre.sig_bucket_index(a) == i,
            post.spec_signatures(a) == post.signatures@[i].records@,
            pre.spec_signatures(a) == pre.signatures@[i].records@,
            forall|b: Seq<char>| b != a
                ==> #[trigger] post.spec_signatures(b) == pre.spec_signatures(b),
            Self::accounts_unchanged(*pre, *post),
            Self::states_unchanged(*pre, *post),
            Self::transactions_unchanged(*pre, *post),
    {
        assert(post.has_sig_bucket(a));
        assert(post.sig_bucket_index(a) == i);
        assert(pre.sig_bucket_index(a) == i);
        assert forall|b: Seq<char>| b != a implies #[trigger] post.spec_signatures(b)
            == pre.spec_signatures(b) by {
            if pre.has_sig_bucket(b) {
                let k = pre.sig_bucket_index(b);
                assert(k != i);
                assert(post.signatures@[k].address@ == b);
                assert(post.sig_bucket_index(b) == k);
                assert(post.signatures@[k] == pre.signatures@[k]);
            } else {
                if post.has_sig_bucket(b) {
                    let k = post.sig_bucket_index(b);
                    assert(pre.signatures@[k].address@ == b);
                }
            }
        }
        Self::lemma_accounts_frame(pre, post);
        Self::lemma_states_frame(pre, post);
        Self::lemma_transactions_frame(pre, post);
    }

    /// The transaction-bucket twin of `lemma_sig_slot_update`.
    proof fn lemma_txn_slot_update(pre: &Self, post: &Self, i: int, a: Seq<char>)
        requires
            pre.wf(),
            0 <= i < pre.transactions@.len(),
            post.transactions@.len() == pre.transactions@.len(),
            pre.transactions@[i].address@ == a,
            post.transactions@[i].address@ == a,
            forall|j: int| 0 <= j < pre.transactions@.len()
                ==> (#[trigger] post.transactions@[j].address@) == pre.transactions@[j].address@,
            forall|j: int| 0 <= j < pre.transactions@.len() && j != i
                ==> (#[trigger] post.transactions@[j]) == pre.transactions@[j],
            post.transactions@[i].wf(),
            post.accounts@ == pre.accounts@,
            post.states@ == pre.states@,
            post.signatures@ == pre.signatures@,
        ensures
            post.wf(),
            post.has_txn_bucket(a),
            post.txn_bucket_index(a) == i,
            pre.txn_bucket_index(a) == i,
            post.spec_transactions(a) == post.transactions@[i].records@,
            pre.spec_transactions(a) == pre.transactions@[i].records@,
            forall|b: Seq<char>| b != a
                ==> #[trigger] post.spec_transactions(b) == pre.spec_transactions(b),
            Self::accounts_unchanged(*pre, *post),
            Self::states_unchanged(*pre, *post),
            Self::signatures_unchanged(*pre, *post),
    {
        assert(post.has_txn_bucket(a));
        assert(post.txn_bucket_index(a) == i);
        assert(pre.txn_bucket_index(a) == i);
        assert forall|b: Seq<char>| b != a implies #[trigger] post.spec_transactions(b)
            == pre.spec_transactions(b) by {
            if pre.has_txn_bucket(b) {
                let k = pre.txn_bucket_index(b);
                assert(k != i);
                assert(post.transactions@[k].address@ == b);
                assert(post.txn_bucket_index(b) == k);
                assert(post.transactions@[k] == pre.transactions@[k]);
            } else {
                if post.has_txn_bucket(b) {
                    let k = post.txn_bucket_index(b);
                    assert(pre.transactions@[k].address@ == b);
                }
            }
        }
        Self::lemma_accounts_frame(pre, post);
        Self::lemma_states_frame(pre, post);
        Self::lemma_signatures_frame(pre, post);
    }

    /// Find the signature bucket of this address, creating an empty one —
    /// which leaves every read unchanged — if none exists yet.
    fn ensure_sig_bucket(&mut self, address: &String) -> (bi: usize)
        requires
            old(self).wf(),
        ensures
            final(self).wf(),
            bi < final(self).signatures@.len(),
            final(self).signatures@[bi as int].address@ == address@,
            final(self).has_sig_bucket(address@),
            bi == final(self).sig_bucket_index(address@),
            final(self).spec_signatures(address@) == final(self).signatures@[bi as int].records@,
            forall|b: Seq<char>| #[trigger] final(self).spec_signatures(b)
                == old(self).spec_signatures(b),
            final(self).accounts@ == old(self).accounts@,
            final(self).states@ == old(self).states@,
            final(self).transactions@ == old(self).transactions@,
    {
        match self.find_sig_bucket(address) {
            Some(i) => i,
            None => {
                let ghost pre = self.signatures@;
                let bi = self.signatures.len();
                self.signatures.push(SignatureBucket {
                    address: address.clone(),
                    records: Vec::new(),
                });
                proof {
                    let n = pre.len() as int;
                    assert(self.signatures@[n].address@ == address@);
                    assert(self.signatures@[n].wf());
                    assert(self.wf()) by {
                        assert(forall|j: int| 0 <= j < n
                            ==> (#[trigger] self.signatures@[j].address@) != address@);
                    }
                    assert(self.sig_bucket_index(address@) == n);
                    assert(self.spec_signatures(address@)
                        =~= Seq::<TransactionSignature>::empty());
                    assert forall|b: Seq<char>| #[trigger] self.spec_signatures(b)
                        == old(self).spec_signatures(b) by {
                        if b == address@ {
                            assert(!old(self).has_sig_bucket(b));
                        } else {
                            if old(self).has_sig_bucket(b) {
                                let k = old(self).sig_bucket_index(b);
                                assert(self.signatures@[k].address@ == b);
                                assert(self.sig_bucket_index(b) == k);
                            }
                            if self.has_sig_bucket(b) {
                                let k = self.sig_bucket_index(b);
                                assert(k != n);
                                assert(pre[k].address@ == b);
                            }
                        }
                    }
                }
                bi
            },
        }
    }

    /// Find the transaction bucket of this address, creating an empty one
    /// if none exists yet.
    fn ensure_txn_bucket(&mut self, address: &String) -> (bi: usize)
        requires
            old(self).wf(),
        ensures
            final(self).wf(),
            bi < final(self).transactions@.len(),
            final(self).transactions@[bi as int].address@ == address@,
            final(self).has_txn_bucket(address@),
            bi == final(self).txn_bucket_index(address@),
            final(self).spec_transactions(address@)
                == final(self).transactions@[bi as int].records@,
            forall|b: Seq<char>| #[trigger] final(self).spec_transactions(b)
                == old(self).spec_transactions(b),
            final(self).accounts@ == old(self).accounts@,
            final(self).states@ == old(self).states@,
            final(self).signatures@ == old(self).signatures@,
    {
        match self.find_txn_bucket(address) {
            Some(i) => i,
            None => {
                let ghost pre = self.transactions@;
                let bi = self.transactions.len();
                self.transactions.push(TransactionBucket {
                    address: address.clone(),
                    records: Vec::new(),
                });
                proof {
                    let n = pre.len() as int;
                    assert(self.transactions@[n].address@ == address@);
                    assert(self.transactions@[n].wf());
                    assert(self.wf()) by {
                        assert(forall|j: int| 0 <= j < n
                            ==> (#[trigger] self.transactions@[j].address@) != address@);
                    }
                    assert(self.txn_bucket_index(address@) == n);
                    assert(self.spec_transactions(address@) =~= Seq::<Transaction>::empty());
                    assert forall|b: Seq<char>| #[trigger] self.spec_transactions(b)
                        == old(self).spec_transactions(b) by {
                        if b == address@ {
                            assert(!old(self).has_txn_bucket(b));
                        } else {
                            if old(self).has_txn_bucket(b) {
                                let k = old(self).txn_bucket_index(b);
                                assert(self.transactions@[k].address@ == b);
                                assert(self.txn_bucket_index(b) == k);
                            }
                            if self.has_txn_bucket(b) {
                                let k = self.txn_bucket_index(b);
                                assert(k != n);
                                assert(pre[k].address@ == b);
                            }
                        }
                    }
                }
                bi
            },
        }
    }
}

/// Membership through a positional insert: exactly the old elements plus
/// the new one.
proof fn lemma_insert_contains<A>(s: Seq<A>, i: int, x: A)
    requires
        0 <= i <= s.len(),
    ensures
        forall|y: A| #[trigger] s.insert(i, x).contains(y) <==> (s.contains(y) || y == x),
{
    assert forall|y: A| #[trigger] s.insert(i, x).contains(y) implies (s.contains(y) || y == x) by {
        let k = choose|k: int| 0 <= k < s.insert(i, x).len() && s.insert(i, x)[k] == y;
        if k < i {
            assert(s[k] == y);
        } else if k > i {
            assert(s[k - 1] == y);
        }
    }
    assert forall|y: A| (s.contains(y) || y == x) implies #[trigger] s.insert(i, x).contains(y) by {
        if s.contains(y) {
            let k = choose|k: int| 0 <= k < s.len() && s[k] == y;
            if k < i {
                assert(s.insert(i, x)[k] == y);
            } else {
                assert(s.insert(i, x)[k + 1] == y);
            }
        } else {
            assert(s.insert(i, x)[i] == y);
        }
    }
}

/// Membership through extending a prefix by one element.
proof fn lemma_take_succ_contains<A>(s: Seq<A>, k: int)
    requires
        0 <= k < s.len(),
    ensures
        forall|y: A| #[trigger] s.take(k + 1).contains(y) <==> (s.take(k).contains(y) || s[k]
            == y),
{
    assert(s.take(k + 1) =~= s.take(k).push(s[k]));
    assert forall|y: A| #[trigger] s.take(k + 1).contains(y) implies (s.take(k).contains(y)
        || s[k] == y) by {
        let j = choose|j: int| 0 <= j < s.take(k + 1).len() && #[trigger] s.take(k + 1)[j] == y;
        if j < k {
            assert(s.take(k)[j] == y);
        }
    }
    assert forall|y: A| (s.take(k).contains(y) || s[k] == y) implies #[trigger] s.take(
        k + 1,
    ).contains(y) by {
        if s.take(k).contains(y) {
            let j = choose|j: int| 0 <= j < s.take(k).len() && #[trigger] s.take(k)[j] == y;
            assert(s.take(k + 1)[j] == y);
        } else {
            assert(s.take(k + 1)[k] == y);
        }
    }
}

/// A field-for-field copy of a signature record.
fn clone_sig_record(r: &TransactionSignature) -> (c: TransactionSignature)
    ensures
        c == *r,
{
    TransactionSignature {
        signature: r.signature.clone(),
        account_address: r.account_address.clone(),
        slot: r.slot,
        block_time: r.block_time,
        confirmation_status: r.confirmation_status.clone(),
        indexed_at: r.indexed_at,
    }
}

/// A field-for-field copy of a transaction record.
fn clone_txn_record(r: &Transaction) -> (c: Transaction)
    ensures
        c == *r,
{
    Transaction {
        signature: r.signature.clone(),
        account_address: r.account_address.clone(),
        slot: r.slot,
        block_time: r.block_time,
        transaction: r.transaction.clone(),
        indexed_at: r.indexed_at,
    }
}

/// Place one signature record at its slot-ordered position: before the
/// first record with a lower slot, after every record with the same one.
fn insert_sig_sorted(records: &mut Vec<TransactionSignature>, r: TransactionSignature)
    requires
        sig_sorted(old(records)@),
    ensures
        final(records)@.len() == old(records)@.len() + 1,
        sig_sorted(final(records)@),
        forall|y: TransactionSignature| #[trigger] final(records)@.contains(y) <==> (old(
            records,
        )@.contains(y) || y == r),
{
    let n = records.len();
    let mut idx: usize = 0;
    while idx < n && records[idx].slot >= r.slot
        invariant
            n == records@.len(),
            idx <= n,
            sig_sorted(records@),
            forall|j: int| 0 <= j < idx ==> (#[trigger] records@[j].slot) >= r.slot,
            *records == *old(records),
        decreases n - idx,
    {
        idx = idx + 1;
    }
    let ghost pre = records@;
    let ghost i = idx as int;
    records.insert(idx, r);
    proof {
        assert(records@ == pre.insert(i, r));
        assert forall|a: int, b: int| 0 <= a < b < records@.len() implies (#[trigger] records@[a].slot)
            >= (#[trigger] records@[b].slot) by {
            if b < i {
                assert(records@[a] == pre[a] && records@[b] == pre[b]);
            } else if b == i {
                assert(records@[a] == pre[a]);
            } else {
                assert(records@[b] == pre[b - 1]);
                if a < i {
                    assert(records@[a] == pre[a]);
                } else if a == i {
                    assert(i < n);
                    assert(pre[i].slot < r.slot);
                    assert(pre[b - 1].slot <= pre[i].slot);
                } else {
                    assert(records@[a] == pre[a - 1]);
                }
            }
        }
        lemma_insert_contains(pre, i, r);
    }
}

/// Place one transaction record at its slot-ordered position.
fn insert_txn_sorted(records: &mut Vec<Transaction>, r: Transaction)
    requires
        txn_sorted(old(records)@),
    ensures
        final(records)@.len() == old(records)@.len() + 1,
        txn_sorted(final(records)@),
        forall|y: Transaction| #[trigger] final(records)@.contains(y) <==> (old(
            records,
        )@.contains(y) || y == r),
{
    let n = records.len();
    let mut idx: usize = 0;
    while idx < n && records[idx].slot >= r.slot
        invariant
            n == records@.len(),
            idx <= n,
            txn_sorted(records@),
            forall|j: int| 0 <= j < idx ==> (#[trigger] records@[j].slot) >= r.slot,
            *records == *old(records),
        decreases n - idx,
    {
        idx = idx + 1;
    }
    let ghost pre = records@;
    let ghost i = idx as int;
    records.insert(idx, r);
    proof {
        assert(records@ == pre.insert(i, r));
        assert forall|a: int, b: int| 0 <= a < b < records@.len() implies (#[trigger] records@[a].slot)
            >= (#[trigger] records@[b].slot) by {
            if b < i {
                assert(records@[a] == pre[a] && records@[b] == pre[b]);
            } else if b == i {
                assert(records@[a] == pre[a]);
            } else {
                assert(records@[b] == pre[b - 1]);
                if a < i {
                    assert(records@[a] == pre[a]);
                } else if a == i {
                    assert(i < n);
                    assert(pre[i].slot < r.slot);
                    assert(pre[b - 1].slot <= pre[i].slot);
                } else {
                    assert(records@[a] == pre[a - 1]);
                }
            }
        }
        lemma_insert_contains(pre, i, r);
    }
}

impl Store {
    /// Append one ingestion batch of signature records for one address,
    /// each placed at its slot-ordered position. A batch that mixes
    /// addresses is refused whole, as a keyed write of one run must carry
    /// one address.
    pub fn insert_transactions_signatures(&mut self, records: Vec<TransactionSignature>) -> (r:
        Result<(), AppError>)
        requires
            old(self).wf(),
        ensures
            final(self).wf(),
            r is Ok <==> sig_batch_uniform(records@),
            r is Err ==> *final(self) == *old(self) && r->Err_0 is Storage,
            Self::accounts_unchanged(*old(self), *final(self)),
            Self::states_unchanged(*old(self), *final(self)),
            Self::transactions_unchanged(*old(self), *final(self)),
            r is Ok && records@.len() == 0 ==> Self::signatures_unchanged(
                *old(self),
                *final(self),
            ),
            r is Ok && records@.len() > 0 ==> {
                let a = records@[0].account_address@;
                &&& final(self).spec_signatures(a).len() == old(self).spec_signatures(a).len()
                    + records@.len()
                &&& forall|y: TransactionSignature| #[trigger] final(self).spec_signatures(
                    a,
                ).contains(y) <==> (old(self).spec_signatures(a).contains(y) || records@.contains(
                    y,
                ))
                &&& forall|b: Seq<char>| b != a ==> #[trigger] final(self).spec_signatures(b)
                    == old(self).spec_signatures(b)
            },
    {
        let n = records.len();
        if n == 0 {
            return Ok(());
        }
        let mut k: usize = 1;
        while k < n
            invariant
                n == records@.len(),
                1 <= k <= n,
                forall|j: int| 0 <= j < k ==> (#[trigger] records@[j].account_address@)
                    == records@[0].account_address@,
                *self == *old(self),
                self.wf(),
            decreases n - k,
        {
            if !(records[k].account_address == records[0].account_address) {
                return Err(AppError::Storage(String::from_str("batch spans addresses")));
            }
            k = k + 1;
        }
        let address = records[0].account_address.clone();
        let bi = self.ensure_sig_bucket(&address);
        let ghost mid = *self;
        let mut bucket = self.signatures.remove(bi);
        let ghost b0 = bucket.records@;
        let ghost baddr = bucket.address@;
        proof {
            assert(baddr == address@);
            assert(sig_sorted(b0));
        }
        let mut k: usize = 0;
        while k < n
            invariant
                n == records@.len(),
                k <= n,
                bucket.address@ == baddr,
                sig_sorted(bucket.records@),
                bucket.records@.len() == b0.len() + k,
                forall|y: TransactionSignature| #[trigger] bucket.records@.contains(y) <==> (
                    b0.contains(y) || records@.take(k as int).contains(y)),
                forall|j: int| 0 <= j < k ==> (#[trigger] records@[j].account_address@) == baddr,
                forall|j: int| k <= j < n ==> (#[trigger] records@[j].account_address@) == baddr,
                forall|j: int| 0 <= j < b0.len() ==> (#[trigger] b0[j].account_address@) == baddr,
                forall|j: int| 0 <= j < bucket.records@.len() ==> (#[trigger] bucket.records@[
                    j].account_address@) == baddr,
            decreases n - k,
        {
            let rec = clone_sig_record(&records[k]);
            insert_sig_sorted(&mut bucket.records, rec);
            proof {
                lemma_take_succ_contains(records@, k as int);
                assert forall|j: int| 0 <= j < bucket.records@.len() implies (
                    #[trigger] bucket.records@[j].account_address@) == baddr by {
                    assert(bucket.records@.contains(bucket.records@[j]));
                }
            }
            k = k + 1;
        }
        proof {
            assert(records@.take(n as int) =~= records@);
        }
        let ghost bucket_final = bucket;
        self.signatures.insert(bi, bucket);
        proof {
            assert(self.signatures@ =~= mid.signatures@.update(bi as int, bucket_final));
            assert(self.signatures@[bi as int].wf());
            Self::lemma_sig_slot_update(&mid, self, bi as int, address@);
        }
        Ok(())
    }

    /// Append one ingestion batch of transaction records for one address,
    /// each placed at its slot-ordered position.
    pub fn insert_transactions(&mut self, records: Vec<Transaction>) -> (r: Result<
        (),
        AppError,
    >)
        requires
            old(self).wf(),
        ensures
            final(self).wf(),
            r is Ok <==> txn_batch_uniform(records@),
            r is Err ==> *final(self) == *old(self) && r->Err_0 is Storage,
            Self::accounts_unchanged(*old(self), *final(self)),
            Self::states_unchanged(*old(self), *final(self)),
            Self::signatures_unchanged(*old(self), *final(self)),
            r is Ok && records@.len() == 0 ==> Self::transactions_unchanged(
                *old(self),
                *final(self),
            ),
            r is Ok && records@.len() > 0 ==> {
                let a = records@[0].account_address@;
                &&& final(self).spec_transactions(a).len() == old(self).spec_transactions(
                    a,
                ).len() + records@.len()
                &&& forall|y: Transaction| #[trigger] final(self).spec_transactions(
                    a,
                ).contains(y) <==> (old(self).spec_transactions(a).contains(y)
                    || records@.contains(y))
                &&& forall|b: Seq<char>| b != a ==> #[trigger] final(self).spec_transactions(b)
                    == old(self).spec_transactions(b)
            },
    {
        let n = records.len();
        if n == 0 {
            return Ok(());
        }
        let mut k: usize = 1;
        while k < n
            invariant
                n == records@.len(),
                1 <= k <= n,
                forall|j: int| 0 <= j < k ==> (#[trigger] records@[j].account_address@)
                    == records@[0].account_address@,
                *self == *old(self),
                self.wf(),
            decreases n - k,
        {
            if !(records[k].account_address == records[0].account_address) {
                return Err(AppError::Storage(String::from_str("batch spans addresses")));
            }
            k = k + 1;
        }
        let address = records[0].account_address.clone();
        let bi = self.ensure_txn_bucket(&address);
        let ghost mid = *self;
        let mut bucket = self.transactions.remove(bi);
        let ghost b0 = bucket.records@;
        let ghost baddr = bucket.address@;
        proof {
            assert(baddr == address@);
            assert(txn_sorted(b0));
        }
        let mut k: usize = 0;
        while k < n
            invariant
                n == records@.len(),
                k <= n,
                bucket.address@ == baddr,
                txn_sorted(bucket.records@),
                bucket.records@.len() == b0.len() + k,
                forall|y: Transaction| #[trigger] bucket.records@.contains(y) <==> (b0.contains(
                    y) || records@.take(k as int).contains(y)),
                forall|j: int| 0 <= j < k ==> (#[trigger] records@[j].account_address@) == baddr,
                forall|j: int| k <= j < n ==> (#[trigger] records@[j].account_address@) == baddr,
                forall|j: int| 0 <= j < b0.len() ==> (#[trigger] b0[j].account_address@) == baddr,
                forall|j: int| 0 <= j < bucket.records@.len() ==> (#[trigger] bucket.records@[
                    j].account_address@) == baddr,
            decreases n - k,
        {
            let rec = clone_txn_record(&records[k]);
            insert_txn_sorted(&mut bucket.records, rec);
            proof {
                lemma_take_succ_contains(records@, k as int);
                assert forall|j: int| 0 <= j < bucket.records@.len() implies (
                    #[trigger] bucket.records@[j].account_address@) == baddr by {
                    assert(bucket.records@.contains(bucket.records@[j]));
                }
            }
            k = k + 1;
        }
        proof {
            assert(records@.take(n as int) =~= records@);
        }
        let ghost bucket_final = bucket;
        self.transactions.insert(bi, bucket);
        proof {
            assert(self.transactions@ =~= mid.transactions@.update(bi as int, bucket_final));
            assert(self.transactions@[bi as int].wf());
            Self::lemma_txn_slot_update(&mid, self, bi as int, address@);
        }
        Ok(())
    }

    /// The fresh signature count for one address, as every progress event
    /// reports it.
    pub fn get_signatures_count(&self, address: &String) -> (r: u64)
        requires
            self.wf(),
        ensures
            r == self.spec_signatures(address@).len(),
    {
        match self.find_sig_bucket(address) {
            Some(i) => self.signatures[i].records.len() as u64,
            None => 0,
        }
    }

    /// The fresh transaction count for one address.
    pub fn get_transactions_count(&self, address: &String) -> (r: u64)
        requires
            self.wf(),
        ensures
            r == self.spec_transactions(address@).len(),
    {
        match self.find_txn_bucket(address) {
            Some(i) => self.transactions[i].records.len() as u64,
            None => 0,
        }
    }

    /// The most recently persisted signature of this address: the one
    /// with the highest slot, which a refresh uses as its walk bound.
    /// `NotFound` when no signature is persisted yet.
    pub fn get_latest_signature(&self, address: &String) -> (r: Result<String, AppError>)
        requires
            self.wf(),
        ensures
            r is Ok <==> self.spec_signatures(address@).len() > 0,
            r matches Ok(s) ==> s@ == self.spec_signatures(address@)[0].signature@
                && forall|j: int| 0 <= j < self.spec_signatures(address@).len()
                    ==> (#[trigger] self.spec_signatures(address@)[j].slot)
                        <= self.spec_signatures(address@)[0].slot,
            r matches Err(e) ==> e matches AppError::NotFound(w) && w@ == "Latest Signature"@,
    {
        match self.find_sig_bucket(address) {
            Some(i) => {
                let bucket = &self.signatures[i];
                if bucket.records.len() > 0 {
                    proof {
                        assert(bucket.wf());
                    }
                    Ok(bucket.records[0].signature.clone())
                } else {
                    Err(AppError::NotFound(String::from_str("Latest Signature")))
                }
            },
            None => Err(AppError::NotFound(String::from_str("Latest Signature"))),
        }
    }

    /// The paged signature read: the records of this address, newest
    /// first, windowed by the pagination.
    pub fn get_transaction_signatures(&self, address: &String, p: Pagination) -> (r: Vec<
        TransactionSignature,
    >)
        requires
            self.wf(),
        ensures
            ({
                let win = page_window(self.spec_signatures(address@).len() as int, p);
                r@ == self.spec_signatures(address@).subrange(win.0, win.1)
            }),
    {
        let recs: &Vec<TransactionSignature> = match self.find_sig_bucket(address) {
            Some(i) => &self.signatures[i].records,
            None => {
                proof {
                    assert(self.spec_signatures(address@).subrange(0, 0)
                        =~= Seq::<TransactionSignature>::empty());
                }
                return Vec::new();
            },
        };
        let len = recs.len();
        let lo: usize = if p.skip <= len as u64 {
            p.skip as usize
        } else {
            len
        };
        let hi: usize = if p.limit <= 0 {
            len
        } else if (p.limit as u64) <= (len - lo) as u64 {
            lo + (p.limit as usize)
        } else {
            len
        };
        let mut out: Vec<TransactionSignature> = Vec::new();
        let mut i: usize = lo;
        while i < hi
            invariant
                lo <= i <= hi <= len,
                len == recs@.len(),
                out@ == recs@.subrange(lo as int, i as int),
            decreases hi - i,
        {
            out.push(clone_sig_record(&recs[i]));
            proof {
                assert(recs@.subrange(lo as int, i + 1) =~= recs@.subrange(
                    lo as int,
                    i as int,
                ).push(recs@[i as int]));
            }
            i = i + 1;
        }
        out
    }

    /// The paged transaction read: the records of this address, newest
    /// first, windowed by the pagination.
    pub fn get_transactions(&self, address: &String, p: Pagination) -> (r: Vec<Transaction>)
        requires
            self.wf(),
        ensures
            ({
                let win = page_window(self.spec_transactions(address@).len() as int, p);
                r@ == self.spec_transactions(address@).subrange(win.0, win.1)
            }),
    {
        let recs: &Vec<Transaction> = match self.find_txn_bucket(address) {
            Some(i) => &self.transactions[i].records,
            None => {
                proof {
                    assert(self.spec_transactions(address@).subrange(0, 0)
                        =~= Seq::<Transaction>::empty());
                }
                return Vec::new();
            },
        };
        let len = recs.len();
        let lo: usize = if p.skip <= len as u64 {
            p.skip as usize
        } else {
            len
        };
        let hi: usize = if p.limit <= 0 {
            len
        } else if (p.limit as u64) <= (len - lo) as u64 {
            lo + (p.limit as usize)
        } else {
            len
        };
        let mut out: Vec<Transaction> = Vec::new();
        let mut i: usize = lo;
        while i < hi
            invariant
                lo <= i <= hi <= len,
                len == recs@.len(),
                out@ == recs@.subrange(lo as int, i as int),
            decreases hi - i,
        {
            out.push(clone_txn_record(&recs[i]));
            proof {
                assert(recs@.subrange(lo as int, i + 1) =~= recs@.subrange(
                    lo as int,
                    i as int,
                ).push(recs@[i as int]));
            }
            i = i + 1;
        }
        out
    }

    /// The persisted transaction with this signature under this address,
    /// if one exists.
    pub fn get_transaction(&self, address: &String, signature: &String) -> (r: Option<
        &Transaction,
    >)
        requires
            self.wf(),
        ensures
            r matches Some(t) ==> self.spec_transactions(address@).contains(*t) && t.signature@
                == signature@,
            r is None ==> forall|j: int| 0 <= j < self.spec_transactions(address@).len()
                ==> (#[trigger] self.spec_transactions(address@)[j].signature@) != signature@,
    {
        let recs: &Vec<Transaction> = match self.find_txn_bucket(address) {
            Some(i) => &self.transactions[i].records,
            None => {
                return None;
            },
        };
        let n = recs.len();
        let mut i: usize = 0;
        while i < n
            invariant
                n == recs@.len(),
                i <= n,
                recs@ == self.spec_transactions(address@),
                forall|j: int| 0 <= j < i ==> (#[trigger] recs@[j].signature@) != signature@,
            decreases n - i,
        {
            if recs[i].signature == *signature {
                proof {
                    assert(recs@.contains(recs@[i as int]));
                }
                return Some(&recs[i]);
            }
            i = i + 1;
        }
        None
    }

    /// Whether the address is indexed, and the absolute record counts, as
    /// the stats endpoint reports them. `NotFound` when the account is
    /// not indexed.
    pub fn get_indexer_stats(&self, address: &String) -> (r: Result<IndexerStats, AppError>)
        requires
            self.wf(),
            self.spec_signatures(address@).len() <= i64::MAX,
            self.spec_transactions(address@).len() <= i64::MAX,
        ensures
            r is Ok <==> self.spec_has_account(address@),
            r matches Ok(st) ==> st.account_exists && st.signatures == self.spec_signatures(
                address@,
            ).len() && st.transactions == self.spec_transactions(address@).len(),
            r matches Err(e) ==> e matches AppError::NotFound(w) && w@ == "Account"@,
    {
        if !self.check_account_exists(address) {
            return Err(AppError::NotFound(String::from_str("Account")));
        }
        let signatures = self.get_signatures_count(address) as i64;
        let transactions = self.get_transactions_count(address) as i64;
        Ok(IndexerStats { account_exists: true, signatures, transactions })
    }
}

} // verus!
