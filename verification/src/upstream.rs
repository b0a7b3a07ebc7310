//! In-memory reference model of the upstream RPC source.
//!
//! The pipeline needs three capabilities from the chain: fetch the account
//! snapshot, fetch one page of transaction signatures with `before` /
//! `until` / `limit` cursor control, and fetch one transaction by
//! signature. This module models the upstream as a fixed ledger — the
//! signature history of one address, newest first — and specifies the
//! cursor semantics exactly: a page starts just after the `before`
//! signature (or at the newest entry), stops before the `until` signature
//! (or at the oldest), and never exceeds `limit`. The runner and the tests
//! execute whole ingestion runs against this model.

use vstd::prelude::*;
use vstd::string::StringExecFns;

use crate::error::AppError;
use crate::models::{AccountInfo, SignatureInfo, TransactionInfo};

verus! {

/// One ledger entry: a signature-page row and the full transaction behind
/// it.
pub struct LedgerEntry {
    pub info: SignatureInfo,
    pub detail: TransactionInfo,
}

/// Whether a ledger position holds this signature.
pub open spec fn ledger_has_sig(s: Seq<LedgerEntry>, sig: Seq<char>) -> bool {
    exists|i: int| 0 <= i < s.len() && (#[trigger] s[i].info.signature@) == sig
}

/// The (unique, by well-formedness) position of this signature.
pub open spec fn ledger_sig_index(s: Seq<LedgerEntry>, sig: Seq<char>) -> int {
    choose|i: int| 0 <= i < s.len() && (#[trigger] s[i].info.signature@) == sig
}

/// Where a page begins: at the top for no cursor, just after the cursor
/// signature otherwise.
pub open spec fn page_start(s: Seq<LedgerEntry>, before: Option<Seq<char>>) -> int {
    match before {
        Option::None => 0,
        Option::Some(b) => ledger_sig_index(s, b) + 1,
    }
}

/// How many entries a page holds, walking from `start`: it ends at the
/// ledger's end, at the `until` signature (exclusive), or at `limit`
/// entries, whichever comes first.
pub open spec fn page_len(s: Seq<LedgerEntry>, start: int, until: Option<Seq<char>>, limit: int) -> int
    decreases limit
{
    if start >= s.len() || limit <= 0 {
        0
    } else if until matches Option::Some(u) && s[start].info.signature@ == u {
        0
    } else {
        1 + page_len(s, start + 1, until, limit - 1)
    }
}

/// The upstream model: at most one account, and its signature history,
/// newest first.
pub struct UpstreamLedger {
    account: Option<AccountInfo>,
    entries: Vec<LedgerEntry>,
}

impl UpstreamLedger {
    /// Well-formedness: signatures are unique, and history runs newest
    /// (highest slot) first.
    pub open spec fn wf(&self) -> bool {
        &&& forall|i: int, j: int| 0 <= i < j < self.spec_entries().len()
            ==> (#[trigger] self.spec_entries()[i].info.signature@)
                != (#[trigger] self.spec_entries()[j].info.signature@)
        &&& forall|i: int, j: int| 0 <= i < j < self.spec_entries().len()
            ==> (#[trigger] self.spec_entries()[i].info.slot) >= (
            #[trigger] self.spec_entries()[j].info.slot)
    }

    /// The modeled account, if the upstream knows one.
    pub closed spec fn spec_account(&self) -> Option<AccountInfo> {
        self.account
    }

    /// The modeled signature history, newest first.
    pub closed spec fn spec_entries(&self) -> Seq<LedgerEntry> {
        self.entries@
    }

    /// An upstream with no account and no history.
    pub fn new() -> (u: Self)
        ensures
            u.wf(),
            u.spec_account() is None,
            u.spec_entries() == Seq::<LedgerEntry>::empty(),
    {
        UpstreamLedger { account: None, entries: Vec::new() }
    }

    /// Set the account snapshot the upstream answers with.
    pub fn set_account(&mut self, account: AccountInfo)
        requires
            old(self).wf(),
        ensures
            final(self).wf(),
            final(self).spec_account() == Some(account),
            final(self).spec_entries() == old(self).spec_entries(),
    {
        self.account = Some(account);
    }

    /// Append one entry at the old end of the history. Its signature must
    /// be new and its slot no higher than the last entry's.
    pub fn push_entry(&mut self, entry: LedgerEntry)
        requires
            old(self).wf(),
            !ledger_has_sig(old(self).spec_entries(), entry.info.signature@),
            old(self).spec_entries().len() > 0 ==> old(self).spec_entries().last().info.slot
                >= entry.info.slot,
        ensures
            final(self).wf(),
            final(self).spec_account() == old(self).spec_account(),
            final(self).spec_entries() == old(self).spec_entries().push(entry),
    {
        self.entries.push(entry);
        proof {
            let s = self.entries@;
            let n = s.len() - 1;
            assert forall|i: int, j: int| 0 <= i < j < s.len() implies (
                #[trigger] s[i].info.signature@) != (#[trigger] s[j].info.signature@) by {
                if j == n {
                    assert(!ledger_has_sig(old(self).spec_entries(), entry.info.signature@));
                    assert(old(self).spec_entries()[i] == s[i]);
                }
            }
            assert forall|i: int, j: int| 0 <= i < j < s.len() implies (
                #[trigger] s[i].info.slot) >= (#[trigger] s[j].info.slot) by {
                if j == n && i < n {
                    assert(old(self).spec_entries()[i].info.slot >= old(
                        self,
                    ).spec_entries().last().info.slot);
                }
            }
        }
    }

    /// Fetch the account snapshot. Fails as the RPC fails when the chain
    /// has no such account.
    pub fn get_account(&self) -> (r: Result<AccountInfo, AppError>)
        ensures
            r is Ok <==> self.spec_account() is Some,
            r matches Ok(info) ==> Some(info) == self.spec_account(),
            r matches Err(e) ==> e is Upstream,
    {
        match &self.account {
            Some(a) => Ok(clone_account_info(a)),
            None => Err(AppError::Upstream(String::from_str("account not found"))),
        }
    }

    /// Fetch one transaction by signature. Fails as the RPC fails when
    /// the signature is unknown.
    pub fn get_transaction(&self, signature: &String) -> (r: Result<TransactionInfo, AppError>)
        requires
            self.wf(),
        ensures
            r is Ok <==> ledger_has_sig(self.spec_entries(), signature@),
            r matches Ok(t) ==> t == self.spec_entries()[ledger_sig_index(
                self.spec_entries(),
                signature@,
            )].detail,
            r matches Err(e) ==> e is Upstream,
    {
        let n = self.entries.len();
        let mut i: usize = 0;
        while i < n
            invariant
                n == self.entries@.len(),
                i <= n,
                self.wf(),
                forall|j: int| 0 <= j < i ==> (#[trigger] self.entries@[j].info.signature@)
                    != signature@,
            decreases n - i,
        {
            if self.entries[i].info.signature == *signature {
                proof {
                    let k = ledger_sig_index(self.entries@, signature@);
                    assert(0 <= k < self.entries@.len()
                        && self.entries@[k].info.signature@ == signature@);
                    assert(k == i);
                }
                return Ok(clone_transaction_info(&self.entries[i].detail));
            }
            i = i + 1;
        }
        Err(AppError::Upstream(String::from_str("transaction not found")))
    }

    /// Fetch one page of signatures: beginning just after `before` (or at
    /// the newest), stopping before `until` (or at the oldest), at most
    /// `limit` entries, in ledger (newest-first) order. An unknown
    /// `before` cursor fails as the RPC fails.
    pub fn signatures_page(
        &self,
        before: &Option<String>,
        until: &Option<String>,
        limit: u64,
    ) -> (r: Result<Vec<SignatureInfo>, AppError>)
        requires
            self.wf(),
        ensures
            ({
                let before_v = match *before {
                    Option::None => Option::<Seq<char>>::None,
                    Option::Some(b) => Option::Some(b@),
                };
                let until_v = match *until {
                    Option::None => Option::<Seq<char>>::None,
                    Option::Some(u) => Option::Some(u@),
                };
                let s = self.spec_entries();
                &&& (before_v is None ==> r is Ok)
                &&& (before_v matches Option::Some(b) ==> (r is Ok <==> ledger_has_sig(s, b)))
                &&& r matches Err(e) ==> e is Upstream
                &&& r matches Ok(page) ==> {
                    let start = page_start(s, before_v);
                    &&& page@.len() == page_len(s, start, until_v, limit as int)
                    &&& forall|i: int| 0 <= i < page@.len() ==> (#[trigger] page@[i]) == s[start
                        + i].info
                }
            }),
    {
        let start: usize = match before {
            None => 0,
            Some(b) => {
                match self.find_signature(b) {
                    Some(i) => {
                        let total = self.entries.len();
                        proof {
                            assert(i < total);
                        }
                        i + 1
                    },
                    None => {
                        return Err(AppError::Upstream(String::from_str("unknown cursor")));
                    },
                }
            },
        };
        let ghost s = self.entries@;
        let ghost until_v = match until {
            Option::None => Option::<Seq<char>>::None,
            Option::Some(u) => Option::Some(u@),
        };
        let n = self.entries.len();
        let mut out: Vec<SignatureInfo> = Vec::new();
        let mut i: usize = start;
        let mut stopped: bool = false;
        while i < n && !stopped && out.len() < usize_of_limit(limit, n)
            invariant
                n == s.len(),
                s == self.entries@,
                until_v == match until {
                    Option::None => Option::<Seq<char>>::None,
                    Option::Some(u) => Option::Some(u@),
                },
                self.wf(),
                start <= i <= n,
                out@.len() == i - start,
                forall|k: int| 0 <= k < out@.len() ==> (#[trigger] out@[k]) == s[start + k].info,
                page_len(s, start as int, until_v, limit as int) == if stopped {
                    out@.len() as int
                } else {
                    out@.len() + page_len(s, i as int, until_v, limit as int - out@.len())
                },
            decreases n - i + (if stopped { 0int } else { 1int }),
        {
            let ghost len0 = out@.len() as int;
            if is_until(&self.entries[i].info.signature, until) {
                stopped = true;
                proof {
                    assert(page_len(s, i as int, until_v, limit as int - len0) == 0);
                }
            } else {
                out.push(clone_signature_info(&self.entries[i].info));
                i = i + 1;
                proof {
                    assert(len0 < limit as int);
                    assert(page_len(s, i - 1, until_v, limit as int - len0) == 1 + page_len(
                        s,
                        i as int,
                        until_v,
                        limit as int - len0 - 1,
                    ));
                }
            }
        }
        proof {
            if !stopped {
                if i < n {
                    assert(out@.len() < n);
                    assert(limit as int <= n);
                    assert(out@.len() >= limit);
                }
                assert(page_len(s, i as int, until_v, limit as int - out@.len()) == 0);
            }
        }
        Ok(out)
    }

    fn find_signature(&self, signature: &String) -> (r: Option<usize>)
        requires
            self.wf(),
        ensures
            match r {
                Some(i) => i < self.spec_entries().len() && self.spec_entries()[i as int].info.signature@
                    == signature@ && ledger_has_sig(self.spec_entries(), signature@)
                    && i == ledger_sig_index(self.spec_entries(), signature@),
                None => !ledger_has_sig(self.spec_entries(), signature@),
            },
    {
        let n = self.entries.len();
        let mut i: usize = 0;
        while i < n
            invariant
                n == self.entries@.len(),
                i <= n,
                self.wf(),
                forall|j: int| 0 <= j < i ==> (#[trigger] self.entries@[j].info.signature@)
                    != signature@,
            decreases n - i,
        {
            if self.entries[i].info.signature == *signature {
                proof {
                    let k = ledger_sig_index(self.entries@, signature@);
                    assert(0 <= k < self.entries@.len()
                        && self.entries@[k].info.signature@ == signature@);
                    assert(k == i);
                }
                return Some(i);
            }
            i = i + 1;
        }
        None
    }
}

/// Whether this entry signature is the (exclusive) `until` bound.
fn is_until(signature: &String, until: &Option<String>) -> (r: bool)
    ensures
        r == match *until {
            Option::None => false,
            Option::Some(u) => signature@ == u@,
        },
{
    match until {
        None => false,
        Some(u) => *signature == *u,
    }
}

/// The page limit clamped to the ledger's length, as a vector index
/// bound.
fn usize_of_limit(limit: u64, n: usize) -> (r: usize)
    ensures
        r == if limit as int <= n as int {
            limit as int
        } else {
            n as int
        },
{
    if limit <= n as u64 {
        limit as usize
    } else {
        n
    }
}

/// A field-for-field copy of an account snapshot.
fn clone_account_info(a: &AccountInfo) -> (r: AccountInfo)
    ensures
        r == *a,
{
    AccountInfo {
        lamports: a.lamports,
        owner: a.owner.clone(),
        executable: a.executable,
        data_length: a.data_length,
        rent_epoch: a.rent_epoch,
    }
}

/// A field-for-field copy of a page row.
fn clone_signature_info(s: &SignatureInfo) -> (r: SignatureInfo)
    ensures
        r == *s,
{
    SignatureInfo {
        signature: s.signature.clone(),
        slot: s.slot,
        block_time: s.block_time,
        confirmation_status: s.confirmation_status.clone(),
    }
}

/// A field-for-field copy of a transaction body.
fn clone_transaction_info(t: &TransactionInfo) -> (r: TransactionInfo)
    ensures
        r == *t,
{
    TransactionInfo { slot: t.slot, block_time: t.block_time, payload: t.payload.clone() }
}

/// Law: a bounded walk never reaches already-persisted history.
///
/// A refresh passes `until` = the latest persisted signature, which sits
/// at position `k` of the ledger; everything persisted by earlier runs is
/// the history from `k` on (position `k` and older). Any page that starts
/// at or above `k` stays strictly above `k`: it holds at most `k - start`
/// entries, so every signature it returns differs from every signature at
/// position `k` or older. Appending such pages can therefore never
/// re-persist a signature stored before the refresh began, and the count
/// after the refresh is the count before plus exactly the newly
/// discovered entries.
pub proof fn lemma_bounded_page_misses_stored_history(
    s: Seq<LedgerEntry>,
    start: int,
    u: Seq<char>,
    limit: int,
    k: int,
)
    requires
        forall|i: int, j: int| 0 <= i < j < s.len() ==> (#[trigger] s[i].info.signature@)
            != (#[trigger] s[j].info.signature@),
        0 <= start <= s.len(),
        0 <= k < s.len(),
        s[k].info.signature@ == u,
        start <= k,
    ensures
        page_len(s, start, Some(u), limit) <= k - start,
        forall|i: int, j: int| 0 <= i < page_len(s, start, Some(u), limit) && k <= j < s.len()
            ==> (#[trigger] s[start + i].info.signature@) != (#[trigger] s[j].info.signature@),
    decreases limit,
{
    if limit <= 0 {
    } else if s[start].info.signature@ == u {
        assert(start == k);
    } else {
        assert(start != k);
        lemma_bounded_page_misses_stored_history(s, start + 1, u, limit - 1, k);
        assert forall|i: int, j: int| 0 <= i < page_len(s, start, Some(u), limit) && k <= j
            < s.len() implies (#[trigger] s[start + i].info.signature@) != (
        #[trigger] s[j].info.signature@) by {
            assert(start + i < k);
        }
    }
}

/// How long an unbounded page is: the cap or the rest of the ledger,
/// whichever is smaller.
pub proof fn lemma_page_len_unbounded(s: Seq<LedgerEntry>, start: int, limit: int)
    requires
        0 <= start <= s.len(),
    ensures
        page_len(s, start, Option::<Seq<char>>::None, limit) == if limit <= 0 {
            0
        } else if start + limit <= s.len() {
            limit
        } else {
            s.len() - start
        },
    decreases limit,
{
    if limit > 0 && start < s.len() {
        lemma_page_len_unbounded(s, start + 1, limit - 1);
    }
}

/// How long a bounded page is: the cap or the distance to the `until`
/// signature, whichever is smaller.
pub proof fn lemma_page_len_bounded(
    s: Seq<LedgerEntry>,
    start: int,
    u: Seq<char>,
    limit: int,
    k: int,
)
    requires
        forall|i: int, j: int| 0 <= i < j < s.len() ==> (#[trigger] s[i].info.signature@)
            != (#[trigger] s[j].info.signature@),
        0 <= start <= s.len(),
        0 <= k < s.len(),
        s[k].info.signature@ == u,
        start <= k,
    ensures
        page_len(s, start, Some(u), limit) == if limit <= 0 {
            0
        } else if start + limit <= k {
            limit
        } else {
            k - start
        },
    decreases limit,
{
    if limit > 0 {
        if s[start].info.signature@ == u {
            assert(start == k);
        } else {
            assert(start != k);
            lemma_page_len_bounded(s, start + 1, u, limit - 1, k);
        }
    }
}

} // verus!
