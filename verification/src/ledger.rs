//! The credit ledger: one integer balance per user, with atomic
//! reserve-and-debit as the only way a container request can spend credits.

use vstd::prelude::*;

verus! {

/// One user's row in the ledger.
pub struct CreditEntry {
    pub username: String,
    pub credits: i64,
}

/// Owns every user's credit balance. No other component mutates balances.
pub struct CreditLedger {
    entries: Vec<CreditEntry>,
}

impl CreditLedger {
    pub closed spec fn entries_seq(self) -> Seq<CreditEntry> {
        self.entries@
    }

    /// Each user appears on at most one row.
    pub open spec fn wf(self) -> bool {
        forall|j: int, k: int|
            0 <= j < k < self.entries_seq().len() ==> self.entries_seq()[j].username@
                != self.entries_seq()[k].username@
    }

    pub open spec fn has_user(self, user: Seq<char>) -> bool {
        exists|j: int| 0 <= j < self.entries_seq().len() && self.entries_seq()[j].username@ == user
    }

    pub open spec fn row_of(self, user: Seq<char>) -> int {
        choose|j: int| 0 <= j < self.entries_seq().len() && self.entries_seq()[j].username@ == user
    }

    /// The balance of a user; a user without a row has balance 0.
    pub open spec fn balance_of(self, user: Seq<char>) -> int {
        if self.has_user(user) {
            self.entries_seq()[self.row_of(user)].credits as int
        } else {
            0
        }
    }

    pub fn new() -> (l: Self)
        ensures
            l.wf(),
            forall|u: Seq<char>| l.balance_of(u) == 0,
    {
        let l = CreditLedger { entries: Vec::new() };
        proof {
            assert forall|u: Seq<char>| l.balance_of(u) == 0 by {
                assert(!l.has_user(u));
            }
        }
        l
    }

    /// Index of the user's row, if one exists.
    fn find(&self, user: &String) -> (r: Option<usize>)
        ensures
            match r {
                Some(i) => i < self.entries_seq().len() && self.entries_seq()[i as int].username@
                    == user@,
                None => !self.has_user(user@),
            },
    {
        let n = self.entries.len();
        let mut i: usize = 0;
        while i < n
            invariant
                n == self.entries_seq().len(),
                i <= n,
                forall|j: int| 0 <= j < i ==> self.entries_seq()[j].username@ != user@,
            decreases n - i,
        {
            if self.entries[i].username == *user {
                return Some(i);
            }
            i = i + 1;
        }
        None
    }

    /// The user's balance; absence is not an error and reads as 0.
    pub fn balance(&self, user: &String) -> (b: i64)
        requires
            self.wf(),
        ensures
            b == self.balance_of(user@),
    {
        match self.find(user) {
            Some(i) => self.entries[i].credits,
            None => 0,
        }
    }

    /// Atomically checks that the user's balance covers `amount` and, if so,
    /// subtracts it. On refusal the ledger is untouched. A granted
    /// reservation can never drive a non-negative balance below zero, and no
    /// other user's balance moves either way.
    pub fn reserve_and_debit(&mut self, user: &String, amount: i64) -> (granted: bool)
        requires
            old(self).wf(),
            amount >= 0,
        ensures
            final(self).wf(),
            granted == (old(self).balance_of(user@) >= amount),
            granted ==> final(self).balance_of(user@) == old(self).balance_of(user@) - amount,
            !granted ==> *final(self) == *old(self),
            forall|v: Seq<char>|
                v != user@ ==> final(self).balance_of(v) == old(self).balance_of(v),
            forall|v: Seq<char>|
                old(self).balance_of(v) >= 0 ==> final(self).balance_of(v) >= 0,
    {
        match self.find(user) {
            Some(i) => {
                let bal = self.entries[i].credits;
                if bal >= amount {
                    let ghost pre = *self;
                    self.entries[i].credits = bal - amount;
                    proof {
                        lemma_row_update(pre, *self, i as int, user@);
                    }
                    true
                } else {
                    false
                }
            },
            None => {
                if amount == 0 {
                    // Balance 0 covers a zero reservation; nothing to subtract.
                    true
                } else {
                    false
                }
            },
        }
    }

    /// Adds `amount` back to the user's balance; the compensation path that
    /// undoes a reservation after a later provisioning step fails.
    pub fn credit(&mut self, user: &String, amount: i64)
        requires
            old(self).wf(),
            amount >= 0,
            old(self).balance_of(user@) + amount <= i64::MAX,
        ensures
            final(self).wf(),
            final(self).balance_of(user@) == old(self).balance_of(user@) + amount,
            forall|v: Seq<char>|
                v != user@ ==> final(self).balance_of(v) == old(self).balance_of(v),
    {
        match self.find(user) {
            Some(i) => {
                let ghost pre = *self;
                let bal = self.entries[i].credits;
                self.entries[i].credits = bal + amount;
                proof {
                    lemma_row_update(pre, *self, i as int, user@);
                }
            },
            None => {
                let ghost pre = *self;
                self.entries.push(CreditEntry { username: user.clone(), credits: amount });
                proof {
                    lemma_row_insert(pre, *self, user@);
                }
            },
        }
    }

    /// Overwrites the user's balance outright, creating the row if absent:
    /// the out-of-band administrative adjustment, which may set any value,
    /// negative ones included.
    pub fn set_credits(&mut self, user: &String, credits: i64)
        requires
            old(self).wf(),
        ensures
            final(self).wf(),
            final(self).balance_of(user@) == credits,
            forall|v: Seq<char>|
                v != user@ ==> final(self).balance_of(v) == old(self).balance_of(v),
    {
        match self.find(user) {
            Some(i) => {
                let ghost pre = *self;
                self.entries[i].credits = credits;
                proof {
                    lemma_row_update(pre, *self, i as int, user@);
                }
            },
            None => {
                let ghost pre = *self;
                self.entries.push(CreditEntry { username: user.clone(), credits });
                proof {
                    lemma_row_insert(pre, *self, user@);
                }
            },
        }
    }
}

/// After a single row's credits change, that user's balance is the new value
/// and every other user's balance is untouched.
proof fn lemma_row_update(pre: CreditLedger, post: CreditLedger, i: int, user: Seq<char>)
    requires
        pre.wf(),
        0 <= i < pre.entries_seq().len(),
        pre.entries_seq()[i].username@ == user,
        post.entries_seq().len() == pre.entries_seq().len(),
        post.entries_seq()[i].username@ == user,
        forall|j: int|
            0 <= j < pre.entries_seq().len() && j != i ==> post.entries_seq()[j]
                == pre.entries_seq()[j],
    ensures
        post.wf(),
        post.has_user(user),
        post.row_of(user) == i,
        pre.has_user(user),
        pre.row_of(user) == i,
        forall|v: Seq<char>| v != user ==> post.balance_of(v) == pre.balance_of(v),
{
    assert forall|j: int, k: int|
        0 <= j < k < post.entries_seq().len() implies post.entries_seq()[j].username@
        != post.entries_seq()[k].username@ by {
        assert(pre.entries_seq()[j].username@ != pre.entries_seq()[k].username@);
    }
    assert(post.has_user(user));
    lemma_unique_row(post, user, i);
    lemma_unique_row(pre, user, i);
    assert forall|v: Seq<char>| v != user implies post.balance_of(v) == pre.balance_of(v) by {
        if pre.has_user(v) {
            let j = pre.row_of(v);
            assert(j != i);
            assert(post.entries_seq()[j].username@ == v);
            lemma_unique_row(post, v, j);
        } else {
            assert(!post.has_user(v)) by {
                if post.has_user(v) {
                    let j = post.row_of(v);
                    assert(pre.entries_seq()[j].username@ == v);
                }
            }
        }
    }
}

/// After one new row for `user` is pushed onto a ledger that had none, the
/// new user's balance is the pushed value and every other balance stands.
proof fn lemma_row_insert(pre: CreditLedger, post: CreditLedger, user: Seq<char>)
    requires
        pre.wf(),
        !pre.has_user(user),
        post.entries_seq().len() == pre.entries_seq().len() + 1,
        post.entries_seq()[pre.entries_seq().len() as int].username@ == user,
        forall|j: int|
            0 <= j < pre.entries_seq().len() ==> post.entries_seq()[j] == pre.entries_seq()[j],
    ensures
        post.wf(),
        post.has_user(user),
        post.row_of(user) == pre.entries_seq().len(),
        forall|v: Seq<char>| v != user ==> post.balance_of(v) == pre.balance_of(v),
{
    let n = pre.entries_seq().len() as int;
    assert forall|j: int, k: int|
        0 <= j < k < post.entries_seq().len() implies post.entries_seq()[j].username@
        != post.entries_seq()[k].username@ by {
        if k < n {
            assert(pre.entries_seq()[j].username@ != pre.entries_seq()[k].username@);
        } else {
            assert(post.entries_seq()[k].username@ == user);
            assert(pre.entries_seq()[j].username@ != user);
        }
    }
    assert(post.has_user(user));
    lemma_unique_row(post, user, n);
    assert forall|v: Seq<char>| v != user implies post.balance_of(v) == pre.balance_of(v) by {
        if pre.has_user(v) {
            let j = pre.row_of(v);
            assert(post.entries_seq()[j].username@ == v);
            lemma_unique_row(post, v, j);
        } else {
            assert(!post.has_user(v)) by {
                if post.has_user(v) {
                    let j = post.row_of(v);
                    assert(j == n || pre.entries_seq()[j].username@ == v);
                }
            }
        }
    }
}

/// In a well-formed ledger a user's row index is determined.
proof fn lemma_unique_row(l: CreditLedger, user: Seq<char>, i: int)
    requires
        l.wf(),
        0 <= i < l.entries_seq().len(),
        l.entries_seq()[i].username@ == user,
    ensures
        l.has_user(user),
        l.row_of(user) == i,
{
    assert(l.has_user(user));
    let j = l.row_of(user);
    if j != i {
        if j < i {
            assert(l.entries_seq()[j].username@ != l.entries_seq()[i].username@);
        } else {
            assert(l.entries_seq()[i].username@ != l.entries_seq()[j].username@);
        }
    }
}

/// Two reservations of the same amount race against a balance that covers
/// exactly one of them. The ledger serializes them: whichever debit lands
/// first is granted and leaves a balance of zero, so the test the second
/// reservation makes must refuse it. Exactly one of the two succeeds.
pub proof fn lemma_reservation_race(pre: CreditLedger, mid: CreditLedger, user: Seq<char>, price: int)
    requires
        pre.balance_of(user) == price,
        price > 0,
        // `mid` is any ledger state in which the first reservation was granted.
        mid.balance_of(user) == pre.balance_of(user) - price,
    ensures
        pre.balance_of(user) >= price,
        !(mid.balance_of(user) >= price),
{
}

} // verus!
