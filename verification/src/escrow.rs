//! The escrow ledger: fungible balances per account, with atomic debit and
//! credit, standing for the host ledger's token accounts.
//!
//! Balances are held in an association vector with pairwise-distinct keys;
//! the contracts speak of the total function [`EscrowLedger::balance`],
//! which is zero for accounts that were never credited.

use crate::errors::ErrorCode;
use vstd::prelude::*;

verus! {

use vstd::pervasive::VecAdditionalExecFns;

/// An escrow account address. User accounts and round pool accounts live in
/// disjoint key spaces, so a pool can never alias a user account, and the
/// pool address of a round is derived from its round id alone —
/// deterministically and collision-free.
#[derive(Clone, Copy, Debug, PartialEq, Eq, Structural)]
pub enum AccountId {
    /// A token account held by an external identity.
    User(u64),
    /// The pool account of the round with the given round id.
    Pool(u64),
}

/// The balance store.
pub struct EscrowLedger {
    accounts: Vec<(AccountId, u64)>,
}

impl EscrowLedger {
    /// The balance of `a` in an association list: the value beside the last
    /// matching key, or zero when no entry matches.
    spec fn bal_in(s: Seq<(AccountId, u64)>, a: AccountId) -> u64
        decreases s.len(),
    {
        if s.len() == 0 {
            0
        } else if s.last().0 == a {
            s.last().1
        } else {
            Self::bal_in(s.drop_last(), a)
        }
    }

    /// The balance of account `a`; zero for an account never credited.
    pub closed spec fn balance(self, a: AccountId) -> u64 {
        Self::bal_in(self.accounts@, a)
    }

    /// Keys are pairwise distinct.
    pub closed spec fn wf(self) -> bool {
        forall|i: int, j: int|
            0 <= i < j < self.accounts@.len() ==> (#[trigger] self.accounts@[i]).0 != (
            #[trigger] self.accounts@[j]).0
    }

    proof fn lemma_bal_absent(s: Seq<(AccountId, u64)>, a: AccountId)
        requires
            forall|i: int| 0 <= i < s.len() ==> (#[trigger] s[i]).0 != a,
        ensures
            Self::bal_in(s, a) == 0,
        decreases s.len(),
    {
        if s.len() > 0 {
            assert(s.last() == s[s.len() - 1]);
            assert(forall|i: int| 0 <= i < s.drop_last().len() ==> (#[trigger] s.drop_last()[i])
                == s[i]);
            Self::lemma_bal_absent(s.drop_last(), a);
        }
    }

    proof fn lemma_bal_at(s: Seq<(AccountId, u64)>, a: AccountId, i: int)
        requires
            forall|p: int, q: int| 0 <= p < q < s.len() ==> (#[trigger] s[p]).0 != (#[trigger] s[q]).0,
            0 <= i < s.len(),
            s[i].0 == a,
        ensures
            Self::bal_in(s, a) == s[i].1,
        decreases s.len(),
    {
        assert(s.last() == s[s.len() - 1]);
        if i == s.len() - 1 {
        } else {
            assert(s[i].0 != s[s.len() - 1].0);
            assert(forall|k: int| 0 <= k < s.drop_last().len() ==> (#[trigger] s.drop_last()[k])
                == s[k]);
            Self::lemma_bal_at(s.drop_last(), a, i);
        }
    }

    proof fn lemma_bal_update(s: Seq<(AccountId, u64)>, i: int, v: u64, b: AccountId)
        requires
            forall|p: int, q: int| 0 <= p < q < s.len() ==> (#[trigger] s[p]).0 != (#[trigger] s[q]).0,
            0 <= i < s.len(),
        ensures
            Self::bal_in(s.update(i, (s[i].0, v)), b) == if b == s[i].0 {
                v
            } else {
                Self::bal_in(s, b)
            },
        decreases s.len(),
    {
        let t = s.update(i, (s[i].0, v));
        assert(t.len() == s.len());
        assert(s.last() == s[s.len() - 1]);
        assert(t.last() == t[s.len() - 1]);
        if i == s.len() - 1 {
            assert(t.drop_last() =~= s.drop_last());
        } else {
            assert(t[s.len() - 1] == s[s.len() - 1]);
            assert(t.drop_last() =~= s.drop_last().update(i, (s[i].0, v)));
            assert(forall|k: int| 0 <= k < s.drop_last().len() ==> (#[trigger] s.drop_last()[k])
                == s[k]);
            assert(s.drop_last()[i] == s[i]);
            Self::lemma_bal_update(s.drop_last(), i, v, b);
            if b == s[i].0 {
                assert(s[i].0 != s[s.len() - 1].0);
            }
        }
    }

    proof fn lemma_bal_push(s: Seq<(AccountId, u64)>, a: AccountId, v: u64, b: AccountId)
        ensures
            Self::bal_in(s.push((a, v)), b) == if b == a {
                v
            } else {
                Self::bal_in(s, b)
            },
    {
        let t = s.push((a, v));
        assert(t.last() == (a, v));
        assert(t.drop_last() =~= s);
    }

    /// An empty ledger: every account has balance zero.
    pub fn new() -> (r: EscrowLedger)
        ensures
            r.wf(),
            forall|a: AccountId| r.balance(a) == 0,
    {
        let r = EscrowLedger { accounts: Vec::new() };
        proof {
            assert(forall|a: AccountId| #[trigger] r.balance(a) == 0);
        }
        r
    }

    /// The position of the entry for `a`, if one exists.
    fn find(&self, a: AccountId) -> (r: Option<usize>)
        ensures
            match r {
                Some(i) => i < self.accounts@.len() && self.accounts@[i as int].0 == a,
                None => forall|j: int| 0 <= j < self.accounts@.len() ==> (#[trigger] self.accounts@[j]).0
                    != a,
            },
    {
        let mut i: usize = 0;
        while i < self.accounts.len()
            invariant
                i <= self.accounts@.len(),
                forall|j: int| 0 <= j < i ==> (#[trigger] self.accounts@[j]).0 != a,
            decreases self.accounts@.len() - i,
        {
            if self.accounts[i].0 == a {
                return Some(i);
            }
            i = i + 1;
        }
        None
    }

    /// Read a balance.
    pub fn balance_of(&self, a: AccountId) -> (r: u64)
        requires
            self.wf(),
        ensures
            r == self.balance(a),
    {
        match self.find(a) {
            Some(i) => {
                proof {
                    Self::lemma_bal_at(self.accounts@, a, i as int);
                }
                self.accounts[i].1
            },
            None => {
                proof {
                    Self::lemma_bal_absent(self.accounts@, a);
                }
                0
            },
        }
    }

    /// Add `amount` to the balance of `a`, creating the account if absent.
    pub fn credit(&mut self, a: AccountId, amount: u64)
        requires
            old(self).wf(),
            old(self).balance(a) + amount <= u64::MAX,
        ensures
            final(self).wf(),
            final(self).balance(a) == old(self).balance(a) + amount,
            forall|b: AccountId| b != a ==> final(self).balance(b) == old(self).balance(b),
    {
        let ghost s0 = self.accounts@;
        match self.find(a) {
            Some(i) => {
                proof {
                    Self::lemma_bal_at(s0, a, i as int);
                }
                let cur = self.accounts[i].1;
                self.accounts.set(i, (a, cur + amount));
                proof {
                    assert(self.accounts@ =~= s0.update(i as int, (s0[i as int].0, (cur + amount) as u64)));
                    assert forall|b: AccountId| true implies #[trigger] self.balance(b) == if b == a {
                        (cur + amount) as u64
                    } else {
                        Self::bal_in(s0, b)
                    } by {
                        Self::lemma_bal_update(s0, i as int, (cur + amount) as u64, b);
                    }
                }
            },
            None => {
                proof {
                    Self::lemma_bal_absent(s0, a);
                }
                self.accounts.push((a, amount));
                proof {
                    assert forall|b: AccountId| true implies #[trigger] self.balance(b) == if b == a {
                        amount
                    } else {
                        Self::bal_in(s0, b)
                    } by {
                        Self::lemma_bal_push(s0, a, amount, b);
                    }
                    assert forall|i: int, j: int|
                        0 <= i < j < self.accounts@.len() implies (#[trigger] self.accounts@[i]).0
                        != (#[trigger] self.accounts@[j]).0 by {
                        if j == self.accounts@.len() - 1 {
                            assert(self.accounts@[i] == s0[i]);
                        }
                    }
                }
            },
        }
    }

    /// Remove `amount` from the balance of `a`; refused when the balance is
    /// insufficient, with no effect.
    pub fn debit(&mut self, a: AccountId, amount: u64) -> (r: Result<(), ErrorCode>)
        requires
            old(self).wf(),
        ensures
            final(self).wf(),
            r is Ok <==> old(self).balance(a) >= amount,
            r is Err ==> *final(self) == *old(self) && r == Err::<(), ErrorCode>(
                ErrorCode::TransferFailed,
            ),
            r is Ok ==> final(self).balance(a) == old(self).balance(a) - amount && forall|
                b: AccountId,
            |
                b != a ==> final(self).balance(b) == old(self).balance(b),
    {
        let ghost s0 = self.accounts@;
        match self.find(a) {
            Some(i) => {
                proof {
                    Self::lemma_bal_at(s0, a, i as int);
                }
                let cur = self.accounts[i].1;
                if cur < amount {
                    return Err(ErrorCode::TransferFailed);
                }
                self.accounts.set(i, (a, cur - amount));
                proof {
                    assert(self.accounts@ =~= s0.update(i as int, (s0[i as int].0, (cur - amount) as u64)));
                    assert forall|b: AccountId| true implies #[trigger] self.balance(b) == if b == a {
                        (cur - amount) as u64
                    } else {
                        Self::bal_in(s0, b)
                    } by {
                        Self::lemma_bal_update(s0, i as int, (cur - amount) as u64, b);
                    }
                }
                Ok(())
            },
            None => {
                proof {
                    Self::lemma_bal_absent(s0, a);
                }
                if amount == 0 {
                    return Ok(());
                }
                Err(ErrorCode::TransferFailed)
            },
        }
    }

    /// Move `amount` from `from` to `to` as one atomic unit: either both the
    /// debit and the credit happen, or neither does. Refused when `from`
    /// holds less than `amount`, or when the credit would push `to` past the
    /// largest representable balance.
    pub fn transfer(&mut self, from: AccountId, to: AccountId, amount: u64) -> (r: Result<
        (),
        ErrorCode,
    >)
        requires
            old(self).wf(),
        ensures
            final(self).wf(),
            r is Ok <==> (old(self).balance(from) >= amount && (from == to || old(self).balance(to)
                + amount <= u64::MAX)),
            r is Err ==> *final(self) == *old(self) && r == Err::<(), ErrorCode>(
                ErrorCode::TransferFailed,
            ),
            r is Ok && from != to ==> final(self).balance(from) == old(self).balance(from) - amount
                && final(self).balance(to) == old(self).balance(to) + amount && forall|
                b: AccountId,
            |
                b != from && b != to ==> final(self).balance(b) == old(self).balance(b),
            r is Ok && from == to ==> forall|b: AccountId|
                final(self).balance(b) == old(self).balance(b),
    {
        let from_bal = self.balance_of(from);
        if from_bal < amount {
            return Err(ErrorCode::TransferFailed);
        }
        if from != to {
            let to_bal = self.balance_of(to);
            if amount > u64::MAX - to_bal {
                return Err(ErrorCode::TransferFailed);
            }
            let debited = self.debit(from, amount);
            proof {
                assert(debited is Ok);
            }
            self.credit(to, amount);
        }
        Ok(())
    }
}

} // verus!
