use vstd::prelude::*;
use vstd::pervasive::VecAdditionalExecFns;
use crate::errors::OracleError;

verus! {

/// In-memory balance book standing in for the external asset ledger.
///
/// The oracle core needs only `balance(holder)` and `transfer(from, to,
/// amount)` with all-or-nothing semantics, so the ledger is kept abstract:
/// a total balance function over holder identities, zero by default. Holders
/// are plain identity numbers, balances are unsigned amounts.
pub struct AssetLedger {
    entries: Vec<(u64, u64)>,
}

impl AssetLedger {
    /// First entry for `holder` in the book, or zero when there is none.
    spec fn lookup(s: Seq<(u64, u64)>, holder: u64) -> u64
        decreases s.len(),
    {
        if s.len() == 0 {
            0u64
        } else if s[0].0 == holder {
            s[0].1
        } else {
            Self::lookup(s.drop_first(), holder)
        }
    }

    /// The balance the ledger holds for `holder`; zero for unknown holders.
    pub closed spec fn spec_balance(self, holder: u64) -> u64 {
        Self::lookup(self.entries@, holder)
    }

    proof fn lemma_lookup_first_match(s: Seq<(u64, u64)>, holder: u64, i: int)
        requires
            0 <= i < s.len(),
            s[i].0 == holder,
            forall|j: int| 0 <= j < i ==> s[j].0 != holder,
        ensures
            Self::lookup(s, holder) == s[i].1,
        decreases i,
    {
        if i > 0 {
            Self::lemma_lookup_first_match(s.drop_first(), holder, i - 1);
        }
    }

    proof fn lemma_lookup_no_match(s: Seq<(u64, u64)>, holder: u64)
        requires
            forall|j: int| 0 <= j < s.len() ==> s[j].0 != holder,
        ensures
            Self::lookup(s, holder) == 0,
        decreases s.len(),
    {
        if s.len() > 0 {
            Self::lemma_lookup_no_match(s.drop_first(), holder);
        }
    }

    /// Rewriting the amount at the first entry for `holder` changes the
    /// balance of `holder` alone.
    proof fn lemma_lookup_update(s: Seq<(u64, u64)>, holder: u64, i: int, amount: u64, q: u64)
        requires
            0 <= i < s.len(),
            s[i].0 == holder,
            forall|j: int| 0 <= j < i ==> s[j].0 != holder,
        ensures
            Self::lookup(s.update(i, (holder, amount)), q) == if q == holder {
                amount
            } else {
                Self::lookup(s, q)
            },
        decreases i,
    {
        let t = s.update(i, (holder, amount));
        if i == 0 {
            assert(t.drop_first() =~= s.drop_first());
            if q != holder {
                assert(Self::lookup(t, q) == Self::lookup(s, q));
            }
        } else {
            assert(t.drop_first() =~= s.drop_first().update(i - 1, (holder, amount)));
            Self::lemma_lookup_update(s.drop_first(), holder, i - 1, amount, q);
        }
    }

    /// Appending an entry for a holder the book does not know changes the
    /// balance of that holder alone.
    proof fn lemma_lookup_push(s: Seq<(u64, u64)>, holder: u64, amount: u64, q: u64)
        requires
            forall|j: int| 0 <= j < s.len() ==> s[j].0 != holder,
        ensures
            Self::lookup(s.push((holder, amount)), q) == if q == holder {
                amount
            } else {
                Self::lookup(s, q)
            },
        decreases s.len(),
    {
        let t = s.push((holder, amount));
        if s.len() == 0 {
            assert(t.drop_first() =~= Seq::<(u64, u64)>::empty());
            if q == holder {
                assert(Self::lookup(t, q) == amount);
            } else {
                Self::lemma_lookup_no_match(t, q);
                Self::lemma_lookup_no_match(s, q);
            }
        } else {
            assert(t.drop_first() =~= s.drop_first().push((holder, amount)));
            Self::lemma_lookup_push(s.drop_first(), holder, amount, q);
        }
    }

    /// An empty book: every holder's balance is zero.
    pub fn new() -> (r: AssetLedger)
        ensures
            forall|h: u64| r.spec_balance(h) == 0,
    {
        let r = AssetLedger { entries: Vec::new() };
        proof {
            assert forall|h: u64| r.spec_balance(h) == 0 by {
                Self::lemma_lookup_no_match(r.entries@, h);
            }
        }
        r
    }

    /// Index of the first entry for `holder`, if the book has one.
    fn find(&self, holder: u64) -> (r: Option<usize>)
        ensures
            match r {
                Some(i) => i < self.entries@.len() && self.entries@[i as int].0 == holder
                    && forall|j: int| 0 <= j < i ==> self.entries@[j].0 != holder,
                None => forall|j: int|
                    0 <= j < self.entries@.len() ==> self.entries@[j].0 != holder,
            },
    {
        let mut i: usize = 0;
        while i < self.entries.len()
            invariant
                i <= self.entries@.len(),
                forall|j: int| 0 <= j < i ==> self.entries@[j].0 != holder,
            decreases self.entries@.len() - i,
        {
            if self.entries[i].0 == holder {
                return Some(i);
            }
            i = i + 1;
        }
        None
    }

    /// Current balance of `holder`.
    pub fn balance(&self, holder: u64) -> (r: u64)
        ensures
            r == self.spec_balance(holder),
    {
        match self.find(holder) {
            Some(i) => {
                proof {
                    Self::lemma_lookup_first_match(self.entries@, holder, i as int);
                }
                self.entries[i].1
            },
            None => {
                proof {
                    Self::lemma_lookup_no_match(self.entries@, holder);
                }
                0
            },
        }
    }

    /// Overwrite the balance of `holder`, leaving every other balance as it
    /// was.
    fn set_balance(&mut self, holder: u64, amount: u64)
        ensures
            final(self).spec_balance(holder) == amount,
            forall|q: u64|
                q != holder ==> final(self).spec_balance(q) == old(self).spec_balance(q),
    {
        match self.find(holder) {
            Some(i) => {
                let ghost s0 = self.entries@;
                self.entries.set(i, (holder, amount));
                proof {
                    assert forall|q: u64| #![auto]
                        self.spec_balance(q) == if q == holder {
                            amount
                        } else {
                            old(self).spec_balance(q)
                        } by {
                        Self::lemma_lookup_update(s0, holder, i as int, amount, q);
                    }
                }
            },
            None => {
                let ghost s0 = self.entries@;
                self.entries.push((holder, amount));
                proof {
                    assert forall|q: u64| #![auto]
                        self.spec_balance(q) == if q == holder {
                            amount
                        } else {
                            old(self).spec_balance(q)
                        } by {
                        Self::lemma_lookup_push(s0, holder, amount, q);
                    }
                }
            },
        }
    }

    /// Credit `amount` to `holder` out of thin air (the issuing side of the
    /// external asset, used to seed balances).
    pub fn mint(&mut self, holder: u64, amount: u64)
        requires
            old(self).spec_balance(holder) + amount <= u64::MAX,
        ensures
            final(self).spec_balance(holder) == old(self).spec_balance(holder) + amount,
            forall|q: u64|
                q != holder ==> final(self).spec_balance(q) == old(self).spec_balance(q),
    {
        let b = self.balance(holder);
        self.set_balance(holder, b + amount);
    }

    /// Move `amount` from `from` to `to`, atomically: on any failure no
    /// balance changes. Fails exactly when `from` lacks the funds or the
    /// credit to `to` would overflow.
    pub fn transfer(&mut self, from: u64, to: u64, amount: u64) -> (r: Result<(), OracleError>)
        ensures
            r == Ok::<(), OracleError>(()) <==> Self::transfer_admissible(
                *old(self),
                from,
                to,
                amount,
            ),
            r is Err ==> r == Err::<(), OracleError>(OracleError::TransferFailed)
                && forall|q: u64| final(self).spec_balance(q) == old(self).spec_balance(q),
            r is Ok && from != to ==> final(self).spec_balance(from) == old(self).spec_balance(
                from,
            ) - amount && final(self).spec_balance(to) == old(self).spec_balance(to) + amount
                && forall|q: u64|
                q != from && q != to ==> final(self).spec_balance(q) == old(self).spec_balance(q),
            r is Ok && from == to ==> forall|q: u64|
                final(self).spec_balance(q) == old(self).spec_balance(q),
    {
        let bf = self.balance(from);
        if bf < amount {
            return Err(OracleError::TransferFailed);
        }
        if from == to {
            return Ok(());
        }
        let bt = self.balance(to);
        if bt > u64::MAX - amount {
            return Err(OracleError::TransferFailed);
        }
        self.set_balance(from, bf - amount);
        self.set_balance(to, bt + amount);
        Ok(())
    }

    /// Two ledgers agree on every holder's balance.
    pub open spec fn same_balances(a: AssetLedger, b: AssetLedger) -> bool {
        forall|q: u64| a.spec_balance(q) == b.spec_balance(q)
    }

    /// When a transfer goes through: the debtor has the funds, and the credit
    /// fits in the recipient's balance.
    pub open spec fn transfer_admissible(
        pre: AssetLedger,
        from: u64,
        to: u64,
        amount: u64,
    ) -> bool {
        pre.spec_balance(from) >= amount && (from == to || pre.spec_balance(to) + amount
            <= u64::MAX)
    }
}

} // verus!
