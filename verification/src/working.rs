//! A working copy of a ledger that copies an account on first touch.
//!
//! Block assembly and block application both try transfers one after another
//! without changing the ledger they start from. The working copy holds only
//! the accounts that a transfer has changed; every other account is read from
//! the ledger underneath. Its model is the map of the changed accounts, and
//! the ledger it stands for is the ledger underneath with that map laid over
//! it.

use crate::account::{account_at, empty_ledger, ledger_get, ledger_put, Account, AccountMap};
use crate::transfer::{apply_transfer, check_transfer, settle, transfer_fault, TransferError, TransferTx};
use vstd::prelude::*;

verus! {

/// The accounts changed so far, over a ledger that stays as it is.
#[derive(Debug)]
pub struct WorkingLedger {
    /// The changed accounts in their present state.
    changed: AccountMap,
    /// The ids of the changed accounts, in the order in which they were
    /// touched. An id may occur more than once.
    touched: Vec<u32>,
}

impl View for WorkingLedger {
    type V = Map<u32, Account>;

    closed spec fn view(&self) -> Map<u32, Account> {
        self.changed@
    }
}

impl WorkingLedger {
    /// Every changed account is listed as touched.
    #[verifier::type_invariant]
    spec fn listed(self) -> bool {
        forall|id: u32| self.changed@.contains_key(id) ==> self.touched@.contains(id)
    }

    /// The ledger that the working copy stands for, over `base`.
    pub open spec fn over(&self, base: Map<u32, Account>) -> Map<u32, Account> {
        base.union_prefer_right(self@)
    }

    /// A working copy in which nothing has changed yet.
    pub fn new() -> (fresh: WorkingLedger)
        ensures
            fresh@ == Map::<u32, Account>::empty(),
            forall|base: Map<u32, Account>| #[trigger] fresh.over(base) == base,
    {
        let fresh = WorkingLedger { changed: empty_ledger(), touched: Vec::new() };
        assert forall|base: Map<u32, Account>| #[trigger] fresh.over(base) == base by {
            assert(fresh.over(base) =~= base);
        }
        fresh
    }

    /// The present state of account `id`.
    pub fn get(&self, base: &AccountMap, id: u32) -> (found: Option<Account>)
        ensures
            found == account_at(self.over(base@), id),
    {
        match ledger_get(&self.changed, id) {
            Some(account) => Some(account),
            None => ledger_get(base, id),
        }
    }

    /// The fault, if any, that keeps `tx` from being applied to the present
    /// state.
    pub fn fault(&self, base: &AccountMap, tx: &TransferTx) -> (fault: Option<TransferError>)
        ensures
            fault == transfer_fault(self.over(base@), *tx),
    {
        let sender = self.get(base, tx.from);
        let recipient = self.get(base, tx.to);
        check_transfer(sender, recipient, tx)
    }

    /// Applies a transfer to the present state, if the present state can
    /// take it, and says why not if it cannot.
    pub fn apply(&mut self, base: &AccountMap, tx: &TransferTx) -> (fault: Option<TransferError>)
        ensures
            fault == transfer_fault(old(self).over(base@), *tx),
            fault is Some ==> final(self)@ == old(self)@,
            fault is None ==> final(self).over(base@) == apply_transfer(old(self).over(base@), *tx),
            fault is None ==> final(self)@.dom() == old(self)@.dom().insert(tx.from).insert(tx.to),
    {
        proof {
            use_type_invariant(&*self);
        }
        let sender = self.get(base, tx.from);
        let recipient = self.get(base, tx.to);
        let settled = match (sender, recipient) {
            (Some(payer), Some(payee)) => settle(payer, payee, tx),
            _ => None,
        };
        let (paid, received) = match settled {
            Some(pair) => pair,
            None => {
                return check_transfer(sender, recipient, tx);
            },
        };
        let ghost before = self.over(base@);
        let mut taken = WorkingLedger::new();
        std::mem::swap(self, &mut taken);
        let WorkingLedger { changed, touched } = taken;
        let mut changed = changed;
        let mut touched = touched;
        ledger_put(&mut changed, tx.from, paid);
        ledger_put(&mut changed, tx.to, received);
        touched.push(tx.from);
        touched.push(tx.to);
        proof {
            let grown = old(self).touched@.push(tx.from).push(tx.to);
            assert(touched@ == grown);
            assert forall|id: u32| changed@.contains_key(id) implies touched@.contains(id) by {
                if old(self).touched@.contains(id) {
                    let at = choose|i: int|
                        0 <= i < old(self).touched@.len() && old(self).touched@[i] == id;
                    assert(grown[at] == id);
                }
                assert(grown[grown.len() - 2] == tx.from);
                assert(grown[grown.len() - 1] == tx.to);
            }
            assert(base@.union_prefer_right(changed@) =~= apply_transfer(before, *tx));
            assert(changed@.dom() =~= old(self)@.dom().insert(tx.from).insert(tx.to));
        }
        *self = WorkingLedger { changed, touched };
        None
    }

    /// Writes every changed account into `accounts`, the ledger underneath.
    pub fn commit(&self, accounts: &mut AccountMap)
        ensures
            final(accounts)@ == self.over(old(accounts)@),
    {
        proof {
            use_type_invariant(self);
        }
        let ghost base = accounts@;
        let mut at: usize = 0;
        while at < self.touched.len()
            invariant
                at <= self.touched.len(),
                forall|id: u32| accounts@.contains_key(id) <==> base.contains_key(id) || (
                self.changed@.contains_key(id) && self.touched@.take(at as int).contains(id)),
                forall|id: u32| #[trigger]
                    accounts@.contains_key(id) ==> accounts@[id] == (if self.changed@.contains_key(
                        id,
                    ) && self.touched@.take(at as int).contains(id) {
                        self.changed@[id]
                    } else {
                        base[id]
                    }),
            decreases self.touched.len() - at,
        {
            let id: u32 = self.touched[at];
            let ghost done = self.touched@.take(at as int);
            let ghost next = self.touched@.take(at + 1);
            proof {
                assert(next == done.push(id));
                assert forall|other: u32| next.contains(other) <==> (done.contains(other) || other
                    == id) by {
                    if done.contains(other) {
                        let i = choose|i: int| 0 <= i < done.len() && done[i] == other;
                        assert(next[i] == other);
                    }
                    assert(next[at as int] == id);
                }
            }
            match ledger_get(&self.changed, id) {
                Some(account) => {
                    ledger_put(accounts, id, account);
                },
                None => {},
            }
            at = at + 1;
        }
        proof {
            assert(self.touched@.take(at as int) == self.touched@);
            assert(accounts@ =~= self.over(base));
        }
    }

    /// The changed accounts in their present state.
    pub fn into_changes(self) -> (changed: AccountMap)
        ensures
            changed@ == self@,
    {
        self.changed
    }
}

} // verus!
