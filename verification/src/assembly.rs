//! Block assembly: the four-way classification of a queue against a ledger.
//!
//! The queue is walked once, in its order. Each transaction is judged against
//! the ledger as the transactions included before it have left it, and lands
//! in exactly one of four lists. Nothing is read but the queue, the ledger,
//! the time and the capacity, and the ledger is left as it was.
//!
//! The capacity of a block is counted in transactions: every transaction
//! weighs one.

use crate::account::{ids_put, Account, AccountMap, AccountSet};
use crate::assembly_proofs::{
    lemma_assembly_parts_the_queue, lemma_block_within_capacity, lemma_stale_is_rejected_completely,
};
use crate::pool::InPoolTransaction;
use crate::transfer::{apply_transfer, transfer_fault};
use crate::working::WorkingLedger;
use fnv::FnvHashSet;
use vstd::prelude::*;

verus! {

/// What assembly decides for one transaction.
#[derive(Clone, Copy, Debug, PartialEq, Eq)]
pub enum TransactionPickerResponse {
    /// The ledger can take it and the block has room: it is in the block.
    Included(InPoolTransaction),
    /// The ledger can take it, but the block is full.
    ValidButNotIncluded(InPoolTransaction),
    /// The ledger cannot take it now, but may later.
    TemporaryRejected(InPoolTransaction),
    /// The ledger can never take it, or it is stale.
    RejectedCompletely(InPoolTransaction),
}

/// The decision for one transaction, from the ledger as it stands, the time,
/// and whether the block still has room. Staleness is looked at first.
pub open spec fn pick_spec(
    ledger: Map<u32, Account>,
    entry: InPoolTransaction,
    now: u64,
    room: bool,
) -> TransactionPickerResponse {
    if entry.stale_at(now) {
        TransactionPickerResponse::RejectedCompletely(entry)
    } else {
        match transfer_fault(ledger, entry.transaction) {
            Some(fault) => if fault.permanent() {
                TransactionPickerResponse::RejectedCompletely(entry)
            } else {
                TransactionPickerResponse::TemporaryRejected(entry)
            },
            None => if room {
                TransactionPickerResponse::Included(entry)
            } else {
                TransactionPickerResponse::ValidButNotIncluded(entry)
            },
        }
    }
}

/// Decides for one transaction against the present state of a working copy.
pub fn pick(
    working: &WorkingLedger,
    base: &AccountMap,
    entry: InPoolTransaction,
    now: u64,
    room: bool,
) -> (decision: TransactionPickerResponse)
    ensures
        decision == pick_spec(working.over(base@), entry, now, room),
{
    if entry.is_stale(now) {
        return TransactionPickerResponse::RejectedCompletely(entry);
    }
    match working.fault(base, &entry.transaction) {
        Some(fault) => {
            if fault.is_permanent() {
                TransactionPickerResponse::RejectedCompletely(entry)
            } else {
                TransactionPickerResponse::TemporaryRejected(entry)
            }
        },
        None => {
            if room {
                TransactionPickerResponse::Included(entry)
            } else {
                TransactionPickerResponse::ValidButNotIncluded(entry)
            }
        },
    }
}

/// The outcome of an assembly: four lists that part the queue between them,
/// each in queue order, and the ids of the accounts that the included
/// transactions touch.
#[derive(Debug)]
pub struct BlockAssemblyResponse {
    pub included: Vec<InPoolTransaction>,
    pub valid_but_not_included: Vec<InPoolTransaction>,
    pub temporary_rejected: Vec<InPoolTransaction>,
    pub completely_rejected: Vec<InPoolTransaction>,
    pub affected_accounts: FnvHashSet<u32>,
}

/// The model of a [`BlockAssemblyResponse`].
pub struct BlockAssemblyView {
    pub included: Seq<InPoolTransaction>,
    pub valid_but_not_included: Seq<InPoolTransaction>,
    pub temporary_rejected: Seq<InPoolTransaction>,
    pub completely_rejected: Seq<InPoolTransaction>,
    pub affected_accounts: Set<u32>,
}

impl View for BlockAssemblyResponse {
    type V = BlockAssemblyView;

    open spec fn view(&self) -> BlockAssemblyView {
        BlockAssemblyView {
            included: self.included@,
            valid_but_not_included: self.valid_but_not_included@,
            temporary_rejected: self.temporary_rejected@,
            completely_rejected: self.completely_rejected@,
            affected_accounts: self.affected_accounts@,
        }
    }
}

/// Where an assembly stands after some transactions: the ledger as the
/// included ones have left it, and the outcome so far.
pub struct AssemblyModel {
    pub ledger: Map<u32, Account>,
    pub response: BlockAssemblyView,
}

/// An assembly before its first transaction.
pub open spec fn assembly_start(ledger: Map<u32, Account>) -> AssemblyModel {
    AssemblyModel {
        ledger,
        response: BlockAssemblyView {
            included: Seq::empty(),
            valid_but_not_included: Seq::empty(),
            temporary_rejected: Seq::empty(),
            completely_rejected: Seq::empty(),
            affected_accounts: Set::empty(),
        },
    }
}

/// An assembly after one more transaction. An included transaction is applied
/// to the ledger and its two accounts count as affected; any other leaves the
/// ledger alone.
pub open spec fn assembly_step(
    before: AssemblyModel,
    entry: InPoolTransaction,
    now: u64,
    capacity: usize,
) -> AssemblyModel {
    let so_far = before.response;
    match pick_spec(before.ledger, entry, now, so_far.included.len() < capacity) {
        TransactionPickerResponse::Included(picked) => AssemblyModel {
            ledger: apply_transfer(before.ledger, picked.transaction),
            response: BlockAssemblyView {
                included: so_far.included.push(picked),
                affected_accounts: so_far.affected_accounts.insert(picked.transaction.from).insert(
                    picked.transaction.to,
                ),
                ..so_far
            },
        },
        TransactionPickerResponse::ValidButNotIncluded(picked) => AssemblyModel {
            response: BlockAssemblyView {
                valid_but_not_included: so_far.valid_but_not_included.push(picked),
                ..so_far
            },
            ..before
        },
        TransactionPickerResponse::TemporaryRejected(picked) => AssemblyModel {
            response: BlockAssemblyView {
                temporary_rejected: so_far.temporary_rejected.push(picked),
                ..so_far
            },
            ..before
        },
        TransactionPickerResponse::RejectedCompletely(picked) => AssemblyModel {
            response: BlockAssemblyView {
                completely_rejected: so_far.completely_rejected.push(picked),
                ..so_far
            },
            ..before
        },
    }
}

/// The assembly of a whole queue against a ledger, at time `now`, into a
/// block of at most `capacity` transactions.
pub open spec fn assembled(
    queue: Seq<InPoolTransaction>,
    ledger: Map<u32, Account>,
    now: u64,
    capacity: usize,
) -> AssemblyModel
    decreases queue.len(),
{
    if queue.len() == 0 {
        assembly_start(ledger)
    } else {
        assembly_step(assembled(queue.drop_last(), ledger, now, capacity), queue.last(), now, capacity)
    }
}

/// The decision that the assembly of `queue` takes for the transaction at
/// position `at`.
pub open spec fn decision_at(
    queue: Seq<InPoolTransaction>,
    ledger: Map<u32, Account>,
    now: u64,
    capacity: usize,
    at: int,
) -> TransactionPickerResponse {
    let before = assembled(queue.take(at), ledger, now, capacity);
    pick_spec(before.ledger, queue[at], now, before.response.included.len() < capacity)
}

/// Whether a transaction with this decision still waits for a block. An
/// included one waits on unless a block is sealed from the assembly.
pub open spec fn still_waits(decision: TransactionPickerResponse, sealing: bool) -> bool {
    decision is ValidButNotIncluded || decision is TemporaryRejected || (decision is Included
        && !sealing)
}

/// The transactions of `queue` that still wait after its assembly, in queue
/// order.
pub open spec fn residual(
    queue: Seq<InPoolTransaction>,
    ledger: Map<u32, Account>,
    now: u64,
    capacity: usize,
    sealing: bool,
) -> Seq<InPoolTransaction>
    decreases queue.len(),
{
    if queue.len() == 0 {
        Seq::empty()
    } else {
        let earlier = residual(queue.drop_last(), ledger, now, capacity, sealing);
        if still_waits(decision_at(queue, ledger, now, capacity, queue.len() - 1), sealing) {
            earlier.push(queue.last())
        } else {
            earlier
        }
    }
}

/// What an assembly hands back.
#[derive(Debug)]
pub struct Assembly {
    /// The classified outcome.
    pub response: BlockAssemblyResponse,
    /// The accounts that the included transactions change, as they leave
    /// them: the change that a block of the included transactions makes to
    /// the ledger.
    pub accounts_updated: AccountMap,
    /// The transactions that still wait, in queue order.
    pub residual: Vec<InPoolTransaction>,
}

/// Assembles `queue` against `accounts` at time `now` into a block of at most
/// `capacity` transactions. With `sealing` the included transactions are
/// taken to leave the pool; without it they wait on.
pub fn assemble(
    queue: &Vec<InPoolTransaction>,
    accounts: &AccountMap,
    now: u64,
    capacity: usize,
    sealing: bool,
) -> (out: Assembly)
    ensures
        out.response@ == assembled(queue@, accounts@, now, capacity).response,
        out.accounts_updated@ == assembled(queue@, accounts@, now, capacity).ledger.restrict(
            out.response@.affected_accounts,
        ),
        out.residual@ == residual(queue@, accounts@, now, capacity, sealing),
        out.response@.included.to_multiset().add(
            out.response@.valid_but_not_included.to_multiset(),
        ).add(out.response@.temporary_rejected.to_multiset()).add(
            out.response@.completely_rejected.to_multiset(),
        ) == queue@.to_multiset(),
        out.response@.included.len() <= capacity,
        forall|at: int|
            0 <= at < queue@.len() && (#[trigger] queue@[at]).stale_at(now)
                ==> out.response@.completely_rejected.contains(queue@[at]),
{
    let mut working = WorkingLedger::new();
    let mut included: Vec<InPoolTransaction> = Vec::new();
    let mut valid_but_not_included: Vec<InPoolTransaction> = Vec::new();
    let mut temporary_rejected: Vec<InPoolTransaction> = Vec::new();
    let mut completely_rejected: Vec<InPoolTransaction> = Vec::new();
    let mut affected_accounts: AccountSet = FnvHashSet::default();
    let mut waiting: Vec<InPoolTransaction> = Vec::new();
    let mut at: usize = 0;
    proof {
        assert(queue@.take(0) =~= Seq::empty());
    }
    while at < queue.len()
        invariant
            at <= queue.len(),
            working.over(accounts@) == assembled(queue@.take(at as int), accounts@, now, capacity).ledger,
            working@.dom() == affected_accounts@,
            included@ == assembled(queue@.take(at as int), accounts@, now, capacity).response.included,
            valid_but_not_included@ == assembled(
                queue@.take(at as int),
                accounts@,
                now,
                capacity,
            ).response.valid_but_not_included,
            temporary_rejected@ == assembled(
                queue@.take(at as int),
                accounts@,
                now,
                capacity,
            ).response.temporary_rejected,
            completely_rejected@ == assembled(
                queue@.take(at as int),
                accounts@,
                now,
                capacity,
            ).response.completely_rejected,
            affected_accounts@ == assembled(
                queue@.take(at as int),
                accounts@,
                now,
                capacity,
            ).response.affected_accounts,
            waiting@ == residual(queue@.take(at as int), accounts@, now, capacity, sealing),
        decreases queue.len() - at,
    {
        let entry = queue[at];
        let decision = pick(&working, accounts, entry, now, included.len() < capacity);
        proof {
            let longer = queue@.take(at + 1);
            assert(longer.drop_last() == queue@.take(at as int));
            assert(longer.last() == entry);
            assert(longer.take(at as int) == queue@.take(at as int));
            assert(decision == decision_at(longer, accounts@, now, capacity, at as int));
        }
        match decision {
            TransactionPickerResponse::Included(picked) => {
                working.apply(accounts, &picked.transaction);
                ids_put(&mut affected_accounts, picked.transaction.from);
                ids_put(&mut affected_accounts, picked.transaction.to);
                included.push(picked);
                if !sealing {
                    waiting.push(picked);
                }
            },
            TransactionPickerResponse::ValidButNotIncluded(picked) => {
                valid_but_not_included.push(picked);
                waiting.push(picked);
            },
            TransactionPickerResponse::TemporaryRejected(picked) => {
                temporary_rejected.push(picked);
                waiting.push(picked);
            },
            TransactionPickerResponse::RejectedCompletely(picked) => {
                completely_rejected.push(picked);
            },
        }
        at = at + 1;
    }
    proof {
        assert(queue@.take(at as int) == queue@);
        let whole = assembled(queue@, accounts@, now, capacity);
        assert(working@ =~= whole.ledger.restrict(affected_accounts@));
        lemma_assembly_parts_the_queue(queue@, accounts@, now, capacity);
        lemma_block_within_capacity(queue@, accounts@, now, capacity);
        assert forall|at: int|
            0 <= at < queue@.len() && (#[trigger] queue@[at]).stale_at(
                now,
            ) implies whole.response.completely_rejected.contains(queue@[at]) by {
            lemma_stale_is_rejected_completely(queue@, accounts@, now, capacity, at);
        }
    }
    Assembly {
        response: BlockAssemblyResponse {
            included,
            valid_but_not_included,
            temporary_rejected,
            completely_rejected,
            affected_accounts,
        },
        accounts_updated: working.into_changes(),
        residual: waiting,
    }
}

} // verus!
