//! What holds of every assembly, proved from its definition.

use crate::account::Account;
use crate::assembly::{
    assembled, assembly_step, decision_at, pick_spec, residual, TransactionPickerResponse,
};
use crate::pool::InPoolTransaction;
use vstd::prelude::*;

verus! {

/// The four lists of an assembly hold the transactions of the queue, each as
/// often as the queue holds it: none is lost and none is doubled.
pub proof fn lemma_assembly_parts_the_queue(
    queue: Seq<InPoolTransaction>,
    ledger: Map<u32, Account>,
    now: u64,
    capacity: usize,
)
    ensures
        ({
            let outcome = assembled(queue, ledger, now, capacity).response;
            &&& outcome.included.to_multiset().add(
                outcome.valid_but_not_included.to_multiset(),
            ).add(outcome.temporary_rejected.to_multiset()).add(
                outcome.completely_rejected.to_multiset(),
            ) == queue.to_multiset()
            &&& outcome.included.len() + outcome.valid_but_not_included.len()
                + outcome.temporary_rejected.len() + outcome.completely_rejected.len()
                == queue.len()
        }),
    decreases queue.len(),
{
    broadcast use vstd::seq_lib::group_to_multiset_ensures;

    let outcome = assembled(queue, ledger, now, capacity).response;
    let parts = outcome.included.to_multiset().add(
        outcome.valid_but_not_included.to_multiset(),
    ).add(outcome.temporary_rejected.to_multiset()).add(outcome.completely_rejected.to_multiset());
    if queue.len() == 0 {
        assert(parts =~= queue.to_multiset());
    } else {
        let shorter = queue.drop_last();
        lemma_assembly_parts_the_queue(shorter, ledger, now, capacity);
        assert(queue == shorter.push(queue.last()));
        assert(parts =~= queue.to_multiset());
    }
}

/// A block never holds more transactions than its capacity.
pub proof fn lemma_block_within_capacity(
    queue: Seq<InPoolTransaction>,
    ledger: Map<u32, Account>,
    now: u64,
    capacity: usize,
)
    ensures
        assembled(queue, ledger, now, capacity).response.included.len() <= capacity,
    decreases queue.len(),
{
    if queue.len() > 0 {
        lemma_block_within_capacity(queue.drop_last(), ledger, now, capacity);
    }
}

/// The decision for a position depends on the queue up to that position
/// only.
pub proof fn lemma_decision_ignores_later(
    queue: Seq<InPoolTransaction>,
    ledger: Map<u32, Account>,
    now: u64,
    capacity: usize,
    upto: int,
    at: int,
)
    requires
        0 <= at < upto <= queue.len(),
    ensures
        decision_at(queue.take(upto), ledger, now, capacity, at) == decision_at(
            queue,
            ledger,
            now,
            capacity,
            at,
        ),
{
    assert(queue.take(upto).take(at) == queue.take(at));
}

/// The transaction at a position lands in the list that its decision names,
/// and the decision carries that transaction.
pub proof fn lemma_decision_lands(
    queue: Seq<InPoolTransaction>,
    ledger: Map<u32, Account>,
    now: u64,
    capacity: usize,
    at: int,
)
    requires
        0 <= at < queue.len(),
    ensures
        ({
            let outcome = assembled(queue, ledger, now, capacity).response;
            match decision_at(queue, ledger, now, capacity, at) {
                TransactionPickerResponse::Included(entry) => entry == queue[at]
                    && outcome.included.contains(entry),
                TransactionPickerResponse::ValidButNotIncluded(entry) => entry == queue[at]
                    && outcome.valid_but_not_included.contains(entry),
                TransactionPickerResponse::TemporaryRejected(entry) => entry == queue[at]
                    && outcome.temporary_rejected.contains(entry),
                TransactionPickerResponse::RejectedCompletely(entry) => entry == queue[at]
                    && outcome.completely_rejected.contains(entry),
            }
        }),
    decreases queue.len(),
{
    let shorter = queue.drop_last();
    let before = assembled(shorter, ledger, now, capacity);
    let outcome = assembled(queue, ledger, now, capacity).response;
    if at == queue.len() - 1 {
        assert(queue.take(at) == shorter);
        match decision_at(queue, ledger, now, capacity, at) {
            TransactionPickerResponse::Included(entry) => {
                assert(outcome.included[outcome.included.len() - 1] == entry);
            },
            TransactionPickerResponse::ValidButNotIncluded(entry) => {
                assert(outcome.valid_but_not_included[outcome.valid_but_not_included.len() - 1]
                    == entry);
            },
            TransactionPickerResponse::TemporaryRejected(entry) => {
                assert(outcome.temporary_rejected[outcome.temporary_rejected.len() - 1] == entry);
            },
            TransactionPickerResponse::RejectedCompletely(entry) => {
                assert(outcome.completely_rejected[outcome.completely_rejected.len() - 1]
                    == entry);
            },
        }
    } else {
        lemma_decision_lands(shorter, ledger, now, capacity, at);
        assert(shorter.take(at) == queue.take(at));
        assert(shorter[at] == queue[at]);
        let earlier = before.response;
        match decision_at(queue, ledger, now, capacity, at) {
            TransactionPickerResponse::Included(entry) => {
                let i = choose|i: int| 0 <= i < earlier.included.len() && earlier.included[i] == entry;
                assert(outcome.included[i] == entry);
            },
            TransactionPickerResponse::ValidButNotIncluded(entry) => {
                let i = choose|i: int|
                    0 <= i < earlier.valid_but_not_included.len()
                        && earlier.valid_but_not_included[i] == entry;
                assert(outcome.valid_but_not_included[i] == entry);
            },
            TransactionPickerResponse::TemporaryRejected(entry) => {
                let i = choose|i: int|
                    0 <= i < earlier.temporary_rejected.len() && earlier.temporary_rejected[i]
                        == entry;
                assert(outcome.temporary_rejected[i] == entry);
            },
            TransactionPickerResponse::RejectedCompletely(entry) => {
                let i = choose|i: int|
                    0 <= i < earlier.completely_rejected.len() && earlier.completely_rejected[i]
                        == entry;
                assert(outcome.completely_rejected[i] == entry);
            },
        }
    }
}

/// Whatever is included, held back for want of room, or rejected for now is
/// not stale.
pub proof fn lemma_only_rejected_are_stale(
    queue: Seq<InPoolTransaction>,
    ledger: Map<u32, Account>,
    now: u64,
    capacity: usize,
)
    ensures
        ({
            let outcome = assembled(queue, ledger, now, capacity).response;
            &&& forall|i: int|
                0 <= i < outcome.included.len() ==> !(#[trigger] outcome.included[i]).stale_at(now)
            &&& forall|i: int|
                0 <= i < outcome.valid_but_not_included.len() ==> !(
                #[trigger] outcome.valid_but_not_included[i]).stale_at(now)
            &&& forall|i: int|
                0 <= i < outcome.temporary_rejected.len() ==> !(
                #[trigger] outcome.temporary_rejected[i]).stale_at(now)
        }),
    decreases queue.len(),
{
    if queue.len() > 0 {
        lemma_only_rejected_are_stale(queue.drop_last(), ledger, now, capacity);
        let before = assembled(queue.drop_last(), ledger, now, capacity);
        let earlier = before.response;
        let outcome = assembled(queue, ledger, now, capacity).response;
        let here = pick_spec(
            before.ledger,
            queue.last(),
            now,
            earlier.included.len() < capacity,
        );
        assert forall|i: int| 0 <= i < outcome.included.len() implies !(
        #[trigger] outcome.included[i]).stale_at(now) by {
            if here is Included && i == earlier.included.len() {
            } else {
                assert(outcome.included[i] == earlier.included[i]);
            }
        }
        assert forall|i: int| 0 <= i < outcome.valid_but_not_included.len() implies !(
        #[trigger] outcome.valid_but_not_included[i]).stale_at(now) by {
            if here is ValidButNotIncluded && i == earlier.valid_but_not_included.len() {
            } else {
                assert(outcome.valid_but_not_included[i] == earlier.valid_but_not_included[i]);
            }
        }
        assert forall|i: int| 0 <= i < outcome.temporary_rejected.len() implies !(
        #[trigger] outcome.temporary_rejected[i]).stale_at(now) by {
            if here is TemporaryRejected && i == earlier.temporary_rejected.len() {
            } else {
                assert(outcome.temporary_rejected[i] == earlier.temporary_rejected[i]);
            }
        }
    }
}

/// A transaction that is past its lifetime is rejected completely, whatever
/// the ledger would say of it, and is in no other list.
pub proof fn lemma_stale_is_rejected_completely(
    queue: Seq<InPoolTransaction>,
    ledger: Map<u32, Account>,
    now: u64,
    capacity: usize,
    at: int,
)
    requires
        0 <= at < queue.len(),
        queue[at].stale_at(now),
    ensures
        decision_at(queue, ledger, now, capacity, at) == TransactionPickerResponse::RejectedCompletely(
            queue[at],
        ),
        ({
            let outcome = assembled(queue, ledger, now, capacity).response;
            &&& outcome.completely_rejected.contains(queue[at])
            &&& !outcome.included.contains(queue[at])
            &&& !outcome.valid_but_not_included.contains(queue[at])
            &&& !outcome.temporary_rejected.contains(queue[at])
        }),
{
    lemma_decision_lands(queue, ledger, now, capacity, at);
    lemma_only_rejected_are_stale(queue, ledger, now, capacity);
}

/// As long as no transaction has been held back for want of room, a larger
/// capacity changes nothing.
pub proof fn lemma_same_until_first_held_back(
    queue: Seq<InPoolTransaction>,
    ledger: Map<u32, Account>,
    now: u64,
    capacity: usize,
    larger: usize,
    upto: int,
)
    requires
        0 <= upto <= queue.len(),
        capacity <= larger,
        forall|j: int|
            0 <= j < upto ==> !(#[trigger] decision_at(queue, ledger, now, capacity, j)
                is ValidButNotIncluded),
    ensures
        assembled(queue.take(upto), ledger, now, larger) == assembled(
            queue.take(upto),
            ledger,
            now,
            capacity,
        ),
    decreases upto,
{
    if upto > 0 {
        lemma_same_until_first_held_back(queue, ledger, now, capacity, larger, upto - 1);
        assert(queue.take(upto).drop_last() == queue.take(upto - 1));
        assert(queue.take(upto).last() == queue[upto - 1]);
        let before = assembled(queue.take(upto - 1), ledger, now, capacity);
        let here = decision_at(queue, ledger, now, capacity, upto - 1);
        assert(!(here is ValidButNotIncluded));
        assert(here == pick_spec(
            before.ledger,
            queue[upto - 1],
            now,
            before.response.included.len() < capacity,
        ));
        assert(assembly_step(before, queue[upto - 1], now, larger) == assembly_step(
            before,
            queue[upto - 1],
            now,
            capacity,
        ));
    }
}

/// The first transaction that is held back for want of room is included as
/// soon as the block takes one transaction more, the queue, the ledger and
/// the time being the same.
pub proof fn lemma_first_held_back_is_included_with_more_room(
    queue: Seq<InPoolTransaction>,
    ledger: Map<u32, Account>,
    now: u64,
    capacity: usize,
    larger: usize,
    at: int,
)
    requires
        0 <= at < queue.len(),
        decision_at(queue, ledger, now, capacity, at) is ValidButNotIncluded,
        forall|j: int|
            0 <= j < at ==> !(#[trigger] decision_at(queue, ledger, now, capacity, j)
                is ValidButNotIncluded),
        larger >= capacity + 1,
    ensures
        decision_at(queue, ledger, now, larger, at) == TransactionPickerResponse::Included(
            queue[at],
        ),
        assembled(queue, ledger, now, larger).response.included.contains(queue[at]),
{
    lemma_same_until_first_held_back(queue, ledger, now, capacity, larger, at);
    lemma_block_within_capacity(queue.take(at), ledger, now, capacity);
    lemma_decision_lands(queue, ledger, now, larger, at);
}

/// With more room a block loses nothing: what a block of some capacity
/// includes is the beginning of what a block of a larger capacity includes,
/// and as long as the smaller block is not full the two assemblies agree on
/// the included and on the ledger.
pub proof fn lemma_more_room_keeps_the_included(
    queue: Seq<InPoolTransaction>,
    ledger: Map<u32, Account>,
    now: u64,
    capacity: usize,
    larger: usize,
)
    requires
        capacity <= larger,
    ensures
        ({
            let tight = assembled(queue, ledger, now, capacity);
            let wide = assembled(queue, ledger, now, larger);
            &&& tight.response.included.is_prefix_of(wide.response.included)
            &&& tight.response.included.len() < capacity ==> tight.ledger == wide.ledger
                && tight.response.included == wide.response.included
        }),
    decreases queue.len(),
{
    if queue.len() > 0 {
        let shorter = queue.drop_last();
        lemma_more_room_keeps_the_included(shorter, ledger, now, capacity, larger);
        lemma_block_within_capacity(shorter, ledger, now, capacity);
        let tight_before = assembled(shorter, ledger, now, capacity);
        let wide_before = assembled(shorter, ledger, now, larger);
        let tight = assembled(queue, ledger, now, capacity);
        let wide = assembled(queue, ledger, now, larger);
        if tight_before.response.included.len() < capacity {
            assert(tight.response.included == wide.response.included);
        } else {
            assert(tight.response.included == tight_before.response.included);
            assert(forall|i: int|
                0 <= i < wide_before.response.included.len() ==> wide.response.included[i]
                    == wide_before.response.included[i]);
        }
    }
}

/// What still waits after an assembly is what was held back for want of room
/// and what was rejected for now, and the included as well unless a block is
/// sealed: each as often as the lists hold it.
pub proof fn lemma_residual_holds_what_waits(
    queue: Seq<InPoolTransaction>,
    ledger: Map<u32, Account>,
    now: u64,
    capacity: usize,
    sealing: bool,
)
    ensures
        ({
            let outcome = assembled(queue, ledger, now, capacity).response;
            let kept = outcome.valid_but_not_included.to_multiset().add(
                outcome.temporary_rejected.to_multiset(),
            );
            residual(queue, ledger, now, capacity, sealing).to_multiset() == (if sealing {
                kept
            } else {
                kept.add(outcome.included.to_multiset())
            })
        }),
    decreases queue.len(),
{
    broadcast use vstd::seq_lib::group_to_multiset_ensures;

    let outcome = assembled(queue, ledger, now, capacity).response;
    let kept = outcome.valid_but_not_included.to_multiset().add(
        outcome.temporary_rejected.to_multiset(),
    );
    let waits = residual(queue, ledger, now, capacity, sealing).to_multiset();
    if queue.len() == 0 {
        assert(waits =~= kept);
        assert(waits =~= kept.add(outcome.included.to_multiset()));
    } else {
        let shorter = queue.drop_last();
        lemma_residual_holds_what_waits(shorter, ledger, now, capacity, sealing);
        assert(queue.take(queue.len() - 1) == shorter);
        if sealing {
            assert(waits =~= kept);
        } else {
            assert(waits =~= kept.add(outcome.included.to_multiset()));
        }
    }
}

} // verus!
