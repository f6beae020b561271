//! What holds of every log that the pipeline keeps, proved from the
//! definition of a log that is in order.

use crate::block::BlockNumber;
use crate::operation::{record_of, ActionType, OperationRecord, StoredOperation};
use crate::pipeline::{
    commit_stands_before, entry_fault, in_order, logged, replayed, stage_in, BlockStage,
};
use vstd::prelude::*;

verus! {

/// A record that nothing keeps from the log leaves the log in order.
pub proof fn lemma_entry_keeps_order(log: Seq<OperationRecord>, record: OperationRecord)
    requires
        in_order(log),
        entry_fault(log, record) is None,
    ensures
        in_order(log.push(record)),
{
    let longer = log.push(record);
    assert forall|i: int, j: int| 0 <= i < j < longer.len() implies (#[trigger] longer[i]).id < (
    #[trigger] longer[j]).id by {
        if j == log.len() {
            assert(log[i].id <= log.last().id) by {
                if i < log.len() - 1 {
                    assert(log[i].id < log[log.len() - 1].id);
                }
            }
        } else {
            assert(log[i].id < log[j].id);
        }
    }
    assert forall|i: int, j: int|
        0 <= i < j < longer.len() && (#[trigger] longer[i]).block_number == (
        #[trigger] longer[j]).block_number implies longer[i].action_type
        != longer[j].action_type by {
        if j == log.len() {
            if log[i].action_type == record.action_type {
                assert(logged(log, record.block_number, record.action_type));
            }
        } else {
            assert(log[i].block_number == log[j].block_number);
        }
    }
    assert forall|j: int|
        0 <= j < longer.len() && longer[j].action_type
            == ActionType::Verify implies #[trigger] commit_stands_before(longer, j) by {
        if j == log.len() {
            let i = choose|i: int|
                0 <= i < log.len() && (#[trigger] log[i]).block_number == record.block_number
                    && log[i].action_type == ActionType::Commit;
            assert(longer[i].block_number == longer[j].block_number);
        } else {
            assert(log[j].action_type == ActionType::Verify);
            assert(commit_stands_before(log, j));
            let i = choose|i: int|
                0 <= i < j && (#[trigger] log[i]).block_number == log[j].block_number
                    && log[i].action_type == ActionType::Commit;
            assert(longer[i].block_number == longer[j].block_number);
        }
    }
}

/// Logging a record moves its block one stage on and leaves the stage of
/// every other block.
pub proof fn lemma_entry_advances_one_block(
    log: Seq<OperationRecord>,
    record: OperationRecord,
    other: BlockNumber,
)
    requires
        in_order(log),
        entry_fault(log, record) is None,
    ensures
        record.action_type == ActionType::Commit ==> stage_in(log, record.block_number)
            == BlockStage::Pending && stage_in(log.push(record), record.block_number)
            == BlockStage::Committed,
        record.action_type == ActionType::Verify ==> stage_in(log, record.block_number)
            == BlockStage::Committed && stage_in(log.push(record), record.block_number)
            == BlockStage::Verified,
        other != record.block_number ==> stage_in(log.push(record), other) == stage_in(log, other),
{
    let longer = log.push(record);
    assert(longer[log.len() as int] == record);
    assert forall|block_number: BlockNumber, kind: ActionType|
        logged(longer, block_number, kind) <==> (logged(log, block_number, kind) || (
        record.block_number == block_number && record.action_type == kind)) by {
        if logged(log, block_number, kind) {
            let i = choose|i: int|
                0 <= i < log.len() && (#[trigger] log[i]).block_number == block_number
                    && log[i].action_type == kind;
            assert(longer[i] == log[i]);
        }
        if logged(longer, block_number, kind) {
            let i = choose|i: int|
                0 <= i < longer.len() && (#[trigger] longer[i]).block_number == block_number
                    && longer[i].action_type == kind;
            if i < log.len() {
                assert(log[i] == longer[i]);
            }
        }
    }
    if record.action_type == ActionType::Commit {
        if logged(log, record.block_number, ActionType::Verify) {
            let j = choose|j: int|
                0 <= j < log.len() && (#[trigger] log[j]).block_number == record.block_number
                    && log[j].action_type == ActionType::Verify;
            assert(commit_stands_before(log, j));
            let i = choose|i: int|
                0 <= i < j && (#[trigger] log[i]).block_number == log[j].block_number
                    && log[i].action_type == ActionType::Commit;
            assert(logged(log, record.block_number, ActionType::Commit));
        }
    }
}

/// In a log that is in order, the commit of a block stands before its
/// verification and has the smaller id.
pub proof fn lemma_commit_precedes_verify(log: Seq<OperationRecord>, at: int)
    requires
        in_order(log),
        0 <= at < log.len(),
        log[at].action_type == ActionType::Verify,
    ensures
        exists|i: int|
            0 <= i < at && (#[trigger] log[i]).block_number == log[at].block_number
                && log[i].action_type == ActionType::Commit && log[i].id < log[at].id,
{
    assert(commit_stands_before(log, at));
    let i = choose|i: int|
        0 <= i < at && (#[trigger] log[i]).block_number == log[at].block_number
            && log[i].action_type == ActionType::Commit;
    assert(log[i].id < log[at].id);
}

/// Rows that can be replayed give a log that is in order, one record for
/// each row.
pub proof fn lemma_replay_is_in_order(rows: Seq<StoredOperation>)
    requires
        replayed(rows) is Ok,
    ensures
        in_order(replayed(rows)->Ok_0),
        replayed(rows)->Ok_0.len() == rows.len(),
        forall|i: int|
            0 <= i < rows.len() ==> record_of(#[trigger] rows[i]) == Some(replayed(rows)->Ok_0[i]),
    decreases rows.len(),
{
    if rows.len() > 0 {
        let shorter = rows.drop_last();
        lemma_replay_is_in_order(shorter);
        let log = replayed(shorter)->Ok_0;
        let record = record_of(rows.last())->Some_0;
        lemma_entry_keeps_order(log, record);
        assert forall|i: int| 0 <= i < rows.len() implies record_of(#[trigger] rows[i]) == Some(
            replayed(rows)->Ok_0[i],
        ) by {
            if i < rows.len() - 1 {
                assert(shorter[i] == rows[i]);
            }
        }
    }
}

/// Once a row is wrong, the rows after it do not matter.
pub proof fn lemma_replay_stops_at_first_fault(rows: Seq<StoredOperation>, upto: int)
    requires
        0 <= upto <= rows.len(),
        replayed(rows.take(upto)) is Err,
    ensures
        replayed(rows) == replayed(rows.take(upto)),
    decreases rows.len() - upto,
{
    if upto < rows.len() {
        assert(rows.take(upto + 1).drop_last() == rows.take(upto));
        lemma_replay_stops_at_first_fault(rows, upto + 1);
    } else {
        assert(rows.take(upto) == rows);
    }
}

/// The verification of a committed block, whenever it is logged, stands
/// after the commit of that block and has the larger id: the commit is
/// handed out for dispatch first.
pub proof fn lemma_open_commit_goes_first(log: Seq<OperationRecord>, verification: OperationRecord)
    requires
        in_order(log),
        stage_in(log, verification.block_number) == BlockStage::Committed,
        verification.action_type == ActionType::Verify,
        entry_fault(log, verification) is None,
    ensures
        in_order(log.push(verification)),
        exists|i: int|
            0 <= i < log.len() && (#[trigger] log[i]).block_number == verification.block_number
                && log[i].action_type == ActionType::Commit && log[i].id < verification.id,
{
    lemma_entry_keeps_order(log, verification);
    let i = choose|i: int|
        0 <= i < log.len() && (#[trigger] log[i]).block_number == verification.block_number
            && log[i].action_type == ActionType::Commit;
    assert(log[i].id <= log.last().id) by {
        if i < log.len() - 1 {
            assert(log[i].id < log[log.len() - 1].id);
        }
    }
}

} // verus!
