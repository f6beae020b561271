//! The operation pipeline: the commit-then-verify progression of each block.
//!
//! The pipeline decides; the store and the base-chain client act. It keeps the
//! log of the operations that the store has acknowledged, in the order of
//! their ids, and from it the stage of each block:
//!
//! * `Pending`: no operation of the block is in the log;
//! * `Committed`: the commit of the block is in the log, its verification is
//!   not;
//! * `Verified`: both are.
//!
//! An operation is first submitted, which only reserves its place. Its block
//! changes stage when the store acknowledges the row, and only a logged
//! operation is handed out for dispatch, oldest first. After a restart the
//! pipeline is rebuilt from the rows of the store and hands them out again in
//! the order of their ids.

use crate::block::BlockNumber;
use crate::operation::{
    record_of, ActionType, Operation, OperationDraft, OperationRecord, StoredOperation,
};
use crate::pipeline_proofs::{
    lemma_entry_advances_one_block, lemma_entry_keeps_order, lemma_replay_is_in_order,
    lemma_replay_stops_at_first_fault,
};
use vstd::prelude::*;

verus! {

/// How far a block has come.
#[derive(Clone, Copy, Debug, PartialEq, Eq)]
pub enum BlockStage {
    Pending,
    Committed,
    Verified,
}

/// Why the pipeline does not take an operation or an acknowledgement.
#[derive(Clone, Copy, Debug, PartialEq, Eq)]
pub enum PipelineError {
    /// An operation submitted earlier still waits for the store.
    Busy,
    /// The block number does not fit the column of the row.
    BlockNumberTooLarge,
    /// A commit was submitted for a block that is not `Pending`.
    AlreadyCommitted,
    /// A verification was submitted for a block that is `Pending`.
    NotCommitted,
    /// A verification was submitted for a block that is `Verified`.
    AlreadyVerified,
    /// A row was acknowledged while no operation waits for the store.
    NothingSubmitted,
    /// The acknowledged row is not the row of the operation that waits: it
    /// cannot be read, or is about another block or another kind of action.
    WrongRow,
    /// The id of the acknowledged row does not exceed the ids in the log.
    StaleId,
}

/// What is wrong with a row of the store.
#[derive(Clone, Copy, Debug, PartialEq, Eq)]
pub enum RowFault {
    /// Its block number is negative or its label names no kind of action.
    Unreadable,
    /// Its id does not exceed the id of the row before it.
    OutOfOrder,
    /// An earlier row holds the same kind of action for the same block.
    Repeated,
    /// It verifies a block that no earlier row commits.
    VerifyBeforeCommit,
}

/// Why the rows of the store cannot be replayed: the position of the first
/// row that is wrong, and what is wrong with it.
#[derive(Clone, Copy, Debug, PartialEq, Eq)]
pub struct RecoveryError {
    pub position: usize,
    pub fault: RowFault,
}

/// Whether the log holds an action of this kind for this block.
pub open spec fn logged(log: Seq<OperationRecord>, block_number: BlockNumber, kind: ActionType) -> bool {
    exists|i: int|
        0 <= i < log.len() && (#[trigger] log[i]).block_number == block_number
            && log[i].action_type == kind
}

/// The stage of a block, read from the log.
pub open spec fn stage_in(log: Seq<OperationRecord>, block_number: BlockNumber) -> BlockStage {
    if logged(log, block_number, ActionType::Verify) {
        BlockStage::Verified
    } else if logged(log, block_number, ActionType::Commit) {
        BlockStage::Committed
    } else {
        BlockStage::Pending
    }
}

/// Whether the commit of the block of the record at position `at` stands
/// before that position.
pub open spec fn commit_stands_before(log: Seq<OperationRecord>, at: int) -> bool {
    exists|i: int|
        0 <= i < at && (#[trigger] log[i]).block_number == log[at].block_number
            && log[i].action_type == ActionType::Commit
}

/// In a log that is in order, ids rise, no action is logged twice for a
/// block, and every verification comes after the commit of its block.
pub open spec fn in_order(log: Seq<OperationRecord>) -> bool {
    &&& forall|i: int, j: int| 0 <= i < j < log.len() ==> (#[trigger] log[i]).id < (#[trigger] log[j]).id
    &&& forall|i: int, j: int|
        0 <= i < j < log.len() && (#[trigger] log[i]).block_number == (
        #[trigger] log[j]).block_number ==> log[i].action_type != log[j].action_type
    &&& forall|j: int|
        0 <= j < log.len() && log[j].action_type == ActionType::Verify
            ==> #[trigger] commit_stands_before(log, j)
}

/// What keeps a record from being logged after the log so far, if anything.
pub open spec fn entry_fault(log: Seq<OperationRecord>, record: OperationRecord) -> Option<RowFault> {
    if log.len() > 0 && record.id <= log.last().id {
        Some(RowFault::OutOfOrder)
    } else if logged(log, record.block_number, record.action_type) {
        Some(RowFault::Repeated)
    } else if record.action_type == ActionType::Verify && !logged(
        log,
        record.block_number,
        ActionType::Commit,
    ) {
        Some(RowFault::VerifyBeforeCommit)
    } else {
        None
    }
}

/// What keeps a row from being replayed after the log so far, if anything.
pub open spec fn row_fault(log: Seq<OperationRecord>, row: StoredOperation) -> Option<RowFault> {
    match record_of(row) {
        None => Some(RowFault::Unreadable),
        Some(record) => entry_fault(log, record),
    }
}

/// The log that the rows of a store give, read in their order, or the
/// position of the first row that is wrong, with what is wrong with it.
pub open spec fn replayed(rows: Seq<StoredOperation>) -> Result<Seq<OperationRecord>, (int, RowFault)>
    decreases rows.len(),
{
    if rows.len() == 0 {
        Ok(Seq::empty())
    } else {
        match replayed(rows.drop_last()) {
            Err(stop) => Err(stop),
            Ok(log) => match row_fault(log, rows.last()) {
                Some(fault) => Err((rows.len() - 1, fault)),
                None => Ok(log.push(record_of(rows.last())->Some_0)),
            },
        }
    }
}

/// A place in the log reserved by a submitted operation.
#[derive(Clone, Copy, Debug, PartialEq, Eq)]
pub struct Reservation {
    pub block_number: BlockNumber,
    pub action_type: ActionType,
}

/// The pipeline. It is sound at all times: see [`PipelineView::wf`].
#[derive(Debug)]
pub struct OperationPipeline {
    /// The operations that the store has acknowledged, in the order of their
    /// ids.
    log: Vec<OperationRecord>,
    /// How many operations, from the start of the log, have been handed to
    /// the base-chain client.
    dispatched: usize,
    /// The operation that has been submitted and waits for the store.
    waiting: Option<Reservation>,
}

/// The model of an [`OperationPipeline`].
pub struct PipelineView {
    pub log: Seq<OperationRecord>,
    pub dispatched: nat,
    pub waiting: Option<Reservation>,
}

impl View for OperationPipeline {
    type V = PipelineView;

    closed spec fn view(&self) -> PipelineView {
        PipelineView { log: self.log@, dispatched: self.dispatched as nat, waiting: self.waiting }
    }
}

impl PipelineView {
    /// A pipeline is sound when its log is in order, it has dispatched no
    /// more than it has logged, and the operation that waits for the store,
    /// if any, is the next one due for its block and fits a row.
    pub open spec fn wf(self) -> bool {
        &&& in_order(self.log)
        &&& self.dispatched <= self.log.len()
        &&& self.waiting matches Some(held) ==> {
            &&& held.block_number <= i32::MAX
            &&& submission_fault(self.log, held.block_number, held.action_type) is None
        }
    }
}

/// Why an operation of this kind for this block cannot be submitted on top
/// of the log, if it cannot.
pub open spec fn submission_fault(
    log: Seq<OperationRecord>,
    block_number: BlockNumber,
    kind: ActionType,
) -> Option<PipelineError> {
    if block_number > i32::MAX {
        Some(PipelineError::BlockNumberTooLarge)
    } else {
        match (kind, stage_in(log, block_number)) {
            (ActionType::Commit, BlockStage::Pending) => None,
            (ActionType::Commit, _) => Some(PipelineError::AlreadyCommitted),
            (ActionType::Verify, BlockStage::Pending) => Some(PipelineError::NotCommitted),
            (ActionType::Verify, BlockStage::Committed) => None,
            (ActionType::Verify, BlockStage::Verified) => Some(PipelineError::AlreadyVerified),
        }
    }
}

/// Why the pipeline does not take the acknowledgement of this row, if it does
/// not.
pub open spec fn acknowledgement_fault(pipeline: PipelineView, row: StoredOperation) -> Option<
    PipelineError,
> {
    match pipeline.waiting {
        None => Some(PipelineError::NothingSubmitted),
        Some(held) => match record_of(row) {
            None => Some(PipelineError::WrongRow),
            Some(record) => if record.block_number != held.block_number || record.action_type
                != held.action_type {
                Some(PipelineError::WrongRow)
            } else if pipeline.log.len() > 0 && record.id <= pipeline.log.last().id {
                Some(PipelineError::StaleId)
            } else {
                None
            },
        },
    }
}

/// Whether the log holds an action of this kind for this block.
pub fn is_logged(log: &Vec<OperationRecord>, block_number: BlockNumber, kind: ActionType) -> (found:
    bool)
    ensures
        found == logged(log@, block_number, kind),
{
    let mut at: usize = 0;
    while at < log.len()
        invariant
            at <= log.len(),
            forall|i: int|
                0 <= i < at ==> !((#[trigger] log@[i]).block_number == block_number
                    && log@[i].action_type == kind),
        decreases log.len() - at,
    {
        let same_kind = match (log[at].action_type, kind) {
            (ActionType::Commit, ActionType::Commit) => true,
            (ActionType::Verify, ActionType::Verify) => true,
            _ => false,
        };
        if log[at].block_number == block_number && same_kind {
            return true;
        }
        at = at + 1;
    }
    false
}

/// Looks for what keeps a record from being logged after the log so far.
pub fn check_entry(log: &Vec<OperationRecord>, record: &OperationRecord) -> (fault: Option<RowFault>)
    ensures
        fault == entry_fault(log@, *record),
{
    if log.len() > 0 && record.id <= log[log.len() - 1].id {
        return Some(RowFault::OutOfOrder);
    }
    if is_logged(log, record.block_number, record.action_type) {
        return Some(RowFault::Repeated);
    }
    match record.action_type {
        ActionType::Verify => {
            if !is_logged(log, record.block_number, ActionType::Commit) {
                return Some(RowFault::VerifyBeforeCommit);
            }
        },
        ActionType::Commit => {},
    }
    None
}

impl OperationPipeline {
    #[verifier::type_invariant]
    spec fn sound(self) -> bool {
        self@.wf()
    }

    /// A pipeline over an empty store.
    pub fn new() -> (pipeline: OperationPipeline)
        ensures
            pipeline@.wf(),
            pipeline@ == (PipelineView { log: Seq::empty(), dispatched: 0, waiting: None }),
    {
        OperationPipeline { log: Vec::new(), dispatched: 0, waiting: None }
    }

    /// Rebuilds the pipeline from the rows of the store that are to be
    /// replayed, given in the order of their ids. Nothing counts as
    /// dispatched: every row is handed out again, oldest first. The rows are
    /// held to what the pipeline itself keeps to: a row that cannot be read,
    /// that is out of order, that repeats an action, or that verifies a block
    /// whose commit is not among the rows before it, stops the replay.
    pub fn recover(rows: &Vec<StoredOperation>) -> (outcome: Result<OperationPipeline, RecoveryError>)
        ensures
            match outcome {
                Ok(pipeline) => {
                    &&& replayed(rows@) == Ok::<Seq<OperationRecord>, (int, RowFault)>(
                        pipeline@.log,
                    )
                    &&& pipeline@.dispatched == 0
                    &&& pipeline@.waiting is None
                    &&& pipeline@.wf()
                },
                Err(error) => replayed(rows@) == Err::<Seq<OperationRecord>, (int, RowFault)>(
                    (error.position as int, error.fault),
                ),
            },
    {
        let mut log: Vec<OperationRecord> = Vec::new();
        let mut at: usize = 0;
        proof {
            assert(rows@.take(0) =~= Seq::empty());
        }
        while at < rows.len()
            invariant
                at <= rows.len(),
                replayed(rows@.take(at as int)) == Ok::<Seq<OperationRecord>, (int, RowFault)>(
                    log@,
                ),
            decreases rows.len() - at,
        {
            proof {
                assert(rows@.take(at + 1).drop_last() == rows@.take(at as int));
            }
            let fault = match rows[at].record() {
                None => Some(RowFault::Unreadable),
                Some(record) => {
                    let fault = check_entry(&log, &record);
                    if fault.is_none() {
                        log.push(record);
                    }
                    fault
                },
            };
            match fault {
                Some(fault) => {
                    proof {
                        lemma_replay_stops_at_first_fault(rows@, at + 1);
                    }
                    return Err(RecoveryError { position: at, fault });
                },
                None => {},
            }
            at = at + 1;
        }
        proof {
            assert(rows@.take(at as int) == rows@);
            lemma_replay_is_in_order(rows@);
        }
        Ok(OperationPipeline { log, dispatched: 0, waiting: None })
    }

    /// The log: the operations that the store has acknowledged, in the order
    /// of their ids.
    pub fn log(&self) -> (log: &Vec<OperationRecord>)
        ensures
            log@ == self@.log,
            self@.wf(),
    {
        proof {
            use_type_invariant(self);
        }
        &self.log
    }

    /// How many operations, from the start of the log, have been handed to
    /// the base-chain client.
    pub fn dispatched_count(&self) -> (count: usize)
        ensures
            count == self@.dispatched,
    {
        self.dispatched
    }

    /// The operation that has been submitted and waits for the store.
    pub fn waiting(&self) -> (held: Option<Reservation>)
        ensures
            held == self@.waiting,
    {
        self.waiting
    }

    /// The stage of a block.
    pub fn stage(&self, block_number: BlockNumber) -> (stage: BlockStage)
        ensures
            stage == stage_in(self@.log, block_number),
    {
        if is_logged(&self.log, block_number, ActionType::Verify) {
            BlockStage::Verified
        } else if is_logged(&self.log, block_number, ActionType::Commit) {
            BlockStage::Committed
        } else {
            BlockStage::Pending
        }
    }

    /// Takes an operation in: a commit for a pending block, or a
    /// verification for a committed one. The operation then waits for the
    /// store, and what comes back is the part of its row that the pipeline
    /// decides. No stage changes yet.
    pub fn submit(&mut self, operation: &Operation) -> (outcome: Result<OperationDraft, PipelineError>)
        ensures
            final(self)@.wf(),
            final(self)@.log == old(self)@.log,
            final(self)@.dispatched == old(self)@.dispatched,
            match outcome {
                Ok(draft) => {
                    &&& old(self)@.waiting is None
                    &&& submission_fault(
                        old(self)@.log,
                        operation.block_number,
                        operation.action.kind_of(),
                    ) is None
                    &&& final(self)@.waiting == Some(
                        Reservation {
                            block_number: operation.block_number,
                            action_type: operation.action.kind_of(),
                        },
                    )
                    &&& draft.block_number == operation.block_number
                    &&& draft.action_type@ == operation.action.kind_of().label()
                },
                Err(error) => {
                    &&& final(self)@.waiting == old(self)@.waiting
                    &&& error == (if old(self)@.waiting is Some {
                        PipelineError::Busy
                    } else {
                        submission_fault(
                            old(self)@.log,
                            operation.block_number,
                            operation.action.kind_of(),
                        )->Some_0
                    })
                    &&& old(self)@.waiting is Some || submission_fault(
                        old(self)@.log,
                        operation.block_number,
                        operation.action.kind_of(),
                    ) is Some
                },
            },
    {
        proof {
            use_type_invariant(&*self);
        }
        if self.waiting.is_some() {
            return Err(PipelineError::Busy);
        }
        if operation.block_number > 0x7fff_ffff {
            return Err(PipelineError::BlockNumberTooLarge);
        }
        let kind = operation.action.kind();
        let stage = self.stage(operation.block_number);
        match (kind, stage) {
            (ActionType::Commit, BlockStage::Pending) => {},
            (ActionType::Commit, _) => {
                return Err(PipelineError::AlreadyCommitted);
            },
            (ActionType::Verify, BlockStage::Pending) => {
                return Err(PipelineError::NotCommitted);
            },
            (ActionType::Verify, BlockStage::Committed) => {},
            (ActionType::Verify, BlockStage::Verified) => {
                return Err(PipelineError::AlreadyVerified);
            },
        }
        self.waiting = Some(Reservation { block_number: operation.block_number, action_type: kind });
        Ok(OperationDraft { block_number: operation.block_number as i32, action_type: kind.name() })
    }

    /// The part of the row of the operation that waits for the store, for a
    /// store that failed to write it and is to try again.
    pub fn retry(&self) -> (draft: Option<OperationDraft>)
        ensures
            draft is Some <==> self@.waiting is Some,
            draft matches Some(again) ==> {
                &&& again.block_number == self@.waiting->Some_0.block_number
                &&& again.action_type@ == self@.waiting->Some_0.action_type.label()
            },
    {
        proof {
            use_type_invariant(self);
        }
        match self.waiting {
            Some(held) => Some(
                OperationDraft {
                    block_number: held.block_number as i32,
                    action_type: held.action_type.name(),
                },
            ),
            None => None,
        }
    }

    /// Takes the acknowledgement of the store: the row it has written for the
    /// operation that waits. The operation enters the log, and its block
    /// moves one stage on.
    pub fn persisted(&mut self, row: &StoredOperation) -> (outcome: Result<
        OperationRecord,
        PipelineError,
    >)
        ensures
            final(self)@.wf(),
            final(self)@.dispatched == old(self)@.dispatched,
            match outcome {
                Ok(record) => {
                    &&& acknowledgement_fault(old(self)@, *row) is None
                    &&& record_of(*row) == Some(record)
                    &&& final(self)@.log == old(self)@.log.push(record)
                    &&& final(self)@.waiting is None
                    &&& stage_in(final(self)@.log, record.block_number) == (match record.action_type {
                        ActionType::Commit => BlockStage::Committed,
                        ActionType::Verify => BlockStage::Verified,
                    })
                },
                Err(error) => {
                    &&& acknowledgement_fault(old(self)@, *row) == Some(error)
                    &&& final(self)@ == old(self)@
                },
            },
    {
        proof {
            use_type_invariant(&*self);
        }
        let held = match self.waiting {
            Some(held) => held,
            None => {
                return Err(PipelineError::NothingSubmitted);
            },
        };
        let record = match row.record() {
            Some(record) => record,
            None => {
                return Err(PipelineError::WrongRow);
            },
        };
        let same_kind = match (record.action_type, held.action_type) {
            (ActionType::Commit, ActionType::Commit) => true,
            (ActionType::Verify, ActionType::Verify) => true,
            _ => false,
        };
        if record.block_number != held.block_number || !same_kind {
            return Err(PipelineError::WrongRow);
        }
        if self.log.len() > 0 && record.id <= self.log[self.log.len() - 1].id {
            return Err(PipelineError::StaleId);
        }
        proof {
            lemma_entry_keeps_order(self.log@, record);
            lemma_entry_advances_one_block(self.log@, record, record.block_number);
        }
        let mut taken = OperationPipeline::new();
        std::mem::swap(self, &mut taken);
        let OperationPipeline { log, dispatched, waiting: _ } = taken;
        let mut log = log;
        log.push(record);
        *self = OperationPipeline { log, dispatched, waiting: None };
        Ok(record)
    }

    /// The logged operation that is next to be handed to the base-chain
    /// client: the oldest one not yet dispatched.
    pub fn next_dispatch(&self) -> (next: Option<OperationRecord>)
        ensures
            next == (if self@.dispatched < self@.log.len() {
                Some(self@.log[self@.dispatched as int])
            } else {
                None
            }),
    {
        if self.dispatched < self.log.len() {
            Some(self.log[self.dispatched])
        } else {
            None
        }
    }

    /// Notes that the operation with this id has been handed to the
    /// base-chain client. It must be the one that is next; any other id
    /// changes nothing.
    pub fn mark_dispatched(&mut self, id: i32) -> (noted: bool)
        ensures
            final(self)@.wf(),
            final(self)@.log == old(self)@.log,
            final(self)@.waiting == old(self)@.waiting,
            noted <==> old(self)@.dispatched < old(self)@.log.len() && old(self)@.log[old(
                self,
            )@.dispatched as int].id == id,
            final(self)@.dispatched == old(self)@.dispatched + if noted {
                1nat
            } else {
                0nat
            },
    {
        proof {
            use_type_invariant(&*self);
        }
        if self.dispatched < self.log.len() && self.log[self.dispatched].id == id {
            self.dispatched = self.dispatched + 1;
            true
        } else {
            false
        }
    }
}

} // verus!
