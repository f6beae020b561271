use fnv::FnvHashMap;
use plasma_operator::block::EthBlockData;
use plasma_operator::operation::{
    Action, ActionType, Operation, OperationDraft, OperationRecord, StoredOperation,
};
use plasma_operator::pipeline::{
    check_entry, is_logged, BlockStage, OperationPipeline, PipelineError, RecoveryError, Reservation,
    RowFault,
};
use std::time::SystemTime;
use web3::types::{H256, U256};

fn commit(block_number: u32) -> Operation {
    Operation {
        action: Action::Commit { new_root: H256::from_low_u64_be(block_number as u64), block: None },
        block_number,
        block_data: EthBlockData::Deposit { batch_number: 0 },
        accounts_updated: FnvHashMap::default(),
    }
}

fn verify(block_number: u32) -> Operation {
    Operation::verify(
        block_number,
        [U256::zero(); 8],
        EthBlockData::Deposit { batch_number: 0 },
        FnvHashMap::default(),
    )
}

fn row(id: i32, block_number: i32, action_type: &str) -> StoredOperation {
    StoredOperation {
        id,
        data: serde_json::Value::Null,
        addr: String::from("0x00"),
        nonce: 0,
        block_number,
        action_type: String::from(action_type),
        created_at: SystemTime::UNIX_EPOCH,
    }
}

fn record(id: i32, block_number: u32, action_type: ActionType) -> OperationRecord {
    OperationRecord { id, block_number, action_type }
}

fn draft(block_number: i32, action_type: &str) -> OperationDraft {
    OperationDraft { block_number, action_type: String::from(action_type) }
}

#[test]
fn a_block_goes_from_pending_to_committed_to_verified() {
    let mut pipeline = OperationPipeline::new();
    assert_eq!(pipeline.stage(5), BlockStage::Pending);
    assert_eq!(pipeline.submit(&commit(5)), Ok(draft(5, "Commit")));
    assert_eq!(
        pipeline.waiting(),
        Some(Reservation { block_number: 5, action_type: ActionType::Commit })
    );
    // Submitted is not yet written: the block has not moved.
    assert_eq!(pipeline.stage(5), BlockStage::Pending);
    assert_eq!(pipeline.next_dispatch(), None);
    assert_eq!(pipeline.persisted(&row(1, 5, "Commit")), Ok(record(1, 5, ActionType::Commit)));
    assert_eq!(pipeline.stage(5), BlockStage::Committed);
    assert_eq!(pipeline.submit(&verify(5)), Ok(draft(5, "Verify")));
    assert_eq!(pipeline.stage(5), BlockStage::Committed);
    assert_eq!(pipeline.persisted(&row(2, 5, "Verify")), Ok(record(2, 5, ActionType::Verify)));
    assert_eq!(pipeline.stage(5), BlockStage::Verified);
    assert_eq!(pipeline.stage(6), BlockStage::Pending);
    assert_eq!(
        pipeline.log(),
        &vec![record(1, 5, ActionType::Commit), record(2, 5, ActionType::Verify)]
    );
}

#[test]
fn a_verification_is_not_taken_before_the_commit_is_written() {
    let mut pipeline = OperationPipeline::new();
    assert_eq!(pipeline.submit(&verify(5)), Err(PipelineError::NotCommitted));
    assert_eq!(pipeline.submit(&commit(5)), Ok(draft(5, "Commit")));
    // The commit still waits for the store.
    assert_eq!(pipeline.submit(&verify(5)), Err(PipelineError::Busy));
    assert_eq!(pipeline.persisted(&row(2, 5, "Verify")), Err(PipelineError::WrongRow));
    assert!(pipeline.log().is_empty());
    assert_eq!(pipeline.stage(5), BlockStage::Pending);
}

#[test]
fn nothing_is_committed_or_verified_twice() {
    let mut pipeline = OperationPipeline::new();
    pipeline.submit(&commit(5)).unwrap();
    pipeline.persisted(&row(1, 5, "Commit")).unwrap();
    assert_eq!(pipeline.submit(&commit(5)), Err(PipelineError::AlreadyCommitted));
    pipeline.submit(&verify(5)).unwrap();
    pipeline.persisted(&row(2, 5, "Verify")).unwrap();
    assert_eq!(pipeline.submit(&commit(5)), Err(PipelineError::AlreadyCommitted));
    assert_eq!(pipeline.submit(&verify(5)), Err(PipelineError::AlreadyVerified));
    assert_eq!(pipeline.log().len(), 2);
    assert_eq!(pipeline.waiting(), None);
}

#[test]
fn a_block_number_beyond_the_column_is_not_taken() {
    let mut pipeline = OperationPipeline::new();
    assert_eq!(pipeline.submit(&commit(0x8000_0000)), Err(PipelineError::BlockNumberTooLarge));
    assert_eq!(pipeline.submit(&commit(0x7fff_ffff)), Ok(draft(i32::MAX, "Commit")));
}

#[test]
fn a_failed_write_is_tried_again_without_a_change_of_stage() {
    let mut pipeline = OperationPipeline::new();
    assert_eq!(pipeline.retry(), None);
    pipeline.submit(&commit(5)).unwrap();
    assert_eq!(pipeline.retry(), Some(draft(5, "Commit")));
    assert_eq!(pipeline.retry(), Some(draft(5, "Commit")));
    assert_eq!(pipeline.stage(5), BlockStage::Pending);
    pipeline.persisted(&row(1, 5, "Commit")).unwrap();
    assert_eq!(pipeline.retry(), None);
}

#[test]
fn an_acknowledgement_must_fit_what_waits() {
    let mut pipeline = OperationPipeline::new();
    assert_eq!(pipeline.persisted(&row(1, 5, "Commit")), Err(PipelineError::NothingSubmitted));
    pipeline.submit(&commit(5)).unwrap();
    assert_eq!(pipeline.persisted(&row(1, 6, "Commit")), Err(PipelineError::WrongRow));
    assert_eq!(pipeline.persisted(&row(1, 5, "Verify")), Err(PipelineError::WrongRow));
    assert_eq!(pipeline.persisted(&row(1, 5, "Comit")), Err(PipelineError::WrongRow));
    assert_eq!(pipeline.persisted(&row(1, -5, "Commit")), Err(PipelineError::WrongRow));
    assert_eq!(pipeline.persisted(&row(4, 5, "Commit")), Ok(record(4, 5, ActionType::Commit)));
    pipeline.submit(&commit(6)).unwrap();
    assert_eq!(pipeline.persisted(&row(4, 6, "Commit")), Err(PipelineError::StaleId));
    assert_eq!(pipeline.persisted(&row(3, 6, "Commit")), Err(PipelineError::StaleId));
    assert_eq!(pipeline.persisted(&row(5, 6, "Commit")), Ok(record(5, 6, ActionType::Commit)));
}

#[test]
fn only_written_operations_are_dispatched_and_oldest_first() {
    let mut pipeline = OperationPipeline::new();
    pipeline.submit(&commit(5)).unwrap();
    assert_eq!(pipeline.next_dispatch(), None);
    pipeline.persisted(&row(10, 5, "Commit")).unwrap();
    pipeline.submit(&commit(6)).unwrap();
    pipeline.persisted(&row(11, 6, "Commit")).unwrap();
    assert_eq!(pipeline.next_dispatch(), Some(record(10, 5, ActionType::Commit)));
    // A failed dispatch changes nothing: the same operation is next again.
    assert_eq!(pipeline.next_dispatch(), Some(record(10, 5, ActionType::Commit)));
    assert!(!pipeline.mark_dispatched(11));
    assert_eq!(pipeline.next_dispatch(), Some(record(10, 5, ActionType::Commit)));
    assert!(pipeline.mark_dispatched(10));
    assert_eq!(pipeline.next_dispatch(), Some(record(11, 6, ActionType::Commit)));
    assert!(pipeline.mark_dispatched(11));
    assert_eq!(pipeline.next_dispatch(), None);
    assert!(!pipeline.mark_dispatched(11));
    assert_eq!(pipeline.dispatched_count(), 2);
}

#[test]
fn a_restart_with_an_open_commit_dispatches_it_before_any_verification() {
    let mut pipeline = OperationPipeline::recover(&vec![row(3, 5, "Commit")]).expect("the row is sound");
    assert_eq!(pipeline.stage(5), BlockStage::Committed);
    assert_eq!(pipeline.next_dispatch(), Some(record(3, 5, ActionType::Commit)));
    // The proof arrives: the verification is written after the commit and
    // dispatched after it.
    assert_eq!(pipeline.submit(&verify(5)), Ok(draft(5, "Verify")));
    assert_eq!(pipeline.next_dispatch(), Some(record(3, 5, ActionType::Commit)));
    assert_eq!(pipeline.persisted(&row(2, 5, "Verify")), Err(PipelineError::StaleId));
    assert_eq!(pipeline.persisted(&row(4, 5, "Verify")), Ok(record(4, 5, ActionType::Verify)));
    assert_eq!(pipeline.next_dispatch(), Some(record(3, 5, ActionType::Commit)));
    assert!(pipeline.mark_dispatched(3));
    assert_eq!(pipeline.next_dispatch(), Some(record(4, 5, ActionType::Verify)));
    assert_eq!(pipeline.stage(5), BlockStage::Verified);
}

#[test]
fn a_restart_replays_the_rows_in_the_order_of_their_ids() {
    let rows = vec![row(1, 5, "Commit"), row(2, 6, "Commit"), row(5, 5, "Verify"), row(9, 7, "Commit")];
    let mut pipeline = OperationPipeline::recover(&rows).expect("the rows are sound");
    assert_eq!(pipeline.stage(5), BlockStage::Verified);
    assert_eq!(pipeline.stage(6), BlockStage::Committed);
    assert_eq!(pipeline.stage(7), BlockStage::Committed);
    assert_eq!(pipeline.stage(8), BlockStage::Pending);
    assert_eq!(pipeline.waiting(), None);
    let mut handed_out = Vec::new();
    while let Some(next) = pipeline.next_dispatch() {
        handed_out.push(next.id);
        assert!(pipeline.mark_dispatched(next.id));
    }
    assert_eq!(handed_out, vec![1, 2, 5, 9]);
}

#[test]
fn a_restart_over_an_empty_store_is_a_new_pipeline() {
    let pipeline = OperationPipeline::recover(&vec![]).expect("nothing can be wrong");
    assert!(pipeline.log().is_empty());
    assert_eq!(pipeline.dispatched_count(), 0);
    assert_eq!(pipeline.waiting(), None);
    assert_eq!(pipeline.next_dispatch(), None);
}

#[test]
fn a_restart_stops_at_the_first_row_that_is_wrong() {
    let fault_of = |rows: Vec<StoredOperation>| OperationPipeline::recover(&rows).map(|_| ()).unwrap_err();
    assert_eq!(
        fault_of(vec![row(1, 5, "Commit"), row(2, -6, "Commit"), row(0, 7, "Commit")]),
        RecoveryError { position: 1, fault: RowFault::Unreadable }
    );
    assert_eq!(
        fault_of(vec![row(1, 5, "Commit"), row(2, 6, "Publish")]),
        RecoveryError { position: 1, fault: RowFault::Unreadable }
    );
    assert_eq!(
        fault_of(vec![row(1, 5, "Commit"), row(2, 6, "Commit"), row(2, 7, "Commit")]),
        RecoveryError { position: 2, fault: RowFault::OutOfOrder }
    );
    assert_eq!(
        fault_of(vec![row(4, 5, "Commit"), row(3, 5, "Verify")]),
        RecoveryError { position: 1, fault: RowFault::OutOfOrder }
    );
    assert_eq!(
        fault_of(vec![row(1, 5, "Commit"), row(2, 5, "Commit")]),
        RecoveryError { position: 1, fault: RowFault::Repeated }
    );
    assert_eq!(
        fault_of(vec![row(1, 5, "Commit"), row(2, 5, "Verify"), row(3, 5, "Verify")]),
        RecoveryError { position: 2, fault: RowFault::Repeated }
    );
    assert_eq!(
        fault_of(vec![row(1, 5, "Verify"), row(2, 5, "Commit")]),
        RecoveryError { position: 0, fault: RowFault::VerifyBeforeCommit }
    );
    assert_eq!(
        fault_of(vec![row(1, 5, "Commit"), row(2, 6, "Verify")]),
        RecoveryError { position: 1, fault: RowFault::VerifyBeforeCommit }
    );
}

#[test]
fn the_log_is_searched_by_block_and_kind() {
    let log = vec![record(1, 5, ActionType::Commit), record(2, 6, ActionType::Commit), record(3, 5, ActionType::Verify)];
    assert!(is_logged(&log, 5, ActionType::Commit));
    assert!(is_logged(&log, 5, ActionType::Verify));
    assert!(is_logged(&log, 6, ActionType::Commit));
    assert!(!is_logged(&log, 6, ActionType::Verify));
    assert!(!is_logged(&log, 7, ActionType::Commit));
    assert_eq!(check_entry(&log, &record(4, 6, ActionType::Verify)), None);
    assert_eq!(check_entry(&log, &record(4, 7, ActionType::Commit)), None);
    assert_eq!(check_entry(&log, &record(3, 7, ActionType::Commit)), Some(RowFault::OutOfOrder));
    assert_eq!(check_entry(&log, &record(4, 6, ActionType::Commit)), Some(RowFault::Repeated));
    assert_eq!(check_entry(&log, &record(4, 7, ActionType::Verify)), Some(RowFault::VerifyBeforeCommit));
}
