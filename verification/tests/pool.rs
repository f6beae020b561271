use plasma_operator::pool::{InPoolTransaction, IndividualTransactionResponse, TxQueue};
use plasma_operator::transfer::{TransferTx, TxSignature};

fn pooled(from: u32, to: u32, nonce: u32, timestamp: u64, lifetime: u64) -> InPoolTransaction {
    InPoolTransaction {
        timestamp,
        lifetime,
        transaction: TransferTx {
            from,
            to,
            amount: 10,
            fee: 1,
            nonce,
            signature: TxSignature { r: [0; 32], s: [0; 32] },
        },
    }
}

#[test]
fn a_transaction_is_stale_only_past_its_lifetime() {
    let entry = pooled(1, 2, 0, 1_000, 500);
    assert!(!entry.is_stale(1_000));
    assert!(!entry.is_stale(1_500));
    assert!(entry.is_stale(1_501));
}

#[test]
fn a_transaction_admitted_after_now_is_not_stale() {
    let entry = pooled(1, 2, 0, 1_000, 0);
    assert!(!entry.is_stale(999));
    assert!(!entry.is_stale(0));
}

#[test]
fn a_lifetime_of_zero_ends_one_tick_after_admission() {
    let entry = pooled(1, 2, 0, u64::MAX - 1, 0);
    assert!(!entry.is_stale(u64::MAX - 1));
    assert!(entry.is_stale(u64::MAX));
}

#[test]
fn a_new_queue_is_empty() {
    let queue = TxQueue::new(3);
    assert!(queue.is_empty());
    assert_eq!(queue.len(), 0);
    assert_eq!(queue.limit, 3);
}

#[test]
fn submissions_wait_in_the_order_of_arrival() {
    let mut queue = TxQueue::new(3);
    let first = pooled(1, 2, 0, 10, 100);
    let second = pooled(3, 4, 5, 11, 100);
    assert_eq!(queue.submit(first), IndividualTransactionResponse::Accepted(vec![first]));
    assert_eq!(queue.submit(second), IndividualTransactionResponse::Accepted(vec![second]));
    assert_eq!(queue.entries, vec![first, second]);
    assert_eq!(queue.len(), 2);
    assert!(!queue.is_empty());
}

#[test]
fn a_full_queue_rejects_for_now() {
    let mut queue = TxQueue::new(1);
    let first = pooled(1, 2, 0, 10, 100);
    let second = pooled(3, 4, 5, 11, 100);
    queue.submit(first);
    assert_eq!(queue.submit(second), IndividualTransactionResponse::TemporaryRejected(vec![second]));
    assert_eq!(queue.entries, vec![first]);
}

#[test]
fn a_misshapen_submission_is_rejected_completely() {
    let mut queue = TxQueue::new(4);
    let to_itself = pooled(5, 5, 0, 10, 100);
    assert_eq!(
        queue.submit(to_itself),
        IndividualTransactionResponse::RejectedCompletely(vec![to_itself])
    );
    assert!(queue.is_empty());
}

#[test]
fn a_misshapen_submission_is_rejected_completely_even_by_a_full_queue() {
    let mut queue = TxQueue::new(0);
    let to_itself = pooled(5, 5, 0, 10, 100);
    assert_eq!(
        queue.submit(to_itself),
        IndividualTransactionResponse::RejectedCompletely(vec![to_itself])
    );
    assert!(queue.is_empty());
}

#[test]
fn submission_does_not_look_at_the_clock_or_the_ledger() {
    let mut queue = TxQueue::new(2);
    let long_gone = pooled(1, 2, 0, 0, 0);
    assert_eq!(queue.submit(long_gone), IndividualTransactionResponse::Accepted(vec![long_gone]));
    assert_eq!(queue.entries, vec![long_gone]);
}

#[test]
fn readmission_appends_in_order_and_ignores_the_limit() {
    let mut queue = TxQueue::new(1);
    let first = pooled(1, 2, 0, 10, 100);
    let second = pooled(3, 4, 5, 11, 100);
    let third = pooled(6, 7, 8, 12, 100);
    queue.submit(first);
    queue.readmit(&vec![second, third]);
    assert_eq!(queue.entries, vec![first, second, third]);
    assert_eq!(queue.limit, 1);
}

#[test]
fn draining_hands_out_everything_and_leaves_nothing() {
    let mut queue = TxQueue::new(5);
    let first = pooled(1, 2, 0, 10, 100);
    let second = pooled(3, 4, 5, 11, 100);
    queue.submit(first);
    queue.submit(second);
    assert_eq!(queue.drain(), vec![first, second]);
    assert!(queue.is_empty());
    assert_eq!(queue.limit, 5);
    assert_eq!(queue.drain(), vec![]);
}
