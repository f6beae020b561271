use fnv::{FnvHashMap, FnvHashSet};
use plasma_operator::account::{Account, AccountMap, PublicKey};
use plasma_operator::assembly::{assemble, pick, TransactionPickerResponse};
use plasma_operator::pool::InPoolTransaction;
use plasma_operator::transfer::{TransferError, TransferTx, TxSignature};
use plasma_operator::working::WorkingLedger;

fn account(balance: u128, nonce: u32) -> Account {
    Account { balance, nonce, public_key: PublicKey { x: [1; 32], y: [2; 32] } }
}

fn ledger(accounts: &[(u32, u128, u32)]) -> AccountMap {
    let mut map: AccountMap = FnvHashMap::default();
    for (id, balance, nonce) in accounts {
        map.insert(*id, account(*balance, *nonce));
    }
    map
}

fn pooled(from: u32, to: u32, amount: u128, fee: u128, nonce: u32) -> InPoolTransaction {
    InPoolTransaction {
        timestamp: 1_000,
        lifetime: 500,
        transaction: TransferTx {
            from,
            to,
            amount,
            fee,
            nonce,
            signature: TxSignature { r: [3; 32], s: [4; 32] },
        },
    }
}

fn stale(from: u32, to: u32, amount: u128, fee: u128, nonce: u32) -> InPoolTransaction {
    InPoolTransaction { timestamp: 100, lifetime: 50, ..pooled(from, to, amount, fee, nonce) }
}

fn ids(list: &[u32]) -> FnvHashSet<u32> {
    list.iter().copied().collect()
}

const NOW: u64 = 1_200;

#[test]
fn one_slot_goes_to_the_first_and_a_spent_nonce_and_a_stale_one_are_dropped() {
    let accounts = ledger(&[(1, 100, 1), (2, 0, 0), (3, 50, 0)]);
    let tx1 = pooled(1, 2, 10, 1, 1);
    let tx2 = stale(3, 2, 5, 1, 0);
    let tx3 = pooled(1, 2, 20, 1, 1);
    let out = assemble(&vec![tx1, tx2, tx3], &accounts, NOW, 1, true);
    assert_eq!(out.response.included, vec![tx1]);
    assert_eq!(out.response.valid_but_not_included, vec![]);
    assert_eq!(out.response.temporary_rejected, vec![]);
    assert_eq!(out.response.completely_rejected, vec![tx2, tx3]);
    assert_eq!(out.response.affected_accounts, ids(&[1, 2]));
    assert_eq!(out.residual, vec![]);
}

#[test]
fn an_empty_queue_gives_an_empty_outcome() {
    let accounts = ledger(&[(1, 100, 0)]);
    let out = assemble(&vec![], &accounts, NOW, 10, true);
    assert!(out.response.included.is_empty());
    assert!(out.response.valid_but_not_included.is_empty());
    assert!(out.response.temporary_rejected.is_empty());
    assert!(out.response.completely_rejected.is_empty());
    assert!(out.response.affected_accounts.is_empty());
    assert!(out.accounts_updated.is_empty());
    assert!(out.residual.is_empty());
}

#[test]
fn every_transaction_lands_in_exactly_one_list() {
    let accounts = ledger(&[(1, 100, 0), (2, 30, 7), (3, 0, 0), (4, 5, 2)]);
    let queue = vec![
        pooled(1, 2, 10, 1, 0),  // included
        pooled(2, 1, 10, 1, 9),  // nonce ahead: rejected for now
        stale(1, 2, 10, 1, 1),   // stale: rejected completely
        pooled(1, 3, 10, 1, 1),  // included
        pooled(3, 1, 1, 0, 0),   // valid, but the block is full
        pooled(4, 1, 10, 1, 2),  // short of funds: rejected for now
        pooled(9, 1, 10, 1, 0),  // no such sender: rejected completely
        pooled(2, 2, 10, 1, 7),  // to itself: rejected completely
        pooled(1, 2, 10, 1, 0),  // the very first again: its nonce is spent
    ];
    let out = assemble(&queue, &accounts, NOW, 2, true);
    assert_eq!(out.response.included, vec![queue[0], queue[3]]);
    assert_eq!(out.response.valid_but_not_included, vec![queue[4]]);
    assert_eq!(out.response.temporary_rejected, vec![queue[1], queue[5]]);
    assert_eq!(out.response.completely_rejected, vec![queue[2], queue[6], queue[7], queue[8]]);
    let total = out.response.included.len()
        + out.response.valid_but_not_included.len()
        + out.response.temporary_rejected.len()
        + out.response.completely_rejected.len();
    assert_eq!(total, queue.len());
    let mut all: Vec<InPoolTransaction> = Vec::new();
    all.extend(out.response.included.iter().copied());
    all.extend(out.response.valid_but_not_included.iter().copied());
    all.extend(out.response.temporary_rejected.iter().copied());
    all.extend(out.response.completely_rejected.iter().copied());
    for entry in queue.iter() {
        let in_queue = queue.iter().filter(|other| *other == entry).count();
        let in_lists = all.iter().filter(|other| *other == entry).count();
        assert_eq!(in_queue, in_lists);
    }
}

#[test]
fn later_transactions_see_what_earlier_ones_did() {
    // Account 2 starts empty and can pay only after it has been paid.
    let accounts = ledger(&[(1, 100, 0), (2, 0, 0), (3, 0, 0)]);
    let pay = pooled(1, 2, 50, 1, 0);
    let pass_on = pooled(2, 3, 30, 2, 0);
    let out = assemble(&vec![pay, pass_on], &accounts, NOW, 5, true);
    assert_eq!(out.response.included, vec![pay, pass_on]);
    assert_eq!(out.response.affected_accounts, ids(&[1, 2, 3]));
    let mut expected: AccountMap = FnvHashMap::default();
    expected.insert(1, account(49, 1));
    expected.insert(2, account(18, 1));
    expected.insert(3, account(30, 0));
    assert_eq!(out.accounts_updated, expected);
    // In the other order the second has nothing to pay with.
    let turned = assemble(&vec![pass_on, pay], &accounts, NOW, 5, true);
    assert_eq!(turned.response.included, vec![pay]);
    assert_eq!(turned.response.completely_rejected, vec![pass_on]);
}

#[test]
fn assembly_leaves_the_ledger_as_it_was() {
    let accounts = ledger(&[(1, 100, 0), (2, 0, 0)]);
    let before = accounts.clone();
    let out = assemble(&vec![pooled(1, 2, 50, 1, 0)], &accounts, NOW, 5, true);
    assert_eq!(out.response.included.len(), 1);
    assert_eq!(accounts, before);
}

#[test]
fn a_block_without_room_includes_nothing() {
    let accounts = ledger(&[(1, 100, 0), (2, 0, 0)]);
    let first = pooled(1, 2, 10, 1, 0);
    let second = pooled(1, 2, 10, 1, 0);
    let out = assemble(&vec![first, second], &accounts, NOW, 0, true);
    assert!(out.response.included.is_empty());
    assert_eq!(out.response.valid_but_not_included, vec![first, second]);
    assert!(out.response.affected_accounts.is_empty());
    assert!(out.accounts_updated.is_empty());
    assert_eq!(out.residual, vec![first, second]);
}

#[test]
fn the_first_held_back_gets_in_with_one_more_slot() {
    let accounts = ledger(&[(1, 100, 0), (2, 0, 0), (3, 40, 0)]);
    let first = pooled(1, 2, 10, 1, 0);
    let second = pooled(3, 2, 10, 1, 0);
    let third = pooled(3, 1, 10, 1, 0);
    let queue = vec![first, second, third];
    let tight = assemble(&queue, &accounts, NOW, 1, true);
    assert_eq!(tight.response.included, vec![first]);
    assert_eq!(tight.response.valid_but_not_included, vec![second, third]);
    for capacity in 2..5 {
        let wider = assemble(&queue, &accounts, NOW, capacity, true);
        assert!(wider.response.included.contains(&second));
    }
}

#[test]
fn a_later_held_back_may_lose_its_place_to_an_earlier_one() {
    // Both wait with the same nonce of the same sender: with room for one
    // more, the first of them takes it and spends the nonce.
    let accounts = ledger(&[(1, 100, 0), (2, 0, 0), (3, 40, 0)]);
    let first = pooled(1, 2, 10, 1, 0);
    let second = pooled(3, 2, 10, 1, 0);
    let third = pooled(3, 1, 10, 1, 0);
    let queue = vec![first, second, third];
    let wider = assemble(&queue, &accounts, NOW, 3, true);
    assert_eq!(wider.response.included, vec![first, second]);
    assert_eq!(wider.response.completely_rejected, vec![third]);
}

#[test]
fn a_stale_transaction_is_rejected_though_the_ledger_would_take_it() {
    let accounts = ledger(&[(1, 100, 0), (2, 0, 0)]);
    let late = stale(1, 2, 10, 1, 0);
    let out = assemble(&vec![late], &accounts, NOW, 5, true);
    assert_eq!(out.response.completely_rejected, vec![late]);
    assert!(out.response.included.is_empty());
    let in_time = assemble(&vec![late], &accounts, 150, 5, true);
    assert_eq!(in_time.response.included, vec![late]);
}

#[test]
fn the_same_assembly_twice_gives_the_same_outcome() {
    let accounts = ledger(&[(1, 100, 0), (2, 30, 7), (3, 0, 0)]);
    let queue = vec![pooled(1, 2, 10, 1, 0), pooled(2, 1, 10, 1, 9), pooled(1, 3, 10, 1, 1)];
    let once = assemble(&queue, &accounts, NOW, 1, true);
    let again = assemble(&queue, &accounts, NOW, 1, true);
    assert_eq!(once.response.included, again.response.included);
    assert_eq!(once.response.valid_but_not_included, again.response.valid_but_not_included);
    assert_eq!(once.response.temporary_rejected, again.response.temporary_rejected);
    assert_eq!(once.response.completely_rejected, again.response.completely_rejected);
    assert_eq!(once.response.affected_accounts, again.response.affected_accounts);
    assert_eq!(once.accounts_updated, again.accounts_updated);
    assert_eq!(once.residual, again.residual);
}

#[test]
fn what_still_waits_keeps_the_order_of_the_queue() {
    let accounts = ledger(&[(1, 100, 0), (2, 30, 7), (3, 5, 0)]);
    let ahead = pooled(2, 1, 10, 1, 9);
    let taken = pooled(1, 2, 10, 1, 0);
    let held_back = pooled(3, 1, 1, 1, 0);
    let gone = stale(1, 2, 1, 1, 1);
    let queue = vec![ahead, taken, gone, held_back];
    let sealed = assemble(&queue, &accounts, NOW, 1, true);
    assert_eq!(sealed.residual, vec![ahead, held_back]);
    let dry = assemble(&queue, &accounts, NOW, 1, false);
    assert_eq!(dry.residual, vec![ahead, taken, held_back]);
    assert_eq!(dry.response.included, sealed.response.included);
}

#[test]
fn picking_looks_at_staleness_then_the_ledger_then_the_room() {
    let accounts = ledger(&[(1, 100, 0), (2, 0, 0)]);
    let working = WorkingLedger::new();
    let good = pooled(1, 2, 10, 1, 0);
    assert_eq!(pick(&working, &accounts, good, NOW, true), TransactionPickerResponse::Included(good));
    assert_eq!(
        pick(&working, &accounts, good, NOW, false),
        TransactionPickerResponse::ValidButNotIncluded(good)
    );
    let ahead = pooled(1, 2, 10, 1, 3);
    assert_eq!(
        pick(&working, &accounts, ahead, NOW, true),
        TransactionPickerResponse::TemporaryRejected(ahead)
    );
    let unknown = pooled(8, 2, 10, 1, 0);
    assert_eq!(
        pick(&working, &accounts, unknown, NOW, true),
        TransactionPickerResponse::RejectedCompletely(unknown)
    );
    let late = stale(1, 2, 10, 1, 0);
    assert_eq!(
        pick(&working, &accounts, late, NOW, true),
        TransactionPickerResponse::RejectedCompletely(late)
    );
}

#[test]
fn a_working_copy_changes_only_itself() {
    let accounts = ledger(&[(1, 100, 0), (2, 0, 0), (3, 9, 9)]);
    let mut working = WorkingLedger::new();
    let tx = pooled(1, 2, 10, 1, 0).transaction;
    assert_eq!(working.fault(&accounts, &tx), None);
    assert_eq!(working.apply(&accounts, &tx), None);
    // The same transfer again has a spent nonce and changes nothing.
    assert_eq!(working.fault(&accounts, &tx), Some(TransferError::NonceTooLow));
    assert_eq!(working.apply(&accounts, &tx), Some(TransferError::NonceTooLow));
    assert_eq!(working.get(&accounts, 1), Some(account(89, 1)));
    assert_eq!(working.get(&accounts, 2), Some(account(10, 0)));
    assert_eq!(working.get(&accounts, 3), Some(account(9, 9)));
    assert_eq!(working.get(&accounts, 4), None);
    assert_eq!(accounts, ledger(&[(1, 100, 0), (2, 0, 0), (3, 9, 9)]));
    let mut target = ledger(&[(1, 100, 0), (2, 0, 0), (3, 9, 9)]);
    working.commit(&mut target);
    assert_eq!(target, ledger(&[(1, 89, 1), (2, 10, 0), (3, 9, 9)]));
    assert_eq!(working.into_changes(), ledger(&[(1, 89, 1), (2, 10, 0)]));
}

#[test]
fn a_wider_block_starts_with_the_narrower_one() {
    let accounts = ledger(&[(1, 100, 0), (2, 0, 0), (3, 40, 0)]);
    let queue = vec![
        pooled(1, 2, 10, 1, 0),
        pooled(3, 2, 10, 1, 0),
        pooled(3, 1, 10, 1, 0),
        pooled(1, 3, 10, 1, 1),
        pooled(2, 1, 5, 1, 0),
    ];
    let mut narrower: Vec<InPoolTransaction> = Vec::new();
    for capacity in 0..7 {
        let out = assemble(&queue, &accounts, NOW, capacity, true);
        assert!(out.response.included.len() <= capacity);
        assert!(out.response.included.starts_with(&narrower));
        narrower = out.response.included;
    }
    assert_eq!(narrower, vec![queue[0], queue[1], queue[3], queue[4]]);
}
