//! What holds of the state processor whatever it is asked, proved from the
//! definitions of its requests.

use crate::account::{account_at, Account};
use crate::assembly::{assembled, residual};
use crate::block::{transfers_of, Block};
use crate::pool::{InPoolTransaction, TxQueue};
use crate::processor::{
    applied, apply_fault, sealed_number, sealing, state_after, state_after_block, touched_by,
    StateProcessingRequest, StateView,
};
use crate::transfer::{TransferError, TransferTx};
use vstd::prelude::*;

verus! {

/// How many of the transfers the account `id` sends.
pub open spec fn sent_by(transfers: Seq<TransferTx>, id: u32) -> nat
    decreases transfers.len(),
{
    if transfers.len() == 0 {
        0
    } else {
        sent_by(transfers.drop_last(), id) + if transfers.last().from == id {
            1nat
        } else {
            0nat
        }
    }
}

/// What the transfers take from the account `id`: amount and fee of each
/// transfer that it sends.
pub open spec fn paid_by(transfers: Seq<TransferTx>, id: u32) -> nat
    decreases transfers.len(),
{
    if transfers.len() == 0 {
        0
    } else {
        paid_by(transfers.drop_last(), id) + if transfers.last().from == id {
            transfers.last().cost() as nat
        } else {
            0nat
        }
    }
}

/// What the transfers bring to the account `id`: the amount of each transfer
/// that it receives.
pub open spec fn received_by(transfers: Seq<TransferTx>, id: u32) -> nat
    decreases transfers.len(),
{
    if transfers.len() == 0 {
        0
    } else {
        received_by(transfers.drop_last(), id) + if transfers.last().to == id {
            transfers.last().amount as nat
        } else {
            0nat
        }
    }
}

/// An account that the transfers do not touch neither sends, pays nor
/// receives.
pub proof fn lemma_untouched_moves_nothing(transfers: Seq<TransferTx>, id: u32)
    requires
        !touched_by(transfers).contains(id),
    ensures
        sent_by(transfers, id) == 0,
        paid_by(transfers, id) == 0,
        received_by(transfers, id) == 0,
    decreases transfers.len(),
{
    if transfers.len() > 0 {
        lemma_untouched_moves_nothing(transfers.drop_last(), id);
    }
}

/// The transfers of a block that the ledger takes create and delete no
/// account, and leave each account with what it had, less what it paid, plus
/// what it received, its nonce moved on by the number of transfers it sent.
pub proof fn lemma_block_settles_accounts(
    ledger: Map<u32, Account>,
    transfers: Seq<TransferTx>,
    id: u32,
)
    requires
        applied(ledger, transfers) is Ok,
    ensures
        ({
            let after = applied(ledger, transfers)->Ok_0;
            &&& after.contains_key(id) <==> ledger.contains_key(id)
            &&& ledger.contains_key(id) ==> {
                &&& after[id].balance == ledger[id].balance - paid_by(transfers, id) + received_by(
                    transfers,
                    id,
                )
                &&& after[id].nonce == ledger[id].nonce + sent_by(transfers, id)
                &&& after[id].public_key == ledger[id].public_key
            }
        }),
    decreases transfers.len(),
{
    if transfers.len() > 0 {
        lemma_block_settles_accounts(ledger, transfers.drop_last(), id);
    }
}

/// After a block has been applied, reading an account that the block touches
/// gives the account as the block's transfers leave it, and reading any other
/// account gives what it gave before.
pub proof fn lemma_apply_then_read(state: StateView, block: Block, id: u32)
    requires
        apply_fault(state, block) is None,
    ensures
        ({
            let after = state_after_block(state, block).ledger;
            let transfers = block.transactions@;
            &&& after == applied(state.ledger, transfers)->Ok_0
            &&& !touched_by(transfers).contains(id) ==> account_at(after, id) == account_at(
                state.ledger,
                id,
            )
            &&& account_at(after, id) is Some <==> account_at(state.ledger, id) is Some
            &&& state.ledger.contains_key(id) ==> {
                &&& after[id].balance == state.ledger[id].balance - paid_by(transfers, id)
                    + received_by(transfers, id)
                &&& after[id].nonce == state.ledger[id].nonce + sent_by(transfers, id)
                &&& after[id].public_key == state.ledger[id].public_key
            }
        }),
{
    lemma_block_settles_accounts(state.ledger, block.transactions@, id);
    if !touched_by(block.transactions@).contains(id) {
        lemma_untouched_moves_nothing(block.transactions@, id);
    }
}

/// A block that is not applied leaves every account as it was.
pub proof fn lemma_failed_block_changes_nothing(state: StateView, block: Block)
    requires
        apply_fault(state, block) is Some,
    ensures
        state_after_block(state, block).ledger == state.ledger,
        state_after_block(state, block).block_number == state.block_number,
        state_after_block(state, block).halted,
{
}

/// Creating a block is a dry run: it leaves the processor as it was, so that
/// the same request, served again at the same time with no block applied in
/// between, is answered in the same way.
pub proof fn lemma_assembly_is_repeatable(
    state: StateView,
    queue: TxQueue,
    seal_block: bool,
    now: u64,
)
    ensures
        ({
            let between = state_after(
                state,
                StateProcessingRequest::CreateTransferBlock(queue, seal_block),
            );
            &&& between == state
            &&& assembled(queue@, between.ledger, now, between.block_size) == assembled(
                queue@,
                state.ledger,
                now,
                state.block_size,
            )
            &&& sealed_number(between, queue@, seal_block, now) == sealed_number(
                state,
                queue@,
                seal_block,
                now,
            )
            &&& residual(
                queue@,
                between.ledger,
                now,
                between.block_size,
                sealing(between, seal_block),
            ) == residual(queue@, state.ledger, now, state.block_size, sealing(state, seal_block))
        }),
{
}

/// The transfers that an assembly includes are transfers that the ledger
/// takes in their order: applied to the ledger that the assembly started
/// from, they leave the ledger that the assembly ended with, and touch the
/// accounts that the assembly names as affected.
pub proof fn lemma_included_transfers_apply(
    queue: Seq<InPoolTransaction>,
    ledger: Map<u32, Account>,
    now: u64,
    capacity: usize,
)
    ensures
        ({
            let whole = assembled(queue, ledger, now, capacity);
            let transfers = transfers_of(whole.response.included);
            &&& applied(ledger, transfers) == Ok::<Map<u32, Account>, (int, TransferError)>(
                whole.ledger,
            )
            &&& touched_by(transfers) == whole.response.affected_accounts
        }),
    decreases queue.len(),
{
    if queue.len() > 0 {
        lemma_included_transfers_apply(queue.drop_last(), ledger, now, capacity);
        let before = assembled(queue.drop_last(), ledger, now, capacity);
        let whole = assembled(queue, ledger, now, capacity);
        let earlier = transfers_of(before.response.included);
        let transfers = transfers_of(whole.response.included);
        if whole.response.included.len() > before.response.included.len() {
            let picked = queue.last();
            assert(whole.response.included == before.response.included.push(picked));
            assert(transfers.drop_last() =~= earlier);
            assert(transfers.last() == picked.transaction);
        } else {
            assert(transfers =~= earlier);
        }
    } else {
        assert(transfers_of(Seq::<InPoolTransaction>::empty()) =~= Seq::<TransferTx>::empty());
    }
}

/// A block that the processor has announced, sealed from the transactions
/// that it included, is a block that the processor applies, as long as no
/// other block has been applied in between; the ledger is then the one that
/// the assembly ended with.
pub proof fn lemma_announced_block_applies(
    state: StateView,
    queue: TxQueue,
    seal_block: bool,
    now: u64,
    block: Block,
)
    requires
        !state.halted,
        sealed_number(state, queue@, seal_block, now) == Some(block.block_number),
        block.transactions@ == transfers_of(
            assembled(queue@, state.ledger, now, state.block_size).response.included,
        ),
    ensures
        apply_fault(state, block) is None,
        state_after_block(state, block).ledger == assembled(
            queue@,
            state.ledger,
            now,
            state.block_size,
        ).ledger,
        state_after_block(state, block).block_number == state.block_number + 1,
{
    lemma_included_transfers_apply(queue@, state.ledger, now, state.block_size);
}

/// Reading leaves the processor as it was.
pub proof fn lemma_reads_change_nothing(state: StateView, id: u32)
    ensures
        state_after(state, StateProcessingRequest::GetPubKey(id)) == state,
        state_after(state, StateProcessingRequest::GetLatestState(id)) == state,
{
}

} // verus!
