//! The state processor: the one owner of the ledger.
//!
//! Every request goes through [`StateProcessor::process`], one at a time and in
//! the order in which the caller hands them in. Creating a block is a dry
//! run that leaves the processor as it is; applying a block is the only
//! request that changes the ledger. A block is checked again when it is
//! applied: it must carry the number that follows the last applied block and
//! each of its transfers must be one that the ledger can take in its turn.
//! A block that fails this leaves the ledger untouched and halts the
//! processor, which from then on hands every request back unserved.

use crate::account::{account_at, ledger_get, public_key_of, Account, AccountMap, PublicKey};
use crate::assembly::{assemble, assembled, residual, BlockAssemblyResponse, BlockAssemblyView};
use crate::block::{Block, BlockNumber};
use crate::pool::{InPoolTransaction, TxQueue};
use crate::transfer::{apply_transfer, transfer_fault, TransferError, TransferTx};
use crate::working::WorkingLedger;
use vstd::prelude::*;

verus! {

/// The outcome of a request to create a block: the classified outcome with
/// the number of the new block, or the classified outcome alone where no
/// block results.
pub type TransferBlockResult = Result<(BlockAssemblyResponse, BlockNumber), BlockAssemblyResponse>;

/// The four requests that the processor serves.
#[derive(Debug, PartialEq, Eq)]
pub enum StateProcessingRequest {
    /// Assemble the queue against the ledger; with the flag set, seal a block
    /// from what is included.
    CreateTransferBlock(TxQueue, bool),
    /// Apply the transfers of a block to the ledger.
    ApplyBlock(Block),
    /// Read the public key of an account.
    GetPubKey(u32),
    /// Read the state of an account.
    GetLatestState(u32),
}

/// Why a block was not applied.
#[derive(Clone, Copy, Debug, PartialEq, Eq)]
pub enum ApplyError {
    /// The processor has halted on an earlier block.
    Halted,
    /// The block does not carry the number that follows the last applied
    /// block.
    OutOfSequence,
    /// The ledger cannot take the transfer at this position of the block.
    Refused { position: usize, fault: TransferError },
}

/// The answers of the processor, one kind for each kind of request.
#[derive(Debug)]
pub enum StateProcessingResponse {
    /// To `CreateTransferBlock`: the queue of the transactions that still
    /// wait, and the outcome.
    TransferBlock(TxQueue, TransferBlockResult),
    /// To `ApplyBlock`: the block, with the accounts that it changed, as it
    /// leaves them, or with the reason why it was not applied.
    BlockApplied(Block, Result<AccountMap, ApplyError>),
    /// To `GetPubKey`: the key, if the account exists.
    PubKey(Option<PublicKey>),
    /// To `GetLatestState`: the account, if it exists.
    LatestState(Option<Account>),
    /// To any request once the processor has halted: the request, unserved.
    Halted(StateProcessingRequest),
}

/// The owner of the ledger.
#[derive(Debug)]
pub struct StateProcessor {
    /// The ledger.
    pub accounts: AccountMap,
    /// The number of the last block applied.
    pub block_number: BlockNumber,
    /// How many transactions a block takes at most.
    pub block_size: usize,
    /// Whether a block has failed to apply.
    pub halted: bool,
}

/// The model of a [`StateProcessor`].
pub struct StateView {
    pub ledger: Map<u32, Account>,
    pub block_number: BlockNumber,
    pub block_size: usize,
    pub halted: bool,
}

impl View for StateProcessor {
    type V = StateView;

    open spec fn view(&self) -> StateView {
        StateView {
            ledger: self.accounts@,
            block_number: self.block_number,
            block_size: self.block_size,
            halted: self.halted,
        }
    }
}

/// The ledger after the transfers of a block, applied in their order, or the
/// position of the first one that the ledger cannot take, with its fault.
pub open spec fn applied(ledger: Map<u32, Account>, transfers: Seq<TransferTx>) -> Result<
    Map<u32, Account>,
    (int, TransferError),
>
    decreases transfers.len(),
{
    if transfers.len() == 0 {
        Ok(ledger)
    } else {
        match applied(ledger, transfers.drop_last()) {
            Err(refusal) => Err(refusal),
            Ok(before) => match transfer_fault(before, transfers.last()) {
                Some(fault) => Err((transfers.len() - 1, fault)),
                None => Ok(apply_transfer(before, transfers.last())),
            },
        }
    }
}

/// The ids of the accounts that send or receive in a list of transfers.
pub open spec fn touched_by(transfers: Seq<TransferTx>) -> Set<u32>
    decreases transfers.len(),
{
    if transfers.len() == 0 {
        Set::empty()
    } else {
        touched_by(transfers.drop_last()).insert(transfers.last().from).insert(
            transfers.last().to,
        )
    }
}

/// Why the processor in this state does not apply this block, if it does not.
pub open spec fn apply_fault(state: StateView, block: Block) -> Option<ApplyError> {
    if state.halted {
        Some(ApplyError::Halted)
    } else if block.block_number != state.block_number + 1 {
        Some(ApplyError::OutOfSequence)
    } else {
        match applied(state.ledger, block.transactions@) {
            Err(refusal) => Some(
                ApplyError::Refused { position: refusal.0 as usize, fault: refusal.1 },
            ),
            Ok(_) => None,
        }
    }
}

/// The state of the processor after it has been asked to apply a block.
pub open spec fn state_after_block(state: StateView, block: Block) -> StateView {
    match apply_fault(state, block) {
        Some(_) => StateView { halted: true, ..state },
        None => StateView {
            ledger: applied(state.ledger, block.transactions@)->Ok_0,
            block_number: block.block_number,
            ..state
        },
    }
}

/// The state of the processor after a request. Only `ApplyBlock` changes it.
pub open spec fn state_after(state: StateView, request: StateProcessingRequest) -> StateView {
    match request {
        StateProcessingRequest::ApplyBlock(block) => state_after_block(state, block),
        _ => state,
    }
}

/// Whether the processor in this state seals a block when asked with this
/// flag: the flag must be set and there must be a number left for the block.
pub open spec fn sealing(state: StateView, seal_block: bool) -> bool {
    seal_block && state.block_number < u32::MAX
}

/// The classified outcome that a result carries, whether a block resulted or
/// not.
pub open spec fn outcome_of(result: TransferBlockResult) -> BlockAssemblyView {
    match result {
        Ok(sealed) => sealed.0@,
        Err(response) => response@,
    }
}

/// The number of the block that a result announces, if it announces one.
pub open spec fn number_of(result: TransferBlockResult) -> Option<BlockNumber> {
    match result {
        Ok(sealed) => Some(sealed.1),
        Err(_) => None,
    }
}

/// The number of the block that the processor in this state seals from this
/// queue: the number after the last applied block, if it is asked to seal and
/// at least one transaction is included.
pub open spec fn sealed_number(
    state: StateView,
    queue: Seq<InPoolTransaction>,
    seal_block: bool,
    now: u64,
) -> Option<BlockNumber> {
    if sealing(state, seal_block) && assembled(
        queue,
        state.ledger,
        now,
        state.block_size,
    ).response.included.len() > 0 {
        Some((state.block_number + 1) as u32)
    } else {
        None
    }
}

/// Once a transfer of a block is refused, the rest of the block does not
/// matter.
pub proof fn lemma_refusal_stands(ledger: Map<u32, Account>, transfers: Seq<TransferTx>, upto: int)
    requires
        0 <= upto <= transfers.len(),
        applied(ledger, transfers.take(upto)) is Err,
    ensures
        applied(ledger, transfers) == applied(ledger, transfers.take(upto)),
    decreases transfers.len() - upto,
{
    if upto < transfers.len() {
        assert(transfers.take(upto + 1).drop_last() == transfers.take(upto));
        lemma_refusal_stands(ledger, transfers, upto + 1);
    } else {
        assert(transfers.take(upto) == transfers);
    }
}

impl StateProcessor {
    /// A processor that starts from the given ledger, after the block with
    /// the given number, and seals blocks of at most `block_size`
    /// transactions.
    pub fn new(accounts: AccountMap, block_number: BlockNumber, block_size: usize) -> (processor:
        StateProcessor)
        ensures
            processor@ == (StateView {
                ledger: accounts@,
                block_number,
                block_size,
                halted: false,
            }),
    {
        StateProcessor { accounts, block_number, block_size, halted: false }
    }

    /// The public key of an account, if the ledger holds the account.
    pub fn get_pub_key(&self, account_id: u32) -> (key: Option<PublicKey>)
        ensures
            key == match account_at(self@.ledger, account_id) {
                Some(account) => Some(account.public_key),
                None => None,
            },
    {
        public_key_of(&self.accounts, account_id)
    }

    /// The present state of an account, if the ledger holds the account.
    pub fn get_latest_state(&self, account_id: u32) -> (account: Option<Account>)
        ensures
            account == account_at(self@.ledger, account_id),
    {
        ledger_get(&self.accounts, account_id)
    }

    /// Assembles the queue against the ledger at time `now`, without changing
    /// the ledger. A block results where `seal_block` is set, a block number
    /// is left, and at least one transaction is included: the result then
    /// carries the number of the new block. The queue that comes back holds
    /// the transactions that still wait.
    pub fn create_transfer_block(&self, queue: TxQueue, seal_block: bool, now: u64) -> (reply: (
        TxQueue,
        TransferBlockResult,
    ))
        ensures
            reply.0.limit == queue.limit,
            reply.0@ == residual(
                queue@,
                self@.ledger,
                now,
                self@.block_size,
                sealing(self@, seal_block),
            ),
            outcome_of(reply.1) == assembled(queue@, self@.ledger, now, self@.block_size).response,
            number_of(reply.1) == sealed_number(self@, queue@, seal_block, now),
    {
        let sealing = seal_block && self.block_number < u32::MAX;
        let assembly = assemble(&queue.entries, &self.accounts, now, self.block_size, sealing);
        let waiting = TxQueue { entries: assembly.residual, limit: queue.limit };
        if sealing && assembly.response.included.len() > 0 {
            (waiting, Ok((assembly.response, self.block_number + 1)))
        } else {
            (waiting, Err(assembly.response))
        }
    }

    /// Applies the transfers of a block to the ledger, in their order, and
    /// hands back the accounts that the block changed as it leaves them. A
    /// block that cannot be applied leaves the ledger as it is and halts the
    /// processor.
    pub fn apply_block(&mut self, block: &Block) -> (outcome: Result<AccountMap, ApplyError>)
        ensures
            final(self)@ == state_after_block(old(self)@, *block),
            match outcome {
                Ok(accounts_updated) => apply_fault(old(self)@, *block) is None
                    && accounts_updated@ == final(self)@.ledger.restrict(
                    touched_by(block.transactions@),
                ),
                Err(fault) => apply_fault(old(self)@, *block) == Some(fault),
            },
    {
        if self.halted {
            return Err(ApplyError::Halted);
        }
        if self.block_number == u32::MAX || block.block_number != self.block_number + 1 {
            self.halted = true;
            return Err(ApplyError::OutOfSequence);
        }
        let ghost ledger = self.accounts@;
        let mut working = WorkingLedger::new();
        let mut at: usize = 0;
        proof {
            assert(block.transactions@.take(0) =~= Seq::empty());
        }
        while at < block.transactions.len()
            invariant
                at <= block.transactions.len(),
                self.accounts@ == ledger,
                *self == *old(self),
                !old(self).halted,
                block.block_number == old(self).block_number + 1,
                applied(ledger, block.transactions@.take(at as int)) == Ok::<
                    Map<u32, Account>,
                    (int, TransferError),
                >(working.over(ledger)),
                working@.dom() == touched_by(block.transactions@.take(at as int)),
            decreases block.transactions.len() - at,
        {
            let transfer = &block.transactions[at];
            proof {
                assert(block.transactions@.take(at + 1).drop_last() == block.transactions@.take(
                    at as int,
                ));
            }
            match working.apply(&self.accounts, transfer) {
                Some(fault) => {
                    proof {
                        lemma_refusal_stands(ledger, block.transactions@, at + 1);
                    }
                    self.halted = true;
                    return Err(ApplyError::Refused { position: at, fault });
                },
                None => {},
            }
            at = at + 1;
        }
        proof {
            assert(block.transactions@.take(at as int) == block.transactions@);
        }
        working.commit(&mut self.accounts);
        self.block_number = block.block_number;
        proof {
            assert(working@ =~= self.accounts@.restrict(touched_by(block.transactions@)));
        }
        Ok(working.into_changes())
    }

    /// Serves one request at time `now`.
    pub fn process(&mut self, request: StateProcessingRequest, now: u64) -> (response:
        StateProcessingResponse)
        ensures
            final(self)@ == (if old(self)@.halted {
                old(self)@
            } else {
                state_after(old(self)@, request)
            }),
            old(self)@.halted ==> response == StateProcessingResponse::Halted(request),
            !old(self)@.halted ==> match request {
                StateProcessingRequest::CreateTransferBlock(queue, seal_block) => {
                    &&& response matches StateProcessingResponse::TransferBlock(waiting, result)
                    &&& waiting.limit == queue.limit
                    &&& waiting@ == residual(
                        queue@,
                        old(self)@.ledger,
                        now,
                        old(self)@.block_size,
                        sealing(old(self)@, seal_block),
                    )
                    &&& outcome_of(result) == assembled(
                        queue@,
                        old(self)@.ledger,
                        now,
                        old(self)@.block_size,
                    ).response
                    &&& number_of(result) == sealed_number(old(self)@, queue@, seal_block, now)
                },
                StateProcessingRequest::ApplyBlock(block) => {
                    &&& response matches StateProcessingResponse::BlockApplied(returned, outcome)
                    &&& returned == block
                    &&& match outcome {
                        Ok(accounts_updated) => apply_fault(old(self)@, block) is None
                            && accounts_updated@ == final(self)@.ledger.restrict(
                            touched_by(block.transactions@),
                        ),
                        Err(fault) => apply_fault(old(self)@, block) == Some(fault),
                    }
                },
                StateProcessingRequest::GetPubKey(account_id) => response
                    == StateProcessingResponse::PubKey(
                    match account_at(old(self)@.ledger, account_id) {
                        Some(account) => Some(account.public_key),
                        None => None,
                    },
                ),
                StateProcessingRequest::GetLatestState(account_id) => response
                    == StateProcessingResponse::LatestState(
                    account_at(old(self)@.ledger, account_id),
                ),
            },
    {
        if self.halted {
            return StateProcessingResponse::Halted(request);
        }
        match request {
            StateProcessingRequest::CreateTransferBlock(queue, seal_block) => {
                let (waiting, result) = self.create_transfer_block(queue, seal_block, now);
                StateProcessingResponse::TransferBlock(waiting, result)
            },
            StateProcessingRequest::ApplyBlock(block) => {
                let outcome = self.apply_block(&block);
                StateProcessingResponse::BlockApplied(block, outcome)
            },
            StateProcessingRequest::GetPubKey(account_id) => StateProcessingResponse::PubKey(
                self.get_pub_key(account_id),
            ),
            StateProcessingRequest::GetLatestState(account_id) => {
                StateProcessingResponse::LatestState(self.get_latest_state(account_id))
            },
        }
    }
}

} // verus!
