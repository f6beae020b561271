//! Pooled transactions and the queue that holds them until block assembly.
//!
//! Times are counted in milliseconds on a clock that never runs backwards.
//! The queue knows nothing of the ledger: on admission it looks at the shape
//! of a transaction only.

use crate::transfer::TransferTx;
use vstd::prelude::*;

verus! {

/// A transfer waiting for a block, with the time it was admitted at and the
/// time it may wait.
#[derive(Clone, Copy, Debug, PartialEq, Eq)]
pub struct InPoolTransaction {
    pub timestamp: u64,
    pub lifetime: u64,
    pub transaction: TransferTx,
}

impl InPoolTransaction {
    /// A pooled transaction is stale once its age exceeds its lifetime.
    pub open spec fn stale_at(self, now: u64) -> bool {
        now - self.timestamp > self.lifetime
    }

    /// Whether the transaction is stale at `now`.
    pub fn is_stale(&self, now: u64) -> (stale: bool)
        ensures
            stale == self.stale_at(now),
    {
        now > self.timestamp && now - self.timestamp > self.lifetime
    }
}

/// The answer to the submission of one transaction. Each variant hands the
/// submitted transaction back as the only item of its list.
#[derive(Clone, Debug, PartialEq, Eq)]
pub enum IndividualTransactionResponse {
    /// The transaction now waits at the end of the queue.
    Accepted(Vec<InPoolTransaction>),
    /// The queue is full: the same submission may succeed later.
    TemporaryRejected(Vec<InPoolTransaction>),
    /// The transaction is misshapen: it can never be taken.
    RejectedCompletely(Vec<InPoolTransaction>),
}

impl IndividualTransactionResponse {
    /// The transactions that the answer carries.
    pub open spec fn carried(self) -> Seq<InPoolTransaction> {
        match self {
            IndividualTransactionResponse::Accepted(list) => list@,
            IndividualTransactionResponse::TemporaryRejected(list) => list@,
            IndividualTransactionResponse::RejectedCompletely(list) => list@,
        }
    }
}

/// The transaction pool: pooled transactions in the order of their arrival,
/// at most `limit` of them by submission.
#[derive(Clone, Debug, PartialEq, Eq)]
pub struct TxQueue {
    pub entries: Vec<InPoolTransaction>,
    pub limit: usize,
}

impl View for TxQueue {
    type V = Seq<InPoolTransaction>;

    open spec fn view(&self) -> Seq<InPoolTransaction> {
        self.entries@
    }
}

impl TxQueue {
    /// An empty queue that takes up to `limit` transactions by submission.
    pub fn new(limit: usize) -> (queue: TxQueue)
        ensures
            queue@ == Seq::<InPoolTransaction>::empty(),
            queue.limit == limit,
    {
        TxQueue { entries: Vec::new(), limit }
    }

    /// The number of transactions that wait.
    pub fn len(&self) -> (n: usize)
        ensures
            n == self@.len(),
    {
        self.entries.len()
    }

    /// Whether no transaction waits.
    pub fn is_empty(&self) -> (empty: bool)
        ensures
            empty == (self@.len() == 0),
    {
        self.entries.len() == 0
    }

    /// Takes a submitted transaction in at the end of the queue, unless it is
    /// misshapen or the queue is full. Only the shape of the transaction is
    /// looked at, not the ledger.
    pub fn submit(&mut self, entry: InPoolTransaction) -> (answer: IndividualTransactionResponse)
        ensures
            final(self).limit == old(self).limit,
            answer.carried() == seq![entry],
            answer is Accepted <==> entry.transaction.well_formed() && old(self)@.len() < old(
                self,
            ).limit,
            answer is TemporaryRejected <==> entry.transaction.well_formed() && old(self)@.len()
                >= old(self).limit,
            answer is RejectedCompletely <==> !entry.transaction.well_formed(),
            answer is Accepted ==> final(self)@ == old(self)@.push(entry),
            !(answer is Accepted) ==> final(self)@ == old(self)@,
    {
        let mut carried: Vec<InPoolTransaction> = Vec::new();
        carried.push(entry);
        if !entry.transaction.is_well_formed() {
            IndividualTransactionResponse::RejectedCompletely(carried)
        } else if self.entries.len() >= self.limit {
            IndividualTransactionResponse::TemporaryRejected(carried)
        } else {
            self.entries.push(entry);
            IndividualTransactionResponse::Accepted(carried)
        }
    }

    /// Puts transactions that came out of an earlier assembly back at the end
    /// of the queue, in their order. The limit does not count against them.
    pub fn readmit(&mut self, returned: &Vec<InPoolTransaction>)
        ensures
            final(self).limit == old(self).limit,
            final(self)@ == old(self)@ + returned@,
    {
        let mut at: usize = 0;
        while at < returned.len()
            invariant
                at <= returned.len(),
                self.limit == old(self).limit,
                self@ == old(self)@ + returned@.take(at as int),
            decreases returned.len() - at,
        {
            self.entries.push(returned[at]);
            at = at + 1;
            assert(returned@.take(at as int) == returned@.take(at - 1).push(returned@[at - 1]));
        }
        assert(returned@.take(at as int) == returned@);
    }

    /// Hands out every waiting transaction, in order, and leaves the queue
    /// empty.
    pub fn drain(&mut self) -> (taken: Vec<InPoolTransaction>)
        ensures
            final(self).limit == old(self).limit,
            taken@ == old(self)@,
            final(self)@ == Seq::<InPoolTransaction>::empty(),
    {
        let mut taken: Vec<InPoolTransaction> = Vec::new();
        std::mem::swap(&mut taken, &mut self.entries);
        taken
    }
}

} // verus!
