//! Blocks, and the data that describes a block to the base chain.

use crate::pool::InPoolTransaction;
use crate::transfer::TransferTx;
use vstd::prelude::*;

verus! {

/// A 256-bit digest as the base-chain client knows it. Opaque here: a root
/// digest is computed elsewhere and only carried.
#[verifier::external_type_specification]
#[verifier::external_body]
pub struct ExH256(web3::types::H256);

/// The number of a block.
pub type BlockNumber = u32;

/// The number of a batch of deposits or exits.
pub type BatchNumber = u32;

/// An accepted batch of transfers in the order in which they are applied,
/// with the digest of the ledger that they leave.
#[derive(Debug, PartialEq, Eq)]
pub struct Block {
    pub block_number: BlockNumber,
    pub transactions: Vec<TransferTx>,
    pub new_root_hash: web3::types::H256,
}

/// The transfers that a list of pooled transactions carries, in order.
pub open spec fn transfers_of(entries: Seq<InPoolTransaction>) -> Seq<TransferTx> {
    Seq::new(entries.len(), |i: int| entries[i].transaction)
}

/// The sum of the fees of a list of transfers.
pub open spec fn fees_of(transactions: Seq<TransferTx>) -> nat
    decreases transactions.len(),
{
    if transactions.len() == 0 {
        0
    } else {
        fees_of(transactions.drop_last()) + transactions.last().fee as nat
    }
}

/// The fees of the first transfers of a list never exceed those of the whole
/// list.
pub proof fn lemma_fees_grow(transactions: Seq<TransferTx>, upto: int)
    requires
        0 <= upto <= transactions.len(),
    ensures
        fees_of(transactions.take(upto)) <= fees_of(transactions),
    decreases transactions.len() - upto,
{
    if upto < transactions.len() {
        lemma_fees_grow(transactions, upto + 1);
        assert(transactions.take(upto + 1).drop_last() == transactions.take(upto));
    } else {
        assert(transactions.take(upto) == transactions);
    }
}

/// The sum of the fees of `transactions`, or `None` where the sum does not fit
/// in 128 bits.
pub fn total_fees(transactions: &Vec<TransferTx>) -> (total: Option<u128>)
    ensures
        total == (if fees_of(transactions@) <= u128::MAX {
            Some(fees_of(transactions@) as u128)
        } else {
            None
        }),
{
    let mut sum: u128 = 0;
    let mut at: usize = 0;
    assert(transactions@.take(0) =~= Seq::empty());
    while at < transactions.len()
        invariant
            at <= transactions.len(),
            sum == fees_of(transactions@.take(at as int)),
        decreases transactions.len() - at,
    {
        proof {
            assert(transactions@.take(at + 1).drop_last() == transactions@.take(at as int));
            lemma_fees_grow(transactions@, at + 1);
        }
        match sum.checked_add(transactions[at].fee) {
            Some(more) => {
                sum = more;
            },
            None => {
                return None;
            },
        }
        at = at + 1;
    }
    assert(transactions@.take(at as int) == transactions@);
    Some(sum)
}

impl Block {
    /// The block with the given number that holds the transfers of the
    /// included transactions, in their order, and leaves the ledger with the
    /// given root digest.
    pub fn seal(
        block_number: BlockNumber,
        included: &Vec<InPoolTransaction>,
        new_root_hash: web3::types::H256,
    ) -> (block: Block)
        ensures
            block.block_number == block_number,
            block.transactions@ == transfers_of(included@),
            block.new_root_hash == new_root_hash,
    {
        let mut transactions: Vec<TransferTx> = Vec::new();
        let mut at: usize = 0;
        while at < included.len()
            invariant
                at <= included.len(),
                transactions@ == transfers_of(included@.take(at as int)),
            decreases included.len() - at,
        {
            transactions.push(included[at].transaction);
            at = at + 1;
            assert(transactions@ =~= transfers_of(included@.take(at as int)));
        }
        assert(included@.take(at as int) == included@);
        Block { block_number, transactions, new_root_hash }
    }
}

/// What kind of batch a block is on the base chain, with what the base chain
/// needs to know of it. The public data is a blob that this crate stores and
/// forwards as it is.
#[derive(Clone, Debug, PartialEq, Eq)]
pub enum EthBlockData {
    Transfer { total_fees: u128, public_data: Vec<u8> },
    Deposit { batch_number: BatchNumber },
    Exit { batch_number: BatchNumber, public_data: Vec<u8> },
}

impl EthBlockData {
    /// The description of a block of transfers: the sum of its fees and its
    /// public data. `None` where the fees do not fit in 128 bits.
    pub fn for_transfers(block: &Block, public_data: Vec<u8>) -> (data: Option<EthBlockData>)
        ensures
            data == (if fees_of(block.transactions@) <= u128::MAX {
                Some(
                    EthBlockData::Transfer {
                        total_fees: fees_of(block.transactions@) as u128,
                        public_data,
                    },
                )
            } else {
                None
            }),
    {
        match total_fees(&block.transactions) {
            Some(total_fees) => Some(EthBlockData::Transfer { total_fees, public_data }),
            None => None,
        }
    }
}

} // verus!
