//! On-chain actions, the operations that carry them, and the rows in which
//! the operation store keeps them.
//!
//! Each block goes through two actions on the base chain: first its root is
//! committed, later a proof verifies it. An operation wraps one action with
//! the block it is about. A stored operation is the row that stands for an
//! operation in the store; of a row this crate reads the id, the block number
//! and the kind of action, and carries the rest.

use crate::account::AccountMap;
use crate::block::{fees_of, Block, BlockNumber, EthBlockData};
use vstd::prelude::*;

verus! {

/// A 256-bit word as the base-chain client knows it. Opaque here: the words
/// of a proof are produced elsewhere and only carried.
#[verifier::external_type_specification]
#[verifier::external_body]
pub struct ExU256(web3::types::U256);

/// A JSON value. Opaque here: the payload of a row is written and read
/// elsewhere and only carried.
#[verifier::external_type_specification]
#[verifier::external_body]
pub struct ExJsonValue(serde_json::Value);

/// A point in time by the system clock. Opaque here: the creation time of a
/// row is set by the store and only carried.
#[verifier::external_type_specification]
#[verifier::external_body]
pub struct ExSystemTime(std::time::SystemTime);

/// A proof in the form in which the base chain takes it: eight words.
pub type EncodedProof = [web3::types::U256; 8];

/// The two kinds of action.
#[derive(Clone, Copy, Debug, PartialEq, Eq)]
pub enum ActionType {
    Commit,
    Verify,
}

/// The kind of action that a label names, if it names one.
pub open spec fn labelled(label: Seq<char>) -> Option<ActionType> {
    if label == "Commit"@ {
        Some(ActionType::Commit)
    } else if label == "Verify"@ {
        Some(ActionType::Verify)
    } else {
        None
    }
}

impl ActionType {
    /// The label under which rows record this kind of action.
    pub open spec fn label(self) -> Seq<char> {
        match self {
            ActionType::Commit => "Commit"@,
            ActionType::Verify => "Verify"@,
        }
    }

    /// The label of this kind of action: `Commit` or `Verify`.
    pub fn name(&self) -> (label: String)
        ensures
            label@ == self.label(),
    {
        match self {
            ActionType::Commit => "Commit".to_owned(),
            ActionType::Verify => "Verify".to_owned(),
        }
    }

    /// The kind of action that `label` names, if it names one.
    pub fn parse(label: &String) -> (kind: Option<ActionType>)
        ensures
            kind == labelled(label@),
    {
        let commit = "Commit".to_owned();
        let verify = "Verify".to_owned();
        if *label == commit {
            Some(ActionType::Commit)
        } else if *label == verify {
            Some(ActionType::Verify)
        } else {
            None
        }
    }

    /// The label of a kind of action names that kind again.
    pub proof fn lemma_label_names_its_kind(self)
        ensures
            labelled(self.label()) == Some(self),
    {
        reveal_strlit("Commit");
        reveal_strlit("Verify");
        assert("Commit"@[0] == 'C');
        assert("Verify"@[0] == 'V');
    }
}

/// What is to happen on the base chain.
#[derive(Debug, PartialEq, Eq)]
pub enum Action {
    /// Publish a new root, with the block where its data is to be had on the
    /// base chain.
    Commit { new_root: web3::types::H256, block: Option<Block> },
    /// Submit the proof that the committed root is right.
    Verify { proof: EncodedProof },
}

impl Action {
    /// The kind of this action.
    pub open spec fn kind_of(self) -> ActionType {
        match self {
            Action::Commit { .. } => ActionType::Commit,
            Action::Verify { .. } => ActionType::Verify,
        }
    }

    /// The kind of this action.
    pub fn kind(&self) -> (kind: ActionType)
        ensures
            kind == self.kind_of(),
    {
        match self {
            Action::Commit { .. } => ActionType::Commit,
            Action::Verify { .. } => ActionType::Verify,
        }
    }

    /// The label of this action: `Commit` or `Verify`.
    pub fn to_string(&self) -> (label: String)
        ensures
            label@ == self.kind_of().label(),
    {
        self.kind().name()
    }
}

/// One unit of work for the base chain: an action, the number of the block
/// it is about, what the base chain needs to know of that block, and the
/// accounts that the block changes.
#[derive(Debug, PartialEq, Eq)]
pub struct Operation {
    pub action: Action,
    pub block_number: BlockNumber,
    pub block_data: EthBlockData,
    pub accounts_updated: AccountMap,
}

impl Operation {
    /// The operation that commits an applied block of transfers. `None` where
    /// the fees of the block do not fit in 128 bits.
    pub fn commit(block: Block, public_data: Vec<u8>, accounts_updated: AccountMap) -> (operation:
        Option<Operation>)
        ensures
            operation is Some <==> fees_of(block.transactions@) <= u128::MAX,
            operation matches Some(made) ==> {
                &&& made.action == (Action::Commit {
                    new_root: block.new_root_hash,
                    block: Some(block),
                })
                &&& made.block_number == block.block_number
                &&& made.block_data == (EthBlockData::Transfer {
                    total_fees: fees_of(block.transactions@) as u128,
                    public_data,
                })
                &&& made.accounts_updated == accounts_updated
            },
    {
        match EthBlockData::for_transfers(&block, public_data) {
            Some(block_data) => {
                let block_number = block.block_number;
                let new_root = block.new_root_hash;
                Some(
                    Operation {
                        action: Action::Commit { new_root, block: Some(block) },
                        block_number,
                        block_data,
                        accounts_updated,
                    },
                )
            },
            None => None,
        }
    }

    /// The operation that verifies a committed block with a proof.
    pub fn verify(
        block_number: BlockNumber,
        proof: EncodedProof,
        block_data: EthBlockData,
        accounts_updated: AccountMap,
    ) -> (operation: Operation)
        ensures
            operation.action == (Action::Verify { proof }),
            operation.block_number == block_number,
            operation.block_data == block_data,
            operation.accounts_updated == accounts_updated,
    {
        Operation { action: Action::Verify { proof }, block_number, block_data, accounts_updated }
    }
}

/// The row of an operation in the store.
#[derive(Debug, PartialEq, Eq)]
pub struct StoredOperation {
    pub id: i32,
    pub data: serde_json::Value,
    pub addr: String,
    pub nonce: i32,
    pub block_number: i32,
    pub action_type: String,
    pub created_at: std::time::SystemTime,
}

/// What this crate reads of a row: its id, the block it is about, and the
/// kind of its action.
#[derive(Clone, Copy, Debug, PartialEq, Eq)]
pub struct OperationRecord {
    pub id: i32,
    pub block_number: BlockNumber,
    pub action_type: ActionType,
}

/// What this crate decides of a row that is yet to be written: the column of
/// the block number and the column of the kind of action.
#[derive(Clone, Debug, PartialEq, Eq)]
pub struct OperationDraft {
    pub block_number: i32,
    pub action_type: String,
}

/// The record of a row, if its block number is not negative and its label
/// names a kind of action.
pub open spec fn record_of(row: StoredOperation) -> Option<OperationRecord> {
    if row.block_number < 0 {
        None
    } else {
        match labelled(row.action_type@) {
            Some(kind) => Some(
                OperationRecord {
                    id: row.id,
                    block_number: row.block_number as u32,
                    action_type: kind,
                },
            ),
            None => None,
        }
    }
}

impl StoredOperation {
    /// Reads the record of this row.
    pub fn record(&self) -> (record: Option<OperationRecord>)
        ensures
            record == record_of(*self),
    {
        if self.block_number < 0 {
            return None;
        }
        match ActionType::parse(&self.action_type) {
            Some(kind) => Some(
                OperationRecord {
                    id: self.id,
                    block_number: self.block_number as u32,
                    action_type: kind,
                },
            ),
            None => None,
        }
    }
}

} // verus!
