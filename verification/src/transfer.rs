//! Signed transfers and the rules that decide whether a ledger can take one.
//!
//! A transfer moves `amount` from its sender to its recipient and pays `fee`
//! to the operator. Whether it can be applied is decided from the two
//! accounts alone, so the rules are stated on an optional sender and an
//! optional recipient and lifted to a ledger by lookup.

use crate::account::{account_at, Account};
use vstd::prelude::*;

verus! {

/// The signature on a transfer. It is checked before a transfer reaches this
/// crate and is only carried here.
#[derive(Clone, Copy, Debug, PartialEq, Eq)]
pub struct TxSignature {
    pub r: [u8; 32],
    pub s: [u8; 32],
}

/// A signed transfer between two accounts.
#[derive(Clone, Copy, Debug, PartialEq, Eq)]
pub struct TransferTx {
    pub from: u32,
    pub to: u32,
    pub amount: u128,
    pub fee: u128,
    pub nonce: u32,
    pub signature: TxSignature,
}

/// Why a ledger cannot take a transfer.
#[derive(Clone, Copy, Debug, PartialEq, Eq)]
pub enum TransferError {
    /// Sender and recipient are the same account, or amount plus fee does not
    /// fit in 128 bits.
    Malformed,
    /// The ledger holds no account for the sender.
    UnknownSender,
    /// The sender's account has already moved past this nonce.
    NonceTooLow,
    /// The sender's account has used up its nonces.
    NonceExhausted,
    /// The sender's account is empty and the transfer costs something.
    NoFunds,
    /// The sender's account has not reached this nonce yet.
    NonceTooHigh,
    /// The sender's account holds something, but less than amount plus fee.
    InsufficientBalance,
    /// The ledger holds no account for the recipient.
    UnknownRecipient,
    /// The recipient's balance plus the amount does not fit in 128 bits.
    RecipientOverflow,
}

impl TransferError {
    /// A permanent fault can never resolve: the transfer is to be dropped. The
    /// others may resolve once the ledger has changed.
    pub open spec fn permanent(self) -> bool {
        self is Malformed || self is UnknownSender || self is NonceTooLow || self is NonceExhausted
            || self is NoFunds
    }

    /// Whether this fault is permanent.
    pub fn is_permanent(&self) -> (p: bool)
        ensures
            p == self.permanent(),
    {
        match self {
            TransferError::Malformed => true,
            TransferError::UnknownSender => true,
            TransferError::NonceTooLow => true,
            TransferError::NonceExhausted => true,
            TransferError::NoFunds => true,
            TransferError::NonceTooHigh => false,
            TransferError::InsufficientBalance => false,
            TransferError::UnknownRecipient => false,
            TransferError::RecipientOverflow => false,
        }
    }
}

impl TransferTx {
    /// What the transfer takes from its sender: amount plus fee.
    pub open spec fn cost(self) -> int {
        self.amount + self.fee
    }

    /// The shape of a transfer is sound when it names two different accounts
    /// and its cost fits in 128 bits.
    pub open spec fn well_formed(self) -> bool {
        self.from != self.to && self.cost() <= u128::MAX
    }

    /// Whether the shape of the transfer is sound.
    pub fn is_well_formed(&self) -> (ok: bool)
        ensures
            ok == self.well_formed(),
    {
        self.from != self.to && self.amount.checked_add(self.fee).is_some()
    }
}

/// The fault, if any, that keeps a transfer from being applied to the given
/// sender and recipient accounts. Permanent faults are looked for first, in
/// the order of [`TransferError`]'s variants, then the others.
pub open spec fn fault_between(
    sender: Option<Account>,
    recipient: Option<Account>,
    tx: TransferTx,
) -> Option<TransferError> {
    if !tx.well_formed() {
        Some(TransferError::Malformed)
    } else if sender is None {
        Some(TransferError::UnknownSender)
    } else if tx.nonce < sender->0.nonce {
        Some(TransferError::NonceTooLow)
    } else if sender->0.nonce == u32::MAX {
        Some(TransferError::NonceExhausted)
    } else if sender->0.balance == 0 && tx.cost() > 0 {
        Some(TransferError::NoFunds)
    } else if tx.nonce > sender->0.nonce {
        Some(TransferError::NonceTooHigh)
    } else if sender->0.balance < tx.cost() {
        Some(TransferError::InsufficientBalance)
    } else if recipient is None {
        Some(TransferError::UnknownRecipient)
    } else if recipient->0.balance + tx.amount > u128::MAX {
        Some(TransferError::RecipientOverflow)
    } else {
        None
    }
}

/// The fault, if any, that keeps a transfer from being applied to a ledger.
pub open spec fn transfer_fault(ledger: Map<u32, Account>, tx: TransferTx) -> Option<
    TransferError,
> {
    fault_between(account_at(ledger, tx.from), account_at(ledger, tx.to), tx)
}

/// The sender's account after the transfer: amount and fee are gone, the nonce
/// has moved on by one.
pub open spec fn debited(sender: Account, tx: TransferTx) -> Account {
    Account {
        balance: (sender.balance - tx.cost()) as u128,
        nonce: (sender.nonce + 1) as u32,
        public_key: sender.public_key,
    }
}

/// The recipient's account after the transfer: the amount has arrived.
pub open spec fn credited(recipient: Account, tx: TransferTx) -> Account {
    Account {
        balance: (recipient.balance + tx.amount) as u128,
        nonce: recipient.nonce,
        public_key: recipient.public_key,
    }
}

/// The ledger after a transfer that it can take. Only the sender's and the
/// recipient's accounts change.
pub open spec fn apply_transfer(ledger: Map<u32, Account>, tx: TransferTx) -> Map<u32, Account> {
    ledger.insert(tx.from, debited(ledger[tx.from], tx)).insert(
        tx.to,
        credited(ledger[tx.to], tx),
    )
}

/// Looks for the fault that keeps `tx` from being applied to the two
/// accounts.
pub fn check_transfer(sender: Option<Account>, recipient: Option<Account>, tx: &TransferTx) -> (fault:
    Option<TransferError>)
    ensures
        fault == fault_between(sender, recipient, *tx),
{
    let cost: u128 = match tx.amount.checked_add(tx.fee) {
        Some(cost) => cost,
        None => {
            return Some(TransferError::Malformed);
        },
    };
    if tx.from == tx.to {
        return Some(TransferError::Malformed);
    }
    let payer: Account = match sender {
        Some(account) => account,
        None => {
            return Some(TransferError::UnknownSender);
        },
    };
    if tx.nonce < payer.nonce {
        Some(TransferError::NonceTooLow)
    } else if payer.nonce == u32::MAX {
        Some(TransferError::NonceExhausted)
    } else if payer.balance == 0 && cost > 0 {
        Some(TransferError::NoFunds)
    } else if tx.nonce > payer.nonce {
        Some(TransferError::NonceTooHigh)
    } else if payer.balance < cost {
        Some(TransferError::InsufficientBalance)
    } else {
        match recipient {
            None => Some(TransferError::UnknownRecipient),
            Some(payee) => {
                if payee.balance.checked_add(tx.amount).is_none() {
                    Some(TransferError::RecipientOverflow)
                } else {
                    None
                }
            },
        }
    }
}

/// Carries out a transfer on the two accounts it touches and returns them,
/// sender first; `None` where the accounts cannot take the transfer.
pub fn settle(sender: Account, recipient: Account, tx: &TransferTx) -> (after: Option<
    (Account, Account),
>)
    ensures
        after == (if fault_between(Some(sender), Some(recipient), *tx) is None {
            Some((debited(sender, *tx), credited(recipient, *tx)))
        } else {
            None
        }),
{
    if check_transfer(Some(sender), Some(recipient), tx).is_some() {
        return None;
    }
    let paid = Account {
        balance: sender.balance - (tx.amount + tx.fee),
        nonce: sender.nonce + 1,
        public_key: sender.public_key,
    };
    let received = Account {
        balance: recipient.balance + tx.amount,
        nonce: recipient.nonce,
        public_key: recipient.public_key,
    };
    Some((paid, received))
}

/// A transfer that a ledger can take changes no account but its sender's and
/// its recipient's, and both are in the ledger before and after.
pub proof fn lemma_transfer_touches_two(ledger: Map<u32, Account>, tx: TransferTx)
    requires
        transfer_fault(ledger, tx) is None,
    ensures
        apply_transfer(ledger, tx).dom() == ledger.dom(),
        apply_transfer(ledger, tx)[tx.from] == debited(ledger[tx.from], tx),
        apply_transfer(ledger, tx)[tx.to] == credited(ledger[tx.to], tx),
        forall|id: u32|
            id != tx.from && id != tx.to ==> account_at(apply_transfer(ledger, tx), id)
                == account_at(ledger, id),
{
    assert(apply_transfer(ledger, tx).dom() =~= ledger.dom());
}

} // verus!
