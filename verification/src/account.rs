//! Accounts and the account ledger.
//!
//! The ledger is a hash map from account id to account, hashed with FNV. Its
//! mathematical model is the `Map<u32, Account>` that `@` gives.

use fnv::{FnvHashMap, FnvHashSet};
use vstd::prelude::*;

verus! {

/// The FNV hasher. Opaque here: only the collections built on it are used.
#[verifier::external_type_specification]
#[verifier::external_body]
pub struct ExFnvHasher(fnv::FnvHasher);

/// The hasher builder of std through which `fnv` plugs its hasher into the
/// collections of std. Opaque here.
#[verifier::external_type_specification]
#[verifier::external_body]
#[verifier::reject_recursive_types(H)]
pub struct ExBuildHasherDefault<H>(std::hash::BuildHasherDefault<H>);

/// A public key: the two coordinates of a curve point, 32 bytes each.
#[derive(Clone, Copy, Debug, PartialEq, Eq)]
pub struct PublicKey {
    pub x: [u8; 32],
    pub y: [u8; 32],
}

/// The state of one account. An account is addressed by its 32-bit id, the
/// key under which the ledger holds it.
#[derive(Clone, Copy, Debug, PartialEq, Eq)]
pub struct Account {
    pub balance: u128,
    pub nonce: u32,
    pub public_key: PublicKey,
}

/// The account ledger: account id to account.
pub type AccountMap = FnvHashMap<u32, Account>;

/// A set of account ids.
pub type AccountSet = FnvHashSet<u32>;

/// What a ledger holds under `id`, if anything.
pub open spec fn account_at(ledger: Map<u32, Account>, id: u32) -> Option<Account> {
    if ledger.contains_key(id) {
        Some(ledger[id])
    } else {
        None
    }
}

/// Calls `HashMap::get` on an FNV-hashed map and copies the account out.
///
/// Claimed: the result is the account that the map holds under `id`, and
/// `None` exactly when the map holds none. This is what std documents of
/// `get` for a key type whose `Hash` and `Eq` agree and a hasher that gives
/// equal keys equal hashes. `u32` is such a key, and the FNV hasher is such a
/// hasher: it starts from a fixed state and folds in the bytes written to it,
/// nothing else.
#[verifier::external_body]
pub(crate) fn ledger_get(accounts: &AccountMap, id: u32) -> (found: Option<Account>)
    ensures
        found == account_at(accounts@, id),
{
    accounts.get(&id).copied()
}

/// Calls `HashMap::insert` on an FNV-hashed map.
///
/// Claimed: afterwards the map holds `account` under `id` and is otherwise as
/// before. This is the documented behaviour of `insert`, under the same two
/// facts as for `ledger_get`. The value that `insert` returns is dropped.
#[verifier::external_body]
pub(crate) fn ledger_put(accounts: &mut AccountMap, id: u32, account: Account)
    ensures
        final(accounts)@ == old(accounts)@.insert(id, account),
{
    accounts.insert(id, account);
}

/// Calls `HashSet::insert` on an FNV-hashed set.
///
/// Claimed: afterwards the set holds `id` besides what it held before. This is
/// the documented behaviour of `insert`, under the same two facts as for
/// `ledger_get`. The flag that `insert` returns is dropped.
#[verifier::external_body]
pub(crate) fn ids_put(ids: &mut AccountSet, id: u32)
    ensures
        final(ids)@ == old(ids)@.insert(id),
{
    ids.insert(id);
}

/// An empty ledger.
pub fn empty_ledger() -> (accounts: AccountMap)
    ensures
        accounts@ == Map::<u32, Account>::empty(),
{
    FnvHashMap::default()
}

/// The public key of account `id`, if the ledger holds that account.
pub fn public_key_of(accounts: &AccountMap, id: u32) -> (key: Option<PublicKey>)
    ensures
        key == match account_at(accounts@, id) {
            Some(account) => Some(account.public_key),
            None => None,
        },
{
    match ledger_get(accounts, id) {
        Some(account) => Some(account.public_key),
        None => None,
    }
}

} // verus!
