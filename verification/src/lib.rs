//! The operator-side state engine of a child chain that commits state roots
//! and validity proofs to a base chain.
//!
//! The crate holds the decision logic of the node, stated and proved over
//! mathematical models:
//!
//! * [`account`]: accounts and the account ledger, a map keyed by account id;
//! * [`transfer`]: signed transfers, the rules that decide whether one can be
//!   applied to a ledger, and its effect;
//! * [`working`]: a copy-on-first-touch overlay on a ledger;
//! * [`pool`]: pooled transactions with admission time and lifetime, and the
//!   queue that holds them;
//! * [`assembly`]: the four-way classification of a queue against a ledger,
//!   and in [`assembly_proofs`] what holds of every assembly;
//! * [`block`]: blocks and the data that describes them to the base chain;
//! * [`processor`]: the single owner of the ledger and its four requests,
//!   and in [`processor_proofs`] what holds of it whatever it is asked;
//! * [`operation`]: on-chain actions, operations and their stored rows;
//! * [`pipeline`]: the commit-then-verify progression of each block and the
//!   replay of stored operations after a restart, and in [`pipeline_proofs`]
//!   what holds of every log that it keeps.
//!
//! Channels, clocks, the store and the base-chain client stay outside: the
//! functions here take plain values and hand plain values back.

pub mod account;
pub mod transfer;
pub mod working;
pub mod pool;
pub mod assembly;
pub mod assembly_proofs;
pub mod block;
pub mod processor;
pub mod processor_proofs;
pub mod operation;
pub mod pipeline;
pub mod pipeline_proofs;
