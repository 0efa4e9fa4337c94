//! Chain manager core for a proof-of-eligibility blockchain node.
//!
//! The library owns the consistency of the replicated ledger state: the
//! unspent-output set, the mempool, the active data-request pool and the
//! canonical block index. Side effects (persistence, broadcast, block
//! requests) are returned as values so that a thin driver can perform them.
pub mod chain;
pub mod chain_manager;
pub mod chain_state;
pub mod codec;
pub mod data_request;
pub mod hashing;
pub mod mempool;
pub mod utxo;
pub mod validations;
