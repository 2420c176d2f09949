//! An append-only ledger of hash-linked blocks with a proof-of-work
//! acceptance threshold that grows with the length of the chain.

pub mod block;
pub mod chain;
pub mod difficulty;
pub mod prefix;

pub use block::{GorpcoinBlock, GorpcoinBlockData, Transaction};
pub use chain::{GorpcoinBlockchain, GorpcoinError, GorpcoinResult};
pub use difficulty::difficulty_function;
pub use prefix::has_valid_prefix;
