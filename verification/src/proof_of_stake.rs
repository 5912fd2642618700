//! The stake-weighted ledger: validators are drawn in proportion to their
//! stake, and double-signing is punished by slashing.

pub mod block;
pub mod blockchain;
pub mod malicious_detector;
pub mod stake;
pub mod transaction;
pub mod validator;

pub use block::Block;
pub use blockchain::Blockchain;
pub use stake::Stake;
pub use transaction::Transaction;
pub use validator::Validator;
