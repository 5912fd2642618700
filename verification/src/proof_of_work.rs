//! The mined ledger: blocks are sealed by a search for a hash that meets the
//! difficulty, and the difficulty follows the time that blocks take.

pub mod block;
pub mod blockchain;
pub mod transaction;
pub mod wallet;

pub use block::Block;
pub use blockchain::Blockchain;
pub use transaction::Transaction;
pub use wallet::Wallet;
