//! Block production and chain integrity for a hash-linked ledger.

pub mod accounts;
pub mod address_map;
pub mod audit;
pub mod clock;
pub mod entropy;
pub mod error;
pub mod hashing;
pub mod json;
pub mod proof_of_stake;
pub mod proof_of_work;
pub mod sign_helper;
pub mod signing;
pub mod text;
pub mod totals;
pub mod util;
