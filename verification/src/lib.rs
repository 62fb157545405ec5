//! Verified core rules of an Ergo node: the coin emission schedule and the
//! priority order of transactions in the memory pool.

pub mod byte_order;
pub mod emission;
pub mod ordering;

use vstd::prelude::*;

verus! {

/// Default maximum memory-pool size in bytes (100 MB).
pub const DEFAULT_MAX_SIZE: usize = 100 * 1024 * 1024;

/// Default maximum number of transactions in the memory pool.
pub const DEFAULT_MAX_TXS: usize = 10_000;

/// Default transaction expiry time in seconds (1 hour).
pub const DEFAULT_TX_EXPIRY_SECS: u64 = 3600;

/// Default mining reward address (placeholder).
pub const DEFAULT_REWARD_ADDRESS: &'static str = "";

/// Maximum transactions per block.
pub const MAX_TRANSACTIONS_PER_BLOCK: usize = 1000;

/// Coinbase maturity (blocks before a coinbase output can be spent).
pub const COINBASE_MATURITY: u32 = 720;

} // verus!
