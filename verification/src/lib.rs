//! Proof-of-work block mining: the block model, its canonical hash, the nonce
//! search, and the fetch-mine-submit cycle of a single miner.

pub mod block;
pub mod clock;
pub mod cycle;
pub mod difficulty;
pub mod digest;
pub mod encoding;
