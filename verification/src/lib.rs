//! Watches a mempool event stream: predicts the next block's base fee,
//! admits transactions whose fee cap can pay it, and classifies the
//! direction of watched-token balance changes in liquidity pools touched
//! by a transaction's state diff.

pub mod words;
pub mod fees;
pub mod events;
pub mod registry;
pub mod analyzer;
pub mod bus;
