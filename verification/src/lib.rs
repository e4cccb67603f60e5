//! Summing a sequence of 32-bit integers with wraparound arithmetic:
//! sequentially, over a contiguous partition into per-worker chunks, and on a
//! bounded worker pool. Every strategy is proved to return the same total.

pub mod error;
pub mod notice;
pub mod partition;
pub mod pool;
pub mod reduce;
pub mod sum;
