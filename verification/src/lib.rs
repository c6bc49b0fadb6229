//! Decision core of a cross-venue arbitrage engine.
//!
//! The library holds the exact swap arithmetic of each pool design, the
//! ordered application of decoded state changes, the asset graph with its
//! address lookup, the search for cycles of negative summed cost over
//! fixed-point edge weights, and the exact evaluation of a trade threaded
//! through a cycle of pools.

pub mod amount;
pub mod arena;
pub mod cycle;
pub mod edge;
pub mod error;
pub mod event;
pub mod graph;
pub mod pool;
pub mod scan;
pub mod search;
pub mod swap;
pub mod swap_math;
pub mod tick_math;
pub mod ticks;
pub mod token;
pub mod v2;
pub mod v3;
pub mod wide;
