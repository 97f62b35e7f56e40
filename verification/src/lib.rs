//! A real-time, multi-source log viewing engine: pattern rules, per-source
//! line buffers, rolling statistics, search navigation and the decisions of
//! the tailing and input loops, all with machine-checked contracts.

pub mod cli;
pub mod clock;
pub mod discover;
pub mod engine;
pub mod event;
pub mod filter;
pub mod highlight;
pub mod ingest;
pub mod search;
pub mod state;
pub mod stats;
pub mod tail;
pub mod text;
pub mod viewport;
