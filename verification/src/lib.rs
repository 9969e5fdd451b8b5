//! Verified core of the finalgo trading algorithm: decision types and their
//! loss tables, prediction tallies, the ordered result map, data-window
//! selection, trading-calendar stepping and the evaluation sampling plan.
//!
//! The numerical indicators and scores operate on floating-point prices and
//! live in the application crate; this library holds the discrete rules they
//! feed into.

pub mod calendar;
pub mod cli;
pub mod consts;
pub mod data;
pub mod fetch;
pub mod metric;
pub mod plan;
pub mod signal;
pub mod tally;
pub mod text;
pub mod trade;
pub mod value_map;
pub mod veto;
