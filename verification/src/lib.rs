//! Verified core of the `charts-rs` stock watch-list tool: command-line
//! interpretation, the watch-list wire format, quote formatting and the
//! table that the tool prints.

pub mod cli;
pub mod market;
pub mod quote;
pub mod stocks;
pub mod text;
pub mod watchlist;
