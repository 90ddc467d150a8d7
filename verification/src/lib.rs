//! A backtesting engine for a momentum strategy on one instrument.
//!
//! The engine replays order-book snapshots one at a time. It tracks how far
//! the price has rallied off its most recent low, opens a position when the
//! rally exceeds a threshold, and later liquidates each position against the
//! bid side of the book, accounting for tax and commission.

pub mod account;
pub mod book;
pub mod gap;
pub mod rally;
pub mod replay;
pub mod strategy;
pub mod tick;
pub mod trade;
