//! Core of a yield-sensitive, banded automated market maker coupled with a
//! central-limit order book that shares the band grid as its price axis.
//!
//! The crate is a pure state machine over typed records: a [`types::Pool`]
//! owns the band vector, filter state and governance state; an
//! [`types::OrderBook`] owns the per-band price levels. Every operation takes
//! the current slot and any token-account balances it touches as plain
//! values, mutates the records, and reports what happened through returned
//! event records. Wiring to a concrete host (accounts, signature checks,
//! token custody, event transport) is the caller's concern.

pub mod errors;

pub mod math;

pub mod types;

pub mod digest;

pub mod bands;

pub mod maintain;

pub mod gov;

pub mod liquidity;

pub mod update;

pub mod book;

pub mod depth;

pub mod orders;

pub mod laws;
