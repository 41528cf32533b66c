//! A verified core for a simplified securities exchange.
//!
//! Users hold cash and stock positions, submit sell (limit) and buy (market)
//! orders, and the matching engine pairs buy orders with the best resting sell
//! order under price/time priority. Balances and portfolios are never stored
//! as mutable counters: they are derived on demand by folding an append-only
//! ledger of deposits, grants, orders and trades.
//!
//! The surrounding program (HTTP routing, authentication, rendering) is kept
//! outside this crate; it hands the core a resolved user id and plain values
//! and receives structured outcomes back.

pub mod frontend;
pub mod history;
pub mod laws;
pub mod ledger;
pub mod matching;
pub mod projector;
pub mod requests;
pub mod types;
