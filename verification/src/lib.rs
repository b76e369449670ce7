//! Human-driven trading of binary Up/Down markets: what to buy, what to cancel,
//! what counts as matched, what a closed market paid, which market to watch next.
//!
//! The library decides and keeps the books; talking to the exchange, reading keys
//! and printing are left to its callers.

pub mod sums;
pub mod amount;
pub mod text;
pub mod decimal;
pub mod models;
pub mod config;
pub mod text_map;
pub mod orders;
pub mod market_key;
pub mod fills;
pub mod trader;
pub mod slug;
pub mod discovery;
pub mod period;
pub mod keys;
pub mod redeem;
pub mod terminal;
pub mod display;
pub mod messages;
