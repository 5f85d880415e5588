//! Pricing engine for a trading-card collection manager.
//!
//! The library models per-card market prices in two currencies, normalizes
//! raw provider payloads into a currency-agnostic record, persists those
//! payloads in a freshness-checked cache, aggregates collection value, and
//! drives a throttled background refresh loop as a verified state machine.

pub mod assoc;
pub mod binder;
pub mod cache;
pub mod card;
pub mod cardmarket;
pub mod collection;
pub mod database;
pub mod expansion;
pub mod locale;
pub mod money;
pub mod pokemon;
pub mod prices;
pub mod pricing;
pub mod rank;
pub mod provider;
pub mod scheduler;
pub mod series;
pub mod tcgplayer;
pub mod text;
