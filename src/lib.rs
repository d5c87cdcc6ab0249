//! Ingestion and aggregation of best bid/ask ticks from several exchanges
//! into one-minute open/low/high/close bars.

pub mod api;
pub mod config;
pub mod engine;
pub mod exchange;
pub mod exchanges;
pub mod json;
pub mod olhc;
pub mod price;
pub mod text;
pub mod tick;
