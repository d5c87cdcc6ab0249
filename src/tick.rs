//! The normalized best bid/ask observation.

use crate::price::{price_of_text, Price};
use vstd::prelude::*;

verus! {

/// One best bid/ask observation for a market on an exchange.
#[derive(Debug)]
pub struct Orderbook {
    pub exchange: String,
    pub symbol: String,
    pub bid: Price,
    pub ask: Price,
}

impl Orderbook {
    /// Builds a tick from the text of its fields; a price that is no number
    /// becomes the sentinel `-1`.
    pub fn new(exchange: &str, symbol: &str, bid: &str, ask: &str) -> (r: Orderbook)
        ensures
            r.exchange@ == exchange@,
            r.symbol@ == symbol@,
            r.bid@ == price_of_text(bid@),
            r.ask@ == price_of_text(ask@),
    {
        Orderbook {
            exchange: String::from_str(exchange),
            symbol: String::from_str(symbol),
            bid: Price::parse(bid),
            ask: Price::parse(ask),
        }
    }
}

} // verus!
