//! One type per venue, each an [`Exchange`].

use crate::exchange::{exchange_name, exchange_url, parsed_as, AnyExchange};
use crate::json::Json;
use crate::tick::Orderbook;
use vstd::prelude::*;

verus! {

/// A venue adapter: its name, socket address and frame parser.
pub trait Exchange {
    spec fn kind(&self) -> AnyExchange;

    fn get_type(&self) -> (r: AnyExchange)
        ensures
            r == self.kind(),
    ;

    fn name(&self) -> (r: &'static str)
        ensures
            r@ == exchange_name(self.kind()),
    ;

    fn url(&self) -> (r: &'static str)
        ensures
            r@ == exchange_url(self.kind()),
    ;

    fn parse_orderbook_data(&self, raw_data: &Json) -> (r: Option<Orderbook>)
        ensures
            parsed_as(r, self.kind(), *raw_data),
    ;
}

/// The Binance venue.
#[derive(Clone, Copy, Debug, PartialEq, Eq, Structural)]
pub struct Binance {}

/// The ByBit venue.
#[derive(Clone, Copy, Debug, PartialEq, Eq, Structural)]
pub struct ByBit {}

/// The KuCoin venue.
#[derive(Clone, Copy, Debug, PartialEq, Eq, Structural)]
pub struct KuCoin {}

impl Binance {
    pub fn new() -> Binance {
        Binance {}
    }
}

impl ByBit {
    pub fn new() -> ByBit {
        ByBit {}
    }
}

impl KuCoin {
    pub fn new() -> KuCoin {
        KuCoin {}
    }
}

impl Exchange for Binance {
    open spec fn kind(&self) -> AnyExchange {
        AnyExchange::Binance
    }

    fn get_type(&self) -> (r: AnyExchange) {
        AnyExchange::Binance
    }

    fn name(&self) -> (r: &'static str) {
        AnyExchange::Binance.name()
    }

    fn url(&self) -> (r: &'static str) {
        AnyExchange::Binance.url()
    }

    fn parse_orderbook_data(&self, raw_data: &Json) -> (r: Option<Orderbook>) {
        AnyExchange::Binance.parse_orderbook_data(raw_data)
    }
}

impl Exchange for ByBit {
    open spec fn kind(&self) -> AnyExchange {
        AnyExchange::ByBit
    }

    fn get_type(&self) -> (r: AnyExchange) {
        AnyExchange::ByBit
    }

    fn name(&self) -> (r: &'static str) {
        AnyExchange::ByBit.name()
    }

    fn url(&self) -> (r: &'static str) {
        AnyExchange::ByBit.url()
    }

    fn parse_orderbook_data(&self, raw_data: &Json) -> (r: Option<Orderbook>) {
        AnyExchange::ByBit.parse_orderbook_data(raw_data)
    }
}

impl Exchange for KuCoin {
    open spec fn kind(&self) -> AnyExchange {
        AnyExchange::KuCoin
    }

    fn get_type(&self) -> (r: AnyExchange) {
        AnyExchange::KuCoin
    }

    fn name(&self) -> (r: &'static str) {
        AnyExchange::KuCoin.name()
    }

    fn url(&self) -> (r: &'static str) {
        AnyExchange::KuCoin.url()
    }

    fn parse_orderbook_data(&self, raw_data: &Json) -> (r: Option<Orderbook>) {
        AnyExchange::KuCoin.parse_orderbook_data(raw_data)
    }
}

} // verus!
