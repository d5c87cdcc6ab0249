use tick_scraper::exchange::{
    binance_streams_param, bybit_subscription, orderbook_subscription_url, token_from_response, kucoin_subscription, kucoin_topic_text, public_token,
    AnyExchange, SubscribeError,
};
use tick_scraper::exchanges::{Binance, ByBit, Exchange, KuCoin};
use tick_scraper::json::Json;
use tick_scraper::olhc::MapOLHC;
use tick_scraper::price::Price;

fn frame(text: &str) -> Json {
    Json::parse(text).unwrap()
}

fn markets(list: &[&str]) -> Vec<String> {
    list.iter().map(|m| m.to_string()).collect()
}

#[test]
fn binance_frame_gives_tick() {
    let f = frame(
        r#"{"stream":"btcusdt@bookTicker","data":{"u":1,"s":"BTCUSDT","b":"100.0","B":"1","a":"101.0","A":"2"}}"#,
    );
    let t = Binance::new().parse_orderbook_data(&f).unwrap();
    assert_eq!(t.exchange, "Binance");
    assert_eq!(t.symbol, "BTCUSDT");
    assert_eq!(t.bid, Price::parse("100.0"));
    assert_eq!(t.ask, Price::parse("101.0"));
}

#[test]
fn binance_frame_without_ask_gives_nothing() {
    let f = frame(r#"{"stream":"btcusdt@bookTicker","data":{"u":1,"s":"BTCUSDT","b":"100.0","B":"1"}}"#);
    let parsed = AnyExchange::Binance.parse_orderbook_data(&f);
    assert!(parsed.is_none());
    let mut map = MapOLHC::new();
    if let Some(t) = parsed {
        map.update(&t);
    }
    assert_eq!(map.len(), 0);
}

#[test]
fn binance_frame_with_bad_price_gives_sentinel() {
    let f = frame(r#"{"data":{"s":"BTCUSDT","b":"oops","a":"101"}}"#);
    let t = Binance::new().parse_orderbook_data(&f).unwrap();
    assert_eq!(t.bid, Price::unparsed());
    assert_eq!(t.ask, Price::parse("101"));
}

#[test]
fn binance_field_of_wrong_kind_gives_nothing() {
    let f = frame(r#"{"data":{"s":"BTCUSDT","b":"100","a":101}}"#);
    assert!(Binance::new().parse_orderbook_data(&f).is_none());
    let g = frame(r#"{"data":"BTCUSDT"}"#);
    assert!(Binance::new().parse_orderbook_data(&g).is_none());
}

#[test]
fn bybit_frame_gives_tick() {
    let f = frame(
        r#"{"topic":"orderbook.1.BTCUSDT","type":"snapshot","data":{"s":"BTCUSDT","b":[["100.5","1.2"]],"a":[["100.6","0.3"]],"u":7}}"#,
    );
    let t = ByBit::new().parse_orderbook_data(&f).unwrap();
    assert_eq!(t.exchange, "ByBit");
    assert_eq!(t.symbol, "BTCUSDT");
    assert_eq!(t.bid, Price::parse("100.5"));
    assert_eq!(t.ask, Price::parse("100.6"));
}

#[test]
fn bybit_empty_book_gives_nothing() {
    let f = frame(r#"{"data":{"s":"BTCUSDT","b":[],"a":[["100.6","0.3"]]}}"#);
    assert!(ByBit::new().parse_orderbook_data(&f).is_none());
    let g = frame(r#"{"success":true,"op":"subscribe"}"#);
    assert!(ByBit::new().parse_orderbook_data(&g).is_none());
}

#[test]
fn kucoin_frame_gives_tick() {
    let f = frame(
        r#"{"type":"message","topic":"/spotMarket/level1:BTC-USDT","subject":"level1","data":{"asks":["101.1","0.5"],"bids":["101.0","0.7"],"timestamp":1}}"#,
    );
    let t = KuCoin::new().parse_orderbook_data(&f).unwrap();
    assert_eq!(t.exchange, "KuCoin");
    assert_eq!(t.symbol, "BTCUSDT");
    assert_eq!(t.bid, Price::parse("101.0"));
    assert_eq!(t.ask, Price::parse("101.1"));
}

#[test]
fn kucoin_topic_without_colon_gives_nothing() {
    let f = frame(r#"{"topic":"welcome","data":{"asks":["1"],"bids":["1"]}}"#);
    assert!(KuCoin::new().parse_orderbook_data(&f).is_none());
}

#[test]
fn names_and_addresses() {
    assert_eq!(Binance::new().name(), "Binance");
    assert_eq!(ByBit::new().name(), "ByBit");
    assert_eq!(KuCoin::new().name(), "KuCoin");
    assert_eq!(Binance::new().url(), "wss://stream.binance.com/stream");
    assert_eq!(ByBit::new().url(), "wss://stream.bybit.com/v5/public/spot");
    assert_eq!(KuCoin::new().url(), "wss://ws-api-spot.kucoin.com/");
    assert_eq!(KuCoin::new().get_type(), AnyExchange::KuCoin);
    assert_eq!(AnyExchange::ByBit.name(), "ByBit");
    assert!(AnyExchange::KuCoin.needs_token());
    assert!(!AnyExchange::Binance.needs_token());
    assert!(!AnyExchange::ByBit.needs_token());
}

#[test]
fn binance_streams_are_lowercase() {
    assert_eq!(
        binance_streams_param(&markets(&["BTCUSDT", "ethusdt"])),
        "btcusdt@bookTicker/ethusdt@bookTicker"
    );
    assert_eq!(binance_streams_param(&Vec::new()), "");
    assert_eq!(binance_streams_param(&markets(&["BtcUsdt"])), "btcusdt@bookTicker");
}

#[test]
fn binance_subscription_url() {
    let sub = AnyExchange::Binance.subscription(&markets(&["BTCUSDT", "ethusdt"]), "").unwrap();
    assert_eq!(
        sub.url,
        "wss://stream.binance.com/stream?streams=btcusdt%40bookTicker%2Fethusdt%40bookTicker"
    );
    assert!(sub.message.is_none());
}

#[test]
fn bybit_subscription_message() {
    let m = bybit_subscription(&markets(&["btcusdt", "EthUsdt"]));
    assert_eq!(m.to_text(), r#"{"args":["orderbook.1.BTCUSDT","orderbook.1.ETHUSDT"],"op":"subscribe"}"#);
    let sub = AnyExchange::ByBit.subscription(&markets(&["btcusdt"]), "").unwrap();
    assert_eq!(sub.url, "wss://stream.bybit.com/v5/public/spot");
    assert_eq!(sub.message.unwrap().to_text(), r#"{"args":["orderbook.1.BTCUSDT"],"op":"subscribe"}"#);
}

#[test]
fn kucoin_subscription_message() {
    assert_eq!(kucoin_topic_text(&markets(&["btc-usdt", "ETH-USDT"])), "/spotMarket/level1:BTC-USDT,ETH-USDT");
    let m = kucoin_subscription(&markets(&["btc-usdt", "ETH-USDT"]));
    assert_eq!(
        m.to_text(),
        r#"{"id":1,"response":true,"topic":"/spotMarket/level1:BTC-USDT,ETH-USDT","type":"subscribe"}"#
    );
    let sub = AnyExchange::KuCoin.subscription(&markets(&["btc-usdt"]), "abc").unwrap();
    assert_eq!(sub.url, "wss://ws-api-spot.kucoin.com/?token=abc");
}

#[test]
fn kucoin_token_from_response() {
    let body = r#"{"code":"200000","data":{"token":"2neAiuYvAU61ZDXANAGAsiL4","instanceServers":[]}}"#;
    assert_eq!(public_token(body).unwrap(), "2neAiuYvAU61ZDXANAGAsiL4");
    assert_eq!(public_token(r#"{"code":"400100","data":{}}"#), Err(SubscribeError::NoToken));
    assert_eq!(public_token(r#"{"data":{"token":5}}"#), Err(SubscribeError::NoToken));
    assert_eq!(public_token("<html>"), Err(SubscribeError::NoToken));
}

#[test]
fn json_round_trip_and_lookup() {
    let j = frame(r#"{"b":[1,2.5,"x",null,true],"a":{"k":"v"}}"#);
    assert_eq!(j.to_text(), r#"{"a":{"k":"v"},"b":[1,2.5,"x",null,true]}"#);
    let a = j.get(&"a".to_string()).unwrap();
    assert_eq!(a.get(&"k".to_string()).unwrap().as_str().unwrap(), "v");
    assert!(j.get(&"zz".to_string()).is_none());
    let b = j.get(&"b".to_string()).unwrap();
    assert!(b.first().unwrap().as_str().is_none());
    assert!(Json::parse("{not json").is_none());
}

#[test]
fn binance_orderbook_subscription_url() {
    assert_eq!(
        orderbook_subscription_url(&markets(&["btcusdt"])).unwrap(),
        "wss://stream.binance.com/stream?streams=btcusdt%40bookTicker"
    );
}

#[test]
fn kucoin_token_from_parsed_response() {
    let body = frame(r#"{"code":"200000","data":{"token":"abc"}}"#);
    assert_eq!(token_from_response(&body).unwrap(), "abc");
    let none = frame(r#"{"code":"200000","data":{"token":null}}"#);
    assert_eq!(token_from_response(&none), Err(SubscribeError::NoToken));
}

#[test]
fn binance_empty_market_list_has_empty_streams() {
    assert_eq!(orderbook_subscription_url(&Vec::new()).unwrap(), "wss://stream.binance.com/stream?streams=");
}
