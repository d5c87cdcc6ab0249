use tick_scraper::api::{LastMinParams, LastMinResponse};
use tick_scraper::config::{parse_interval, parse_markets};
use tick_scraper::olhc::{MapOLHC, OLHC};
use tick_scraper::price::Price;
use tick_scraper::text::{join_texts, second_piece_without, split_texts, to_lower, to_upper};
use tick_scraper::tick::Orderbook;

#[test]
fn markets_split_on_semicolon() {
    assert_eq!(parse_markets("btcusdt;ethusdt"), vec!["btcusdt".to_string(), "ethusdt".to_string()]);
    assert_eq!(parse_markets("btcusdt"), vec!["btcusdt".to_string()]);
    assert_eq!(parse_markets(""), vec![String::new()]);
    assert_eq!(parse_markets("a;;b;"), vec!["a".to_string(), String::new(), "b".to_string(), String::new()]);
}

#[test]
fn interval_reads_whole_seconds() {
    assert_eq!(parse_interval("30"), Some(30));
    assert_eq!(parse_interval("+5"), Some(5));
    assert_eq!(parse_interval("007"), Some(7));
    assert_eq!(parse_interval("18446744073709551615"), Some(u64::MAX));
    assert_eq!(parse_interval("18446744073709551616"), None);
    assert_eq!(parse_interval(""), None);
    assert_eq!(parse_interval("+"), None);
    assert_eq!(parse_interval("-1"), None);
    assert_eq!(parse_interval("1.5"), None);
}

#[test]
fn text_helpers() {
    assert_eq!(second_piece_without("/spotMarket/level1:BTC-USDT", ':', '-'), Some("BTCUSDT".to_string()));
    assert_eq!(second_piece_without("a:b-c:d", ':', '-'), Some("bc".to_string()));
    assert_eq!(second_piece_without("abc", ':', '-'), None);
    assert_eq!(second_piece_without("abc:", ':', '-'), Some(String::new()));
    assert_eq!(split_texts("x:y", ':'), vec!["x".to_string(), "y".to_string()]);
    assert_eq!(join_texts(&vec!["a".to_string(), "b".to_string()], "--"), "a--b");
    assert_eq!(join_texts(&Vec::new(), "--"), "");
    assert_eq!(to_upper("btc-usdt"), "BTC-USDT");
    assert_eq!(to_lower("BTCUSDT"), "btcusdt");
}

#[test]
fn query_patterns_default_to_empty() {
    let q = LastMinParams { exchange: Some("venuea".to_string()), market: None };
    assert_eq!(q.patterns(), ("venuea".to_string(), String::new()));
    let w = LastMinParams { exchange: Some("a_b".to_string()), market: Some("50%\\".to_string()) };
    assert_eq!(w.patterns(), ("a\\_b".to_string(), "50\\%\\\\".to_string()));
}

#[test]
fn flushed_bar_answers_query() {
    let mut map = MapOLHC::new();
    map.update(&Orderbook::new("Binance", "BTCUSDT", "100", "101"));
    map.update(&Orderbook::new("Binance", "BTCUSDT", "98", "99"));
    map.update(&Orderbook::new("Binance", "BTCUSDT", "104", "105"));
    let snapshot = map.take();
    let bar: OLHC = snapshot.get(&"Binance".to_string(), &"BTCUSDT".to_string()).unwrap();
    let r = LastMinResponse::from_bar(&bar);
    assert_eq!(r.open, Price::parse("101"));
    assert_eq!(r.close, Price::parse("105"));
    assert_eq!(r.min, Price::parse("99"));
    assert_eq!(r.max, Price::parse("105"));
    assert!(map.get(&"Binance".to_string(), &"BTCUSDT".to_string()).is_none());
}
