use tick_scraper::price::Price;
use tick_scraper::tick::Orderbook;

fn price(negative: bool, limbs: Vec<u32>, scale: i64) -> Price {
    Price { negative, limbs, scale }
}

#[test]
fn parse_reads_digits_and_scale() {
    assert_eq!(Price::parse("101.25"), price(false, vec![10125], 2));
    assert_eq!(Price::parse("101"), price(false, vec![101], 0));
    assert_eq!(Price::parse("-3.5"), price(true, vec![35], 1));
    assert_eq!(Price::parse("1e3"), price(false, vec![1], -3));
    assert_eq!(Price::parse("0"), price(false, vec![], 0));
}

#[test]
fn parse_keeps_digits_of_any_length() {
    assert_eq!(
        Price::parse("170141183460469231731687303715884105728"),
        price(false, vec![0, 0, 0, 0x8000_0000], 0)
    );
    assert_eq!(Price::parse("4294967296.5"), price(false, vec![5, 10], 1));
    let big = Price::parse("1234567890123456789012345678901234567890123");
    assert_ne!(big, Price::unparsed());
    assert!(!big.is_negative());
    assert!(Price::parse("99").less_than(&big));
}

#[test]
fn parse_marks_non_numbers() {
    assert_eq!(Price::parse("abc"), Price::unparsed());
    assert_eq!(Price::parse(""), Price::unparsed());
    assert_eq!(Price::unparsed(), price(true, vec![1], 0));
}

#[test]
fn copy_keeps_value() {
    let p = Price::parse("-12345678901234567890.25");
    assert_eq!(p.copy(), p);
}

#[test]
fn comparison_is_numeric_across_scales() {
    assert!(Price::parse("1.45").less_than(&Price::parse("1.5")));
    assert!(!Price::parse("1.5").less_than(&Price::parse("1.45")));
    assert!(!Price::parse("2.0").less_than(&Price::parse("2")));
    assert!(!Price::parse("2").less_than(&Price::parse("2.00")));
    assert!(Price::parse("99").less_than(&Price::parse("1e2")));
}

#[test]
fn negative_marks_sentinel() {
    assert!(Price::unparsed().is_negative());
    assert!(Price::parse("-0.01").is_negative());
    assert!(!Price::parse("0").is_negative());
    assert!(!Price::parse("0.0001").is_negative());
    assert!(!Price::parse("-0").is_negative());
    assert!(!Price::parse("-0.000").is_negative());
}

#[test]
fn tick_reads_its_prices() {
    let t = Orderbook::new("Binance", "BTCUSDT", "100.5", "x");
    assert_eq!(t.exchange, "Binance");
    assert_eq!(t.symbol, "BTCUSDT");
    assert_eq!(t.bid, price(false, vec![1005], 1));
    assert_eq!(t.ask, Price::unparsed());
}
