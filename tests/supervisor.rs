use tick_scraper::engine::{
    backoff_delay_ms, classify, message_of_text, Action, Event, Inbound, MessageType, Phase, Supervisor,
};
use tick_scraper::json::Json;
use tick_scraper::exchange::AnyExchange;
use tick_scraper::price::Price;

fn markets(list: &[&str]) -> Vec<String> {
    list.iter().map(|m| m.to_string()).collect()
}

fn streaming(exchange: AnyExchange, list: &[&str]) -> Supervisor {
    let (mut s, _) = Supervisor::new(exchange, markets(list));
    assert!(matches!(s.step(Event::Connected), Action::Nothing));
    assert_eq!(s.phase(), Phase::Streaming);
    s
}

fn payload(exchange: AnyExchange, action: &Action) -> (String, Option<String>) {
    match action {
        Action::Subscribe { markets, .. } => {
            let sub = exchange.subscription(markets, "tok").unwrap();
            (sub.url, sub.message.map(|m| m.to_text()))
        }
        _ => panic!("not a subscription"),
    }
}

#[test]
fn start_asks_for_subscription() {
    let (s, first) = Supervisor::new(AnyExchange::ByBit, markets(&["btcusdt", "ethusdt"]));
    assert_eq!(s.phase(), Phase::Connecting);
    assert_eq!(s.exchange(), AnyExchange::ByBit);
    match first {
        Action::Subscribe { markets: m, delay_ms } => {
            assert_eq!(m, markets(&["btcusdt", "ethusdt"]));
            assert_eq!(delay_ms, 0);
        }
        _ => panic!("expected a subscription"),
    }
}

#[test]
fn close_resubscribes_with_original_markets() {
    for exchange in [AnyExchange::Binance, AnyExchange::ByBit, AnyExchange::KuCoin] {
        let (mut s, first) = Supervisor::new(exchange, markets(&["btcusdt", "ethusdt"]));
        s.step(Event::Connected);
        let again = s.step(Event::Frame(Inbound::Close));
        assert_eq!(s.phase(), Phase::Reconnecting);
        assert_eq!(payload(exchange, &again), payload(exchange, &first));
        match again {
            Action::Subscribe { markets: m, delay_ms } => {
                assert_eq!(m, markets(&["btcusdt", "ethusdt"]));
                assert_eq!(delay_ms, 0);
            }
            _ => panic!("expected a subscription"),
        }
        s.step(Event::Connected);
        assert_eq!(s.phase(), Phase::Streaming);
    }
}

#[test]
fn read_error_resubscribes_too() {
    let mut s = streaming(AnyExchange::Binance, &["btcusdt"]);
    let again = s.step(Event::Frame(Inbound::Error));
    assert!(matches!(again, Action::Subscribe { .. }));
    assert_eq!(s.phase(), Phase::Reconnecting);
}

#[test]
fn ping_gets_one_pong_with_same_payload() {
    let mut s = streaming(AnyExchange::KuCoin, &["btc-usdt"]);
    match s.step(Event::Frame(Inbound::Ping(vec![1, 2, 3]))) {
        Action::SendPong(p) => assert_eq!(p, vec![1, 2, 3]),
        _ => panic!("expected a pong"),
    }
    assert_eq!(s.phase(), Phase::Streaming);
    assert!(matches!(s.step(Event::Frame(Inbound::Pong)), Action::Nothing));
}

#[test]
fn heartbeat_sends_empty_ping() {
    let mut s = streaming(AnyExchange::Binance, &["btcusdt"]);
    match s.step(Event::HeartbeatDue) {
        Action::SendPing(p) => assert!(p.is_empty()),
        _ => panic!("expected a ping"),
    }
    let (mut idle, _) = Supervisor::new(AnyExchange::Binance, markets(&["btcusdt"]));
    assert!(matches!(idle.step(Event::HeartbeatDue), Action::Nothing));
}

#[test]
fn data_frame_is_forwarded_even_with_sentinel() {
    let mut s = streaming(AnyExchange::Binance, &["btcusdt"]);
    let text = r#"{"data":{"s":"BTCUSDT","b":"100","a":"101"}}"#.to_string();
    match s.step(Event::Frame(Inbound::Text(text))) {
        Action::Forward(t) => {
            assert_eq!(t.symbol, "BTCUSDT");
            assert_eq!(t.ask, Price::parse("101"));
        }
        _ => panic!("expected a tick"),
    }
    let bad = r#"{"data":{"s":"BTCUSDT","b":"100","a":"?"}}"#.to_string();
    match s.step(Event::Frame(Inbound::Text(bad))) {
        Action::Forward(t) => assert_eq!(t.ask, Price::unparsed()),
        _ => panic!("expected a tick"),
    }
}

#[test]
fn malformed_frames_are_absorbed() {
    let mut s = streaming(AnyExchange::Binance, &["btcusdt"]);
    assert!(matches!(s.step(Event::Frame(Inbound::Text("not json".to_string()))), Action::Nothing));
    assert!(matches!(s.step(Event::Frame(Inbound::Text("[1,2]".to_string()))), Action::Nothing));
    assert!(matches!(s.step(Event::Frame(Inbound::Text(r#"{"result":null,"id":1}"#.to_string()))), Action::Nothing));
    assert!(matches!(s.step(Event::Frame(Inbound::Other)), Action::Nothing));
    assert_eq!(s.phase(), Phase::Streaming);
}

#[test]
fn first_subscription_failure_is_fatal() {
    let (mut s, _) = Supervisor::new(AnyExchange::KuCoin, markets(&["btc-usdt"]));
    assert!(matches!(s.step(Event::ConnectFailed), Action::Fail));
}

#[test]
fn failed_resubscription_retries_with_growing_wait() {
    let mut s = streaming(AnyExchange::ByBit, &["btcusdt"]);
    s.step(Event::Frame(Inbound::Close));
    let mut waits = Vec::new();
    for _ in 0..8 {
        match s.step(Event::ConnectFailed) {
            Action::Subscribe { markets: m, delay_ms } => {
                assert_eq!(m, markets(&["btcusdt"]));
                waits.push(delay_ms);
            }
            _ => panic!("expected a retry"),
        }
    }
    assert_eq!(waits, vec![500, 1000, 2000, 4000, 8000, 16000, 30000, 30000]);
    s.step(Event::Connected);
    s.step(Event::Frame(Inbound::Close));
    match s.step(Event::ConnectFailed) {
        Action::Subscribe { delay_ms, .. } => assert_eq!(delay_ms, 500),
        _ => panic!("expected a retry"),
    }
}

#[test]
fn backoff_values() {
    assert_eq!(backoff_delay_ms(0), 500);
    assert_eq!(backoff_delay_ms(3), 4000);
    assert_eq!(backoff_delay_ms(5), 16000);
    assert_eq!(backoff_delay_ms(6), 30000);
    assert_eq!(backoff_delay_ms(u32::MAX), 30000);
}

#[test]
fn classify_sorts_frames() {
    assert!(matches!(classify(Inbound::Text(r#"{"a":1}"#.to_string())), MessageType::Data(_)));
    assert!(matches!(classify(Inbound::Text("3".to_string())), MessageType::Ignored));
    assert!(matches!(classify(Inbound::Close), MessageType::Closed));
    assert!(matches!(classify(Inbound::Error), MessageType::Closed));
    assert!(matches!(classify(Inbound::Pong), MessageType::Pong));
    match classify(Inbound::Ping(vec![9])) {
        MessageType::Ping(p) => assert_eq!(p, vec![9]),
        _ => panic!("expected a ping"),
    }
}

#[test]
fn parsed_text_sorted_by_shape() {
    assert!(matches!(message_of_text(Json::parse(r#"{"a":1}"#)), MessageType::Data(_)));
    assert!(matches!(message_of_text(Json::parse("[1]")), MessageType::Ignored));
    assert!(matches!(message_of_text(None), MessageType::Ignored));
}
