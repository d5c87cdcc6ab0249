//! The three venues: their names, socket addresses, subscriptions and the
//! shape of their book-ticker frames.

use crate::json::{field, first_item, json_parse_of, text, Json};
use crate::price::price_of_text;
use crate::text::{join, join_texts, lower_of, second_piece_without, split_on, strip, to_lower, to_upper, upper_of};
use crate::tick::Orderbook;
use vstd::prelude::*;

verus! {

/// `url::ParseError`, the error of an address that does not parse; only
/// carried, never looked into.
#[verifier::external_type_specification]
#[verifier::external_body]
pub struct ExParseError(url::ParseError);

/// What `url` makes of a base address with one query pair appended.
pub uninterp spec fn url_with_param_of(base: Seq<char>, key: Seq<char>, value: Seq<char>) -> Option<
    Seq<char>,
>;

/// Relies on `url::Url::parse_with_params` with one pair and on the
/// `Display` of `url::Url`: the serialized address, or the parse error of
/// the base.
#[verifier::external_body]
fn url_with_param(base: &str, key: &str, value: &str) -> (r: Result<String, url::ParseError>)
    ensures
        match r {
            Ok(u) => url_with_param_of(base@, key@, value@) == Some(u@),
            Err(_) => url_with_param_of(base@, key@, value@) is None,
        },
{
    match url::Url::parse_with_params(base, &[(key, value)]) {
        Ok(u) => Ok(u.to_string()),
        Err(e) => Err(e),
    }
}

/// Why a subscription could not be prepared.
#[derive(Clone, Copy, Debug, PartialEq, Eq, Structural)]
pub enum SubscribeError {
    /// The socket address did not parse.
    InvalidUrl,
    /// The token response held no `data.token` text.
    NoToken,
}

/// The venues.
#[derive(Clone, Copy, Debug, PartialEq, Eq, Structural)]
pub enum AnyExchange {
    Binance,
    ByBit,
    KuCoin,
}

pub open spec fn exchange_name(e: AnyExchange) -> Seq<char> {
    match e {
        AnyExchange::Binance => "Binance"@,
        AnyExchange::ByBit => "ByBit"@,
        AnyExchange::KuCoin => "KuCoin"@,
    }
}

pub open spec fn exchange_url(e: AnyExchange) -> Seq<char> {
    match e {
        AnyExchange::Binance => "wss://stream.binance.com/stream"@,
        AnyExchange::ByBit => "wss://stream.bybit.com/v5/public/spot"@,
        AnyExchange::KuCoin => "wss://ws-api-spot.kucoin.com/"@,
    }
}

/// Symbol, bid text and ask text of a Binance frame:
/// `data.s`, `data.b`, `data.a`.
pub open spec fn binance_fields(frame: Json) -> Option<(Seq<char>, Seq<char>, Seq<char>)> {
    let data = field(Some(frame), "data"@);
    match (text(field(data, "s"@)), text(field(data, "b"@)), text(field(data, "a"@))) {
        (Some(s), Some(b), Some(a)) => Some((s, b, a)),
        _ => None,
    }
}

/// Symbol, bid text and ask text of a ByBit frame:
/// `data.s`, `data.b[0][0]`, `data.a[0][0]`.
pub open spec fn bybit_fields(frame: Json) -> Option<(Seq<char>, Seq<char>, Seq<char>)> {
    let data = field(Some(frame), "data"@);
    match (
        text(field(data, "s"@)),
        text(first_item(first_item(field(data, "b"@)))),
        text(first_item(first_item(field(data, "a"@)))),
    ) {
        (Some(s), Some(b), Some(a)) => Some((s, b, a)),
        _ => None,
    }
}

/// The symbol in a KuCoin topic: the piece after the first `:`, dashes removed.
pub open spec fn topic_symbol(topic: Seq<char>) -> Option<Seq<char>> {
    if split_on(topic, ':').len() > 1 {
        Some(strip(split_on(topic, ':')[1], '-'))
    } else {
        None
    }
}

/// Symbol, bid text and ask text of a KuCoin frame: the symbol from
/// `topic`, `data.bids[0]`, `data.asks[0]`.
pub open spec fn kucoin_fields(frame: Json) -> Option<(Seq<char>, Seq<char>, Seq<char>)> {
    let data = field(Some(frame), "data"@);
    match text(field(Some(frame), "topic"@)) {
        Some(topic) => match (
            topic_symbol(topic),
            text(first_item(field(data, "bids"@))),
            text(first_item(field(data, "asks"@))),
        ) {
            (Some(s), Some(b), Some(a)) => Some((s, b, a)),
            _ => None,
        },
        None => None,
    }
}

pub open spec fn frame_fields(e: AnyExchange, frame: Json) -> Option<(Seq<char>, Seq<char>, Seq<char>)> {
    match e {
        AnyExchange::Binance => binance_fields(frame),
        AnyExchange::ByBit => bybit_fields(frame),
        AnyExchange::KuCoin => kucoin_fields(frame),
    }
}

/// The tick that a frame of venue `e` gives: `None` exactly where a field is
/// missing or of the wrong kind; a price text that is no number gives the
/// sentinel.
pub open spec fn parsed_as(r: Option<Orderbook>, e: AnyExchange, frame: Json) -> bool {
    match r {
        Some(t) => match frame_fields(e, frame) {
            Some(f) => t.exchange@ == exchange_name(e) && t.symbol@ == f.0 && t.bid@ == price_of_text(
                f.1,
            ) && t.ask@ == price_of_text(f.2),
            None => false,
        },
        None => frame_fields(e, frame) is None,
    }
}

/// The `streams` parameter of Binance: each market in small letters followed
/// by `@bookTicker`, joined by `/`; empty for no markets.
pub open spec fn binance_streams(markets: Seq<Seq<char>>) -> Seq<char> {
    join(markets.map_values(|m: Seq<char>| lower_of(m) + "@bookTicker"@), "/"@)
}

/// The ByBit subscription `{"op":"subscribe","args":["orderbook.1.<MARKET>",...]}`.
pub open spec fn is_bybit_subscription(j: Json, markets: Seq<Seq<char>>) -> bool {
    match j {
        Json::Object(members) => {
            &&& members@.len() == 2
            &&& members@[0].0@ == "op"@
            &&& members@[0].1 matches Json::Str(op) && op@ == "subscribe"@
            &&& members@[1].0@ == "args"@
            &&& members@[1].1 matches Json::Array(args) && args@.len() == markets.len() && forall|i: int|
                0 <= i < markets.len() ==> (#[trigger] args@[i] matches Json::Str(a) && a@
                    == "orderbook.1."@ + upper_of(markets[i]))
        },
        _ => false,
    }
}

/// The KuCoin topic: `/spotMarket/level1:` and the markets in capitals,
/// joined by `,`.
pub open spec fn kucoin_topic(markets: Seq<Seq<char>>) -> Seq<char> {
    "/spotMarket/level1:"@ + join(markets.map_values(|m: Seq<char>| upper_of(m)), ","@)
}

/// The KuCoin subscription
/// `{"id":1,"type":"subscribe","topic":<topic>,"response":true}`.
pub open spec fn is_kucoin_subscription(j: Json, markets: Seq<Seq<char>>) -> bool {
    match j {
        Json::Object(members) => {
            &&& members@.len() == 4
            &&& members@[0].0@ == "id"@
            &&& members@[0].1 matches Json::Number(n) && n@ == "1"@
            &&& members@[1].0@ == "type"@
            &&& members@[1].1 matches Json::Str(t) && t@ == "subscribe"@
            &&& members@[2].0@ == "topic"@
            &&& members@[2].1 matches Json::Str(t) && t@ == kucoin_topic(markets)
            &&& members@[3].0@ == "response"@
            &&& members@[3].1 == Json::Bool(true)
        },
        _ => false,
    }
}

/// The token of a KuCoin token response: `data.token`.
pub open spec fn token_field(body: Json) -> Option<Seq<char>> {
    text(field(field(Some(body), "data"@), "token"@))
}

pub open spec fn views(v: Seq<String>) -> Seq<Seq<char>> {
    v.map_values(|s: String| s@)
}

fn key(s: &str) -> (r: String)
    ensures
        r@ == s@,
{
    String::from_str(s)
}

/// The three text fields, when all are present.
fn three_texts(s: Option<&String>, b: Option<&String>, a: Option<&String>) -> (r: Option<(String, String, String)>)
    ensures
        match r {
            Some(t) => s is Some && b is Some && a is Some && t.0@ == s->0@ && t.1@ == b->0@ && t.2@
                == a->0@,
            None => s is None || b is None || a is None,
        },
{
    match (s, b, a) {
        (Some(s), Some(b), Some(a)) => Some((s.clone(), b.clone(), a.clone())),
        _ => None,
    }
}

/// The value behind an optional reference.
pub open spec fn owned(j: Option<&Json>) -> Option<Json> {
    match j {
        Some(x) => Some(*x),
        None => None,
    }
}

fn opt_get<'a>(j: Option<&'a Json>, k: &String) -> (r: Option<&'a Json>)
    ensures
        match r {
            Some(v) => field(owned(j), k@) == Some(*v),
            None => field(owned(j), k@) is None,
        },
{
    match j {
        Some(x) => x.get(k),
        None => None,
    }
}

fn opt_first<'a>(j: Option<&'a Json>) -> (r: Option<&'a Json>)
    ensures
        match r {
            Some(v) => first_item(owned(j)) == Some(*v),
            None => first_item(owned(j)) is None,
        },
{
    match j {
        Some(x) => x.first(),
        None => None,
    }
}

fn opt_str<'a>(j: Option<&'a Json>) -> (r: Option<&'a String>)
    ensures
        match r {
            Some(s) => text(owned(j)) == Some(s@),
            None => text(owned(j)) is None,
        },
{
    match j {
        Some(x) => x.as_str(),
        None => None,
    }
}

/// How to open a venue's stream: the socket address, and the message to send
/// once connected, if the venue wants one.
#[derive(Debug)]
pub struct Subscription {
    pub url: String,
    pub message: Option<Json>,
}

/// The subscription of venue `e` for `markets`; KuCoin also needs the token
/// of its token request.
pub open spec fn is_subscription(
    r: Result<Subscription, SubscribeError>,
    e: AnyExchange,
    markets: Seq<Seq<char>>,
    token: Seq<char>,
) -> bool {
    match e {
        AnyExchange::Binance => match url_with_param_of(exchange_url(e), "streams"@, binance_streams(markets)) {
            Some(u) => match r {
                Ok(sub) => sub.url@ == u && sub.message is None,
                Err(_) => false,
            },
            None => r == Err::<Subscription, SubscribeError>(SubscribeError::InvalidUrl),
        },
        AnyExchange::ByBit => match r {
            Ok(sub) => sub.url@ == exchange_url(e) && match sub.message {
                Some(m) => is_bybit_subscription(m, markets),
                None => false,
            },
            Err(_) => false,
        },
        AnyExchange::KuCoin => match url_with_param_of(exchange_url(e), "token"@, token) {
            Some(u) => match r {
                Ok(sub) => sub.url@ == u && match sub.message {
                    Some(m) => is_kucoin_subscription(m, markets),
                    None => false,
                },
                Err(_) => false,
            },
            None => r == Err::<Subscription, SubscribeError>(SubscribeError::InvalidUrl),
        },
    }
}

/// Each market in capitals where `upper`, in small letters otherwise.
fn map_case(markets: &Vec<String>, upper: bool) -> (r: Vec<String>)
    ensures
        r@.len() == markets@.len(),
        forall|i: int|
            0 <= i < r@.len() ==> (#[trigger] r@[i])@ == (if upper {
                upper_of(markets@[i]@)
            } else {
                lower_of(markets@[i]@)
            }),
{
    let mut out: Vec<String> = Vec::new();
    let mut i: usize = 0;
    while i < markets.len()
        invariant
            i <= markets@.len(),
            out@.len() == i,
            forall|j: int|
                0 <= j < i ==> (#[trigger] out@[j])@ == (if upper {
                    upper_of(markets@[j]@)
                } else {
                    lower_of(markets@[j]@)
                }),
        decreases markets@.len() - i,
    {
        let m = if upper {
            to_upper(markets[i].as_str())
        } else {
            to_lower(markets[i].as_str())
        };
        out.push(m);
        i = i + 1;
    }
    out
}

/// The `streams` parameter of Binance.
pub fn binance_streams_param(markets: &Vec<String>) -> (r: String)
    ensures
        r@ == binance_streams(views(markets@)),
{
    let lower = map_case(markets, false);
    let mut streams: Vec<String> = Vec::new();
    let mut i: usize = 0;
    while i < lower.len()
        invariant
            i <= lower@.len(),
            lower@.len() == markets@.len(),
            forall|j: int| 0 <= j < lower@.len() ==> (#[trigger] lower@[j])@ == lower_of(markets@[j]@),
            streams@.len() == i,
            forall|j: int|
                0 <= j < i ==> (#[trigger] streams@[j])@ == lower_of(markets@[j]@) + "@bookTicker"@,
        decreases lower@.len() - i,
    {
        streams.push(String::from_str(lower[i].as_str()).concat("@bookTicker"));
        i = i + 1;
    }
    assert(views(streams@) =~= views(markets@).map_values(|m: Seq<char>| lower_of(m) + "@bookTicker"@));
    join_texts(&streams, "/")
}

/// The Binance socket address for `markets`: its streams as the `streams`
/// query parameter.
pub fn orderbook_subscription_url(markets: &Vec<String>) -> (r: Result<String, SubscribeError>)
    ensures
        match url_with_param_of(exchange_url(AnyExchange::Binance), "streams"@, binance_streams(views(markets@))) {
            Some(u) => r matches Ok(x) && x@ == u,
            None => r == Err::<String, SubscribeError>(SubscribeError::InvalidUrl),
        },
{
    let streams = binance_streams_param(markets);
    match url_with_param(AnyExchange::Binance.url(), "streams", streams.as_str()) {
        Ok(url) => Ok(url),
        Err(_) => Err(SubscribeError::InvalidUrl),
    }
}

/// The subscription message of ByBit.
pub fn bybit_subscription(markets: &Vec<String>) -> (r: Json)
    ensures
        is_bybit_subscription(r, views(markets@)),
{
    let upper = map_case(markets, true);
    let mut args: Vec<Json> = Vec::new();
    let mut i: usize = 0;
    while i < upper.len()
        invariant
            i <= upper@.len(),
            upper@.len() == markets@.len(),
            forall|j: int| 0 <= j < upper@.len() ==> (#[trigger] upper@[j])@ == upper_of(markets@[j]@),
            args@.len() == i,
            forall|j: int|
                0 <= j < i ==> (#[trigger] args@[j] matches Json::Str(a) && a@ == "orderbook.1."@
                    + upper_of(markets@[j]@)),
        decreases upper@.len() - i,
    {
        let a = String::from_str("orderbook.1.").concat(upper[i].as_str());
        args.push(Json::Str(a));
        i = i + 1;
    }
    let members = vec![
        (key("op"), Json::Str(key("subscribe"))),
        (key("args"), Json::Array(args)),
    ];
    Json::Object(members)
}

/// The topic of KuCoin.
pub fn kucoin_topic_text(markets: &Vec<String>) -> (r: String)
    ensures
        r@ == kucoin_topic(views(markets@)),
{
    let upper = map_case(markets, true);
    assert(views(upper@) =~= views(markets@).map_values(|m: Seq<char>| upper_of(m)));
    String::from_str("/spotMarket/level1:").concat(join_texts(&upper, ",").as_str())
}

/// The subscription message of KuCoin.
pub fn kucoin_subscription(markets: &Vec<String>) -> (r: Json)
    ensures
        is_kucoin_subscription(r, views(markets@)),
{
    let members = vec![
        (key("id"), Json::Number(key("1"))),
        (key("type"), Json::Str(key("subscribe"))),
        (key("topic"), Json::Str(kucoin_topic_text(markets))),
        (key("response"), Json::Bool(true)),
    ];
    Json::Object(members)
}

/// The token of a parsed KuCoin token response: `data.token`.
pub fn token_from_response(body: &Json) -> (r: Result<String, SubscribeError>)
    ensures
        match token_field(*body) {
            Some(t) => r matches Ok(x) && x@ == t,
            None => r == Err::<String, SubscribeError>(SubscribeError::NoToken),
        },
{
    match opt_str(opt_get(body.get(&key("data")), &key("token"))) {
        Some(t) => Ok(t.clone()),
        None => Err(SubscribeError::NoToken),
    }
}

/// The token in the body of KuCoin's token response: `data.token`.
pub fn public_token(body: &str) -> (r: Result<String, SubscribeError>)
    ensures
        match json_parse_of(body@) {
            Some(j) => match token_field(j) {
                Some(t) => r matches Ok(x) && x@ == t,
                None => r == Err::<String, SubscribeError>(SubscribeError::NoToken),
            },
            None => r == Err::<String, SubscribeError>(SubscribeError::NoToken),
        },
{
    match Json::parse(body) {
        Some(j) => token_from_response(&j),
        None => Err(SubscribeError::NoToken),
    }
}

impl AnyExchange {
    /// Whether the venue wants a one-time token, fetched over HTTP, before
    /// its socket opens.
    pub fn needs_token(&self) -> (r: bool)
        ensures
            r == (*self == AnyExchange::KuCoin),
    {
        match self {
            AnyExchange::KuCoin => true,
            _ => false,
        }
    }

    /// The socket address and first message for `markets`; `token` is used
    /// by KuCoin alone.
    pub fn subscription(&self, markets: &Vec<String>, token: &str) -> (r: Result<Subscription, SubscribeError>)
        ensures
            is_subscription(r, *self, views(markets@), token@),
    {
        match self {
            AnyExchange::Binance => match orderbook_subscription_url(markets) {
                Ok(url) => Ok(Subscription { url, message: None }),
                Err(e) => Err(e),
            },
            AnyExchange::ByBit => Ok(
                Subscription { url: String::from_str(self.url()), message: Some(bybit_subscription(markets)) },
            ),
            AnyExchange::KuCoin => match url_with_param(self.url(), "token", token) {
                Ok(url) => Ok(Subscription { url, message: Some(kucoin_subscription(markets)) }),
                Err(_) => Err(SubscribeError::InvalidUrl),
            },
        }
    }
    pub fn name(&self) -> (r: &'static str)
        ensures
            r@ == exchange_name(*self),
    {
        match self {
            AnyExchange::Binance => "Binance",
            AnyExchange::ByBit => "ByBit",
            AnyExchange::KuCoin => "KuCoin",
        }
    }

    pub fn url(&self) -> (r: &'static str)
        ensures
            r@ == exchange_url(*self),
    {
        match self {
            AnyExchange::Binance => "wss://stream.binance.com/stream",
            AnyExchange::ByBit => "wss://stream.bybit.com/v5/public/spot",
            AnyExchange::KuCoin => "wss://ws-api-spot.kucoin.com/",
        }
    }

    /// The symbol, bid text and ask text of a frame, read the venue's way.
    fn fields(&self, frame: &Json) -> (r: Option<(String, String, String)>)
        ensures
            match r {
                Some(t) => frame_fields(*self, *frame) == Some((t.0@, t.1@, t.2@)),
                None => frame_fields(*self, *frame) is None,
            },
    {
        let data = frame.get(&key("data"));
        match self {
            AnyExchange::Binance => three_texts(
                opt_str(opt_get(data, &key("s"))),
                opt_str(opt_get(data, &key("b"))),
                opt_str(opt_get(data, &key("a"))),
            ),
            AnyExchange::ByBit => three_texts(
                opt_str(opt_get(data, &key("s"))),
                opt_str(opt_first(opt_first(opt_get(data, &key("b"))))),
                opt_str(opt_first(opt_first(opt_get(data, &key("a"))))),
            ),
            AnyExchange::KuCoin => {
                let topic = opt_str(frame.get(&key("topic")));
                match topic {
                    Some(topic) => {
                        let symbol = second_piece_without(topic.as_str(), ':', '-');
                        let bid = opt_str(opt_first(opt_get(data, &key("bids"))));
                        let ask = opt_str(opt_first(opt_get(data, &key("asks"))));
                        match symbol {
                            Some(symbol) => three_texts(Some(&symbol), bid, ask),
                            None => None,
                        }
                    },
                    None => None,
                }
            },
        }
    }

    /// The tick in a frame of this venue, if the frame has one.
    pub fn parse_orderbook_data(&self, raw_data: &Json) -> (r: Option<Orderbook>)
        ensures
            parsed_as(r, *self, *raw_data),
    {
        match self.fields(raw_data) {
            Some((symbol, bid, ask)) => Some(
                Orderbook::new(self.name(), symbol.as_str(), bid.as_str(), ask.as_str()),
            ),
            None => None,
        }
    }
}

} // verus!
