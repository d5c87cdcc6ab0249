//! The decisions of a connection supervisor: what to do with each event on
//! one venue's connection. The caller performs the I/O and reports back.

use crate::exchange::{
    is_bybit_subscription, is_kucoin_subscription, is_subscription, parsed_as, views, AnyExchange,
    SubscribeError, Subscription,
};
use crate::json::{json_parse_of, Json};
use crate::tick::Orderbook;
use vstd::prelude::*;

verus! {

/// The first wait before subscribing again after a failed attempt.
pub const BACKOFF_BASE_MS: u64 = 500;

/// The longest wait between two attempts.
pub const BACKOFF_CAP_MS: u64 = 30000;

/// A frame as the socket handed it over.
#[derive(Debug)]
pub enum Inbound {
    Text(String),
    Ping(Vec<u8>),
    Pong,
    /// A close frame.
    Close,
    /// The read failed.
    Error,
    /// A binary or raw frame.
    Other,
}

/// A frame sorted by what the supervisor does with it.
#[derive(Debug)]
pub enum MessageType {
    Data(Json),
    Ping(Vec<u8>),
    Pong,
    Closed,
    /// Neither data nor control: a text that is no JSON object, a binary frame.
    Ignored,
}

/// The frame kind of a text: data when it holds a JSON object.
pub open spec fn text_kind(t: Seq<char>) -> Option<Json> {
    match json_parse_of(t) {
        Some(Json::Object(m)) => Some(Json::Object(m)),
        _ => None,
    }
}

/// Sorts the parsed content of a text frame: a JSON object is data,
/// anything else (or no JSON at all) is ignored.
pub fn message_of_text(parsed: Option<Json>) -> (r: MessageType)
    ensures
        match parsed {
            Some(Json::Object(m)) => r == MessageType::Data(Json::Object(m)),
            _ => r is Ignored,
        },
{
    match parsed {
        Some(Json::Object(m)) => MessageType::Data(Json::Object(m)),
        _ => MessageType::Ignored,
    }
}

/// Sorts a frame: a JSON object is data, a close frame or a read error
/// closes the connection, a ping is answered.
pub fn classify(msg: Inbound) -> (r: MessageType)
    ensures
        match msg {
            Inbound::Text(t) => match text_kind(t@) {
                Some(j) => r == MessageType::Data(j),
                None => r is Ignored,
            },
            Inbound::Ping(p) => r matches MessageType::Ping(q) && q@ == p@,
            Inbound::Pong => r is Pong,
            Inbound::Close => r is Closed,
            Inbound::Error => r is Closed,
            Inbound::Other => r is Ignored,
        },
{
    match msg {
        Inbound::Text(t) => message_of_text(Json::parse(t.as_str())),
        Inbound::Ping(p) => MessageType::Ping(p),
        Inbound::Pong => MessageType::Pong,
        Inbound::Close => MessageType::Closed,
        Inbound::Error => MessageType::Closed,
        Inbound::Other => MessageType::Ignored,
    }
}

/// Where a connection stands.
#[derive(Clone, Copy, Debug, PartialEq, Eq, Structural)]
pub enum Phase {
    /// The first subscription is under way.
    Connecting,
    /// Subscribed; frames flow.
    Streaming,
    /// The connection closed; a new subscription is under way.
    Reconnecting,
}

/// What happened on the connection.
#[derive(Debug)]
pub enum Event {
    /// The subscription went through.
    Connected,
    /// The subscription failed.
    ConnectFailed,
    Frame(Inbound),
    /// The heartbeat interval has passed.
    HeartbeatDue,
}

/// What the caller is to do next.
#[derive(Debug)]
pub enum Action {
    /// Subscribe to these markets after waiting this long.
    Subscribe { markets: Vec<String>, delay_ms: u64 },
    /// Hand the tick to the aggregator.
    Forward(Orderbook),
    /// Answer with a pong carrying this payload.
    SendPong(Vec<u8>),
    /// Send a ping with this payload.
    SendPing(Vec<u8>),
    /// The first subscription failed: give up on this venue.
    Fail,
    Nothing,
}

pub open spec fn pow2(n: nat) -> nat
    decreases n,
{
    if n == 0 {
        1
    } else {
        2 * pow2((n - 1) as nat)
    }
}

/// The wait before the next attempt after `failures` failed attempts in a row: doubling from the
/// base, never above the cap.
pub open spec fn backoff(failures: nat) -> nat {
    if BACKOFF_BASE_MS * pow2(failures) <= BACKOFF_CAP_MS {
        (BACKOFF_BASE_MS * pow2(failures)) as nat
    } else {
        BACKOFF_CAP_MS as nat
    }
}

proof fn lemma_pow2_grows(n: nat)
    ensures
        pow2(n) >= 1,
        pow2(n + 1) == 2 * pow2(n),
    decreases n,
{
    if n > 0 {
        lemma_pow2_grows((n - 1) as nat);
    }
}

/// The wait before the next attempt after `failures` failed ones.
pub fn backoff_delay_ms(failures: u32) -> (r: u64)
    ensures
        r == backoff(failures as nat),
{
    let mut d: u64 = BACKOFF_BASE_MS;
    let mut i: u32 = 0;
    while i < failures
        invariant
            i <= failures,
            d == BACKOFF_BASE_MS * pow2(i as nat),
            d <= BACKOFF_CAP_MS,
        decreases failures - i,
    {
        proof {
            lemma_pow2_grows(i as nat);
        }
        if d > BACKOFF_CAP_MS / 2 {
            proof {
                lemma_pow2_monotone(i as nat + 1, failures as nat);
            }
            return BACKOFF_CAP_MS;
        }
        d = d * 2;
        i = i + 1;
    }
    d
}

proof fn lemma_pow2_monotone(a: nat, b: nat)
    requires
        a <= b,
    ensures
        pow2(a) <= pow2(b),
    decreases b - a,
{
    if a < b {
        lemma_pow2_monotone(a, (b - 1) as nat);
        lemma_pow2_grows((b - 1) as nat);
    }
}

/// The texts copied one by one.
fn copy_texts(v: &Vec<String>) -> (r: Vec<String>)
    ensures
        views(r@) == views(v@),
{
    let mut out: Vec<String> = Vec::new();
    let mut i: usize = 0;
    while i < v.len()
        invariant
            i <= v@.len(),
            out@.len() == i,
            forall|j: int| 0 <= j < i ==> (#[trigger] out@[j])@ == v@[j]@,
        decreases v@.len() - i,
    {
        out.push(v[i].clone());
        i = i + 1;
    }
    assert(views(out@) =~= views(v@));
    out
}

/// `a` subscribes to `markets` after `delay` milliseconds.
pub open spec fn subscribes(a: Action, markets: Seq<Seq<char>>, delay: nat) -> bool {
    match a {
        Action::Subscribe { markets: m, delay_ms } => views(m@) == markets && delay_ms == delay,
        _ => false,
    }
}

/// `a` sends one pong carrying `payload`.
pub open spec fn pongs(a: Action, payload: Seq<u8>) -> bool {
    match a {
        Action::SendPong(q) => q@ == payload,
        _ => false,
    }
}

/// `a` sends one ping with an empty payload.
pub open spec fn pings_empty(a: Action) -> bool {
    match a {
        Action::SendPing(q) => q@.len() == 0,
        _ => false,
    }
}

/// The markets an action subscribes to; empty for any other action.
pub open spec fn requested_markets(a: Action) -> Seq<Seq<char>> {
    match a {
        Action::Subscribe { markets, delay_ms: _ } => views(markets@),
        _ => Seq::empty(),
    }
}

/// Two subscriptions of venue `e` alike for `markets`: the same socket
/// address and a first message of the same shape, or the same error.
pub open spec fn same_subscription(
    r1: Result<Subscription, SubscribeError>,
    r2: Result<Subscription, SubscribeError>,
    e: AnyExchange,
    markets: Seq<Seq<char>>,
) -> bool {
    match (r1, r2) {
        (Ok(a), Ok(b)) => a.url@ == b.url@ && match (a.message, b.message) {
            (None, None) => e == AnyExchange::Binance,
            (Some(x), Some(y)) => match e {
                AnyExchange::ByBit => is_bybit_subscription(x, markets) && is_bybit_subscription(y, markets),
                AnyExchange::KuCoin => is_kucoin_subscription(x, markets) && is_kucoin_subscription(
                    y,
                    markets,
                ),
                AnyExchange::Binance => false,
            },
            _ => false,
        },
        (Err(x), Err(y)) => x == y,
        _ => false,
    }
}

/// The subscription asked for when a connection closes is the one asked for
/// at the start: both requests carry the original market list, so they
/// give the same socket address and the same subscription message.
pub proof fn lemma_close_resubscribes_as_started(
    first: Action,
    again: Action,
    markets: Seq<Seq<char>>,
    e: AnyExchange,
    token: Seq<char>,
    r1: Result<Subscription, SubscribeError>,
    r2: Result<Subscription, SubscribeError>,
)
    requires
        subscribes(first, markets, 0),
        subscribes(again, markets, 0),
        is_subscription(r1, e, requested_markets(first), token),
        is_subscription(r2, e, requested_markets(again), token),
    ensures
        same_subscription(r1, r2, e, markets),
{
}

/// The supervisor of one venue's connection: the venue, the markets it was
/// started with, and where the connection stands.
pub struct Supervisor {
    exchange: AnyExchange,
    markets: Vec<String>,
    phase: Phase,
    failures: u32,
}

impl Supervisor {
    pub closed spec fn spec_exchange(&self) -> AnyExchange {
        self.exchange
    }

    /// The market list the supervisor was started with; it never changes.
    pub closed spec fn spec_markets(&self) -> Seq<Seq<char>> {
        views(self.markets@)
    }

    pub closed spec fn spec_phase(&self) -> Phase {
        self.phase
    }

    /// Failed subscriptions since the connection last closed.
    pub closed spec fn spec_failures(&self) -> nat {
        self.failures as nat
    }

    /// A supervisor about to subscribe for the first time, and the
    /// subscription it asks for: the markets, at once.
    pub fn new(exchange: AnyExchange, markets: Vec<String>) -> (r: (Supervisor, Action))
        ensures
            r.0.spec_exchange() == exchange,
            r.0.spec_markets() == views(markets@),
            r.0.spec_phase() == Phase::Connecting,
            r.0.spec_failures() == 0,
            subscribes(r.1, views(markets@), 0),
    {
        let request = copy_texts(&markets);
        (
            Supervisor { exchange, markets, phase: Phase::Connecting, failures: 0 },
            Action::Subscribe { markets: request, delay_ms: 0 },
        )
    }

    pub fn exchange(&self) -> (r: AnyExchange)
        ensures
            r == self.spec_exchange(),
    {
        self.exchange
    }

    pub fn phase(&self) -> (r: Phase)
        ensures
            r == self.spec_phase(),
    {
        self.phase
    }

    /// Decides what one event calls for.
    /// - A subscription that went through starts the stream.
    /// - The first subscription failing is fatal; a later one is retried
    ///   with the same markets after a growing wait.
    /// - While streaming: data frames are parsed and their tick forwarded
    ///   (a sentinel price too); a ping is answered by one pong with the same
    ///   payload; a close or read error starts a new subscription with the
    ///   original markets at once; the heartbeat sends an empty ping.
    /// - Anything else does nothing.
    pub fn step(&mut self, event: Event) -> (r: Action)
        ensures
            final(self).spec_exchange() == old(self).spec_exchange(),
            final(self).spec_markets() == old(self).spec_markets(),
            match event {
                Event::Connected => if old(self).spec_phase() != Phase::Streaming {
                    final(self).spec_phase() == Phase::Streaming && final(self).spec_failures() == 0
                        && r is Nothing
                } else {
                    *final(self) == *old(self) && r is Nothing
                },
                Event::ConnectFailed => match old(self).spec_phase() {
                    Phase::Connecting => *final(self) == *old(self) && r is Fail,
                    Phase::Reconnecting => final(self).spec_phase() == Phase::Reconnecting
                        && final(self).spec_failures() == (if old(self).spec_failures() < u32::MAX {
                        old(self).spec_failures() + 1
                    } else {
                        old(self).spec_failures()
                    }) && subscribes(r, old(self).spec_markets(), backoff(old(self).spec_failures())),
                    Phase::Streaming => *final(self) == *old(self) && r is Nothing,
                },
                Event::Frame(msg) => if old(self).spec_phase() == Phase::Streaming {
                    match msg {
                        Inbound::Text(t) => *final(self) == *old(self) && match text_kind(t@) {
                            Some(j) => match r {
                                Action::Forward(tick) => parsed_as(Some(tick), old(self).spec_exchange(), j),
                                Action::Nothing => parsed_as(None, old(self).spec_exchange(), j),
                                _ => false,
                            },
                            None => r is Nothing,
                        },
                        Inbound::Ping(p) => *final(self) == *old(self) && pongs(r, p@),
                        Inbound::Close => final(self).spec_phase() == Phase::Reconnecting
                            && final(self).spec_failures() == 0 && subscribes(r, old(self).spec_markets(), 0),
                        Inbound::Error => final(self).spec_phase() == Phase::Reconnecting
                            && final(self).spec_failures() == 0 && subscribes(r, old(self).spec_markets(), 0),
                        _ => *final(self) == *old(self) && r is Nothing,
                    }
                } else {
                    *final(self) == *old(self) && r is Nothing
                },
                Event::HeartbeatDue => *final(self) == *old(self) && if old(self).spec_phase()
                    == Phase::Streaming {
                    pings_empty(r)
                } else {
                    r is Nothing
                },
            },
    {
        match event {
            Event::Connected => {
                if self.phase != Phase::Streaming {
                    self.phase = Phase::Streaming;
                    self.failures = 0;
                }
                Action::Nothing
            },
            Event::ConnectFailed => match self.phase {
                Phase::Connecting => Action::Fail,
                Phase::Reconnecting => {
                    let delay_ms = backoff_delay_ms(self.failures);
                    if self.failures < u32::MAX {
                        self.failures = self.failures + 1;
                    }
                    Action::Subscribe { markets: copy_texts(&self.markets), delay_ms }
                },
                Phase::Streaming => Action::Nothing,
            },
            Event::Frame(msg) => {
                if self.phase != Phase::Streaming {
                    return Action::Nothing;
                }
                match classify(msg) {
                    MessageType::Data(j) => match self.exchange.parse_orderbook_data(&j) {
                        Some(tick) => Action::Forward(tick),
                        None => Action::Nothing,
                    },
                    MessageType::Ping(p) => Action::SendPong(p),
                    MessageType::Closed => {
                        self.phase = Phase::Reconnecting;
                        self.failures = 0;
                        Action::Subscribe { markets: copy_texts(&self.markets), delay_ms: 0 }
                    },
                    MessageType::Pong => Action::Nothing,
                    MessageType::Ignored => Action::Nothing,
                }
            },
            Event::HeartbeatDue => {
                if self.phase == Phase::Streaming {
                    Action::SendPing(Vec::new())
                } else {
                    Action::Nothing
                }
            },
        }
    }
}

} // verus!
