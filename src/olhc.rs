//! One-minute open/low/high/close bars and the map that aggregates ticks
//! into them.

use crate::price::{is_sentinel, lemma_price_lt_transitive, price_lt, Decimal, Price};
use crate::tick::Orderbook;
use vstd::prelude::*;

verus! {

/// The key of a bar: exchange name and market symbol.
pub type BarKey = (Seq<char>, Seq<char>);

/// Open, close, lowest and highest ask seen for one key in one interval.
#[derive(Debug, PartialEq, Eq)]
pub struct OLHC {
    pub open: Price,
    pub close: Price,
    pub min: Price,
    pub max: Price,
}

/// The values of a bar.
pub struct BarView {
    pub open: Decimal,
    pub close: Decimal,
    pub min: Decimal,
    pub max: Decimal,
}

impl BarView {
    /// The bar that a first ask opens.
    pub open spec fn first(ask: Decimal) -> BarView {
        BarView { open: ask, close: ask, min: ask, max: ask }
    }

    /// The bar after one more ask.
    pub open spec fn next(self, ask: Decimal) -> BarView {
        BarView {
            open: self.open,
            close: ask,
            min: if price_lt(ask, self.min) { ask } else { self.min },
            max: if price_lt(self.max, ask) { ask } else { self.max },
        }
    }
}

impl View for OLHC {
    type V = BarView;

    open spec fn view(&self) -> BarView {
        BarView { open: self.open@, close: self.close@, min: self.min@, max: self.max@ }
    }
}

impl OLHC {
    pub fn new(open: Price) -> (r: OLHC)
        ensures
            r@ == BarView::first(open@),
    {
        OLHC { close: open.copy(), min: open.copy(), max: open.copy(), open }
    }

    /// A copy with the same values.
    pub fn copy(&self) -> (r: OLHC)
        ensures
            r@ == self@,
    {
        OLHC { open: self.open.copy(), close: self.close.copy(), min: self.min.copy(), max: self.max.copy() }
    }

    /// Takes one more ask into the bar.
    pub fn record(&mut self, ask: Price)
        ensures
            final(self)@ == old(self)@.next(ask@),
    {
        if ask.less_than(&self.min) {
            self.min = ask.copy();
        }
        if self.max.less_than(&ask) {
            self.max = ask.copy();
        }
        self.close = ask;
    }

    /// Takes a tick into the map; see [`MapOLHC::update`].
    pub fn update_map(map: &mut MapOLHC, orderbook: Orderbook)
        requires
            old(map).wf(),
        ensures
            final(map).wf(),
            final(map)@ == apply_tick(old(map)@, orderbook),
    {
        map.update(&orderbook);
    }
}

pub open spec fn tick_key(t: Orderbook) -> BarKey {
    (t.exchange@, t.symbol@)
}

/// The bars after one tick: a sentinel ask leaves them alone; otherwise the
/// tick's key gets a new bar or its bar takes the ask.
pub open spec fn apply_tick(m: Map<BarKey, BarView>, t: Orderbook) -> Map<BarKey, BarView> {
    if is_sentinel(t.ask@) {
        m
    } else if m.contains_key(tick_key(t)) {
        m.insert(tick_key(t), m[tick_key(t)].next(t.ask@))
    } else {
        m.insert(tick_key(t), BarView::first(t.ask@))
    }
}

/// The bars after a run of ticks, in order.
pub open spec fn apply_ticks(m: Map<BarKey, BarView>, ts: Seq<Orderbook>) -> Map<BarKey, BarView>
    decreases ts.len(),
{
    if ts.len() == 0 {
        m
    } else {
        apply_tick(apply_ticks(m, ts.drop_last()), ts.last())
    }
}

/// One bar with its key.
#[derive(Debug)]
pub struct BarEntry {
    pub exchange: String,
    pub market: String,
    pub bar: OLHC,
}

impl BarEntry {
    pub open spec fn key(&self) -> BarKey {
        (self.exchange@, self.market@)
    }
}

/// The live bars, one per (exchange, market).
pub struct MapOLHC {
    entries: Vec<BarEntry>,
    model: Ghost<Map<BarKey, BarView>>,
}

impl View for MapOLHC {
    type V = Map<BarKey, BarView>;

    closed spec fn view(&self) -> Map<BarKey, BarView> {
        self.model@
    }
}

impl MapOLHC {
    /// The entries hold each key once and agree with the model.
    pub closed spec fn wf(&self) -> bool {
        &&& forall|i: int, j: int|
            0 <= i < j < self.entries@.len() ==> self.entries@[i].key() != self.entries@[j].key()
        &&& forall|i: int|
            0 <= i < self.entries@.len() ==> #[trigger] self.model@.contains_key(
                self.entries@[i].key(),
            ) && self.model@[self.entries@[i].key()] == self.entries@[i].bar@
        &&& forall|k: BarKey|
            #[trigger] self.model@.contains_key(k) ==> exists|i: int|
                0 <= i < self.entries@.len() && self.entries@[i].key() == k
    }

    pub fn new() -> (r: MapOLHC)
        ensures
            r.wf(),
            r@ == Map::<BarKey, BarView>::empty(),
    {
        MapOLHC { entries: Vec::new(), model: Ghost(Map::empty()) }
    }

    pub fn len(&self) -> (r: usize)
        requires
            self.wf(),
        ensures
            r == self@.len(),
    {
        proof {
            self.lemma_len();
        }
        self.entries.len()
    }

    proof fn lemma_len(&self)
        requires
            self.wf(),
        ensures
            self@.len() == self.entries@.len(),
    {
        let keys = self.entries@.map_values(|e: BarEntry| e.key());
        assert(keys.no_duplicates()) by {
            assert forall|i: int, j: int|
                0 <= i < keys.len() && 0 <= j < keys.len() && i != j implies keys[i] != keys[j] by {
                if i < j {
                } else {
                }
            }
        }
        keys.unique_seq_to_set();
        assert(keys.to_set() =~= self@.dom()) by {
            assert forall|k: BarKey| keys.to_set().contains(k) implies self@.dom().contains(k) by {
                let i = choose|i: int| 0 <= i < keys.len() && keys[i] == k;
                assert(self.model@.contains_key(self.entries@[i].key()));
            }
            assert forall|k: BarKey| self@.dom().contains(k) implies keys.to_set().contains(k) by {
                assert(self.model@.contains_key(k));
                let i = choose|i: int| 0 <= i < self.entries@.len() && self.entries@[i].key() == k;
                assert(keys[i] == k);
            }
        }
    }

    /// The position of the entry for `(exchange, market)`, if there is one.
    fn find(&self, exchange: &String, market: &String) -> (r: Option<usize>)
        requires
            self.wf(),
        ensures
            match r {
                Some(i) => i < self.entries@.len() && self.entries@[i as int].key() == (
                    exchange@,
                    market@,
                ),
                None => !self@.contains_key((exchange@, market@)),
            },
    {
        let mut i: usize = 0;
        while i < self.entries.len()
            invariant
                self.wf(),
                i <= self.entries@.len(),
                forall|j: int| 0 <= j < i ==> self.entries@[j].key() != (exchange@, market@),
            decreases self.entries@.len() - i,
        {
            if self.entries[i].exchange == *exchange && self.entries[i].market == *market {
                return Some(i);
            }
            i = i + 1;
        }
        None
    }

    /// The bar for `(exchange, market)`, if one is live.
    pub fn get(&self, exchange: &String, market: &String) -> (r: Option<OLHC>)
        requires
            self.wf(),
        ensures
            match r {
                Some(b) => self@.contains_key((exchange@, market@)) && self@[(exchange@, market@)] == b@,
                None => !self@.contains_key((exchange@, market@)),
            },
    {
        match self.find(exchange, market) {
            Some(i) => {
                assert(self.model@.contains_key(self.entries@[i as int].key()));
                Some(self.entries[i].bar.copy())
            },
            None => None,
        }
    }

    /// Takes one tick in: a sentinel ask is dropped, a new key opens a bar,
    /// a known key's bar takes the ask. No other key's bar changes.
    pub fn update(&mut self, orderbook: &Orderbook)
        requires
            old(self).wf(),
        ensures
            final(self).wf(),
            final(self)@ == apply_tick(old(self)@, *orderbook),
            is_sentinel(orderbook.ask@) ==> final(self)@ == old(self)@,
            forall|k: BarKey|
                k != tick_key(*orderbook) ==> (#[trigger] final(self)@.contains_key(k)
                    == old(self)@.contains_key(k)),
            forall|k: BarKey|
                k != tick_key(*orderbook) && #[trigger] old(self)@.contains_key(k)
                    ==> final(self)@[k] == old(self)@[k],
    {
        if orderbook.ask.is_negative() {
            return;
        }
        let ghost key = tick_key(*orderbook);
        match self.find(&orderbook.exchange, &orderbook.symbol) {
            Some(i) => {
                assert(self.model@.contains_key(self.entries@[i as int].key()));
                let mut bar = self.entries[i].bar.copy();
                bar.record(orderbook.ask.copy());
                let ghost value = bar@;
                self.entries[i].bar = bar;
                self.model = Ghost(self.model@.insert(key, value));
                assert(self.entries@[i as int].key() == key);
                assert forall|j: int| 0 <= j < self.entries@.len() && j != i implies self.entries@[j]
                    == old(self).entries@[j] by {}
                assert(self.entries@[i as int].bar@ == value);
                assert forall|j: int|
                    0 <= j < self.entries@.len() implies #[trigger] self.model@.contains_key(
                    self.entries@[j].key(),
                ) && self.model@[self.entries@[j].key()] == self.entries@[j].bar@ by {
                    if j != i {
                        assert(old(self).model@.contains_key(old(self).entries@[j].key()));
                    }
                }
                assert forall|k: BarKey| #[trigger] self.model@.contains_key(k) implies exists|
                    j: int,
                | 0 <= j < self.entries@.len() && self.entries@[j].key() == k by {
                    if k == key {
                        assert(self.entries@[i as int].key() == k);
                    } else {
                        assert(old(self).model@.contains_key(k));
                        let j = choose|j: int|
                            0 <= j < old(self).entries@.len() && old(self).entries@[j].key() == k;
                        assert(self.entries@[j].key() == k);
                    }
                }
            },
            None => {
                let bar = OLHC::new(orderbook.ask.copy());
                let ghost value = bar@;
                let entry = BarEntry {
                    exchange: orderbook.exchange.clone(),
                    market: orderbook.symbol.clone(),
                    bar,
                };
                self.entries.push(entry);
                self.model = Ghost(self.model@.insert(key, value));
                let ghost n = self.entries@.len() - 1;
                assert(self.entries@[n].key() == key);
                assert forall|k: BarKey| #[trigger] self.model@.contains_key(k) implies exists|
                    j: int,
                | 0 <= j < self.entries@.len() && self.entries@[j].key() == k by {
                    if k != key {
                        assert(old(self).model@.contains_key(k));
                        let j = choose|j: int|
                            0 <= j < old(self).entries@.len() && old(self).entries@[j].key() == k;
                        assert(self.entries@[j].key() == k);
                    } else {
                        assert(self.entries@[n].key() == k);
                    }
                }
                assert forall|i: int|
                    0 <= i < self.entries@.len() implies #[trigger] self.model@.contains_key(
                    self.entries@[i].key(),
                ) && self.model@[self.entries@[i].key()] == self.entries@[i].bar@ by {
                    if i < n {
                        assert(old(self).entries@[i] == self.entries@[i]);
                    }
                }
            },
        }
    }

    /// Hands over every bar and leaves the map empty, in one step.
    pub fn take(&mut self) -> (r: MapOLHC)
        requires
            old(self).wf(),
        ensures
            r.wf(),
            r@ == old(self)@,
            final(self).wf(),
            final(self)@ == Map::<BarKey, BarView>::empty(),
    {
        let mut fresh = MapOLHC::new();
        core::mem::swap(self, &mut fresh);
        fresh
    }

    /// The entries, each key once, each with its bar.
    pub fn into_entries(self) -> (r: Vec<BarEntry>)
        requires
            self.wf(),
        ensures
            r@.len() == self@.len(),
            forall|i: int, j: int| 0 <= i < j < r@.len() ==> r@[i].key() != r@[j].key(),
            forall|i: int|
                0 <= i < r@.len() ==> #[trigger] self@.contains_key(r@[i].key()) && self@[r@[i].key()]
                    == r@[i].bar@,
            forall|k: BarKey|
                #[trigger] self@.contains_key(k) ==> exists|i: int| 0 <= i < r@.len() && r@[i].key() == k,
    {
        proof {
            self.lemma_len();
        }
        self.entries
    }
}

/// The sequence of asks of a run of ticks.
pub open spec fn asks_of(ts: Seq<Orderbook>) -> Seq<Decimal> {
    ts.map_values(|t: Orderbook| t.ask@)
}

/// `p` is one of `s`, and none of `s` is below it.
pub open spec fn is_lowest(p: Decimal, s: Seq<Decimal>) -> bool {
    &&& exists|i: int| 0 <= i < s.len() && s[i] == p
    &&& forall|i: int| 0 <= i < s.len() ==> !price_lt(#[trigger] s[i], p)
}

/// `p` is one of `s`, and none of `s` is above it.
pub open spec fn is_highest(p: Decimal, s: Seq<Decimal>) -> bool {
    &&& exists|i: int| 0 <= i < s.len() && s[i] == p
    &&& forall|i: int| 0 <= i < s.len() ==> !price_lt(p, #[trigger] s[i])
}

/// For a run of valid asks on one key whose bar is not yet open, the bar
/// opens at the first ask, closes at the last, and its min and max are the
/// lowest and highest of the asks.
pub proof fn lemma_bar_of_asks(m: Map<BarKey, BarView>, ts: Seq<Orderbook>, key: BarKey)
    requires
        ts.len() > 0,
        !m.contains_key(key),
        forall|i: int| 0 <= i < ts.len() ==> tick_key(#[trigger] ts[i]) == key && !is_sentinel(ts[i].ask@),
    ensures
        apply_ticks(m, ts).contains_key(key),
        apply_ticks(m, ts)[key].open == ts[0].ask@,
        apply_ticks(m, ts)[key].close == ts.last().ask@,
        is_lowest(apply_ticks(m, ts)[key].min, asks_of(ts)),
        is_highest(apply_ticks(m, ts)[key].max, asks_of(ts)),
    decreases ts.len(),
{
    let asks = asks_of(ts);
    let last = ts.last();
    if ts.len() == 1 {
        assert(ts.drop_last() =~= Seq::<Orderbook>::empty());
        assert(apply_ticks(m, ts.drop_last()) == m);
        assert(ts[0] == last);
        assert(apply_ticks(m, ts)[key] == BarView::first(last.ask@));
        assert(asks[0] == last.ask@);
    } else {
        let init = ts.drop_last();
        assert forall|i: int| 0 <= i < init.len() implies tick_key(#[trigger] init[i]) == key
            && !is_sentinel(init[i].ask@) by {
            assert(init[i] == ts[i]);
        }
        lemma_bar_of_asks(m, init, key);
        let prev = apply_ticks(m, init)[key];
        let bar = apply_ticks(m, ts)[key];
        assert(tick_key(last) == key);
        assert(bar == prev.next(last.ask@));
        let init_asks = asks_of(init);
        assert(init[0] == ts[0]);
        assert forall|i: int| 0 <= i < init_asks.len() implies init_asks[i] == asks[i] by {}
        assert(asks[asks.len() - 1] == last.ask@);
        assert forall|i: int| 0 <= i < asks.len() implies !price_lt(#[trigger] asks[i], bar.min) by {
            if i < asks.len() - 1 {
                assert(!price_lt(init_asks[i], prev.min));
                if price_lt(last.ask@, prev.min) && price_lt(asks[i], last.ask@) {
                    lemma_price_lt_transitive(asks[i], last.ask@, prev.min);
                }
            }
        }
        assert forall|i: int| 0 <= i < asks.len() implies !price_lt(bar.max, #[trigger] asks[i]) by {
            if i < asks.len() - 1 {
                assert(!price_lt(prev.max, init_asks[i]));
                if price_lt(prev.max, last.ask@) && price_lt(last.ask@, asks[i]) {
                    lemma_price_lt_transitive(prev.max, last.ask@, asks[i]);
                }
            }
        }
        if price_lt(last.ask@, prev.min) {
            assert(asks[asks.len() - 1] == bar.min);
        } else {
            let j = choose|j: int| 0 <= j < init_asks.len() && init_asks[j] == prev.min;
            assert(asks[j] == bar.min);
        }
        if price_lt(prev.max, last.ask@) {
            assert(asks[asks.len() - 1] == bar.max);
        } else {
            let j = choose|j: int| 0 <= j < init_asks.len() && init_asks[j] == prev.max;
            assert(asks[j] == bar.max);
        }
    }
}

/// No price of the bar lies below its min or above its max.
pub open spec fn is_ordered(b: BarView) -> bool {
    &&& !price_lt(b.open, b.min)
    &&& !price_lt(b.close, b.min)
    &&& !price_lt(b.max, b.open)
    &&& !price_lt(b.max, b.close)
    &&& !price_lt(b.max, b.min)
}

proof fn lemma_next_keeps_order(b: BarView, ask: Decimal)
    requires
        is_ordered(b),
    ensures
        is_ordered(b.next(ask)),
{
    if price_lt(ask, b.min) {
        if price_lt(b.open, ask) {
            lemma_price_lt_transitive(b.open, ask, b.min);
        }
        if price_lt(b.max, ask) {
            lemma_price_lt_transitive(b.max, ask, b.min);
        }
    }
    if price_lt(b.max, ask) {
        if price_lt(ask, b.open) {
            lemma_price_lt_transitive(b.max, ask, b.open);
        }
        if price_lt(ask, b.min) {
            lemma_price_lt_transitive(b.max, ask, b.min);
        }
    }
}

/// Bars stay ordered, min at or below open and close, max at or above
/// them, whatever ticks arrive.
pub proof fn lemma_bars_stay_ordered(m: Map<BarKey, BarView>, ts: Seq<Orderbook>)
    requires
        forall|k: BarKey| #[trigger] m.contains_key(k) ==> is_ordered(m[k]),
    ensures
        forall|k: BarKey|
            #[trigger] apply_ticks(m, ts).contains_key(k) ==> is_ordered(apply_ticks(m, ts)[k]),
    decreases ts.len(),
{
    if ts.len() > 0 {
        let init = ts.drop_last();
        lemma_bars_stay_ordered(m, init);
        let prev = apply_ticks(m, init);
        let t = ts.last();
        if !is_sentinel(t.ask@) && prev.contains_key(tick_key(t)) {
            lemma_next_keeps_order(prev[tick_key(t)], t.ask@);
        }
        assert forall|k: BarKey| #[trigger] apply_ticks(m, ts).contains_key(k) implies is_ordered(
            apply_ticks(m, ts)[k],
        ) by {
            if k != tick_key(t) {
                assert(prev.contains_key(k));
            }
        }
    }
}

/// Ticks never take a key out of the map, and every valid tick leaves its key in it.
pub proof fn lemma_keys_kept(m: Map<BarKey, BarView>, ts: Seq<Orderbook>)
    ensures
        forall|k: BarKey| m.contains_key(k) ==> #[trigger] apply_ticks(m, ts).contains_key(k),
        forall|i: int|
            0 <= i < ts.len() && !is_sentinel(ts[i].ask@) ==> apply_ticks(m, ts).contains_key(
                tick_key(#[trigger] ts[i]),
            ),
    decreases ts.len(),
{
    if ts.len() > 0 {
        let init = ts.drop_last();
        lemma_keys_kept(m, init);
        assert forall|k: BarKey| m.contains_key(k) implies #[trigger] apply_ticks(m, ts).contains_key(k) by {
            assert(apply_ticks(m, init).contains_key(k));
        }
        assert forall|i: int|
            0 <= i < ts.len() && !is_sentinel(ts[i].ask@) implies apply_ticks(m, ts).contains_key(
            tick_key(#[trigger] ts[i]),
        ) by {
            if i < ts.len() - 1 {
                assert(init[i] == ts[i]);
            }
        }
    }
}

/// Every key of the bars that ticks build from nothing is the key of a valid tick among them.
pub proof fn lemma_keys_come_from_ticks(ts: Seq<Orderbook>)
    ensures
        forall|k: BarKey|
            #[trigger] apply_ticks(Map::empty(), ts).contains_key(k) ==> exists|i: int|
                0 <= i < ts.len() && tick_key(ts[i]) == k && !is_sentinel(ts[i].ask@),
    decreases ts.len(),
{
    if ts.len() > 0 {
        let init = ts.drop_last();
        lemma_keys_come_from_ticks(init);
        assert forall|k: BarKey| #[trigger] apply_ticks(Map::empty(), ts).contains_key(k) implies exists|
            i: int,
        | 0 <= i < ts.len() && tick_key(ts[i]) == k && !is_sentinel(ts[i].ask@) by {
            if apply_ticks(Map::empty(), init).contains_key(k) {
                let i = choose|i: int|
                    0 <= i < init.len() && tick_key(init[i]) == k && !is_sentinel(init[i].ask@);
                assert(ts[i] == init[i]);
            } else {
                assert(ts[ts.len() - 1] == ts.last());
            }
        }
    }
}

/// A flush between two runs of ticks splits them cleanly: the snapshot is
/// what the earlier ticks made of the bars, the live map what the later ticks
/// made of an empty map. Each valid earlier tick has its key in the snapshot,
/// each valid later tick in the live map, and the live map holds no key but
/// those of valid later ticks.
pub proof fn lemma_flush_splits_ticks(m: Map<BarKey, BarView>, before: Seq<Orderbook>, after: Seq<Orderbook>)
    ensures
        forall|i: int|
            0 <= i < before.len() && !is_sentinel(before[i].ask@) ==> apply_ticks(m, before).contains_key(
                tick_key(#[trigger] before[i]),
            ),
        forall|i: int|
            0 <= i < after.len() && !is_sentinel(after[i].ask@) ==> apply_ticks(
                Map::empty(),
                after,
            ).contains_key(tick_key(#[trigger] after[i])),
        forall|k: BarKey|
            #[trigger] apply_ticks(Map::empty(), after).contains_key(k) ==> exists|i: int|
                0 <= i < after.len() && tick_key(after[i]) == k && !is_sentinel(after[i].ask@),
{
    lemma_keys_kept(m, before);
    lemma_keys_kept(Map::empty(), after);
    lemma_keys_come_from_ticks(after);
}

} // verus!
