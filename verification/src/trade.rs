//! Opening and closing orders.
//!
//! A purchase fills the configured quantity against the ask side and books
//! the average price. A sale works an order against the bid side: first at
//! the price where the order rests, later at any price, and settles the
//! order's accounts once nothing of it is left.

use crate::account::{
    average_of, average_price, commission_due, lemma_average_bounds, lemma_cap_bounds_turnover,
    price_cap, side_fee_on, tax_due, tax_on, VALUE_LIMIT,
};
use crate::book::{
    depth, lemma_walk_rest_is_shortfall, lemma_walk_value_bound, walk_levels, walk_rest,
    walk_value,
};
use crate::gap::gap_measured;
use crate::strategy::{config, order, Halt, State, StockSys};
use crate::tick::{default_dt, levels_within, unset_timestamp, Tick};
use vstd::prelude::*;

verus! {

/// The engine may buy at `tick`: the price is not at its upper limit, the
/// rally ratio exceeds the threshold, and the last purchase, if there was one,
/// lies further back than the cooldown.
pub open spec fn can_buy_at(s: State, tick: Tick) -> bool {
    &&& tick.price != tick.limit_up()
    &&& s.rate.exceeds(s.conf.buy_point_num as int, s.conf.buy_point_den as int)
    &&& (s.orders.len() == 0 || tick.dt - s.orders.last().time > s.conf.buy_cooldown_time)
}

/// The ask side of `tick` holds less than the quantity to buy.
pub open spec fn asks_short(s: State, tick: Tick) -> bool {
    depth(tick.asks@, 0) < s.conf.buy_volume
}

/// An order as it is opened: nothing sold, nothing charged.
pub open spec fn opened(price: u64, at: i64, volume: u64) -> order {
    order {
        open_price: price,
        time: at,
        sell_time: unset_timestamp() as i64,
        volume,
        sell_price: 0,
        want_sell_all: false,
        sell_price_avg: 0,
        left: volume,
        profit: 0,
        tax: 0,
        commission: 0,
    }
}

/// The state after a purchase at `tick`: the ledger ends with a new order at
/// the average price that the ask side gives for the quantity, and the gap
/// detector starts over. The ratio keeps its value until the next tick.
pub open spec fn bought(s: State, tick: Tick) -> State {
    let volume = s.conf.buy_volume;
    let value = walk_value(tick.asks@, volume as int, 0);
    State {
        orders: s.orders.push(
            opened(average_price(value, volume as int) as u64, tick.dt, volume),
        ),
        window: Seq::empty(),
        min: u64::MAX,
        max: 0,
        ..s
    }
}

/// An order is old enough to be sold and has units left.
pub open spec fn sell_due(o: order, conf: config, tick: Tick) -> bool {
    tick.dt - o.time > conf.sell_delay_time && o.left > 0
}

/// An order is old enough to be sold at any price and is not yet marked so.
pub open spec fn force_due(o: order, conf: config, tick: Tick) -> bool {
    tick.dt - o.time > conf.sell_all_delay + conf.sell_delay_time && !o.want_sell_all
}

/// The order with its selling price brought up to date: an order that rests
/// nowhere yet rests at the best ask, and one that is due to be sold at any
/// price moves to the last traded price and is marked.
pub open spec fn repriced(o: order, conf: config, tick: Tick) -> order {
    let rested = if o.sell_price == 0 {
        order { sell_price: tick.asks@[0].price, ..o }
    } else {
        o
    };
    if force_due(o, conf, tick) {
        order { sell_price: tick.price, want_sell_all: true, ..rested }
    } else {
        rested
    }
}

/// The lowest bid that the order sells to: its resting price, or any price
/// once it is marked.
pub open spec fn sell_floor(o: order) -> int {
    if o.want_sell_all {
        0
    } else {
        o.sell_price as int
    }
}

/// Nothing of a marked order is sold while the price sits at its lower limit.
pub open spec fn halted(o: order, tick: Tick) -> bool {
    o.want_sell_all && tick.price == tick.limit_down()
}

/// The order with its accounts settled: `proceeds` is all that its units
/// fetched, and `at` is when the last of them went.
pub open spec fn settled(o: order, proceeds: int, at: i64) -> order {
    let average = average_price(proceeds, o.volume as int);
    let sale = average * o.volume;
    order {
        sell_price_avg: average as u64,
        profit: (proceeds - o.cost()) as i128,
        tax: tax_due(sale) as u64,
        commission: commission_due(sale, o.cost()) as u64,
        left: 0,
        sell_time: at,
        ..o
    }
}

/// The order after its remaining units have been offered to the bid side of
/// `tick`: settled if the eligible bids take them all, else with its proceeds
/// raised and its remainder lowered by what they took.
pub open spec fn filled(o: order, tick: Tick) -> order {
    let value = walk_value(tick.bids@, o.left as int, sell_floor(o));
    let rest = walk_rest(tick.bids@, o.left as int, sell_floor(o));
    if rest == 0 {
        settled(o, o.profit + value, tick.dt)
    } else {
        order { profit: (o.profit + value) as i128, left: rest as u64, ..o }
    }
}

/// What a tick does to one order.
pub open spec fn sold_order(o: order, conf: config, tick: Tick) -> order {
    if !sell_due(o, conf, tick) {
        o
    } else {
        let r = repriced(o, conf, tick);
        if halted(r, tick) {
            r
        } else {
            filled(r, tick)
        }
    }
}

/// The state after every order has been offered to the bid side of `tick`.
pub open spec fn sold(s: State, tick: Tick) -> State {
    State { orders: Seq::new(s.orders.len(), |i: int| sold_order(s.orders[i], s.conf, tick)), ..s }
}

/// What an order with units left has fetched, once its remainder has been
/// offered to bids priced within the cap, is within what the units sold can
/// fetch at the cap; and no turnover of the order exceeds the limit.
pub proof fn lemma_proceeds_bound(o: order, tick: Tick)
    requires
        0 < o.left <= o.volume,
        o.open_price <= price_cap(o.volume),
        o.open_accounts(),
        levels_within(tick.bids@, price_cap(o.volume)),
    ensures
        ({
            let cap = price_cap(o.volume);
            let value = walk_value(tick.bids@, o.left as int, sell_floor(o));
            let rest = walk_rest(tick.bids@, o.left as int, sell_floor(o));
            let proceeds = o.profit + value;
            &&& 0 <= value
            &&& 0 <= rest <= o.left
            &&& 0 <= proceeds <= (o.volume - rest) * cap
            &&& (o.volume - rest) * cap <= o.volume * cap <= VALUE_LIMIT
            &&& 0 <= o.cost() <= VALUE_LIMIT
            &&& 0 <= average_price(proceeds, o.volume as int) <= cap
            &&& 0 <= average_price(proceeds, o.volume as int) * o.volume <= proceeds
        }),
{
    let cap = price_cap(o.volume);
    let rest = walk_rest(tick.bids@, o.left as int, sell_floor(o));
    lemma_walk_value_bound(tick.bids@, o.left as int, sell_floor(o), cap);
    lemma_cap_bounds_turnover(cap, o.volume);
    lemma_cap_bounds_turnover(o.open_price as int, o.volume);
    let (sold_before, sold_now) = ((o.volume - o.left) as int, (o.left - rest) as int);
    assert(sold_before * cap + sold_now * cap == (o.volume - rest) * cap) by (nonlinear_arith)
        requires
            sold_before + sold_now == o.volume - rest,
    ;
    assert((o.volume - rest) * cap <= o.volume * cap) by (nonlinear_arith)
        requires
            0 <= rest,
            0 <= cap,
    ;
    lemma_average_bounds(
        o.profit + walk_value(tick.bids@, o.left as int, sell_floor(o)),
        o.volume as int,
        cap,
    );
}

/// A tick leaves an order one that the engine can have made. It changes
/// neither when the order was opened nor what was bought, it never raises
/// what is left, and it leaves an order with nothing left as it is.
pub proof fn lemma_sold_order_keeps(o: order, conf: config, tick: Tick)
    requires
        conf.valid(),
        o.wf(conf),
        levels_within(tick.bids@, conf.cap()),
    ensures
        sold_order(o, conf, tick).wf(conf),
        sold_order(o, conf, tick).time == o.time,
        sold_order(o, conf, tick).open_price == o.open_price,
        sold_order(o, conf, tick).volume == o.volume,
        sold_order(o, conf, tick).left <= o.left,
        o.left == 0 ==> sold_order(o, conf, tick) == o,
{
    if sell_due(o, conf, tick) {
        let r = repriced(o, conf, tick);
        if !halted(r, tick) {
            lemma_proceeds_bound(r, tick);
        }
    }
}

/// Offering the orders to the bid side keeps the engine's invariant.
pub proof fn lemma_sold_keeps(s: State, tick: Tick)
    requires
        s.wf(),
        levels_within(tick.bids@, s.conf.cap()),
    ensures
        sold(s, tick).wf(),
        sold(s, tick).orders.len() == s.orders.len(),
{
    let t = sold(s, tick);
    assert forall|i: int| 0 <= i < t.orders.len() implies (#[trigger] t.orders[i]).wf(t.conf) by {
        lemma_sold_order_keeps(s.orders[i], s.conf, tick);
    }
    assert forall|i: int| 0 <= i < t.orders.len() - 1 implies (#[trigger] t.orders[i + 1]).time
        - t.orders[i].time > t.conf.buy_cooldown_time by {
        lemma_sold_order_keeps(s.orders[i], s.conf, tick);
        lemma_sold_order_keeps(s.orders[i + 1], s.conf, tick);
        assert(s.orders[i + 1].time - s.orders[i].time > s.conf.buy_cooldown_time);
    }
}

/// A purchase that is allowed and that the ask side can fill keeps the
/// engine's invariant.
pub proof fn lemma_bought_keeps(s: State, tick: Tick)
    requires
        s.wf(),
        can_buy_at(s, tick),
        !asks_short(s, tick),
        levels_within(tick.asks@, s.conf.cap()),
    ensures
        bought(s, tick).wf(),
        walk_rest(tick.asks@, s.conf.buy_volume as int, 0) == 0,
        0 <= walk_value(tick.asks@, s.conf.buy_volume as int, 0) <= s.conf.buy_volume
            * s.conf.cap(),
        0 <= average_price(
            walk_value(tick.asks@, s.conf.buy_volume as int, 0),
            s.conf.buy_volume as int,
        ) <= s.conf.cap(),
{
    let volume = s.conf.buy_volume;
    let cap = s.conf.cap();
    let value = walk_value(tick.asks@, volume as int, 0);
    lemma_walk_rest_is_shortfall(tick.asks@, volume as int, 0);
    lemma_walk_value_bound(tick.asks@, volume as int, 0, cap);
    lemma_cap_bounds_turnover(cap, volume);
    lemma_average_bounds(value, volume as int, cap);
    let t = bought(s, tick);
    let made = t.orders.last();
    assert(made.wf(t.conf)) by {
        assert((volume - volume) * price_cap(volume) == 0);
    }
    assert forall|i: int| 0 <= i < t.orders.len() implies (#[trigger] t.orders[i]).wf(t.conf) by {
        if i < s.orders.len() {
            assert(t.orders[i] == s.orders[i]);
        }
    }
    assert forall|i: int| 0 <= i < t.orders.len() - 1 implies (#[trigger] t.orders[i + 1]).time
        - t.orders[i].time > t.conf.buy_cooldown_time by {
        if i + 1 < s.orders.len() {
            assert(t.orders[i + 1] == s.orders[i + 1]);
            assert(t.orders[i] == s.orders[i]);
        } else {
            assert(t.orders[i] == s.orders.last());
        }
    }
}

/// A purchase restarts the gap detector: the window is empty, the lowest and
/// highest prices are forgotten, and the ratio keeps its value. Measuring the
/// ratio again changes nothing until a tick has entered the window, and while
/// the cooldown is not negative the same tick allows no second purchase.
pub proof fn lemma_purchase_restarts_gap(s: State, tick: Tick, later: Tick)
    ensures
        bought(s, tick).window.len() == 0,
        bought(s, tick).min == u64::MAX,
        bought(s, tick).max == 0,
        bought(s, tick).rate == s.rate,
        bought(s, tick).orders.len() == s.orders.len() + 1,
        gap_measured(bought(s, tick), later) == bought(s, tick),
        s.conf.buy_cooldown_time >= 0 ==> !can_buy_at(bought(s, tick), tick),
{
}

/// Works one order against the bid side of `tick`.
pub fn sell_order(o: order, conf: &config, tick: &Tick) -> (r: order)
    requires
        conf.valid(),
        o.wf(*conf),
        levels_within(tick.bids@, conf.cap()),
    ensures
        r == sold_order(o, *conf, *tick),
        r.wf(*conf),
        r.time == o.time,
{
    let age: i128 = tick.dt as i128 - o.time as i128;
    if !(age > conf.sell_delay_time as i128 && o.left > 0) {
        return o;
    }
    let mut r = o;
    if r.sell_price == 0 {
        r.sell_price = tick.asks[0].price;
    }
    if age > conf.sell_all_delay as i128 + conf.sell_delay_time as i128 && !r.want_sell_all {
        r.sell_price = tick.price;
        r.want_sell_all = true;
    }
    assert(r == repriced(o, *conf, *tick));
    if r.want_sell_all && tick.at_limit_down() {
        return r;
    }
    let floor: u64 = if r.want_sell_all {
        0
    } else {
        r.sell_price
    };
    let fill = walk_levels(tick.bids.as_slice(), r.left, floor);
    proof {
        lemma_proceeds_bound(r, *tick);
    }
    let proceeds: i128 = r.profit + fill.value as i128;
    if fill.rest == 0 {
        let average = average_of(proceeds as u128, r.volume);
        r.sell_price_avg = average;
        r.profit = proceeds - r.open_price as i128 * r.volume as i128;
        r.tax = tax_on(average, r.volume);
        r.commission = side_fee_on(average, r.volume) + side_fee_on(r.open_price, r.volume);
        r.left = 0;
        r.sell_time = tick.dt;
    } else {
        r.profit = proceeds;
        r.left = fill.rest;
    }
    r
}

impl StockSys {
    /// Whether the engine may buy at `tick`.
    pub fn can_buy(&self, tick: &Tick) -> (r: bool)
        requires
            self.gap_rate.wf(),
        ensures
            r == can_buy_at(self@, *tick),
    {
        if tick.at_limit_up() {
            return false;
        }
        if self.gap_rate.is_above(self.conf.buy_point_num, self.conf.buy_point_den) {
            let n = self.orders.len();
            if n == 0 {
                return true;
            }
            let last = self.orders[n - 1];
            return tick.dt as i128 - last.time as i128 > self.conf.buy_cooldown_time as i128;
        }
        false
    }

    /// Buys the configured quantity against the ask side of `tick`, once
    /// `can_buy` has allowed it. Where the ask side holds less than that
    /// quantity, nothing is bought and nothing changes.
    pub fn buy(&mut self, tick: &Tick) -> (r: Result<(), Halt>)
        requires
            old(self)@.wf(),
            can_buy_at(old(self)@, *tick),
            levels_within(tick.asks@, old(self)@.conf.cap()),
        ensures
            asks_short(old(self)@, *tick) ==> r == Err::<(), Halt>(Halt::LiquidityExhausted)
                && final(self)@ == old(self)@,
            !asks_short(old(self)@, *tick) ==> r == Ok::<(), Halt>(()) && final(self)@ == bought(
                old(self)@,
                *tick,
            ),
            final(self)@.wf(),
    {
        let volume = self.conf.buy_volume;
        let fill = walk_levels(tick.asks.as_slice(), volume, 0);
        proof {
            lemma_walk_rest_is_shortfall(tick.asks@, volume as int, 0);
        }
        if fill.rest > 0 {
            return Err(Halt::LiquidityExhausted);
        }
        proof {
            lemma_bought_keeps(old(self)@, *tick);
            lemma_cap_bounds_turnover(self.conf.cap(), volume);
        }
        let open_price = average_of(fill.value, volume);
        let made = order {
            open_price,
            time: tick.dt,
            sell_time: default_dt(),
            volume,
            sell_price: 0,
            want_sell_all: false,
            sell_price_avg: 0,
            left: volume,
            profit: 0,
            tax: 0,
            commission: 0,
        };
        self.orders.push(made);
        self.gap_window.clear();
        self.min = u64::MAX;
        self.max = 0;
        proof {
            assert(self@.window =~= Seq::empty());
        }
        Ok(())
    }

    /// Offers every order that is due to the bid side of `tick`.
    pub fn sell(&mut self, tick: &Tick)
        requires
            old(self)@.wf(),
            levels_within(tick.bids@, old(self)@.conf.cap()),
        ensures
            final(self)@ == sold(old(self)@, *tick),
            final(self)@.wf(),
    {
        let n = self.orders.len();
        let mut i: usize = 0;
        while i < n
            invariant
                i <= n,
                n == self.orders@.len(),
                n == old(self)@.orders.len(),
                self.conf == old(self).conf,
                self.gap_window == old(self).gap_window,
                self.gap_rate == old(self).gap_rate,
                self.min == old(self).min,
                self.max == old(self).max,
                old(self)@.wf(),
                levels_within(tick.bids@, self.conf.cap()),
                forall|j: int|
                    0 <= j < i ==> (#[trigger] self.orders@[j]) == sold_order(
                        old(self)@.orders[j],
                        self.conf,
                        *tick,
                    ),
                forall|j: int| i <= j < n ==> (#[trigger] self.orders@[j]) == old(self)@.orders[j],
            decreases n - i,
        {
            let o = self.orders[i];
            let r = sell_order(o, &self.conf, tick);
            self.orders.set(i, r);
            i += 1;
        }
        proof {
            assert(self@.orders =~= sold(old(self)@, *tick).orders);
            lemma_sold_keeps(old(self)@, *tick);
        }
    }
}

} // verus!
