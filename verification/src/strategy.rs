//! The engine's state: its configuration, its ledger of orders and the gap
//! window, with the invariants that every operation keeps.

use crate::account::{
    average_price, commission_due, lemma_average_bounds, lemma_cap_bounds_turnover, price_cap,
    price_cap_of, tax_due, VALUE_LIMIT,
};
use crate::gap::{gap_updated, lemma_gap_updated};
use crate::rally::Rally;
use crate::tick::{in_session, is_in_session, Tick};
use crate::trade::{
    asks_short, bought, can_buy_at, lemma_bought_keeps, lemma_sold_keeps, lemma_sold_order_keeps,
    sold,
};
use vstd::prelude::*;

verus! {

/// What the strategy is run with. Durations are in seconds.
#[allow(non_camel_case_types)]
#[derive(Clone, Copy, Debug, PartialEq, Eq)]
pub struct config {
    /// Numerator of the rally ratio above which the engine buys.
    pub buy_point_num: i64,
    /// Denominator of that ratio.
    pub buy_point_den: u64,
    /// The longest span of time that the gap window covers.
    pub gap_window: i64,
    /// The quantity of every purchase.
    pub buy_volume: u64,
    /// The time that must pass after a purchase before the next one.
    pub buy_cooldown_time: i64,
    /// The age at which an order starts to be sold.
    pub sell_delay_time: i64,
    /// The further age at which an order is sold at any price.
    pub sell_all_delay: i64,
}

/// Why a set of parameters is no configuration.
#[derive(Clone, Copy, Debug, PartialEq, Eq)]
pub enum ConfigError {
    /// The threshold's denominator is zero.
    ZeroDenominator,
    /// The quantity to buy is zero.
    ZeroVolume,
}

impl config {
    /// The threshold is a fraction and there is something to buy.
    pub open spec fn valid(self) -> bool {
        self.buy_point_den > 0 && self.buy_volume > 0
    }

    /// The highest price that the engine trades at with this configuration.
    pub open spec fn cap(self) -> int {
        price_cap(self.buy_volume)
    }
}

/// Why the engine would not take a tick.
#[derive(Clone, Copy, Debug, PartialEq, Eq)]
pub enum Halt {
    /// A level of the tick's book is priced above what the accounts can hold
    /// for the configured quantity.
    PriceOutOfRange,
    /// The ask side of the book holds less than the quantity to buy.
    LiquidityExhausted,
}

/// One position: opened by a purchase, then sold off over one or more ticks.
#[allow(non_camel_case_types)]
#[derive(Clone, Copy, Debug, PartialEq, Eq)]
pub struct order {
    /// Average price paid per unit.
    pub open_price: u64,
    /// When the order was opened.
    pub time: i64,
    /// When the last unit was sold.
    pub sell_time: i64,
    /// Quantity bought.
    pub volume: u64,
    /// The price at which the order rests on the ask side; zero until it
    /// rests.
    pub sell_price: u64,
    /// Set once the order is to be sold at any price.
    pub want_sell_all: bool,
    /// Average price received per unit, once all is sold.
    pub sell_price_avg: u64,
    /// Quantity not yet sold.
    pub left: u64,
    /// While units are left, the proceeds so far; once all is sold, the
    /// proceeds less the cost.
    pub profit: i128,
    pub tax: u64,
    pub commission: u64,
}

impl order {
    /// What the purchase cost.
    pub open spec fn cost(self) -> int {
        self.open_price * self.volume
    }

    /// The accounts of an order with units left: its proceeds so far are what
    /// the units sold can have fetched, and nothing has been charged.
    pub open spec fn open_accounts(self) -> bool {
        &&& 0 <= self.profit <= (self.volume - self.left) * price_cap(self.volume)
        &&& self.sell_price_avg == 0
        &&& self.tax == 0
        &&& self.commission == 0
    }

    /// The accounts of an order with nothing left: average sale price, tax and
    /// commission are those of its proceeds.
    pub open spec fn closed_accounts(self) -> bool {
        let proceeds = self.profit + self.cost();
        let sale = self.sell_price_avg * self.volume;
        &&& 0 <= proceeds <= VALUE_LIMIT
        &&& self.sell_price_avg == average_price(proceeds, self.volume as int)
        &&& self.tax == tax_due(sale)
        &&& self.commission == commission_due(sale, self.cost())
    }

    /// The order is one that the engine can have made under `conf`.
    pub open spec fn wf(self, conf: config) -> bool {
        &&& self.volume == conf.buy_volume
        &&& self.left <= self.volume
        &&& self.open_price <= price_cap(self.volume)
        &&& if self.left > 0 {
            self.open_accounts()
        } else {
            self.closed_accounts()
        }
    }
}

/// The engine: configuration, ledger, gap window and the running figures of
/// the gap detector.
#[derive(Debug, PartialEq, Eq)]
pub struct StockSys {
    pub conf: config,
    /// Every order made so far, oldest first.
    pub orders: Vec<order>,
    /// The ticks since the most recent low, oldest first.
    pub gap_window: Vec<Tick>,
    /// The rally ratio as last computed.
    pub gap_rate: Rally,
    /// The lowest price since the window was last reset.
    pub min: u64,
    /// The highest price since the window was last reset.
    pub max: u64,
}

/// The engine's state as mathematics.
pub struct State {
    pub conf: config,
    pub orders: Seq<order>,
    pub window: Seq<Tick>,
    pub rate: Rally,
    pub min: u64,
    pub max: u64,
}

impl View for StockSys {
    type V = State;

    open spec fn view(&self) -> State {
        State {
            conf: self.conf,
            orders: self.orders@,
            window: self.gap_window@,
            rate: self.gap_rate,
            min: self.min,
            max: self.max,
        }
    }
}

/// The state of an engine that has seen no tick.
pub open spec fn fresh(conf: config) -> State {
    State {
        conf,
        orders: Seq::empty(),
        window: Seq::empty(),
        rate: Rally { rise: 0, base: 1 },
        min: u64::MAX,
        max: 0,
    }
}

/// Each order was opened more than `cooldown` seconds after the one before.
pub open spec fn cooled(orders: Seq<order>, cooldown: int) -> bool {
    forall|i: int|
        0 <= i < orders.len() - 1 ==> (#[trigger] orders[i + 1]).time - orders[i].time > cooldown
}

/// A window that is not empty starts at its lowest price, which is `min`.
pub open spec fn anchored(window: Seq<Tick>, min: u64) -> bool {
    window.len() > 0 ==> window[0].price == min && forall|j: int|
        0 <= j < window.len() ==> (#[trigger] window[j]).price >= min
}

impl State {
    /// The invariant that every operation of the engine keeps.
    pub open spec fn wf(self) -> bool {
        &&& self.conf.valid()
        &&& forall|i: int| 0 <= i < self.orders.len() ==> (#[trigger] self.orders[i]).wf(self.conf)
        &&& cooled(self.orders, self.conf.buy_cooldown_time as int)
        &&& self.rate.wf()
        &&& self.rate.rise >= 0
        &&& anchored(self.window, self.min)
    }
}

/// Checks a set of parameters and makes a configuration of them.
pub fn new_config(
    buy_point_num: i64,
    buy_point_den: u64,
    gap_window: i64,
    buy_volume: u64,
    buy_cooldown_time: i64,
    sell_delay_time: i64,
    sell_all_delay: i64,
) -> (r: Result<config, ConfigError>)
    ensures
        buy_point_den == 0 ==> r == Err::<config, ConfigError>(ConfigError::ZeroDenominator),
        buy_point_den != 0 && buy_volume == 0 ==> r == Err::<config, ConfigError>(
            ConfigError::ZeroVolume,
        ),
        buy_point_den != 0 && buy_volume != 0 ==> r == Ok::<config, ConfigError>(
            (config {
                buy_point_num,
                buy_point_den,
                gap_window,
                buy_volume,
                buy_cooldown_time,
                sell_delay_time,
                sell_all_delay,
            }),
        ) && r->Ok_0.valid(),
{
    if buy_point_den == 0 {
        Err(ConfigError::ZeroDenominator)
    } else if buy_volume == 0 {
        Err(ConfigError::ZeroVolume)
    } else {
        Ok(
            config {
                buy_point_num,
                buy_point_den,
                gap_window,
                buy_volume,
                buy_cooldown_time,
                sell_delay_time,
                sell_all_delay,
            },
        )
    }
}

/// An engine that has seen no tick.
pub fn new_stock_sys(conf: config) -> (sys: StockSys)
    ensures
        sys@ == fresh(conf),
        conf.valid() ==> sys@.wf(),
{
    StockSys {
        conf,
        orders: Vec::new(),
        gap_window: Vec::new(),
        gap_rate: Rally::flat(),
        min: u64::MAX,
        max: 0,
    }
}

impl StockSys {
    /// Every order made so far, oldest first.
    pub fn order_ledger(&self) -> (ledger: &Vec<order>)
        ensures
            ledger@ == self@.orders,
    {
        &self.orders
    }

    /// Whether a tick falls in a trading session.
    pub fn can_trade(&self, tick: &Tick) -> (r: bool)
        ensures
            r == in_session(tick.dt as int),
    {
        is_in_session(tick.dt)
    }
}

/// The state after the orders have been dealt with at an admitted tick: a
/// purchase if one is allowed, then the sales.
pub open spec fn traded(s: State, tick: Tick) -> State {
    if can_buy_at(s, tick) {
        sold(bought(s, tick), tick)
    } else {
        sold(s, tick)
    }
}

/// Why the engine refuses `tick` in state `s`, if it does. A tick outside the
/// sessions is never refused: it is passed over.
pub open spec fn step_halt(s: State, tick: Tick) -> Option<Halt> {
    if !in_session(tick.dt as int) {
        None
    } else if !tick.priced_within(s.conf.cap()) {
        Some(Halt::PriceOutOfRange)
    } else if can_buy_at(gap_updated(s, tick), tick) && asks_short(gap_updated(s, tick), tick) {
        Some(Halt::LiquidityExhausted)
    } else {
        None
    }
}

/// The state after `tick`. A tick outside the sessions changes nothing, nor
/// does one whose prices are out of range. A tick at which a purchase is due
/// and the ask side falls short moves the gap detector and nothing else.
pub open spec fn step(s: State, tick: Tick) -> State {
    if !in_session(tick.dt as int) || !tick.priced_within(s.conf.cap()) {
        s
    } else {
        let g = gap_updated(s, tick);
        if can_buy_at(g, tick) && asks_short(g, tick) {
            g
        } else {
            traded(g, tick)
        }
    }
}

/// A tick outside the trading sessions changes nothing and stops nothing.
pub proof fn lemma_outside_sessions(s: State, tick: Tick)
    requires
        !in_session(tick.dt as int),
    ensures
        step(s, tick) == s,
        step_halt(s, tick) is None,
{
}

/// A tick keeps the engine's invariant. It leaves the orders already in the
/// ledger where they are, opened when they were and for what they were, with
/// no more left than before; and it adds at most one order, at the end. Where
/// it adds one, that order was opened at the tick's time for the configured
/// quantity, and the gap detector has started over: its window is empty until
/// the next tick.
pub proof fn lemma_step_keeps(s: State, tick: Tick)
    requires
        s.wf(),
    ensures
        step(s, tick).wf(),
        step(s, tick).conf == s.conf,
        s.orders.len() <= step(s, tick).orders.len() <= s.orders.len() + 1,
        step(s, tick).orders.len() == s.orders.len() + 1 ==> {
            &&& step(s, tick).orders.last().time == tick.dt
            &&& step(s, tick).orders.last().volume == s.conf.buy_volume
            &&& step(s, tick).window.len() == 0
            &&& step(s, tick).min == u64::MAX
            &&& step(s, tick).max == 0
            &&& step(s, tick).rate == gap_updated(s, tick).rate
        },
        forall|i: int|
            #![trigger step(s, tick).orders[i]]
            0 <= i < s.orders.len() ==> {
                let (before, after) = (s.orders[i], step(s, tick).orders[i]);
                &&& after.time == before.time
                &&& after.open_price == before.open_price
                &&& after.volume == before.volume
                &&& after.left <= before.left
                &&& before.left == 0 ==> after == before
            },
{
    if in_session(tick.dt as int) && tick.priced_within(s.conf.cap()) {
        let g = gap_updated(s, tick);
        lemma_gap_updated(s, tick);
        assert(g.wf());
        if !(can_buy_at(g, tick) && asks_short(g, tick)) {
            let b = if can_buy_at(g, tick) {
                bought(g, tick)
            } else {
                g
            };
            if can_buy_at(g, tick) {
                lemma_bought_keeps(g, tick);
                lemma_sold_order_keeps(b.orders.last(), b.conf, tick);
            }
            lemma_sold_keeps(b, tick);
            assert forall|i: int|
                #![trigger step(s, tick).orders[i]]
                0 <= i < s.orders.len() implies {
                let (before, after) = (s.orders[i], step(s, tick).orders[i]);
                &&& after.time == before.time
                &&& after.open_price == before.open_price
                &&& after.volume == before.volume
                &&& after.left <= before.left
                &&& before.left == 0 ==> after == before
            } by {
                assert(b.orders[i] == s.orders[i]);
                lemma_sold_order_keeps(s.orders[i], s.conf, tick);
            }
        }
    }
}

impl StockSys {
    /// Deals with the orders at an admitted tick: buys if that is allowed,
    /// then offers every order that is due to the bid side. Where a purchase
    /// is due and the ask side falls short, nothing changes.
    pub fn process_order(&mut self, tick: &Tick) -> (r: Result<(), Halt>)
        requires
            old(self)@.wf(),
            tick.priced_within(old(self)@.conf.cap()),
        ensures
            can_buy_at(old(self)@, *tick) && asks_short(old(self)@, *tick) ==> r == Err::<
                (),
                Halt,
            >(Halt::LiquidityExhausted) && final(self)@ == old(self)@,
            !(can_buy_at(old(self)@, *tick) && asks_short(old(self)@, *tick)) ==> r == Ok::<
                (),
                Halt,
            >(()) && final(self)@ == traded(old(self)@, *tick),
            final(self)@.wf(),
    {
        if self.can_buy(tick) {
            match self.buy(tick) {
                Err(halt) => {
                    return Err(halt);
                },
                Ok(()) => {},
            }
        }
        self.sell(tick);
        Ok(())
    }

    /// Advances the engine by one tick.
    ///
    /// A tick outside the trading sessions is passed over. A tick inside them
    /// goes through the gap detector, then a purchase is made if one is
    /// allowed, then every order that is due is offered to the bid side.
    pub fn do_strategy(&mut self, tick: &Tick) -> (r: Result<(), Halt>)
        requires
            old(self)@.wf(),
        ensures
            r == match step_halt(old(self)@, *tick) {
                Some(halt) => Err::<(), Halt>(halt),
                None => Ok::<(), Halt>(()),
            },
            final(self)@ == step(old(self)@, *tick),
            final(self)@.wf(),
            !in_session(tick.dt as int) ==> final(self)@ == old(self)@,
    {
        if !self.can_trade(tick) {
            return Ok(());
        }
        let cap = price_cap_of(self.conf.buy_volume);
        if !tick.is_priced_within(cap) {
            return Err(Halt::PriceOutOfRange);
        }
        self.update_gap(tick);
        self.process_order(tick)
    }
}

/// The sum of the orders' profits.
pub open spec fn total_profit(orders: Seq<order>) -> int
    decreases orders.len(),
{
    if orders.len() == 0 {
        0
    } else {
        total_profit(orders.drop_last()) + orders.last().profit
    }
}

/// The sum of the orders' taxes and commissions.
pub open spec fn total_fees(orders: Seq<order>) -> int
    decreases orders.len(),
{
    if orders.len() == 0 {
        0
    } else {
        total_fees(orders.drop_last()) + orders.last().tax + orders.last().commission
    }
}

/// The test that sorts an order among the winners: its profit is above zero.
pub open spec fn is_win() -> spec_fn(order) -> bool {
    |o: order| o.profit > 0
}

/// The test that sorts an order among the losers: its profit is zero or less.
pub open spec fn is_loss() -> spec_fn(order) -> bool {
    |o: order| o.profit <= 0
}

/// The figures of a run.
#[derive(Debug, PartialEq, Eq)]
pub struct Summary {
    /// Sum of the orders' profits, before tax and commission.
    pub profit: i128,
    /// Sum of the orders' taxes and commissions.
    pub fees: u128,
    /// Profit less fees.
    pub net: i128,
    /// The orders with a profit above zero, in ledger order.
    pub wins: Vec<order>,
    /// The other orders, in ledger order.
    pub losses: Vec<order>,
}

/// An order's profit and fees are far within what the sums of a ledger can
/// hold.
pub proof fn lemma_order_bounds(o: order, conf: config)
    requires
        conf.valid(),
        o.wf(conf),
    ensures
        -(VALUE_LIMIT as int) <= o.profit <= VALUE_LIMIT,
        o.tax + o.commission <= VALUE_LIMIT / 100,
{
    let cap = price_cap(o.volume);
    lemma_cap_bounds_turnover(cap, o.volume);
    lemma_cap_bounds_turnover(o.open_price as int, o.volume);
    if o.left > 0 {
        assert((o.volume - o.left) * cap <= o.volume * cap) by (nonlinear_arith)
            requires
                0 <= o.left <= o.volume,
                0 <= cap,
        ;
    } else {
        let proceeds = o.profit + o.cost();
        assert(proceeds <= o.volume * VALUE_LIMIT) by (nonlinear_arith)
            requires
                proceeds <= VALUE_LIMIT,
                o.volume >= 1,
        ;
        lemma_average_bounds(proceeds, o.volume as int, VALUE_LIMIT as int);
    }
}

impl StockSys {
    /// The figures of the run so far: total profit, total fees, what is left
    /// of the profit after fees, and the orders sorted into those that made a
    /// profit and those that did not.
    pub fn statistics(&self) -> (sum: Summary)
        requires
            self@.wf(),
        ensures
            sum.profit == total_profit(self@.orders),
            sum.fees == total_fees(self@.orders),
            sum.net == total_profit(self@.orders) - total_fees(self@.orders),
            sum.wins@ == self@.orders.filter(is_win()),
            sum.losses@ == self@.orders.filter(is_loss()),
    {
        let mut profit: i128 = 0;
        let mut fees: u128 = 0;
        let mut wins: Vec<order> = Vec::new();
        let mut losses: Vec<order> = Vec::new();
        let n = self.orders.len();
        let mut i: usize = 0;
        proof {
            reveal(Seq::filter);
            assert(self@.orders.take(0).filter(is_win()) =~= Seq::<order>::empty());
            assert(self@.orders.take(0).filter(is_loss()) =~= Seq::<order>::empty());
        }
        while i < n
            invariant
                i <= n,
                n == self@.orders.len(),
                self@.wf(),
                profit == total_profit(self@.orders.take(i as int)),
                fees == total_fees(self@.orders.take(i as int)),
                -(i * VALUE_LIMIT) <= profit <= i * VALUE_LIMIT,
                fees <= i * (VALUE_LIMIT / 100),
                wins@ == self@.orders.take(i as int).filter(is_win()),
                losses@ == self@.orders.take(i as int).filter(is_loss()),
            decreases n - i,
        {
            let o = self.orders[i];
            proof {
                reveal(Seq::filter);
                let next = self@.orders.take(i + 1);
                assert(next.drop_last() =~= self@.orders.take(i as int));
                assert(next.last() == o);
                lemma_order_bounds(o, self.conf);
                let (limit, share) = (VALUE_LIMIT as int, VALUE_LIMIT as int / 100);
                assert((i + 1) * limit == i * limit + limit) by (nonlinear_arith);
                assert((i + 1) * share == i * share + share) by (nonlinear_arith);
                assert((i + 1) * limit <= u64::MAX * limit) by (nonlinear_arith)
                    requires
                        i + 1 <= u64::MAX,
                        0 <= limit,
                ;
                assert((i + 1) * share <= u64::MAX * share) by (nonlinear_arith)
                    requires
                        i + 1 <= u64::MAX,
                        0 <= share,
                ;
            }
            if o.profit > 0 {
                wins.push(o);
            } else {
                losses.push(o);
            }
            profit = profit + o.profit;
            fees = fees + (o.tax as u128 + o.commission as u128);
            i += 1;
        }
        proof {
            assert(self@.orders.take(n as int) =~= self@.orders);
            let (limit, share) = (VALUE_LIMIT as int, VALUE_LIMIT as int / 100);
            assert(i * limit <= u64::MAX * limit) by (nonlinear_arith)
                requires
                    0 <= i <= u64::MAX,
                    0 <= limit,
            ;
            assert(i * share <= u64::MAX * share) by (nonlinear_arith)
                requires
                    0 <= i <= u64::MAX,
                    0 <= share,
            ;
        }
        Summary { profit, fees, net: profit - fees as i128, wins, losses }
    }
}

} // verus!
