use stock_backtest::account::VALUE_LIMIT;
use stock_backtest::rally::Rally;
use stock_backtest::replay::{back_testing, Stop};
use stock_backtest::strategy::{
    config, new_config, new_stock_sys, order, ConfigError, Halt, StockSys,
};
use stock_backtest::tick::{default_dt, get_time, Level, Tick};

fn conf() -> config {
    new_config(2, 100, 60, 500, 30, 60, 600).unwrap()
}

fn snapshot(clock: u64, price: u64, asks: &[(u64, u64)], bids: &[(u64, u64)]) -> Tick {
    let mut tick = Tick {
        time: clock,
        dt: get_time(clock),
        price,
        asks: [Level { price: 0, volume: 0 }; 10],
        bids: [Level { price: 0, volume: 0 }; 10],
        high_limit: 1_000,
        low_limit: 1,
    };
    for (i, &(p, v)) in asks.iter().enumerate() {
        tick.asks[i] = Level { price: p, volume: v };
    }
    for (i, &(p, v)) in bids.iter().enumerate() {
        tick.bids[i] = Level { price: p, volume: v };
    }
    tick
}

fn held(opened_at: u64) -> order {
    order {
        open_price: 100,
        time: get_time(opened_at),
        sell_time: default_dt(),
        volume: 500,
        sell_price: 0,
        want_sell_all: false,
        sell_price_avg: 0,
        left: 500,
        profit: 0,
        tax: 0,
        commission: 0,
    }
}

fn closed(opened_at: u64, sold_at: u64) -> order {
    order {
        sell_time: get_time(93_500_000),
        sell_price: sold_at,
        sell_price_avg: sold_at,
        left: 0,
        profit: (sold_at as i128 - 100) * 500,
        tax: sold_at * 500 / 1000,
        commission: 100_000,
        ..held(opened_at)
    }
}

#[test]
fn new_config_keeps_what_it_is_given() {
    let c = new_config(-3, 7, 11, 13, 17, 19, 23).unwrap();
    assert_eq!(
        c,
        config {
            buy_point_num: -3,
            buy_point_den: 7,
            gap_window: 11,
            buy_volume: 13,
            buy_cooldown_time: 17,
            sell_delay_time: 19,
            sell_all_delay: 23,
        }
    );
}

#[test]
fn new_config_refuses_a_threshold_over_zero() {
    assert_eq!(new_config(2, 0, 60, 500, 30, 60, 600), Err(ConfigError::ZeroDenominator));
    assert_eq!(new_config(2, 0, 60, 0, 30, 60, 600), Err(ConfigError::ZeroDenominator));
}

#[test]
fn new_config_refuses_to_buy_nothing() {
    assert_eq!(new_config(2, 100, 60, 0, 30, 60, 600), Err(ConfigError::ZeroVolume));
}

#[test]
fn a_new_engine_has_seen_nothing() {
    let sys = new_stock_sys(conf());
    assert_eq!(sys.conf, conf());
    assert!(sys.orders.is_empty());
    assert!(sys.gap_window.is_empty());
    assert_eq!(sys.gap_rate, Rally { rise: 0, base: 1 });
    assert_eq!(sys.min, u64::MAX);
    assert_eq!(sys.max, 0);
}

#[test]
fn can_trade_follows_the_sessions() {
    let sys = new_stock_sys(conf());
    assert!(sys.can_trade(&snapshot(93_000_000, 100, &[], &[])));
    assert!(sys.can_trade(&snapshot(150_000_000, 100, &[], &[])));
    assert!(!sys.can_trade(&snapshot(92_959_999, 100, &[], &[])));
    assert!(!sys.can_trade(&snapshot(120_000_000, 100, &[], &[])));
}

#[test]
fn a_tick_outside_the_sessions_changes_nothing() {
    let mut sys = new_stock_sys(conf());
    assert_eq!(sys.do_strategy(&snapshot(93_000_000, 100, &[], &[])), Ok(()));
    assert_eq!(sys.do_strategy(&snapshot(93_001_000, 101, &[], &[])), Ok(()));
    let mut same = new_stock_sys(conf());
    assert_eq!(same.do_strategy(&snapshot(93_000_000, 100, &[], &[])), Ok(()));
    assert_eq!(same.do_strategy(&snapshot(93_001_000, 101, &[], &[])), Ok(()));
    for clock in [0u64, 92_959_000, 113_001_000, 120_000_000, 125_959_000, 150_001_000] {
        let rally = snapshot(clock, 900, &[(900, 1000)], &[(900, 1000)]);
        assert_eq!(sys.do_strategy(&rally), Ok(()));
        assert_eq!(sys, same);
        let low = snapshot(clock, 1, &[(1, 1000)], &[(1, 1000)]);
        assert_eq!(sys.do_strategy(&low), Ok(()));
        assert_eq!(sys, same);
    }
}

#[test]
fn a_tick_outside_the_sessions_is_not_held_to_the_price_range() {
    let mut sys = new_stock_sys(conf());
    let wild = snapshot(120_000_000, 100, &[(u64::MAX, 1)], &[(u64::MAX, 1)]);
    assert_eq!(sys.do_strategy(&wild), Ok(()));
    assert_eq!(sys, new_stock_sys(conf()));
}

#[test]
fn a_tick_priced_out_of_range_is_refused_untouched() {
    let cap = VALUE_LIMIT / 500;
    let mut sys = new_stock_sys(conf());
    let edge = snapshot(93_000_000, 100, &[(cap, 1)], &[(cap, 1)]);
    assert_eq!(sys.do_strategy(&edge), Ok(()));
    let before = sys.gap_window.clone();
    let over_ask = snapshot(93_001_000, 100, &[(100, 1), (cap + 1, 1)], &[]);
    assert_eq!(sys.do_strategy(&over_ask), Err(Halt::PriceOutOfRange));
    assert_eq!(sys.gap_window, before);
    let over_bid = snapshot(93_001_000, 100, &[], &[(cap + 1, 0)]);
    assert_eq!(sys.do_strategy(&over_bid), Err(Halt::PriceOutOfRange));
    assert_eq!(sys.gap_window, before);
    assert!(sys.orders.is_empty());
}

#[test]
fn a_rally_opens_an_order_at_the_average_ask() {
    let mut sys = new_stock_sys(conf());
    assert_eq!(sys.do_strategy(&snapshot(93_000_000, 100, &[(100, 1000)], &[])), Ok(()));
    assert!(sys.orders.is_empty());
    let up = snapshot(93_001_000, 103, &[(103, 300), (104, 300)], &[(102, 1000)]);
    assert_eq!(sys.do_strategy(&up), Ok(()));
    assert_eq!(
        sys.orders,
        vec![order {
            open_price: (103 * 300 + 104 * 200) / 500,
            time: get_time(93_001_000),
            sell_time: default_dt(),
            volume: 500,
            sell_price: 0,
            want_sell_all: false,
            sell_price_avg: 0,
            left: 500,
            profit: 0,
            tax: 0,
            commission: 0,
        }]
    );
    assert_eq!(sys.orders[0].open_price, 103);
    assert!(sys.gap_window.is_empty());
    assert_eq!(sys.min, u64::MAX);
    assert_eq!(sys.max, 0);
    assert_eq!(sys.gap_rate, Rally { rise: 3, base: 100 });
}

#[test]
fn no_order_is_opened_at_the_upper_limit() {
    let mut sys = new_stock_sys(conf());
    assert_eq!(sys.do_strategy(&snapshot(93_000_000, 100, &[(100, 1000)], &[])), Ok(()));
    let mut up = snapshot(93_001_000, 110, &[(110, 1000)], &[]);
    up.high_limit = 11;
    assert_eq!(sys.do_strategy(&up), Ok(()));
    assert!(sys.orders.is_empty());
    assert_eq!(sys.gap_rate, Rally { rise: 10, base: 100 });
}

#[test]
fn a_rally_into_a_thin_book_halts_the_engine() {
    let mut sys = new_stock_sys(conf());
    let t0 = snapshot(93_000_000, 100, &[(100, 1000)], &[]);
    let t1 = snapshot(93_001_000, 103, &[(103, 499)], &[(102, 1000)]);
    assert_eq!(sys.do_strategy(&t0), Ok(()));
    assert_eq!(sys.do_strategy(&t1), Err(Halt::LiquidityExhausted));
    assert!(sys.orders.is_empty());
    assert_eq!(sys.gap_window, vec![t0, t1]);
    assert_eq!(sys.gap_rate, Rally { rise: 3, base: 100 });
}

#[test]
fn process_order_buys_and_sells_on_one_tick() {
    let eager = new_config(2, 100, 60, 500, 30, -1, 600).unwrap();
    let mut sys = new_stock_sys(eager);
    sys.update_gap(&snapshot(93_000_000, 100, &[], &[]));
    let up = snapshot(93_001_000, 103, &[(103, 500)], &[(103, 200)]);
    sys.update_gap(&up);
    assert_eq!(sys.process_order(&up), Ok(()));
    assert_eq!(sys.orders.len(), 1);
    assert_eq!(sys.orders[0].open_price, 103);
    assert_eq!(sys.orders[0].sell_price, 103);
    assert_eq!(sys.orders[0].left, 300);
    assert_eq!(sys.orders[0].profit, 20_600);
}

#[test]
fn process_order_sells_without_a_rally() {
    let mut sys = new_stock_sys(conf());
    sys.orders.push(held(93_000_000));
    let t = snapshot(93_101_000, 110, &[(110, 10)], &[(110, 1000)]);
    assert_eq!(sys.process_order(&t), Ok(()));
    assert_eq!(sys.orders.len(), 1);
    assert_eq!(sys.orders[0].left, 0);
    assert_eq!(sys.orders[0].profit, 5000);
}

fn rallies(until: u64) -> Vec<Tick> {
    let mut ticks = Vec::new();
    let mut second = 0u64;
    while second <= until {
        let clock = 93_000_000 + (second / 60) * 100_000 + (second % 60) * 1000;
        let price = if second % 2 == 0 { 100 } else { 103 };
        ticks.push(snapshot(clock, price, &[(price, 1000)], &[]));
        second += 1;
    }
    ticks
}

#[test]
fn orders_are_opened_further_apart_than_the_cooldown() {
    let patient = new_config(2, 100, 60, 500, 30, 100_000, 600).unwrap();
    let sys = back_testing(patient, &rallies(200)).unwrap();
    let times: Vec<i64> = sys.orders.iter().map(|o| o.time - get_time(93_000_000)).collect();
    assert_eq!(times, vec![1, 33, 65, 97, 129, 161, 193]);
    for pair in sys.orders.windows(2) {
        assert!(pair[1].time - pair[0].time > 30);
    }
}

#[test]
fn a_cooldown_of_zero_still_waits_for_a_new_rally() {
    let hasty = new_config(2, 100, 60, 500, 0, 100_000, 600).unwrap();
    let sys = back_testing(hasty, &rallies(6)).unwrap();
    let times: Vec<i64> = sys.orders.iter().map(|o| o.time - get_time(93_000_000)).collect();
    assert_eq!(times, vec![1, 3, 5]);
}

#[test]
fn a_run_buys_then_sells_and_settles() {
    let ticks = vec![
        snapshot(92_500_000, 50, &[(50, 1000)], &[(50, 1000)]),
        snapshot(93_000_000, 100, &[(100, 1000)], &[(99, 1000)]),
        snapshot(93_001_000, 103, &[(100, 300), (101, 300)], &[(99, 1000)]),
        snapshot(93_030_000, 108, &[(110, 50)], &[(111, 1000)]),
        snapshot(93_101_000, 108, &[(110, 50)], &[(109, 1000)]),
        snapshot(93_102_000, 110, &[(110, 50)], &[(110, 200), (109, 1000)]),
        snapshot(93_103_000, 110, &[(111, 50)], &[(110, 1000)]),
    ];
    let sys = back_testing(conf(), &ticks).unwrap();
    assert_eq!(sys.orders.len(), 1);
    let o = sys.orders[0];
    assert_eq!(o.open_price, 100);
    assert_eq!(o.time, get_time(93_001_000));
    assert_eq!(o.sell_price, 110);
    assert_eq!(o.left, 0);
    assert_eq!(o.sell_price_avg, 110);
    assert_eq!(o.profit, 5000);
    assert_eq!(o.tax, 55);
    assert_eq!(o.commission, 100_000);
    assert_eq!(o.sell_time, get_time(93_103_000));
}

#[test]
fn a_run_is_the_same_every_time() {
    let ticks = rallies(150);
    let first = back_testing(conf(), &ticks).unwrap();
    let second = back_testing(conf(), &ticks).unwrap();
    assert_eq!(first, second);
    let mut by_hand = new_stock_sys(conf());
    for tick in &ticks {
        assert_eq!(by_hand.do_strategy(tick), Ok(()));
    }
    assert_eq!(first, by_hand);
}

#[test]
fn a_run_over_no_ticks_is_a_new_engine() {
    assert_eq!(back_testing(conf(), &Vec::new()), Ok(new_stock_sys(conf())));
}

#[test]
fn a_run_stops_at_the_first_tick_that_is_refused() {
    let ticks = vec![
        snapshot(93_000_000, 100, &[(100, 1000)], &[]),
        snapshot(93_001_000, 101, &[(101, 1000)], &[]),
        snapshot(93_002_000, 103, &[(103, 10)], &[]),
        snapshot(93_003_000, 103, &[(u64::MAX, 10)], &[]),
    ];
    assert_eq!(
        back_testing(conf(), &ticks),
        Err(Stop { index: 2, halt: Halt::LiquidityExhausted })
    );
    let ticks = vec![
        snapshot(93_000_000, 100, &[(100, 1000)], &[]),
        snapshot(93_001_000, 100, &[], &[(u64::MAX, 10)]),
    ];
    assert_eq!(back_testing(conf(), &ticks), Err(Stop { index: 1, halt: Halt::PriceOutOfRange }));
}

#[test]
fn falling_prices_open_no_order() {
    let mut ticks = Vec::new();
    for (i, price) in (1..=100u64).rev().enumerate() {
        ticks.push(snapshot(93_000_000 + i as u64 % 60 * 1000, price, &[(price, 1000)], &[]));
    }
    let sys = back_testing(conf(), &ticks).unwrap();
    assert!(sys.orders.is_empty());
    assert_eq!(sys.gap_rate.rise, 0);
    assert_eq!(sys.min, 1);
}

#[test]
fn statistics_of_an_empty_ledger() {
    let sum = new_stock_sys(conf()).statistics();
    assert_eq!(sum.profit, 0);
    assert_eq!(sum.fees, 0);
    assert_eq!(sum.net, 0);
    assert!(sum.wins.is_empty());
    assert!(sum.losses.is_empty());
}

#[test]
fn statistics_add_up_and_sort_the_orders() {
    let mut sys: StockSys = new_stock_sys(conf());
    let won = closed(93_000_000, 110);
    let lost = closed(93_100_000, 90);
    let even = closed(93_200_000, 100);
    let open = order { sell_price: 110, left: 200, profit: 33_000, ..held(93_300_000) };
    assert_eq!((won.profit, lost.profit, even.profit), (5000, -5000, 0));
    assert_eq!((won.tax, lost.tax, even.tax), (55, 45, 50));
    sys.orders = vec![won, lost, even, open];
    let sum = sys.statistics();
    assert_eq!(sum.profit, 33_000);
    assert_eq!(sum.fees, 300_150);
    assert_eq!(sum.net, 33_000 - 300_150);
    assert_eq!(sum.wins, vec![won, open]);
    assert_eq!(sum.losses, vec![lost, even]);
}

#[test]
fn the_ledger_lists_the_orders_oldest_first() {
    let patient = new_config(2, 100, 60, 500, 30, 100_000, 600).unwrap();
    let sys = back_testing(patient, &rallies(70)).unwrap();
    assert_eq!(sys.order_ledger(), &sys.orders);
    assert_eq!(sys.order_ledger().len(), 3);
    assert!(sys.order_ledger()[0].time < sys.order_ledger()[1].time);
    assert!(sys.order_ledger()[1].time < sys.order_ledger()[2].time);
}
