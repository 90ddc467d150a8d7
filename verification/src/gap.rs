//! The gap detector: a window of ticks that starts at the most recent low, and
//! the rally ratio from that low to the latest price.

use crate::rally::Rally;
use crate::strategy::{anchored, State, StockSys};
use crate::tick::Tick;
use vstd::prelude::*;

verus! {

/// The position of the lowest price in a window; of several equal lows, the
/// earliest.
pub open spec fn first_min_index(window: Seq<Tick>) -> int
    decreases window.len(),
{
    if window.len() <= 1 {
        0
    } else {
        let k = first_min_index(window.drop_last());
        if window.last().price < window[k].price {
            window.len() - 1
        } else {
            k
        }
    }
}

/// The window with `tick` at its end and, if it then spans `span` seconds or
/// more, without its oldest tick.
pub open spec fn slid(window: Seq<Tick>, tick: Tick, span: int) -> Seq<Tick> {
    let longer = window.push(tick);
    if tick.dt - longer[0].dt >= span {
        longer.drop_first()
    } else {
        longer
    }
}

/// The state once `tick` has entered the window: the window slides, the
/// highest price follows, and a price below the lowest restarts the window at
/// this tick.
pub open spec fn gap_admitted(s: State, tick: Tick) -> State {
    let lower = tick.price < s.min;
    State {
        window: if lower {
            seq![tick]
        } else {
            slid(s.window, tick, s.conf.gap_window as int)
        },
        min: if lower {
            tick.price
        } else {
            s.min
        },
        max: if tick.price > s.max {
            tick.price
        } else {
            s.max
        },
        ..s
    }
}

/// The state once the ratio has been measured at `tick`: the window starts at
/// its lowest price, and the ratio is the rise of the tick's price over that
/// low. An empty window leaves everything as it was.
pub open spec fn gap_measured(s: State, tick: Tick) -> State {
    if s.window.len() == 0 {
        s
    } else {
        let k = first_min_index(s.window);
        let low = s.window[k].price;
        State {
            window: s.window.skip(k),
            min: low,
            rate: Rally { rise: (tick.price - low) as i128, base: low },
            ..s
        }
    }
}

/// The state of the gap detector after an admitted tick.
pub open spec fn gap_updated(s: State, tick: Tick) -> State {
    gap_measured(gap_admitted(s, tick), tick)
}

/// The first lowest price is in the window, nothing in the window is lower,
/// and everything before it is higher.
pub proof fn lemma_first_min(window: Seq<Tick>)
    requires
        window.len() > 0,
    ensures
        0 <= first_min_index(window) < window.len(),
        forall|j: int|
            0 <= j < window.len() ==> (#[trigger] window[j]).price
                >= window[first_min_index(window)].price,
        forall|j: int|
            0 <= j < first_min_index(window) ==> (#[trigger] window[j]).price
                > window[first_min_index(window)].price,
    decreases window.len(),
{
    if window.len() > 1 {
        let front = window.drop_last();
        lemma_first_min(front);
        let k = first_min_index(front);
        assert(front[k] == window[k]);
        assert forall|j: int| 0 <= j < window.len() implies (#[trigger] window[j]).price
            >= window[first_min_index(window)].price by {
            if j < front.len() {
                assert(front[j] == window[j]);
            }
        }
        assert forall|j: int| 0 <= j < first_min_index(window) implies (#[trigger] window[j]).price
            > window[first_min_index(window)].price by {
            assert(front[j] == window[j]);
        }
    }
}

/// After an admitted tick, a window that is not empty ends with that tick and
/// starts at its lowest price, and the ratio is the tick's rise over that low:
/// never negative.
pub proof fn lemma_gap_updated(s: State, tick: Tick)
    ensures
        ({
            let t = gap_updated(s, tick);
            &&& t.conf == s.conf
            &&& t.orders == s.orders
            &&& anchored(t.window, t.min)
            &&& t.window.len() == 0 ==> t.rate == s.rate
            &&& t.window.len() > 0 ==> {
                &&& t.window.last() == tick
                &&& t.rate.base == t.min
                &&& t.rate.rise == tick.price - t.min
                &&& t.rate.rise >= 0
            }
            &&& s.rate.wf() && s.rate.rise >= 0 ==> t.rate.wf() && t.rate.rise >= 0
        }),
{
    let a = gap_admitted(s, tick);
    if a.window.len() > 0 {
        assert(a.window.last() == tick);
        lemma_first_min(a.window);
        let k = first_min_index(a.window);
        let t = gap_updated(s, tick);
        assert(t.window =~= a.window.skip(k));
        assert(t.window.last() == tick);
        assert forall|j: int| 0 <= j < t.window.len() implies (#[trigger] t.window[j]).price
            >= t.min by {
            assert(t.window[j] == a.window[k + j]);
        }
        assert(a.window[a.window.len() - 1].price >= a.window[k].price);
    }
}

/// Each price of the sequence is below the one before.
pub open spec fn falling(ticks: Seq<Tick>) -> bool {
    forall|i: int, j: int|
        0 <= i < j < ticks.len() ==> (#[trigger] ticks[i]).price > (#[trigger] ticks[j]).price
}

/// The state of the gap detector after a sequence of admitted ticks.
pub open spec fn gap_run(s: State, ticks: Seq<Tick>) -> State
    decreases ticks.len(),
{
    if ticks.len() == 0 {
        s
    } else {
        gap_updated(gap_run(s, ticks.drop_last()), ticks.last())
    }
}

/// A tick priced at or below the lowest price so far becomes the low, and a
/// ratio of zero stays at zero.
pub proof fn lemma_low_keeps_rally_flat(s: State, tick: Tick)
    requires
        s.rate.rise == 0,
        anchored(s.window, s.min),
        tick.price <= s.min,
    ensures
        gap_updated(s, tick).rate.rise == 0,
        gap_updated(s, tick).min == tick.price,
        anchored(gap_updated(s, tick).window, gap_updated(s, tick).min),
{
    lemma_gap_updated(s, tick);
    let a = gap_admitted(s, tick);
    if tick.price == s.min && a.window.len() > 0 {
        lemma_first_min(a.window);
        let k = first_min_index(a.window);
        let longer = s.window.push(tick);
        assert(a.window.last() == tick);
        assert(a.window[a.window.len() - 1].price >= a.window[k].price);
        if a.window.len() == longer.len() {
            assert(a.window[k] == longer[k]);
        } else {
            assert(a.window[k] == longer[k + 1]);
        }
    }
}

/// While each admitted tick is priced below the one before, the ratio stays
/// at zero and the lowest price is the latest.
pub proof fn lemma_falling_prices_flat_rally(s: State, ticks: Seq<Tick>)
    requires
        s.rate.rise == 0,
        anchored(s.window, s.min),
        falling(ticks),
        ticks.len() > 0,
        ticks[0].price <= s.min,
    ensures
        gap_run(s, ticks).rate.rise == 0,
        gap_run(s, ticks).min == ticks.last().price,
        anchored(gap_run(s, ticks).window, gap_run(s, ticks).min),
    decreases ticks.len(),
{
    let front = ticks.drop_last();
    if front.len() == 0 {
        lemma_low_keeps_rally_flat(s, ticks.last());
    } else {
        assert(falling(front)) by {
            assert forall|i: int, j: int| 0 <= i < j < front.len() implies (#[trigger] front[i]).price
                > (#[trigger] front[j]).price by {
                assert(front[i] == ticks[i] && front[j] == ticks[j]);
            }
        }
        assert(front[0] == ticks[0]);
        lemma_falling_prices_flat_rally(s, front);
        assert(front.last() == ticks[ticks.len() - 2]);
        lemma_low_keeps_rally_flat(gap_run(s, front), ticks.last());
    }
}

impl StockSys {
    /// Measures the rally ratio at `tick`: moves the start of the window to
    /// its lowest price and sets the ratio to the rise of the tick's price
    /// over that low. Does nothing while the window is empty.
    pub fn get_gap(&mut self, tick: &Tick)
        ensures
            final(self)@ == gap_measured(old(self)@, *tick),
    {
        let n = self.gap_window.len();
        if n == 0 {
            return ;
        }
        let mut low: u64 = self.gap_window[0].price;
        let mut low_at: usize = 0;
        let mut i: usize = 1;
        proof {
            assert(self.gap_window@.take(1).drop_last() =~= self.gap_window@.take(0));
        }
        while i < n
            invariant
                1 <= i <= n,
                n == self.gap_window@.len(),
                low_at == first_min_index(self.gap_window@.take(i as int)),
                0 <= low_at < i,
                low == self.gap_window@[low_at as int].price,
            decreases n - i,
        {
            proof {
                let next = self.gap_window@.take(i + 1);
                assert(next.drop_last() =~= self.gap_window@.take(i as int));
                assert(next.last() == self.gap_window@[i as int]);
                assert(next[low_at as int] == self.gap_window@[low_at as int]);
            }
            if low > self.gap_window[i].price {
                low = self.gap_window[i].price;
                low_at = i;
            }
            i += 1;
        }
        proof {
            assert(self.gap_window@.take(n as int) =~= self.gap_window@);
            assert(self.gap_window@.subrange(low_at as int, n as int) =~= self.gap_window@.skip(
                low_at as int,
            ));
        }
        self.min = low;
        let kept = self.gap_window.split_off(low_at);
        self.gap_window = kept;
        self.gap_rate = Rally::between(tick.price, low);
    }

    /// Takes an admitted tick into the gap detector and measures the rally
    /// ratio anew.
    pub fn update_gap(&mut self, tick: &Tick)
        ensures
            final(self)@ == gap_updated(old(self)@, *tick),
            anchored(final(self)@.window, final(self)@.min),
            final(self)@.window.len() > 0 ==> final(self)@.rate.rise >= 0
                && final(self)@.rate.rise == tick.price - final(self)@.min,
            old(self)@.wf() ==> final(self)@.wf(),
    {
        proof {
            lemma_gap_updated(old(self)@, *tick);
        }
        self.gap_window.push(*tick);
        let first = self.gap_window[0];
        if tick.dt as i128 - first.dt as i128 >= self.conf.gap_window as i128 {
            self.gap_window.remove(0);
            proof {
                let longer = old(self)@.window.push(*tick);
                assert(longer.remove(0) =~= longer.drop_first());
            }
        }
        if tick.price > self.max {
            self.max = tick.price;
        }
        if tick.price < self.min {
            self.min = tick.price;
            self.gap_window.clear();
            self.gap_window.push(*tick);
            proof {
                assert(self.gap_window@ =~= seq![*tick]);
            }
        }
        assert(self@ == gap_admitted(old(self)@, *tick));
        self.get_gap(tick);
    }
}

} // verus!
