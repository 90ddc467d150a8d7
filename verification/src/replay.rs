//! Replaying a sequence of ticks through the engine.

use crate::gap::{falling, lemma_low_keeps_rally_flat};
use crate::strategy::{
    anchored, config, fresh, lemma_step_keeps, new_stock_sys, step, step_halt, Halt, State,
    StockSys,
};
use crate::tick::Tick;
use vstd::prelude::*;

verus! {

/// The state after a sequence of ticks, taken in order.
pub open spec fn run(s: State, ticks: Seq<Tick>) -> State
    decreases ticks.len(),
{
    if ticks.len() == 0 {
        s
    } else {
        step(run(s, ticks.drop_last()), ticks.last())
    }
}

/// Why the engine, started in `s`, refuses the tick at position `i`, if it
/// does.
pub open spec fn halt_at(s: State, ticks: Seq<Tick>, i: int) -> Option<Halt> {
    step_halt(run(s, ticks.take(i)), ticks[i])
}

/// Where a run stopped, and why.
#[derive(Clone, Copy, Debug, PartialEq, Eq)]
pub struct Stop {
    /// Position of the tick that the engine refused.
    pub index: usize,
    pub halt: Halt,
}

/// A run keeps the engine's invariant and the configuration, and never
/// shortens the ledger.
pub proof fn lemma_run_keeps(s: State, ticks: Seq<Tick>)
    requires
        s.wf(),
    ensures
        run(s, ticks).wf(),
        run(s, ticks).conf == s.conf,
        run(s, ticks).orders.len() >= s.orders.len(),
    decreases ticks.len(),
{
    if ticks.len() > 0 {
        lemma_run_keeps(s, ticks.drop_last());
        lemma_step_keeps(run(s, ticks.drop_last()), ticks.last());
    }
}

/// Of any two orders that follow one another in the ledger of a run, the
/// second was opened more than the cooldown after the first.
pub proof fn lemma_cooldown_between_orders(conf: config, ticks: Seq<Tick>, i: int)
    requires
        conf.valid(),
        0 <= i < run(fresh(conf), ticks).orders.len() - 1,
    ensures
        run(fresh(conf), ticks).orders[i + 1].time - run(fresh(conf), ticks).orders[i].time
            > conf.buy_cooldown_time,
{
    lemma_run_keeps(fresh(conf), ticks);
}

/// A tick priced at or below the lowest price so far leaves a ratio of zero at
/// zero, whatever else it does; afterwards no price is lower than its own
/// unless the tick was passed over.
pub proof fn lemma_step_keeps_rally_flat(s: State, tick: Tick)
    requires
        s.rate.rise == 0,
        anchored(s.window, s.min),
        tick.price <= s.min,
    ensures
        step(s, tick).rate.rise == 0,
        anchored(step(s, tick).window, step(s, tick).min),
        tick.price <= step(s, tick).min,
{
    lemma_low_keeps_rally_flat(s, tick);
}

/// While each tick is priced below the one before, an engine that starts
/// afresh never sees a rally: its ratio stays at zero.
pub proof fn lemma_falling_prices_never_rally(conf: config, ticks: Seq<Tick>)
    requires
        falling(ticks),
    ensures
        run(fresh(conf), ticks).rate.rise == 0,
        anchored(run(fresh(conf), ticks).window, run(fresh(conf), ticks).min),
        ticks.len() > 0 ==> ticks.last().price <= run(fresh(conf), ticks).min,
    decreases ticks.len(),
{
    if ticks.len() > 0 {
        let front = ticks.drop_last();
        assert(falling(front)) by {
            assert forall|i: int, j: int| 0 <= i < j < front.len() implies (#[trigger] front[i]).price
                > (#[trigger] front[j]).price by {
                assert(front[i] == ticks[i] && front[j] == ticks[j]);
            }
        }
        lemma_falling_prices_never_rally(conf, front);
        if front.len() > 0 {
            assert(front.last() == ticks[ticks.len() - 2]);
        }
        lemma_step_keeps_rally_flat(run(fresh(conf), front), ticks.last());
    }
}

/// Replays `ticks` through a new engine and hands the engine back. The run
/// stops at the first tick that the engine refuses.
pub fn back_testing(conf: config, ticks: &Vec<Tick>) -> (r: Result<StockSys, Stop>)
    requires
        conf.valid(),
    ensures
        match r {
            Ok(sys) => {
                &&& sys@ == run(fresh(conf), ticks@)
                &&& sys@.wf()
                &&& forall|i: int|
                    0 <= i < ticks@.len() ==> halt_at(fresh(conf), ticks@, i) is None
            },
            Err(stop) => {
                &&& stop.index < ticks@.len()
                &&& forall|i: int|
                    0 <= i < stop.index ==> halt_at(fresh(conf), ticks@, i) is None
                &&& halt_at(fresh(conf), ticks@, stop.index as int) == Some(stop.halt)
            },
        },
{
    let mut sys = new_stock_sys(conf);
    let mut i: usize = 0;
    while i < ticks.len()
        invariant
            i <= ticks@.len(),
            sys@.wf(),
            sys@ == run(fresh(conf), ticks@.take(i as int)),
            forall|j: int| 0 <= j < i ==> halt_at(fresh(conf), ticks@, j) is None,
        decreases ticks@.len() - i,
    {
        proof {
            assert(ticks@.take(i + 1).drop_last() =~= ticks@.take(i as int));
            assert(ticks@.take(i + 1).last() == ticks@[i as int]);
        }
        match sys.do_strategy(&ticks[i]) {
            Err(halt) => {
                return Err(Stop { index: i, halt });
            },
            Ok(()) => {},
        }
        i += 1;
    }
    proof {
        assert(ticks@.take(i as int) =~= ticks@);
    }
    Ok(sys)
}

} // verus!
