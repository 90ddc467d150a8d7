//! Walking one side of the order book to fill a quantity.
//!
//! Levels are visited best first. A level whose price is at or above the floor
//! gives up as much of its volume as is still wanted; a level below the floor
//! is passed over. A floor of zero makes every level eligible.

use crate::tick::{levels_within, Level};
use vstd::prelude::*;

verus! {

/// What a walk over one side of the book came to.
#[derive(Clone, Copy, Debug, PartialEq, Eq)]
pub struct Fill {
    /// Sum of price times volume over everything taken.
    pub value: u128,
    /// Quantity still wanted when the levels ran out.
    pub rest: u64,
}

/// The volume that a level gives up to a walk that still wants `want`.
pub open spec fn taken(level: Level, want: int, floor: int) -> int {
    if level.price >= floor {
        if want <= level.volume {
            want
        } else {
            level.volume as int
        }
    } else {
        0
    }
}

/// The value that a walk for `want` collects from `levels`.
pub open spec fn walk_value(levels: Seq<Level>, want: int, floor: int) -> int
    decreases levels.len(),
{
    if levels.len() == 0 {
        0
    } else {
        let t = taken(levels[0], want, floor);
        t * levels[0].price + walk_value(levels.drop_first(), want - t, floor)
    }
}

/// The quantity that a walk for `want` leaves unfilled after `levels`.
pub open spec fn walk_rest(levels: Seq<Level>, want: int, floor: int) -> int
    decreases levels.len(),
{
    if levels.len() == 0 {
        want
    } else {
        let t = taken(levels[0], want, floor);
        walk_rest(levels.drop_first(), want - t, floor)
    }
}

/// The total volume of the levels priced at or above the floor.
pub open spec fn depth(levels: Seq<Level>, floor: int) -> int
    decreases levels.len(),
{
    if levels.len() == 0 {
        0
    } else {
        (if levels[0].price >= floor {
            levels[0].volume as int
        } else {
            0
        }) + depth(levels.drop_first(), floor)
    }
}

/// A walk that wants nothing takes nothing.
pub proof fn lemma_walk_nothing(levels: Seq<Level>, floor: int)
    ensures
        walk_value(levels, 0, floor) == 0,
        walk_rest(levels, 0, floor) == 0,
    decreases levels.len(),
{
    if levels.len() > 0 {
        lemma_walk_nothing(levels.drop_first(), floor);
    }
}

/// A walk leaves unfilled exactly what the eligible depth cannot cover.
pub proof fn lemma_walk_rest_is_shortfall(levels: Seq<Level>, want: int, floor: int)
    requires
        0 <= want,
    ensures
        0 <= depth(levels, floor),
        walk_rest(levels, want, floor) == if depth(levels, floor) >= want {
            0
        } else {
            want - depth(levels, floor)
        },
    decreases levels.len(),
{
    if levels.len() > 0 {
        let t = taken(levels[0], want, floor);
        lemma_walk_rest_is_shortfall(levels.drop_first(), want - t, floor);
    }
}

/// What a walk collects is at most the quantity filled times the highest
/// price on offer.
pub proof fn lemma_walk_value_bound(levels: Seq<Level>, want: int, floor: int, cap: int)
    requires
        0 <= want,
        levels_within(levels, cap),
    ensures
        0 <= walk_rest(levels, want, floor) <= want,
        0 <= walk_value(levels, want, floor),
        walk_value(levels, want, floor) <= (want - walk_rest(levels, want, floor)) * cap,
    decreases levels.len(),
{
    if levels.len() > 0 {
        let t = taken(levels[0], want, floor);
        let tail = levels.drop_first();
        let left = want - t;
        assert forall|i: int| 0 <= i < tail.len() implies (#[trigger] tail[i]).price <= cap by {
            assert(tail[i] == levels[i + 1]);
        }
        lemma_walk_value_bound(tail, left, floor, cap);
        let rest = walk_rest(tail, left, floor);
        let price = levels[0].price as int;
        assert(t * price <= t * cap) by (nonlinear_arith)
            requires
                0 <= t,
                price <= cap,
        ;
        assert(t * cap + (left - rest) * cap == (want - rest) * cap) by (nonlinear_arith)
            requires
                left == want - t,
        ;
    }
}

/// Two walks over the same levels for the same quantity and floor come to the
/// same value and the same remainder.
pub proof fn lemma_walk_repeatable(
    first: Seq<Level>,
    second: Seq<Level>,
    want: int,
    floor: int,
)
    requires
        first.len() == second.len(),
        forall|i: int| 0 <= i < first.len() ==> first[i] == second[i],
    ensures
        walk_value(first, want, floor) == walk_value(second, want, floor),
        walk_rest(first, want, floor) == walk_rest(second, want, floor),
{
    assert(first =~= second);
}

/// Walks `levels` best first for `want` units, taking only from levels priced
/// at or above `floor`.
pub fn walk_levels(levels: &[Level], want: u64, floor: u64) -> (fill: Fill)
    ensures
        fill.value == walk_value(levels@, want as int, floor as int),
        fill.rest == walk_rest(levels@, want as int, floor as int),
{
    let mut value: u128 = 0;
    let mut left: u64 = want;
    let mut i: usize = 0;
    proof {
        assert(levels@.skip(0) =~= levels@);
        assert(levels_within(levels@, u64::MAX as int));
    }
    while i < levels.len() && left > 0
        invariant
            i <= levels.len(),
            left <= want,
            value <= (want - left) * u64::MAX,
            walk_value(levels@, want as int, floor as int) == value + walk_value(
                levels@.skip(i as int),
                left as int,
                floor as int,
            ),
            walk_rest(levels@, want as int, floor as int) == walk_rest(
                levels@.skip(i as int),
                left as int,
                floor as int,
            ),
        decreases levels.len() - i,
    {
        let level = levels[i];
        proof {
            let here = levels@.skip(i as int);
            assert(here[0] == levels@[i as int]);
            assert(here.drop_first() =~= levels@.skip(i + 1));
        }
        if level.price >= floor {
            let take: u64 = if left <= level.volume {
                left
            } else {
                level.volume
            };
            proof {
                let t = take as int;
                let p = level.price as int;
                let done = (want - left) as int;
                assert(t * p <= t * u64::MAX) by (nonlinear_arith)
                    requires
                        0 <= t,
                        p <= u64::MAX,
                ;
                assert(done * u64::MAX + t * u64::MAX == (done + t) * u64::MAX)
                    by (nonlinear_arith);
                assert((done + t) * u64::MAX <= u64::MAX * u64::MAX) by (nonlinear_arith)
                    requires
                        0 <= done + t <= u64::MAX,
                ;
            }
            value = value + take as u128 * level.price as u128;
            left = left - take;
        }
        i += 1;
    }
    proof {
        if left == 0 {
            lemma_walk_nothing(levels@.skip(i as int), floor as int);
        }
    }
    Fill { value, rest: left }
}

} // verus!
