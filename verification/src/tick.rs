//! Order-book snapshots and the trading calendar.

use chrono::{FixedOffset, TimeZone};
use vstd::prelude::*;

verus! {

/// Seconds east of UTC of the exchange's time zone.
pub const ZONE_OFFSET: i32 = 8 * 60 * 60;

/// The calendar day on which every clock reading is placed. Snapshots carry a
/// time of day only, so one day serves for all of them.
pub const SESSION_YEAR: i32 = 2021;

/// The month of that day.
pub const SESSION_MONTH: u32 = 10;

/// The day of the month of that day.
pub const SESSION_DAY: u32 = 30;

/// The UNIX timestamp of a civil date and time of day in a zone that lies
/// `offset` seconds east of UTC, as chrono computes it.
pub uninterp spec fn civil_timestamp(
    offset: int,
    year: int,
    month: int,
    day: int,
    hour: int,
    min: int,
    sec: int,
) -> int;

/// Calls chrono's `FixedOffset::east`, `TimeZone::ymd`, `Date::and_hms` and
/// `DateTime::timestamp`.
///
/// Trusted: the result is the UNIX timestamp of the given civil time, and
/// within one day of a zone with a fixed offset that timestamp grows by one for
/// each second of the time of day. The preconditions keep to dates and times
/// that chrono accepts: every month but February has a day 30.
#[verifier::external_body]
#[allow(deprecated)]
fn local_timestamp(
    offset: i32,
    year: i32,
    month: u32,
    day: u32,
    hour: u32,
    min: u32,
    sec: u32,
) -> (t: i64)
    requires
        -86_400 < offset < 86_400,
        1970 <= year <= 9999,
        1 <= month <= 12,
        month != 2,
        1 <= day <= 30,
        hour < 24,
        min < 60,
        sec < 60,
    ensures
        t == civil_timestamp(
            offset as int,
            year as int,
            month as int,
            day as int,
            hour as int,
            min as int,
            sec as int,
        ),
        t == civil_timestamp(offset as int, year as int, month as int, day as int, 0, 0, 0) + 3600
            * hour + 60 * min + sec,
{
    FixedOffset::east(offset).ymd(year, month, day).and_hms(hour, min, sec).timestamp()
}

/// The hour that a clock reading `HHMMSSmmm` names.
pub open spec fn clock_hour(ntime: u64) -> int {
    ntime as int / 10_000_000
}

/// The minute that a clock reading `HHMMSSmmm` names.
pub open spec fn clock_minute(ntime: u64) -> int {
    ntime as int % 10_000_000 / 100_000
}

/// The second that a clock reading `HHMMSSmmm` names.
pub open spec fn clock_second(ntime: u64) -> int {
    ntime as int % 100_000 / 1000
}

/// A clock reading names a time of day that exists.
pub open spec fn valid_clock(ntime: u64) -> bool {
    clock_hour(ntime) < 24 && clock_minute(ntime) < 60 && clock_second(ntime) < 60
}

/// The timestamp of midnight at the start of the session day.
pub open spec fn day_start() -> int {
    civil_timestamp(
        ZONE_OFFSET as int,
        SESSION_YEAR as int,
        SESSION_MONTH as int,
        SESSION_DAY as int,
        0,
        0,
        0,
    )
}

/// The timestamp of a clock reading on the session day. Milliseconds are
/// dropped.
pub open spec fn clock_timestamp(ntime: u64) -> int {
    day_start() + 3600 * clock_hour(ntime) + 60 * clock_minute(ntime) + clock_second(ntime)
}

/// The timestamp that stands for "no time yet": one second past midnight on
/// the first day of 1970 in the exchange's zone.
pub open spec fn unset_timestamp() -> int {
    civil_timestamp(ZONE_OFFSET as int, 1970, 1, 1, 0, 0, 1)
}

/// Whether a clock reading names a time of day that exists.
pub fn is_valid_clock(ntime: u64) -> (ok: bool)
    ensures
        ok == valid_clock(ntime),
{
    ntime / 10_000_000 < 24 && ntime % 10_000_000 / 100_000 < 60 && ntime % 100_000 / 1000 < 60
}

/// Turns a clock reading `HHMMSSmmm` (`91003000` is 9:10:03) into a timestamp
/// on the session day.
pub fn get_time(ntime: u64) -> (t: i64)
    requires
        valid_clock(ntime),
    ensures
        t == clock_timestamp(ntime),
{
    let hour: u32 = (ntime / 10_000_000) as u32;
    let min: u32 = (ntime % 10_000_000 / 100_000) as u32;
    let sec: u32 = (ntime % 100_000 / 1000) as u32;
    local_timestamp(ZONE_OFFSET, SESSION_YEAR, SESSION_MONTH, SESSION_DAY, hour, min, sec)
}

/// The timestamp that a record holds before its time is known.
pub fn default_dt() -> (t: i64)
    ensures
        t == unset_timestamp(),
{
    local_timestamp(ZONE_OFFSET, 1970, 1, 1, 0, 0, 1)
}

/// One rung of the order book: a price and the volume on offer at that price.
#[derive(Clone, Copy, Debug, PartialEq, Eq)]
pub struct Level {
    pub price: u64,
    pub volume: u64,
}

/// No level of a side of the book is priced above `cap`.
pub open spec fn levels_within(levels: Seq<Level>, cap: int) -> bool {
    forall|i: int| 0 <= i < levels.len() ==> (#[trigger] levels[i]).price <= cap
}

/// One snapshot of the instrument: the last traded price and ten levels of
/// each side of the book, best first.
///
/// Prices and volumes are whole numbers of a minor unit. The session's price
/// limits are quoted in a unit ten times as coarse as the prices.
#[derive(Clone, Copy, Debug, PartialEq, Eq)]
pub struct Tick {
    /// Clock reading `HHMMSSmmm` of the snapshot.
    pub time: u64,
    /// Timestamp of the snapshot, in seconds.
    pub dt: i64,
    /// Last traded price.
    pub price: u64,
    pub asks: [Level; 10],
    pub bids: [Level; 10],
    pub high_limit: u64,
    pub low_limit: u64,
}

impl Tick {
    /// The price at which trading halts on the way up, in price units.
    pub open spec fn limit_up(self) -> int {
        self.high_limit * 10
    }

    /// The price at which trading halts on the way down, in price units.
    pub open spec fn limit_down(self) -> int {
        self.low_limit * 10
    }

    /// No level of either side of the book is priced above `cap`.
    pub open spec fn priced_within(self, cap: int) -> bool {
        levels_within(self.asks@, cap) && levels_within(self.bids@, cap)
    }

    /// The tick with its timestamp set from its clock reading.
    pub open spec fn stamped(self) -> Tick {
        Tick { dt: clock_timestamp(self.time) as i64, ..self }
    }

    /// Sets the tick's timestamp from its clock reading, where that reading
    /// names a time of day that exists.
    pub fn stamp(self) -> (r: Option<Tick>)
        ensures
            valid_clock(self.time) ==> r == Some(self.stamped()),
            !valid_clock(self.time) ==> r is None,
    {
        if is_valid_clock(self.time) {
            let mut tick = self;
            tick.dt = get_time(self.time);
            Some(tick)
        } else {
            None
        }
    }

    /// Whether the last price sits at the upper limit.
    pub fn at_limit_up(&self) -> (r: bool)
        ensures
            r == (self.price == self.limit_up()),
    {
        self.price as u128 == self.high_limit as u128 * 10
    }

    /// Whether the last price sits at the lower limit.
    pub fn at_limit_down(&self) -> (r: bool)
        ensures
            r == (self.price == self.limit_down()),
    {
        self.price as u128 == self.low_limit as u128 * 10
    }

    /// Whether no level of either side of the book is priced above `cap`.
    pub fn is_priced_within(&self, cap: u64) -> (r: bool)
        ensures
            r == self.priced_within(cap as int),
    {
        let mut i: usize = 0;
        while i < 10
            invariant
                i <= 10,
                forall|j: int| 0 <= j < i ==> (#[trigger] self.asks@[j]).price <= cap,
                forall|j: int| 0 <= j < i ==> (#[trigger] self.bids@[j]).price <= cap,
            decreases 10 - i,
        {
            if self.asks[i].price > cap || self.bids[i].price > cap {
                return false;
            }
            i += 1;
        }
        true
    }
}

/// The first second of the morning session.
pub open spec fn morning_open() -> int {
    clock_timestamp(93_000_000)
}

/// The last second of the morning session.
pub open spec fn morning_close() -> int {
    clock_timestamp(113_000_000)
}

/// The first second of the afternoon session.
pub open spec fn afternoon_open() -> int {
    clock_timestamp(130_000_000)
}

/// The last second of the afternoon session.
pub open spec fn afternoon_close() -> int {
    clock_timestamp(150_000_000)
}

/// A timestamp lies in the morning or the afternoon session, ends included.
pub open spec fn in_session(dt: int) -> bool {
    (morning_open() <= dt <= morning_close()) || (afternoon_open() <= dt <= afternoon_close())
}

/// Whether a timestamp lies in one of the two trading sessions.
pub fn is_in_session(dt: i64) -> (r: bool)
    ensures
        r == in_session(dt as int),
{
    (get_time(93_000_000) <= dt && dt <= get_time(113_000_000)) || (get_time(130_000_000) <= dt
        && dt <= get_time(150_000_000))
}

} // verus!
