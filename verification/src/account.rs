//! The arithmetic of an order's accounts: average prices, tax and commission.
//!
//! A turnover is a price times a volume. Every turnover that the engine books
//! stays at or below `VALUE_LIMIT`, a third of what sixty-four bits hold, so
//! that the commission's factor of three cannot overflow.

use vstd::prelude::*;

verus! {

/// The least commission that one side of a trade pays.
pub const FEE_FLOOR: u64 = 50_000;

/// The largest turnover that the engine books for one order.
pub const VALUE_LIMIT: u64 = 6_148_914_691_236_517_205;

/// The highest price at which an order of `volume` units keeps its turnover
/// within `VALUE_LIMIT`.
pub open spec fn price_cap(volume: u64) -> int {
    VALUE_LIMIT as int / volume as int
}

/// The average price of `volume` units that changed hands for `value`,
/// rounded down.
pub open spec fn average_price(value: int, volume: int) -> int {
    value / volume
}

/// The tax on a sale: a thousandth of its turnover, rounded down.
pub open spec fn tax_due(turnover: int) -> int {
    turnover / 1000
}

/// The commission on one side of a trade: three ten-thousandths of its
/// turnover, rounded down, and no less than `FEE_FLOOR`.
pub open spec fn side_fee(turnover: int) -> int {
    let fee = turnover * 3 / 10_000;
    if fee > FEE_FLOOR {
        fee
    } else {
        FEE_FLOOR as int
    }
}

/// The commission on a round trip: one side's fee on the sale and one on the
/// purchase.
pub open spec fn commission_due(sale: int, purchase: int) -> int {
    side_fee(sale) + side_fee(purchase)
}

/// A price at or below the cap keeps the turnover of `volume` units within
/// `VALUE_LIMIT`.
pub proof fn lemma_cap_bounds_turnover(price: int, volume: u64)
    requires
        volume > 0,
        0 <= price <= price_cap(volume),
    ensures
        0 <= price * volume <= VALUE_LIMIT,
{
    let cap = price_cap(volume);
    let v = volume as int;
    assert(cap * v <= VALUE_LIMIT) by (nonlinear_arith)
        requires
            v > 0,
            cap == VALUE_LIMIT as int / v,
    ;
    assert(0 <= price * v <= cap * v) by (nonlinear_arith)
        requires
            0 <= price <= cap,
            v > 0,
    ;
}

/// The average of a value that `volume` units at no more than `cap` each came
/// to is itself no more than `cap`, and the average times the volume is no
/// more than the value.
pub proof fn lemma_average_bounds(value: int, volume: int, cap: int)
    requires
        volume > 0,
        0 <= value <= volume * cap,
    ensures
        0 <= average_price(value, volume) <= cap,
        0 <= average_price(value, volume) * volume <= value,
{
    let avg = value / volume;
    assert(0 <= avg && avg * volume <= value && value < (avg + 1) * volume) by (nonlinear_arith)
        requires
            volume > 0,
            0 <= value,
            avg == value / volume,
    ;
    assert(avg <= cap) by (nonlinear_arith)
        requires
            volume > 0,
            avg * volume <= volume * cap,
    ;
    assert(0 <= avg * volume) by (nonlinear_arith)
        requires
            0 <= avg,
            volume > 0,
    ;
}

/// The highest price at which an order of `volume` units keeps its turnover
/// within `VALUE_LIMIT`.
pub fn price_cap_of(volume: u64) -> (cap: u64)
    requires
        volume > 0,
    ensures
        cap == price_cap(volume),
{
    VALUE_LIMIT / volume
}

/// The average price of `volume` units that changed hands for `value`.
pub fn average_of(value: u128, volume: u64) -> (avg: u64)
    requires
        volume > 0,
        value <= volume * u64::MAX,
    ensures
        avg == average_price(value as int, volume as int),
{
    proof {
        lemma_average_bounds(value as int, volume as int, u64::MAX as int);
    }
    (value / volume as u128) as u64
}

/// The tax on the sale of `volume` units at `price`.
pub fn tax_on(price: u64, volume: u64) -> (tax: u64)
    requires
        price * volume <= VALUE_LIMIT,
    ensures
        tax == tax_due(price * volume),
{
    price * volume / 1000
}

/// The commission on one side of a trade of `volume` units at `price`.
pub fn side_fee_on(price: u64, volume: u64) -> (fee: u64)
    requires
        price * volume <= VALUE_LIMIT,
    ensures
        fee == side_fee(price * volume),
{
    let fee: u64 = price * volume * 3 / 10_000;
    if fee > FEE_FLOOR {
        fee
    } else {
        FEE_FLOOR
    }
}

} // verus!
