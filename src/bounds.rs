use crate::numeric::MILLI;
use crate::series::ForecastValueMinMax;
use vstd::prelude::*;

verus! {

/// Smallest rain axis maximum, in whole units.
pub const RAIN_FLOOR: i128 = 10;

/// The least low of an empty series, in thousandths.
pub const LOW_START: i128 = 1_000_000;

/// The greatest temperature high of an empty series, in thousandths.
pub const HIGH_START: i128 = -1_000_000;

/// Largest magnitude of a value that a bound is derived from, in thousandths.
pub open spec fn value_limit() -> int {
    0x1_0000_0000_0000_0000_0000_0000
}

/// `m` thousandths truncated toward zero to whole units.
pub open spec fn trunc_units(m: int) -> int {
    if m >= 0 {
        m / (MILLI as int)
    } else {
        -((-m) / (MILLI as int))
    }
}

/// Lower axis bound of a minimum of `m` thousandths: truncated, and moved
/// one unit down unless at least half a unit lies between.
pub open spec fn lower_bound(m: int) -> int {
    let t = trunc_units(m);
    if m - t * MILLI < 500 {
        t - 1
    } else {
        t
    }
}

/// Upper axis bound of a maximum of `m` thousandths: truncated after adding
/// 0.999, and moved one unit up unless at least half a unit lies between.
pub open spec fn upper_bound(m: int) -> int {
    let t = trunc_units(m + 999);
    if t * MILLI - m < 500 {
        t + 1
    } else {
        t
    }
}

/// Rain axis bound: the upper bound, but never below the floor.
pub open spec fn rain_bound(m: int) -> int {
    let u = upper_bound(m);
    if u < RAIN_FLOOR {
        RAIN_FLOOR as int
    } else {
        u
    }
}

/// The least `low` of the series; `LOW_START` for an empty series.
pub open spec fn min_low(s: Seq<ForecastValueMinMax>) -> int
    decreases s.len(),
{
    if s.len() == 0 {
        LOW_START as int
    } else if s.len() == 1 {
        s[0].low as int
    } else {
        let m = min_low(s.drop_last());
        if m < s.last().low {
            m
        } else {
            s.last().low as int
        }
    }
}

/// The greatest `high` of the series; `empty` for an empty series.
pub open spec fn max_high(s: Seq<ForecastValueMinMax>, empty: int) -> int
    decreases s.len(),
{
    if s.len() == 0 {
        empty
    } else if s.len() == 1 {
        s[0].high as int
    } else {
        let m = max_high(s.drop_last(), empty);
        if m > s.last().high {
            m
        } else {
            s.last().high as int
        }
    }
}

/// Every `low` and `high` of the series lies within the value limit.
pub open spec fn ranges_bounded(s: Seq<ForecastValueMinMax>) -> bool {
    forall|i: int|
        0 <= i < s.len() ==> -value_limit() <= (#[trigger] s[i]).low <= value_limit()
            && -value_limit() <= s[i].high <= value_limit()
}

fn trunc(m: i128) -> (r: i128)
    requires
        -2 * value_limit() <= m <= 2 * value_limit(),
    ensures
        r == trunc_units(m as int),
{
    if m >= 0 {
        m / MILLI
    } else {
        -((-m) / MILLI)
    }
}

/// Lower axis bound of a minimum given in thousandths.
pub fn round_lower(m: i128) -> (r: i128)
    requires
        -value_limit() <= m <= value_limit(),
    ensures
        r == lower_bound(m as int),
{
    let t = trunc(m);
    if m - t * MILLI < 500 {
        t - 1
    } else {
        t
    }
}

/// Upper axis bound of a maximum given in thousandths.
pub fn round_upper(m: i128) -> (r: i128)
    requires
        -value_limit() <= m <= value_limit(),
    ensures
        r == upper_bound(m as int),
{
    let t = trunc(m + 999);
    if t * MILLI - m < 500 {
        t + 1
    } else {
        t
    }
}

/// Rain axis bound of a maximum given in thousandths.
pub fn round_rain(m: i128) -> (r: i128)
    requires
        -value_limit() <= m <= value_limit(),
    ensures
        r == rain_bound(m as int),
        r >= RAIN_FLOOR,
{
    let u = round_upper(m);
    if u < RAIN_FLOOR {
        RAIN_FLOOR
    } else {
        u
    }
}

/// The least `low` of a series; `LOW_START` for an empty series.
pub fn lowest(s: &Vec<ForecastValueMinMax>) -> (r: i128)
    requires
        ranges_bounded(s@),
    ensures
        r == min_low(s@),
        -value_limit() <= r <= value_limit(),
{
    let n = s.len();
    if n == 0 {
        return LOW_START;
    }
    let mut m: i128 = s[0].low;
    assert(s@.subrange(0, 1).len() == 1);
    for i in 1..n
        invariant
            n == s@.len(),
            ranges_bounded(s@),
            m == min_low(s@.subrange(0, i as int)),
            -value_limit() <= m <= value_limit(),
    {
        assert(s@.subrange(0, i + 1).drop_last() == s@.subrange(0, i as int));
        if !(m < s[i].low) {
            m = s[i].low;
        }
    }
    assert(s@.subrange(0, n as int) == s@);
    m
}

/// The greatest `high` of a series; `empty` for an empty series.
pub fn highest(s: &Vec<ForecastValueMinMax>, empty: i128) -> (r: i128)
    requires
        ranges_bounded(s@),
        -value_limit() <= empty <= value_limit(),
    ensures
        r == max_high(s@, empty as int),
        -value_limit() <= r <= value_limit(),
{
    let n = s.len();
    if n == 0 {
        return empty;
    }
    let mut m: i128 = s[0].high;
    assert(s@.subrange(0, 1).len() == 1);
    for i in 1..n
        invariant
            n == s@.len(),
            ranges_bounded(s@),
            m == max_high(s@.subrange(0, i as int), empty as int),
            -value_limit() <= m <= value_limit(),
    {
        assert(s@.subrange(0, i + 1).drop_last() == s@.subrange(0, i as int));
        if !(m > s[i].high) {
            m = s[i].high;
        }
    }
    assert(s@.subrange(0, n as int) == s@);
    m
}

} // verus!

verus! {

/// Bounds of whole numbers are padded: a minimum of exactly `n` units gets
/// the lower bound `n - 1`, and a maximum of exactly `n` units the upper
/// bound `n + 1`.
pub proof fn lemma_whole_bounds_padded(n: int)
    ensures
        lower_bound(n * MILLI) == n - 1,
        upper_bound(n * MILLI) == n + 1,
{
    let m = n * MILLI;
    if n >= 0 {
        assert(m / 1000 == n) by (nonlinear_arith)
            requires
                m == n * 1000,
                n >= 0,
        ;
        assert((m + 999) / 1000 == n) by (nonlinear_arith)
            requires
                m == n * 1000,
                n >= 0,
        ;
    } else {
        let k = -n;
        assert((-m) / 1000 == k) by (nonlinear_arith)
            requires
                m == n * 1000,
                k == -n,
                k > 0,
        ;
        assert((-(m + 999)) / 1000 == k - 1) by (nonlinear_arith)
            requires
                m == n * 1000,
                k == -n,
                k > 0,
        ;
    }
}

/// The rain axis bound is never below the floor, whatever the rainfall.
pub proof fn lemma_rain_bound_floor(m: int)
    ensures
        rain_bound(m) >= RAIN_FLOOR,
{
}

} // verus!
