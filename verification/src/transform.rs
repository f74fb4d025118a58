//! The three pure pipeline stages after parsing: the period filter on the
//! target local day, the fixed-point unit/currency/VAT converter, and the
//! aggregator, together with chart-limit rounding for the renderer.

use vstd::prelude::*;
use crate::series::{PricePoint, ConvertedPoint};
use crate::tz::{TzId, tz_offset_sec, spec_local_day, local_day, MIN_INSTANT, MAX_INSTANT};
use crate::mathutil::{floor_div_i128, ceil_div_i128, lemma_div_unique};

verus! {

/// Strict bound on a converted value's magnitude.
pub const CONVERTED_ABS_BOUND: i128 = 1_000_000_000_000_000_000_000_000_000_000_000_000;

/// Largest currency multiplier accepted, in millionths: a million target
/// units per reference unit.
pub const MAX_MULTIPLIER: i64 = 1_000_000_000_000;

/// Largest VAT accepted, in tenths of a percent.
pub const MAX_VAT_TENTHS: i64 = 100_000;

/// PeriodFilter keeps a point iff its instant is in the supported range
/// (with a day's headroom below the zone functions' ceiling) and its local
/// calendar day under the zone is the target day.
pub open spec fn spec_keep_point(p: PricePoint, tz: int, day: int) -> bool {
    MIN_INSTANT as int <= p.ts <= MAX_INSTANT as int - 86400 && spec_local_day(tz, p.ts as int)
        == day
}

/// The subsequence of points on the target local day, in input order.
pub open spec fn spec_filter_day(s: Seq<PricePoint>, tz: int, day: int) -> Seq<PricePoint>
    decreases s.len(),
{
    if s.len() == 0 {
        s
    } else {
        let rest = spec_filter_day(s.drop_last(), tz, day);
        if spec_keep_point(s.last(), tz, day) {
            rest.push(s.last())
        } else {
            rest
        }
    }
}

/// PeriodFilter: retains exactly the points of the target local day,
/// keeping their order.
pub fn filter_by_local_day(series: &Vec<PricePoint>, tz: &TzId, day: i64) -> (r: Vec<PricePoint>)
    ensures
        r@ == spec_filter_day(series@, tz.code(), day as int),
{
    let mut out: Vec<PricePoint> = Vec::new();
    let n = series.len();
    let mut i: usize = 0;
    while i < n
        invariant
            i <= n,
            n == series@.len(),
            out@ == spec_filter_day(series@.take(i as int), tz.code(), day as int),
        decreases n - i,
    {
        let p = series[i];
        proof {
            assert(series@.take(i + 1).drop_last() =~= series@.take(i as int));
            assert(series@.take(i + 1).last() == series@[i as int]);
        }
        if MIN_INSTANT <= p.ts && p.ts <= MAX_INSTANT - 86400 {
            let ld = local_day(tz, p.ts);
            if ld == day {
                out.push(p);
            }
        }
        i = i + 1;
    }
    proof {
        assert(series@.take(n as int) =~= series@);
    }
    out
}

/// Where the zone's offset is one constant across the points (no transition
/// on the day) and every instant lies in the target day's local span, the
/// filter retains the whole series.
pub proof fn lemma_filter_no_transition(s: Seq<PricePoint>, tz: int, day: int, off: int)
    requires
        forall|i: int| 0 <= i < s.len() ==> tz_offset_sec(tz, #[trigger] s[i].ts as int) == off,
        forall|i: int|
            0 <= i < s.len() ==> day * 86400 - off <= (#[trigger] s[i].ts as int) && (s[i].ts
                as int) < (day + 1) * 86400 - off,
        forall|i: int|
            0 <= i < s.len() ==> MIN_INSTANT as int <= #[trigger] s[i].ts <= MAX_INSTANT as int
                - 86400,
    ensures
        spec_filter_day(s, tz, day) == s,
    decreases s.len(),
{
    if s.len() > 0 {
        lemma_filter_no_transition(s.drop_last(), tz, day, off);
        let p = s.last();
        lemma_div_unique(p.ts as int + off, 86400, day, p.ts as int + off - day * 86400);
        assert(spec_keep_point(p, tz, day));
        assert(s.drop_last().push(p) =~= s);
    }
}

/// UnitConverter: the converted value is
/// `value · multiplier · (1000 + vat)`, standing for
/// `value/1000 · multiplier/10⁶ · 1/1000 · (1 + vat/1000)` target units.
pub open spec fn spec_convert_value(value: int, mult: int, vat: int) -> int {
    value * mult * (1000 + vat)
}

/// The converted point: same instant, scaled value.
pub open spec fn spec_convert_point(p: PricePoint, mult: int, vat: int) -> ConvertedPoint {
    ConvertedPoint { ts: p.ts, value: spec_convert_value(p.value as int, mult, vat) as i128 }
}

/// With VAT zero the surcharge factor is exactly one: the converted value
/// is the raw value times the multiplier (times the fixed unit scale).
pub proof fn lemma_convert_vat_zero(p: PricePoint, mult: int)
    requires
        0 <= mult <= MAX_MULTIPLIER as int,
    ensures
        spec_convert_point(p, mult, 0).value == p.value * mult * 1000,
{
    assert(-CONVERTED_ABS_BOUND < (p.value as int) * mult * 1000
        && (p.value as int) * mult * 1000 < CONVERTED_ABS_BOUND) by (nonlinear_arith)
        requires
            -0x8000_0000_0000_0000 <= p.value as int <= 0x7fff_ffff_ffff_ffff,
            0 <= mult <= MAX_MULTIPLIER as int,
    ;
}

/// Converts one point, as [`spec_convert_point`] states.
pub fn convert_point(p: &PricePoint, mult: i64, vat: i64) -> (r: ConvertedPoint)
    requires
        0 <= mult <= MAX_MULTIPLIER as int,
        0 <= vat <= MAX_VAT_TENTHS as int,
    ensures
        r == spec_convert_point(*p, mult as int, vat as int),
        -CONVERTED_ABS_BOUND < r.value < CONVERTED_ABS_BOUND,
{
    let v: i128 = p.value as i128;
    let m: i128 = mult as i128;
    let f: i128 = 1000 + vat as i128;
    proof {
        assert(-CONVERTED_ABS_BOUND < v * m * f < CONVERTED_ABS_BOUND
            && (i128::MIN as int) < v * m && v * m < i128::MAX as int) by (nonlinear_arith)
            requires
                -0x8000_0000_0000_0000 <= v <= 0x7fff_ffff_ffff_ffff,
                0 <= m <= MAX_MULTIPLIER as int,
                1000 <= f <= 1000 + MAX_VAT_TENTHS as int,
        ;
    }
    ConvertedPoint { ts: p.ts, value: v * m * f }
}

/// The series converted pointwise.
pub open spec fn spec_convert_series(s: Seq<PricePoint>, mult: int, vat: int) -> Seq<
    ConvertedPoint,
> {
    Seq::new(s.len(), |i: int| spec_convert_point(s[i], mult, vat))
}

/// Converts every point of a series, as [`spec_convert_series`] states.
pub fn convert_series(series: &Vec<PricePoint>, mult: i64, vat: i64) -> (r: Vec<ConvertedPoint>)
    requires
        0 <= mult <= MAX_MULTIPLIER as int,
        0 <= vat <= MAX_VAT_TENTHS as int,
    ensures
        r@ == spec_convert_series(series@, mult as int, vat as int),
        forall|i: int|
            0 <= i < r@.len() ==> -CONVERTED_ABS_BOUND < (#[trigger] r@[i]).value
                < CONVERTED_ABS_BOUND,
{
    let mut out: Vec<ConvertedPoint> = Vec::new();
    let n = series.len();
    let mut i: usize = 0;
    while i < n
        invariant
            i <= n,
            n == series@.len(),
            0 <= mult <= MAX_MULTIPLIER as int,
            0 <= vat <= MAX_VAT_TENTHS as int,
            out@ == spec_convert_series(series@.take(i as int), mult as int, vat as int),
            forall|k: int|
                0 <= k < out@.len() ==> -CONVERTED_ABS_BOUND < (#[trigger] out@[k]).value
                    < CONVERTED_ABS_BOUND,
        decreases n - i,
    {
        let c = convert_point(&series[i], mult, vat);
        out.push(c);
        proof {
            assert(out@ =~= spec_convert_series(
                series@.take(i + 1),
                mult as int,
                vat as int,
            ));
        }
        i = i + 1;
    }
    proof {
        assert(series@.take(n as int) =~= series@);
    }
    out
}

/// Aggregates: the minimum and maximum points with their instants, and the
/// arithmetic mean of the values.
#[derive(Clone, Copy, Debug, PartialEq, Eq, Structural)]
pub struct Aggregates {
    pub min: ConvertedPoint,
    pub max: ConvertedPoint,
    pub avg: i128,
}

/// The index of the first minimal value.
pub open spec fn spec_min_idx(s: Seq<ConvertedPoint>) -> int
    decreases s.len(),
{
    if s.len() <= 1 {
        0
    } else {
        let j = spec_min_idx(s.drop_last());
        if s.last().value < s[j].value {
            s.len() - 1
        } else {
            j
        }
    }
}

/// The index of the first maximal value.
pub open spec fn spec_max_idx(s: Seq<ConvertedPoint>) -> int
    decreases s.len(),
{
    if s.len() <= 1 {
        0
    } else {
        let j = spec_max_idx(s.drop_last());
        if s.last().value > s[j].value {
            s.len() - 1
        } else {
            j
        }
    }
}

/// The sum of the values.
pub open spec fn spec_sum(s: Seq<ConvertedPoint>) -> int
    decreases s.len(),
{
    if s.len() == 0 {
        0
    } else {
        spec_sum(s.drop_last()) + s.last().value
    }
}

/// The first minimal index is an index, is minimal, and every earlier value
/// is strictly larger (the first-occurrence tie-break); likewise dually for
/// the maximal index.
pub proof fn lemma_extrema_idx(s: Seq<ConvertedPoint>)
    requires
        s.len() > 0,
    ensures
        0 <= spec_min_idx(s) < s.len(),
        0 <= spec_max_idx(s) < s.len(),
        forall|i: int| 0 <= i < s.len() ==> s[spec_min_idx(s)].value <= (#[trigger] s[i]).value,
        forall|i: int| 0 <= i < spec_min_idx(s) ==> (#[trigger] s[i]).value > s[spec_min_idx(s)].value,
        forall|i: int| 0 <= i < s.len() ==> s[spec_max_idx(s)].value >= (#[trigger] s[i]).value,
        forall|i: int| 0 <= i < spec_max_idx(s) ==> (#[trigger] s[i]).value < s[spec_max_idx(s)].value,
    decreases s.len(),
{
    if s.len() > 1 {
        lemma_extrema_idx(s.drop_last());
        assert(forall|i: int| 0 <= i < s.len() - 1 ==> (#[trigger] s[i]) == s.drop_last()[i]);
    }
}

/// The sum lies between `len` times the minimum and `len` times the
/// maximum.
pub proof fn lemma_sum_bounds(s: Seq<ConvertedPoint>, lo: int, hi: int)
    requires
        forall|i: int| 0 <= i < s.len() ==> lo <= (#[trigger] s[i]).value <= hi,
    ensures
        lo * s.len() <= spec_sum(s) <= hi * s.len(),
    decreases s.len(),
{
    if s.len() == 0 {
        assert(lo * 0 == 0 && hi * 0 == 0) by (nonlinear_arith);
    } else {
        let s1 = s.drop_last();
        assert(forall|i: int| 0 <= i < s1.len() ==> (#[trigger] s1[i]) == s[i]);
        lemma_sum_bounds(s1, lo, hi);
        let n1 = s1.len() as int;
        assert(lo * (n1 + 1) == lo * n1 + lo && hi * (n1 + 1) == hi * n1 + hi)
            by (nonlinear_arith);
    }
}

/// Aggregator: first minimal and maximal points with their timestamps, and
/// the floor of the mean.  Ties go to the earliest point.
pub fn calculate_aggregates(series: &Vec<ConvertedPoint>) -> (r: Aggregates)
    requires
        0 < series@.len() <= 100,
        forall|i: int|
            0 <= i < series@.len() ==> -CONVERTED_ABS_BOUND < (#[trigger] series@[i]).value
                < CONVERTED_ABS_BOUND,
    ensures
        r.min == series@[spec_min_idx(series@)],
        r.max == series@[spec_max_idx(series@)],
        r.avg == spec_sum(series@) / series@.len() as int,
{
    let n = series.len();
    let mut min: ConvertedPoint = series[0];
    let mut max: ConvertedPoint = series[0];
    let mut sum: i128 = series[0].value;
    let mut i: usize = 1;
    proof {
        assert(series@.take(1).drop_last() =~= Seq::<ConvertedPoint>::empty());
        assert(series@.take(1).last() == series@[0]);
        assert(spec_sum(Seq::<ConvertedPoint>::empty()) == 0);
        assert(spec_sum(series@.take(1)) == series@[0].value);
        assert(spec_min_idx(series@.take(1)) == 0);
        assert(spec_max_idx(series@.take(1)) == 0);
    }
    while i < n
        invariant
            1 <= i <= n,
            n == series@.len(),
            n <= 100,
            forall|k: int|
                0 <= k < series@.len() ==> -CONVERTED_ABS_BOUND < (#[trigger] series@[k]).value
                    < CONVERTED_ABS_BOUND,
            min == series@[spec_min_idx(series@.take(i as int))],
            max == series@[spec_max_idx(series@.take(i as int))],
            0 <= spec_min_idx(series@.take(i as int)) < i,
            0 <= spec_max_idx(series@.take(i as int)) < i,
            sum == spec_sum(series@.take(i as int)),
            -CONVERTED_ABS_BOUND * i <= sum <= CONVERTED_ABS_BOUND * i,
        decreases n - i,
    {
        let p = series[i];
        proof {
            let t1 = series@.take(i + 1);
            assert(t1.drop_last() =~= series@.take(i as int));
            assert(t1.last() == series@[i as int]);
            assert(forall|k: int| 0 <= k < i ==> (#[trigger] t1[k]) == series@[k]);
            assert(-CONVERTED_ABS_BOUND * (i + 1) <= -CONVERTED_ABS_BOUND * i as int
                - CONVERTED_ABS_BOUND && CONVERTED_ABS_BOUND * i as int + CONVERTED_ABS_BOUND
                <= CONVERTED_ABS_BOUND * (i + 1)) by (nonlinear_arith)
                requires
                    0 <= i,
            ;
            assert(CONVERTED_ABS_BOUND as int * ((i + 1) as int) <= CONVERTED_ABS_BOUND as int
                * 101 && -(CONVERTED_ABS_BOUND as int * 101) <= -CONVERTED_ABS_BOUND as int * ((i
                + 1) as int)) by (nonlinear_arith)
                requires
                    1 <= i <= 100,
            ;
            assert(CONVERTED_ABS_BOUND as int * 101 < i128::MAX as int) by (nonlinear_arith);
        }
        if p.value < min.value {
            min = p;
        }
        if p.value > max.value {
            max = p;
        }
        sum = sum + p.value;
        i = i + 1;
    }
    proof {
        assert(series@.take(n as int) =~= series@);
        assert(-CONVERTED_ABS_BOUND * 100 > i128::MIN as int && CONVERTED_ABS_BOUND * 100
            < i128::MAX as int) by (nonlinear_arith);
        assert(-CONVERTED_ABS_BOUND * n as int >= -CONVERTED_ABS_BOUND * 100
            && CONVERTED_ABS_BOUND * n as int <= CONVERTED_ABS_BOUND * 100) by (nonlinear_arith)
            requires
                0 < n <= 100,
        ;
    }
    let avg = floor_div_i128(sum, n as i128);
    Aggregates { min, max, avg }
}

/// The mean lies between the extremes: for any non-empty series,
/// `min.value <= avg <= max.value`, with `min` and `max` the first-minimal
/// and first-maximal points of the series.
pub proof fn lemma_aggregate_bounds(s: Seq<ConvertedPoint>)
    requires
        s.len() > 0,
    ensures
        s[spec_min_idx(s)].value <= spec_sum(s) / s.len() as int,
        spec_sum(s) / s.len() as int <= s[spec_max_idx(s)].value,
{
    let n = s.len() as int;
    lemma_extrema_idx(s);
    let lo = s[spec_min_idx(s)].value as int;
    let hi = s[spec_max_idx(s)].value as int;
    lemma_sum_bounds(s, lo, hi);
    vstd::arithmetic::div_mod::lemma_div_is_ordered(lo * n, spec_sum(s), n);
    vstd::arithmetic::div_mod::lemma_div_is_ordered(spec_sum(s), hi * n, n);
    vstd::arithmetic::div_mod::lemma_div_multiples_vanish(lo, n);
    vstd::arithmetic::div_mod::lemma_div_multiples_vanish(hi, n);
}

/// Chart limits: the vertical range rounded outward to the locale's steps,
/// and the two colour thresholds.
#[derive(Clone, Copy, Debug, PartialEq, Eq, Structural)]
pub struct PlotLimits {
    pub chart_min: i128,
    pub chart_max: i128,
    pub low: i128,
    pub high: i128,
}

/// The chart ceiling: the maximum rounded up to the next step, at least the
/// floor value of twenty units.
pub open spec fn spec_chart_max(max_y: int, step: int, least: int) -> int {
    if max_y > least {
        ((max_y + step - 1) / step) * step
    } else {
        least
    }
}

/// The chart floor: a negative minimum rounded down to the next step below,
/// else zero.
pub open spec fn spec_chart_min(min_y: int, step: int) -> int {
    if min_y < 0 {
        (min_y / step) * step
    } else {
        0
    }
}

/// Computes the chart range and colour thresholds from the aggregates and
/// the locale's limit multiplier, entirely in the converted scale: the high
/// threshold and least ceiling are twenty units, the ceiling step ten, the
/// floor step and low threshold five.
pub fn calculate_limits(aggregates: &Aggregates, plot_limit_multiplier: i64) -> (r: PlotLimits)
    requires
        1 <= plot_limit_multiplier <= 1000,
        -CONVERTED_ABS_BOUND < aggregates.min.value < CONVERTED_ABS_BOUND,
        -CONVERTED_ABS_BOUND < aggregates.max.value < CONVERTED_ABS_BOUND,
    ensures
        r.low == 5_000_000_000_000_000 * plot_limit_multiplier as int,
        r.high == 20_000_000_000_000_000 * plot_limit_multiplier as int,
        r.chart_max == spec_chart_max(
            aggregates.max.value as int,
            10_000_000_000_000_000 * plot_limit_multiplier as int,
            20_000_000_000_000_000 * plot_limit_multiplier as int,
        ),
        r.chart_min == spec_chart_min(
            aggregates.min.value as int,
            5_000_000_000_000_000 * plot_limit_multiplier as int,
        ),
{
    let plm: i128 = plot_limit_multiplier as i128;
    let minimum_max_y: i128 = 20_000_000_000_000_000 * plm;
    let max_y_step: i128 = 10_000_000_000_000_000 * plm;
    let min_y_step: i128 = 5_000_000_000_000_000 * plm;
    let max_y = aggregates.max.value;
    let min_y = aggregates.min.value;
    let chart_max: i128 = if max_y > minimum_max_y {
        let q = ceil_div_i128(max_y, max_y_step);
        proof {
            assert((q as int) * (max_y_step as int) == (max_y_step as int) * (q as int))
                by (nonlinear_arith);
        }
        q * max_y_step
    } else {
        minimum_max_y
    };
    let chart_min: i128 = if min_y < 0 {
        let q = floor_div_i128(min_y, min_y_step);
        proof {
            vstd::arithmetic::div_mod::lemma_fundamental_div_mod(min_y as int, min_y_step as int);
            vstd::arithmetic::div_mod::lemma_mod_division_less_than_divisor(
                min_y as int,
                min_y_step as int,
            );
            assert((q as int) * (min_y_step as int) == (min_y_step as int) * (q as int))
                by (nonlinear_arith);
        }
        q * min_y_step
    } else {
        0
    };
    PlotLimits { chart_min, chart_max, low: min_y_step, high: minimum_max_y }
}

/// The colour band of a bar: above the high threshold, below the low one,
/// or normal.
#[derive(Clone, Copy, Debug, PartialEq, Eq, Structural)]
pub enum PriceBand {
    High,
    Low,
    Normal,
}

/// The band a value falls in.
pub open spec fn spec_price_band(value: int, high: int, low: int) -> PriceBand {
    if value > high {
        PriceBand::High
    } else if value < low {
        PriceBand::Low
    } else {
        PriceBand::Normal
    }
}

/// Classifies a bar's value against the colour thresholds.
pub fn color_by_value(value: i128, high: i128, low: i128) -> (r: PriceBand)
    ensures
        r == spec_price_band(value as int, high as int, low as int),
{
    if value > high {
        PriceBand::High
    } else if value < low {
        PriceBand::Low
    } else {
        PriceBand::Normal
    }
}

} // verus!
