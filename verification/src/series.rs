//! The time-series data model: raw price points as the parser emits them,
//! and converted points after currency and VAT scaling.
//!
//! A raw value is in thousandths of the market reference currency per large
//! energy unit; a converted value is scaled by `CONVERTED_SCALE` relative to
//! the target denomination per small energy unit.

use vstd::prelude::*;

verus! {

/// The fixed-point denominator of a converted price value: a converted
/// `value` stands for `value / CONVERTED_SCALE` target-currency units.
/// It folds together the raw thousandths, the multiplier millionths, the
/// VAT-factor thousandths and the large-to-small energy-unit ratio.
pub const CONVERTED_SCALE: i128 = 1_000_000_000_000_000;

/// One point of the raw series: a UTC timestamp in epoch seconds and a
/// price in thousandths of the reference currency per large energy unit.
#[derive(Clone, Copy, Debug, PartialEq, Eq, Structural)]
pub struct PricePoint {
    pub ts: i64,
    pub value: i64,
}

/// One point of the converted series: the same timestamp, with the value
/// in the target denomination scaled by [`CONVERTED_SCALE`].
#[derive(Clone, Copy, Debug, PartialEq, Eq, Structural)]
pub struct ConvertedPoint {
    pub ts: i64,
    pub value: i128,
}

} // verus!
