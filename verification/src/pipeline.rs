//! The daily run: filter the parsed series to the target local day,
//! convert to the locale's denomination with VAT, enforce the point-count
//! invariant, and aggregate.

use vstd::prelude::*;
use crate::series::{PricePoint, ConvertedPoint};
use crate::locale::Localization;
use crate::parser::{parse_xml, spec_parse_doc, ParseError};
use crate::transform::{
    filter_by_local_day, convert_series, calculate_aggregates, lemma_extrema_idx,
    lemma_aggregate_bounds, spec_filter_day, spec_convert_series, spec_keep_point, spec_min_idx,
    spec_max_idx, spec_sum, Aggregates, MAX_VAT_TENTHS, MAX_MULTIPLIER, CONVERTED_ABS_BOUND,
};
use crate::tz::{MIN_INSTANT, MAX_INSTANT};

verus! {

/// Why a run was abandoned: the feed's price field was malformed, or the
/// day's filtered series missed the 23..=25 point-count invariant.
#[derive(Clone, Copy, Debug, PartialEq, Eq, Structural)]
pub enum PipelineError {
    InvalidPrice,
    CountOutOfRange(usize),
}

/// A day's result: the filtered, converted series and its aggregates.
#[derive(Debug, Clone)]
pub struct DayReport {
    pub series: Vec<ConvertedPoint>,
    pub aggregates: Aggregates,
}

/// Every point the filter keeps satisfies the keep predicate.
pub proof fn lemma_filter_elements(s: Seq<PricePoint>, tz: int, day: int)
    ensures
        forall|i: int|
            0 <= i < spec_filter_day(s, tz, day).len() ==> spec_keep_point(
                #[trigger] spec_filter_day(s, tz, day)[i],
                tz,
                day,
            ),
    decreases s.len(),
{
    if s.len() > 0 {
        lemma_filter_elements(s.drop_last(), tz, day);
        let rest = spec_filter_day(s.drop_last(), tz, day);
        if spec_keep_point(s.last(), tz, day) {
            assert(spec_filter_day(s, tz, day) == rest.push(s.last()));
            assert forall|i: int| 0 <= i < spec_filter_day(s, tz, day).len() implies
                spec_keep_point(#[trigger] spec_filter_day(s, tz, day)[i], tz, day) by {
                if i < rest.len() {
                    assert(rest.push(s.last())[i] == rest[i]);
                } else {
                    assert(rest.push(s.last())[i] == s.last());
                }
            }
        } else {
            assert(spec_filter_day(s, tz, day) == rest);
        }
    }
}

/// The day's series and aggregates from the parsed raw series: the points
/// of the target local day, converted, exactly when their count lies in
/// 23..=25; the count error names the offending count.
pub fn run_day(points: &Vec<PricePoint>, localization: &Localization, vat: i64, day: i64) -> (r:
    Result<DayReport, PipelineError>)
    requires
        0 <= localization@.currency_multiplier <= MAX_MULTIPLIER as int,
        0 <= vat <= MAX_VAT_TENTHS as int,
    ensures
        ({
            let f = spec_filter_day(points@, localization@.timezone.code(), day as int);
            let c = spec_convert_series(f, localization@.currency_multiplier as int, vat as int);
            &&& (r is Ok <==> 23 <= c.len() <= 25)
            &&& (r matches Err(e) ==> e == PipelineError::CountOutOfRange(c.len() as usize))
            &&& (r matches Ok(rep) ==> {
                &&& rep.series@ == c
                &&& rep.aggregates.min == c[spec_min_idx(c)]
                &&& rep.aggregates.max == c[spec_max_idx(c)]
                &&& rep.aggregates.avg == spec_sum(c) / c.len() as int
                &&& rep.aggregates.min.value <= rep.aggregates.avg <= rep.aggregates.max.value
                &&& MIN_INSTANT as int <= rep.aggregates.min.ts <= MAX_INSTANT as int - 86400
                &&& MIN_INSTANT as int <= rep.aggregates.max.ts <= MAX_INSTANT as int - 86400
                &&& -CONVERTED_ABS_BOUND < rep.aggregates.min.value < CONVERTED_ABS_BOUND
                &&& -CONVERTED_ABS_BOUND < rep.aggregates.max.value < CONVERTED_ABS_BOUND
                &&& -CONVERTED_ABS_BOUND < rep.aggregates.avg < CONVERTED_ABS_BOUND
            })
        }),
{
    let filtered = filter_by_local_day(points, &localization.timezone, day);
    let converted = convert_series(&filtered, localization.currency_multiplier, vat);
    let n = converted.len();
    if n < 23 || n > 25 {
        return Err(PipelineError::CountOutOfRange(n));
    }
    proof {
        lemma_filter_elements(points@, localization@.timezone.code(), day as int);
        lemma_extrema_idx(converted@);
        lemma_aggregate_bounds(converted@);
    }
    let aggregates = calculate_aggregates(&converted);
    Ok(DayReport { series: converted, aggregates })
}

/// The whole core pipeline from the fetched document text: parse, filter,
/// convert, check the count invariant, aggregate.  A malformed price field
/// is `InvalidPrice`; a count outside 23..=25 names the count.
pub fn run_from_document(prices_xml: &str, localization: &Localization, vat: i64, day: i64) -> (r:
    Result<DayReport, PipelineError>)
    requires
        0 <= localization@.currency_multiplier <= MAX_MULTIPLIER as int,
        0 <= vat <= MAX_VAT_TENTHS as int,
    ensures
        r matches Err(PipelineError::InvalidPrice) <==> spec_parse_doc(prices_xml@) is None,
        spec_parse_doc(prices_xml@) matches Some(pts) ==> ({
            let f = spec_filter_day(pts, localization@.timezone.code(), day as int);
            let c = spec_convert_series(f, localization@.currency_multiplier as int, vat as int);
            &&& (r is Ok <==> 23 <= c.len() <= 25)
            &&& (r matches Err(e) ==> e == PipelineError::CountOutOfRange(c.len() as usize))
            &&& (r matches Ok(rep) ==> {
                &&& rep.series@ == c
                &&& rep.aggregates.min == c[spec_min_idx(c)]
                &&& rep.aggregates.max == c[spec_max_idx(c)]
                &&& rep.aggregates.avg == spec_sum(c) / c.len() as int
            })
        }),
{
    let points = match parse_xml(prices_xml) {
        Ok(p) => p,
        Err(ParseError::InvalidPrice) => {
            return Err(PipelineError::InvalidPrice);
        },
    };
    run_day(&points, localization, vat, day)
}

} // verus!
