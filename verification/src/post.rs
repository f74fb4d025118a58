//! What the downstream collaborators receive: the post text composed from
//! the aggregates and the locale bundle, the duplicate-post title search,
//! and the UTC period stamps the market-API query is built from.

use vstd::prelude::*;
use crate::locale::Localization;
use crate::text::{
    spec_fixed2, spec_fixed1, spec_padded, spec_contains, format_fixed2, format_fixed1,
    push_padded, str_contains,
};
use crate::transform::{Aggregates, MAX_VAT_TENTHS, CONVERTED_ABS_BOUND};
use crate::tz::{TzId, spec_local_hour, local_hour, local_midnight_epoch, local_midnight_utc,
    MIN_INSTANT, MAX_INSTANT};
use crate::timestamp::{spec_valid_date, spec_days_from_civil, days_from_civil,
    civil_from_day_near, MIN_YEAR, MAX_YEAR, SECS_PER_DAY};
use crate::mathutil::{floor_div_i64, euclid_mod_i64};

verus! {

/// The hour range label of a point: its Helsinki local hour and the hour
/// one hour later, two digits each, dash separated.
pub open spec fn spec_timerange(t: i64) -> Seq<char> {
    spec_padded(spec_local_hour(TzId::Helsinki.code(), t as int), 2) + "-"@ + spec_padded(
        spec_local_hour(TzId::Helsinki.code(), t as int + 3600),
        2,
    )
}

fn timerange(t: i64) -> (r: String)
    requires
        MIN_INSTANT as int <= t,
        t + 3600 <= MAX_INSTANT as int,
    ensures
        r@ == spec_timerange(t),
{
    let hz = TzId::Helsinki;
    let h1 = local_hour(&hz, t);
    let h2 = local_hour(&hz, t + 3600);
    let mut s = String::new();
    push_padded(&mut s, h1 as u64, 2);
    s.append("-");
    proof {
        reveal_strlit("-");
    }
    push_padded(&mut s, h2 as u64, 2);
    proof {
        assert(s@ =~= spec_timerange(t));
    }
    s
}

/// One statistics line: label, colon, the value to two decimals, the
/// currency name per unit, and for the extremes the hour range.
pub open spec fn spec_stat_line(
    label: Seq<char>,
    value: int,
    sep: Seq<char>,
    currency: Seq<char>,
) -> Seq<char> {
    label + ": "@ + spec_fixed2(value, sep) + " "@ + currency + "/kWh"@
}

/// The full post text: title and day on the first line, then the average,
/// minimum and maximum lines, and a VAT caption only when VAT is positive.
pub open spec fn spec_post_text(
    aggregates: Aggregates,
    loc: crate::locale::LocModel,
    day_title: Seq<char>,
    vat: i64,
) -> Seq<char> {
    let header = loc.post_title + " "@ + day_title;
    let avg_line = spec_stat_line(loc.post_avg, aggregates.avg as int, loc.decimal_sep,
        loc.currency_name);
    let min_line = spec_stat_line(loc.post_min, aggregates.min.value as int, loc.decimal_sep,
        loc.currency_name) + " ("@ + loc.post_at + " "@ + spec_timerange(aggregates.min.ts)
        + ")"@;
    let max_line = spec_stat_line(loc.post_max, aggregates.max.value as int, loc.decimal_sep,
        loc.currency_name) + " ("@ + loc.post_at + " "@ + spec_timerange(aggregates.max.ts)
        + ")"@;
    let vat_part = if vat > 0 {
        "\n\n"@ + loc.post_vat + " "@ + spec_fixed1(vat as int, loc.decimal_sep) + " %"@
    } else {
        Seq::<char>::empty()
    };
    header + "\n\n"@ + avg_line + "\n"@ + min_line + "\n"@ + max_line + vat_part
}

/// Composes the post text, as [`spec_post_text`] states.  VAT zero
/// suppresses the VAT caption entirely.
#[verifier::rlimit(100)]
pub fn compose_post_text(
    aggregates: &Aggregates,
    localization: &Localization,
    day_title: &str,
    vat: i64,
) -> (r: String)
    requires
        0 <= vat <= MAX_VAT_TENTHS as int,
        MIN_INSTANT as int <= aggregates.min.ts,
        aggregates.min.ts + 3600 <= MAX_INSTANT as int,
        MIN_INSTANT as int <= aggregates.max.ts,
        aggregates.max.ts + 3600 <= MAX_INSTANT as int,
        -CONVERTED_ABS_BOUND as int <= aggregates.avg as int <= CONVERTED_ABS_BOUND as int,
        -CONVERTED_ABS_BOUND as int <= aggregates.min.value as int <= CONVERTED_ABS_BOUND as int,
        -CONVERTED_ABS_BOUND as int <= aggregates.max.value as int <= CONVERTED_ABS_BOUND as int,
    ensures
        r@ == spec_post_text(*aggregates, localization@, day_title@, vat),
{
    proof {
        reveal_strlit(" ");
        reveal_strlit(": ");
        reveal_strlit(" (");
        reveal_strlit(")");
        reveal_strlit("/kWh");
        reveal_strlit("\n");
        reveal_strlit("\n\n");
        reveal_strlit(" %");
    }
    let mut header = String::new();
    header.append(localization.post_title.as_str());
    header.append(" ");
    header.append(day_title);
    proof {
        assert(header@ =~= localization@.post_title + " "@ + day_title@);
    }
    let mut avg_line = String::new();
    avg_line.append(localization.post_avg.as_str());
    avg_line.append(": ");
    let avg_str = format_fixed2(aggregates.avg, localization.decimal_sep.as_str());
    avg_line.append(avg_str.as_str());
    avg_line.append(" ");
    avg_line.append(localization.currency_name.as_str());
    avg_line.append("/kWh");
    proof {
        assert(avg_line@ =~= spec_stat_line(
            localization@.post_avg,
            aggregates.avg as int,
            localization@.decimal_sep,
            localization@.currency_name,
        ));
    }
    let mut min_line = String::new();
    min_line.append(localization.post_min.as_str());
    min_line.append(": ");
    let min_str = format_fixed2(aggregates.min.value, localization.decimal_sep.as_str());
    min_line.append(min_str.as_str());
    min_line.append(" ");
    min_line.append(localization.currency_name.as_str());
    min_line.append("/kWh");
    min_line.append(" (");
    min_line.append(localization.post_at.as_str());
    min_line.append(" ");
    let min_range = timerange(aggregates.min.ts);
    min_line.append(min_range.as_str());
    min_line.append(")");
    proof {
        assert(min_line@ =~= spec_stat_line(
            localization@.post_min,
            aggregates.min.value as int,
            localization@.decimal_sep,
            localization@.currency_name,
        ) + " ("@ + localization@.post_at + " "@ + spec_timerange(aggregates.min.ts) + ")"@);
    }
    let mut max_line = String::new();
    max_line.append(localization.post_max.as_str());
    max_line.append(": ");
    let max_str = format_fixed2(aggregates.max.value, localization.decimal_sep.as_str());
    max_line.append(max_str.as_str());
    max_line.append(" ");
    max_line.append(localization.currency_name.as_str());
    max_line.append("/kWh");
    max_line.append(" (");
    max_line.append(localization.post_at.as_str());
    max_line.append(" ");
    let max_range = timerange(aggregates.max.ts);
    max_line.append(max_range.as_str());
    max_line.append(")");
    proof {
        assert(max_line@ =~= spec_stat_line(
            localization@.post_max,
            aggregates.max.value as int,
            localization@.decimal_sep,
            localization@.currency_name,
        ) + " ("@ + localization@.post_at + " "@ + spec_timerange(aggregates.max.ts) + ")"@);
    }
    let mut s = header;
    s.append("\n\n");
    s.append(avg_line.as_str());
    s.append("\n");
    s.append(min_line.as_str());
    s.append("\n");
    s.append(max_line.as_str());
    if vat > 0 {
        s.append("\n\n");
        s.append(localization.post_vat.as_str());
        s.append(" ");
        let vat_str = format_fixed1(vat, localization.decimal_sep.as_str());
        s.append(vat_str.as_str());
        s.append(" %");
    }
    proof {
        assert(s@ =~= spec_post_text(*aggregates, localization@, day_title@, vat));
    }
    s
}

/// Whether any of the fetched post texts contains the day title: the
/// duplicate-post check's decision.
pub fn posts_contain_title(texts: &Vec<String>, title: &str) -> (r: bool)
    ensures
        r == exists|i: int|
            0 <= i < texts@.len() && spec_contains((#[trigger] texts@[i])@, title@),
{
    let n = texts.len();
    let mut i: usize = 0;
    while i < n
        invariant
            i <= n,
            n == texts@.len(),
            forall|k: int| 0 <= k < i ==> !spec_contains((#[trigger] texts@[k])@, title@),
        decreases n - i,
    {
        if str_contains(texts[i].as_str(), title) {
            return true;
        }
        i = i + 1;
    }
    false
}

/// A UTC stamp `YYYYMMDDHHMM` of the civil reading of an instant.
pub open spec fn spec_stamp(y: int, m: int, d: int, h: int, mi: int) -> Seq<char> {
    spec_padded(y, 4) + spec_padded(m, 2) + spec_padded(d, 2) + spec_padded(h, 2) + spec_padded(
        mi,
        2,
    )
}

/// `s` is the `YYYYMMDDHHMM` rendering of the instant `t` read as UTC
/// civil time.
pub open spec fn spec_stamp_of(s: Seq<char>, t: int) -> bool {
    exists|y: int, m: int, d: int|
        spec_valid_date(y, m, d) && #[trigger] spec_days_from_civil(y, m, d) == t / 86400 && s
            == spec_stamp(y, m, d, (t % 86400) / 3600, ((t % 86400) % 3600) / 60)
}

fn utc_stamp(t: i64, hint_y: i64, hint_m: i64, hint_d: i64) -> (r: String)
    requires
        spec_valid_date(hint_y as int, hint_m as int, hint_d as int),
        MIN_YEAR as int + 1 <= hint_y <= MAX_YEAR as int - 1,
        (spec_days_from_civil(hint_y as int, hint_m as int, hint_d as int) - 1) * 86400 <= t
            as int,
        (t as int) < (spec_days_from_civil(hint_y as int, hint_m as int, hint_d as int) + 2)
            * 86400,
    ensures
        spec_stamp_of(r@, t as int),
{
    let z = floor_div_i64(t, 86400);
    let rem = euclid_mod_i64(t, 86400);
    proof {
        let base = spec_days_from_civil(hint_y as int, hint_m as int, hint_d as int);
        vstd::arithmetic::div_mod::lemma_div_is_ordered((base - 1) * 86400, t as int, 86400);
        vstd::arithmetic::div_mod::lemma_div_by_multiple_is_strongly_ordered(
            t as int,
            (base + 2) * 86400,
            base + 2,
            86400,
        );
        vstd::arithmetic::div_mod::lemma_div_multiples_vanish(base - 1, 86400);
        vstd::arithmetic::div_mod::lemma_div_multiples_vanish(base + 2, 86400);
    }
    let (y, m, d) = civil_from_day_near(z, hint_y, hint_m, hint_d);
    let h = rem / 3600;
    let mi = (rem % 3600) / 60;
    proof {
        vstd::arithmetic::div_mod::lemma_div_pos_is_pos(rem as int, 3600);
        vstd::arithmetic::div_mod::lemma_fundamental_div_mod(rem as int, 3600);
        vstd::arithmetic::div_mod::lemma_mod_division_less_than_divisor(rem as int, 3600);
        vstd::arithmetic::div_mod::lemma_div_pos_is_pos(rem as int % 3600, 60);
    }
    let mut s = String::new();
    push_padded(&mut s, y as u64, 4);
    push_padded(&mut s, m as u64, 2);
    push_padded(&mut s, d as u64, 2);
    push_padded(&mut s, h as u64, 2);
    push_padded(&mut s, mi as u64, 2);
    proof {
        assert(spec_valid_date(y as int, m as int, d as int) && spec_days_from_civil(
            y as int,
            m as int,
            d as int,
        ) == t as int / 86400 && s@ == spec_stamp(
            y as int,
            m as int,
            d as int,
            (t as int % 86400) / 3600,
            ((t as int % 86400) % 3600) / 60,
        )) by {
            assert(s@ =~= spec_stamp(
                y as int,
                m as int,
                d as int,
                (t as int % 86400) / 3600,
                ((t as int % 86400) % 3600) / 60,
            ));
        }
    }
    s
}

/// The UTC period bounds of the market-API query for a local day: the
/// stamps of the day's local midnight and of the instant one day later,
/// or `None` where a transition makes local midnight skipped or ambiguous.
pub fn period_range(tz: &TzId, y: i64, m: i64, d: i64) -> (r: Option<(String, String)>)
    requires
        spec_valid_date(y as int, m as int, d as int),
        MIN_YEAR as int + 1 <= y <= MAX_YEAR as int - 2,
    ensures
        r is Some <==> local_midnight_epoch(tz.code(), y as int, m as int, d as int) is Some,
        r matches Some(p) ==> {
            let t0 = local_midnight_epoch(tz.code(), y as int, m as int, d as int)->0;
            spec_stamp_of(p.0@, t0) && spec_stamp_of(p.1@, t0 + 86400)
        },
{
    let t0 = match local_midnight_utc(tz, y, m, d) {
        Some(t) => t,
        None => {
            return None;
        },
    };
    let base = days_from_civil(y, m, d);
    let start = utc_stamp(t0, y, m, d);
    proof {
        assert((spec_days_from_civil(y as int, m as int, d as int) - 1) * 86400
            == spec_days_from_civil(y as int, m as int, d as int) * 86400 - 86400
            && (spec_days_from_civil(y as int, m as int, d as int) + 2) * 86400
            == spec_days_from_civil(y as int, m as int, d as int) * 86400 + 2 * 86400)
            by (nonlinear_arith);
    }
    let end = utc_stamp(t0 + SECS_PER_DAY, y, m, d);
    Some((start, end))
}

} // verus!
