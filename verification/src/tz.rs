//! Timezone handling on plain values: zone identifiers, UTC offsets from
//! the tz database, and local calendar-day and hour-of-day arithmetic.

use vstd::prelude::*;
use chrono::Offset;
use chrono::TimeZone;
use crate::mathutil::{floor_div_i64, euclid_mod_i64};
use crate::timestamp::spec_valid_date;
use crate::timestamp::spec_days_from_civil;

verus! {

/// Earliest instant the timezone functions accept, in epoch seconds.
pub const MIN_INSTANT: i64 = -30_000_000_000;

/// Latest instant the timezone functions accept, in epoch seconds.
pub const MAX_INSTANT: i64 = 270_000_000_000;

/// The timezones the locale table uses.
#[derive(Clone, Copy, Debug, PartialEq, Eq, Structural)]
pub enum TzId {
    Helsinki,
    Tallinn,
    Vilnius,
    Riga,
    Stockholm,
    Cet,
}

impl TzId {
    /// A numeric code standing for the zone in contracts.
    pub open spec fn code(self) -> int {
        match self {
            TzId::Helsinki => 0,
            TzId::Tallinn => 1,
            TzId::Vilnius => 2,
            TzId::Riga => 3,
            TzId::Stockholm => 4,
            TzId::Cet => 5,
        }
    }
}

/// The zone's UTC offset in seconds at an instant: what the tz database
/// answers.
pub uninterp spec fn tz_offset_sec(tz: int, t: int) -> int;

/// Relies on chrono_tz's `offset_from_utc_datetime` with chrono's
/// `fix().local_minus_utc()`: the zone's UTC offset at the instant, read
/// from the embedded tz database — a function of zone and instant alone.
/// A fixed offset is strictly within one day of zero.
#[verifier::external_body]
pub(crate) fn utc_offset_seconds(tz: &TzId, t: i64) -> (r: i64)
    requires
        MIN_INSTANT as int <= t <= MAX_INSTANT as int,
    ensures
        r == tz_offset_sec(tz.code(), t as int),
        -86400 < r < 86400,
{
    let zone = match tz {
        TzId::Helsinki => chrono_tz::Europe::Helsinki,
        TzId::Tallinn => chrono_tz::Europe::Tallinn,
        TzId::Vilnius => chrono_tz::Europe::Vilnius,
        TzId::Riga => chrono_tz::Europe::Riga,
        TzId::Stockholm => chrono_tz::Europe::Stockholm,
        TzId::Cet => chrono_tz::CET,
    };
    let utc = chrono::DateTime::from_timestamp(t, 0).unwrap().naive_utc();
    zone.offset_from_utc_datetime(&utc).fix().local_minus_utc() as i64
}

/// The local calendar day of an instant: days since the epoch of the date
/// the zone's wall clock shows.
pub open spec fn spec_local_day(tz: int, t: int) -> int {
    (t + tz_offset_sec(tz, t)) / 86400
}

/// The local hour of day of an instant, `0..=23`.
pub open spec fn spec_local_hour(tz: int, t: int) -> int {
    ((t + tz_offset_sec(tz, t)) % 86400) / 3600
}

/// Computes the local calendar day, as [`spec_local_day`] states.
pub fn local_day(tz: &TzId, t: i64) -> (r: i64)
    requires
        MIN_INSTANT as int <= t <= MAX_INSTANT as int,
    ensures
        r == spec_local_day(tz.code(), t as int),
{
    let off = utc_offset_seconds(tz, t);
    floor_div_i64(t + off, 86400)
}

/// Computes the local hour of day, as [`spec_local_hour`] states.
pub fn local_hour(tz: &TzId, t: i64) -> (r: i64)
    requires
        MIN_INSTANT as int <= t <= MAX_INSTANT as int,
    ensures
        r == spec_local_hour(tz.code(), t as int),
        0 <= r <= 23,
{
    let off = utc_offset_seconds(tz, t);
    let m = euclid_mod_i64(t + off, 86400);
    proof {
        vstd::arithmetic::div_mod::lemma_div_is_ordered(m as int, 86399, 3600);
        vstd::arithmetic::div_mod::lemma_div_pos_is_pos(m as int, 3600);
    }
    m / 3600
}

/// The unique instant at which the zone's wall clock reads midnight of the
/// civil date, where one exists.
pub uninterp spec fn local_midnight_epoch(tz: int, y: int, m: int, d: int) -> Option<int>;

/// Relies on chrono_tz's `from_local_datetime(..).single()`: the unique
/// instant whose local wall clock reads midnight of the date — `None` when
/// a transition skips or repeats it — a function of zone and date alone.
/// The instant lies strictly within one day of the date's UTC midnight,
/// fixed offsets being under a day.
#[verifier::external_body]
pub(crate) fn local_midnight_utc(tz: &TzId, y: i64, m: i64, d: i64) -> (r: Option<i64>)
    requires
        spec_valid_date(y as int, m as int, d as int),
    ensures
        r is Some <==> local_midnight_epoch(tz.code(), y as int, m as int, d as int) is Some,
        r matches Some(t) ==> Some(t as int) == local_midnight_epoch(
            tz.code(),
            y as int,
            m as int,
            d as int,
        ) && spec_days_from_civil(y as int, m as int, d as int) * 86400 - 86400 < t
            && t < spec_days_from_civil(y as int, m as int, d as int) * 86400 + 86400,
{
    let zone = match tz {
        TzId::Helsinki => chrono_tz::Europe::Helsinki,
        TzId::Tallinn => chrono_tz::Europe::Tallinn,
        TzId::Vilnius => chrono_tz::Europe::Vilnius,
        TzId::Riga => chrono_tz::Europe::Riga,
        TzId::Stockholm => chrono_tz::Europe::Stockholm,
        TzId::Cet => chrono_tz::CET,
    };
    let nd = chrono::NaiveDate::from_ymd_opt(y as i32, m as u32, d as u32).unwrap();
    let ndt = nd.and_hms_opt(0, 0, 0).unwrap();
    zone.from_local_datetime(&ndt).single().map(|dt| dt.timestamp())
}

} // verus!
