//! The localization resolver: a closed table from locale code to the
//! immutable bundle of timezone, display strings, numeric convention and
//! currency multiplier, with a defined fallback bundle for unknown codes;
//! and the currency-rate snapshot it draws multipliers from.

use vstd::prelude::*;
use crate::tz::TzId;
use crate::text::str_eq;
use crate::transform::MAX_MULTIPLIER;
use crate::timestamp::spec_valid_date;

verus! {

/// Largest per-currency rate accepted, in millionths: a thousand units of
/// the target currency per reference unit.
pub const MAX_RATE_MICRO: i64 = 1_000_000_000;

/// The currency-rate snapshot, in millionths of the target unit per
/// reference unit.  The reference currency itself is fixed at one hundred
/// hundredths; the Swedish rate carries the extra hundredfold subdivision.
#[derive(Clone, Copy, Debug, PartialEq, Eq, Structural)]
pub struct Currencies {
    pub eur_c: i64,
    pub dkk: i64,
    pub nok: i64,
    pub sek_ore: i64,
}

/// Every rate of the snapshot is nonnegative and within the multiplier
/// bound.
pub open spec fn spec_currencies_wf(c: Currencies) -> bool {
    0 <= c.eur_c <= MAX_MULTIPLIER as int && 0 <= c.dkk <= MAX_MULTIPLIER as int && 0 <= c.nok
        <= MAX_MULTIPLIER as int && 0 <= c.sek_ore <= MAX_MULTIPLIER as int
}

impl Currencies {
    /// Builds the snapshot from the three fetched rates: the reference
    /// multiplier is the fixed hundred (in millionths), and the Swedish
    /// rate is scaled a further hundredfold into its subdivision.
    pub fn from_rates(dkk_micro: i64, nok_micro: i64, sek_micro: i64) -> (r: Currencies)
        requires
            0 <= dkk_micro <= MAX_RATE_MICRO as int,
            0 <= nok_micro <= MAX_RATE_MICRO as int,
            0 <= sek_micro <= MAX_RATE_MICRO as int,
        ensures
            r.eur_c == 100_000_000,
            r.dkk == dkk_micro,
            r.nok == nok_micro,
            r.sek_ore == sek_micro * 100,
            spec_currencies_wf(r),
    {
        Currencies { eur_c: 100_000_000, dkk: dkk_micro, nok: nok_micro, sek_ore: sek_micro * 100 }
    }
}

/// The mathematical content of a [`Localization`] bundle.
#[verifier::ext_equal]
pub struct LocModel {
    pub timezone: TzId,
    pub chrono_locale: Seq<char>,
    pub day_name_locale: Seq<char>,
    pub decimal_sep: Seq<char>,
    pub plot_y_desc: Seq<char>,
    pub plot_x_desc: Seq<char>,
    pub plot_limit_multiplier: i64,
    pub post_title: Seq<char>,
    pub post_at: Seq<char>,
    pub post_avg: Seq<char>,
    pub post_min: Seq<char>,
    pub post_max: Seq<char>,
    pub post_vat: Seq<char>,
    pub currency_name: Seq<char>,
    pub currency_multiplier: i64,
}

/// The locale bundle: timezone, formatting locales, decimal separator,
/// display strings and the currency multiplier (in millionths).
#[derive(Debug, Clone)]
pub struct Localization {
    pub timezone: TzId,
    pub chrono_locale: String,
    pub day_name_locale: String,
    pub decimal_sep: String,
    pub plot_y_desc: String,
    pub plot_x_desc: String,
    pub plot_limit_multiplier: i64,
    pub post_title: String,
    pub post_at: String,
    pub post_avg: String,
    pub post_min: String,
    pub post_max: String,
    pub post_vat: String,
    pub currency_name: String,
    pub currency_multiplier: i64,
}

impl View for Localization {
    type V = LocModel;

    open spec fn view(&self) -> LocModel {
        LocModel {
            timezone: self.timezone,
            chrono_locale: self.chrono_locale@,
            day_name_locale: self.day_name_locale@,
            decimal_sep: self.decimal_sep@,
            plot_y_desc: self.plot_y_desc@,
            plot_x_desc: self.plot_x_desc@,
            plot_limit_multiplier: self.plot_limit_multiplier,
            post_title: self.post_title@,
            post_at: self.post_at@,
            post_avg: self.post_avg@,
            post_min: self.post_min@,
            post_max: self.post_max@,
            post_vat: self.post_vat@,
            currency_name: self.currency_name@,
            currency_multiplier: self.currency_multiplier,
        }
    }
}

/// The fallback bundle of an unlisted code: central European time, English
/// generic strings, the input code kept for date formatting, and the
/// reference-currency multiplier.
pub open spec fn spec_default_bundle(code: Seq<char>, c: Currencies) -> LocModel {
    LocModel {
        timezone: TzId::Cet,
        chrono_locale: code,
        day_name_locale: "en_GB"@,
        decimal_sep: "."@,
        plot_y_desc: "price c/kWh"@,
        plot_x_desc: "hour"@,
        plot_limit_multiplier: 1,
        post_title: "Electricity spot prices"@,
        post_at: "at"@,
        post_avg: "Average"@,
        post_min: "Minimum"@,
        post_max: "Maximum"@,
        post_vat: ""@,
        currency_name: "c"@,
        currency_multiplier: c.eur_c,
    }
}

/// The closed locale table: the five listed codes each fix their bundle,
/// and every other code resolves to the fallback bundle.
pub open spec fn spec_resolve(code: Seq<char>, c: Currencies) -> LocModel {
    if code == "fi_FI"@ {
        LocModel {
            timezone: TzId::Helsinki,
            chrono_locale: "fi_FI"@,
            day_name_locale: "fi_FI"@,
            decimal_sep: ","@,
            plot_y_desc: "hinta c/kWh"@,
            plot_x_desc: "tunti"@,
            plot_limit_multiplier: 1,
            post_title: "P\u{f6}rssis\u{e4}hk\u{f6}n spot-hinnat"@,
            post_at: "klo"@,
            post_avg: "Keskiarvo"@,
            post_min: "Minimi"@,
            post_max: "Maksimi"@,
            post_vat: "Hinnat sis\u{e4}lt\u{e4}v\u{e4}t alv."@,
            currency_name: "c"@,
            currency_multiplier: c.eur_c,
        }
    } else if code == "et_EE"@ {
        LocModel {
            timezone: TzId::Tallinn,
            chrono_locale: "et_EE"@,
            day_name_locale: "en_GB"@,
            decimal_sep: ","@,
            plot_y_desc: "price c/kWh"@,
            plot_x_desc: "hour"@,
            plot_limit_multiplier: 1,
            post_title: "Electricity spot price"@,
            post_at: "at"@,
            post_avg: "Average"@,
            post_min: "Minimum"@,
            post_max: "Maximum"@,
            post_vat: ""@,
            currency_name: "c"@,
            currency_multiplier: c.eur_c,
        }
    } else if code == "lt_LT"@ {
        LocModel {
            timezone: TzId::Vilnius,
            chrono_locale: "lt_LT"@,
            day_name_locale: "en_GB"@,
            decimal_sep: ","@,
            plot_y_desc: "price c/kWh"@,
            plot_x_desc: "hour"@,
            plot_limit_multiplier: 1,
            post_title: "Electricity spot price"@,
            post_at: "at"@,
            post_avg: "Average"@,
            post_min: "Minimum"@,
            post_max: "Maximum"@,
            post_vat: ""@,
            currency_name: "c"@,
            currency_multiplier: c.eur_c,
        }
    } else if code == "lv_LV"@ {
        LocModel {
            timezone: TzId::Riga,
            chrono_locale: "lv_LV"@,
            day_name_locale: "en_GB"@,
            decimal_sep: ","@,
            plot_y_desc: "price c/kWh"@,
            plot_x_desc: "hour"@,
            plot_limit_multiplier: 1,
            post_title: "Electricity spot price"@,
            post_at: "at"@,
            post_avg: "Average"@,
            post_min: "Minimum"@,
            post_max: "Maximum"@,
            post_vat: ""@,
            currency_name: "c"@,
            currency_multiplier: c.eur_c,
        }
    } else if code == "sv_SE"@ {
        LocModel {
            timezone: TzId::Stockholm,
            chrono_locale: "sv_SE"@,
            day_name_locale: "en_GB"@,
            decimal_sep: ","@,
            plot_y_desc: "price \u{f6}re/kWh"@,
            plot_x_desc: "hour"@,
            plot_limit_multiplier: 10,
            post_title: "Electricity spot price"@,
            post_at: "at"@,
            post_avg: "Average"@,
            post_min: "Minimum"@,
            post_max: "Maximum"@,
            post_vat: ""@,
            currency_name: "\u{f6}re"@,
            currency_multiplier: c.sek_ore,
        }
    } else {
        spec_default_bundle(code, c)
    }
}

/// An unlisted locale code resolves to the fallback bundle: never an error.
pub proof fn lemma_unknown_locale_defaults(code: Seq<char>, c: Currencies)
    requires
        code != "fi_FI"@,
        code != "et_EE"@,
        code != "lt_LT"@,
        code != "lv_LV"@,
        code != "sv_SE"@,
    ensures
        spec_resolve(code, c) == spec_default_bundle(code, c),
{
}

/// Localization resolver: the bundle of the locale code, as
/// [`spec_resolve`] states.  The multiplier inherits the snapshot's bound.
pub fn get_localization(locale: &str, currencies: &Currencies) -> (r: Localization)
    requires
        spec_currencies_wf(*currencies),
    ensures
        r@ == spec_resolve(locale@, *currencies),
        0 <= r@.currency_multiplier <= MAX_MULTIPLIER as int,
        1 <= r@.plot_limit_multiplier <= 1000,
{
    if str_eq(locale, "fi_FI") {
        let r = Localization {
            timezone: TzId::Helsinki,
            chrono_locale: "fi_FI".to_owned(),
            day_name_locale: "fi_FI".to_owned(),
            decimal_sep: ",".to_owned(),
            plot_y_desc: "hinta c/kWh".to_owned(),
            plot_x_desc: "tunti".to_owned(),
            plot_limit_multiplier: 1,
            post_title: "P\u{f6}rssis\u{e4}hk\u{f6}n spot-hinnat".to_owned(),
            post_at: "klo".to_owned(),
            post_avg: "Keskiarvo".to_owned(),
            post_min: "Minimi".to_owned(),
            post_max: "Maksimi".to_owned(),
            post_vat: "Hinnat sis\u{e4}lt\u{e4}v\u{e4}t alv.".to_owned(),
            currency_name: "c".to_owned(),
            currency_multiplier: currencies.eur_c,
        };
        proof {
            assert(r@ =~= spec_resolve(locale@, *currencies));
        }
        r
    } else if str_eq(locale, "et_EE") {
        let r = Localization {
            timezone: TzId::Tallinn,
            chrono_locale: "et_EE".to_owned(),
            day_name_locale: "en_GB".to_owned(),
            decimal_sep: ",".to_owned(),
            plot_y_desc: "price c/kWh".to_owned(),
            plot_x_desc: "hour".to_owned(),
            plot_limit_multiplier: 1,
            post_title: "Electricity spot price".to_owned(),
            post_at: "at".to_owned(),
            post_avg: "Average".to_owned(),
            post_min: "Minimum".to_owned(),
            post_max: "Maximum".to_owned(),
            post_vat: "".to_owned(),
            currency_name: "c".to_owned(),
            currency_multiplier: currencies.eur_c,
        };
        proof {
            assert(r@ =~= spec_resolve(locale@, *currencies));
        }
        r
    } else if str_eq(locale, "lt_LT") {
        let r = Localization {
            timezone: TzId::Vilnius,
            chrono_locale: "lt_LT".to_owned(),
            day_name_locale: "en_GB".to_owned(),
            decimal_sep: ",".to_owned(),
            plot_y_desc: "price c/kWh".to_owned(),
            plot_x_desc: "hour".to_owned(),
            plot_limit_multiplier: 1,
            post_title: "Electricity spot price".to_owned(),
            post_at: "at".to_owned(),
            post_avg: "Average".to_owned(),
            post_min: "Minimum".to_owned(),
            post_max: "Maximum".to_owned(),
            post_vat: "".to_owned(),
            currency_name: "c".to_owned(),
            currency_multiplier: currencies.eur_c,
        };
        proof {
            assert(r@ =~= spec_resolve(locale@, *currencies));
        }
        r
    } else if str_eq(locale, "lv_LV") {
        let r = Localization {
            timezone: TzId::Riga,
            chrono_locale: "lv_LV".to_owned(),
            day_name_locale: "en_GB".to_owned(),
            decimal_sep: ",".to_owned(),
            plot_y_desc: "price c/kWh".to_owned(),
            plot_x_desc: "hour".to_owned(),
            plot_limit_multiplier: 1,
            post_title: "Electricity spot price".to_owned(),
            post_at: "at".to_owned(),
            post_avg: "Average".to_owned(),
            post_min: "Minimum".to_owned(),
            post_max: "Maximum".to_owned(),
            post_vat: "".to_owned(),
            currency_name: "c".to_owned(),
            currency_multiplier: currencies.eur_c,
        };
        proof {
            assert(r@ =~= spec_resolve(locale@, *currencies));
        }
        r
    } else if str_eq(locale, "sv_SE") {
        let r = Localization {
            timezone: TzId::Stockholm,
            chrono_locale: "sv_SE".to_owned(),
            day_name_locale: "en_GB".to_owned(),
            decimal_sep: ",".to_owned(),
            plot_y_desc: "price \u{f6}re/kWh".to_owned(),
            plot_x_desc: "hour".to_owned(),
            plot_limit_multiplier: 10,
            post_title: "Electricity spot price".to_owned(),
            post_at: "at".to_owned(),
            post_avg: "Average".to_owned(),
            post_min: "Minimum".to_owned(),
            post_max: "Maximum".to_owned(),
            post_vat: "".to_owned(),
            currency_name: "\u{f6}re".to_owned(),
            currency_multiplier: currencies.sek_ore,
        };
        proof {
            assert(r@ =~= spec_resolve(locale@, *currencies));
        }
        r
    } else {
        let r = Localization {
            timezone: TzId::Cet,
            chrono_locale: locale.to_owned(),
            day_name_locale: "en_GB".to_owned(),
            decimal_sep: ".".to_owned(),
            plot_y_desc: "price c/kWh".to_owned(),
            plot_x_desc: "hour".to_owned(),
            plot_limit_multiplier: 1,
            post_title: "Electricity spot prices".to_owned(),
            post_at: "at".to_owned(),
            post_avg: "Average".to_owned(),
            post_min: "Minimum".to_owned(),
            post_max: "Maximum".to_owned(),
            post_vat: "".to_owned(),
            currency_name: "c".to_owned(),
            currency_multiplier: currencies.eur_c,
        };
        proof {
            assert(r@ =~= spec_resolve(locale@, *currencies));
        }
        r
    }
}

/// What chrono's locale-aware date formatting renders for a valid date
/// under a locale code and format string.
pub uninterp spec fn localized_date_str(
    code: Seq<char>,
    y: int,
    m: int,
    d: int,
    fmt: Seq<char>,
) -> Seq<char>;

/// Relies on chrono's `NaiveDate::format_localized`: the rendering of a
/// valid date under a locale and a fixed format is a function of those
/// alone; an unknown locale code falls back to British English.
#[verifier::external_body]
fn format_localized_date(y: i64, m: i64, d: i64, code: &str, fmt: &str) -> (r: String)
    requires
        spec_valid_date(y as int, m as int, d as int),
        fmt@ == "%A"@ || fmt@ == "%x"@,
    ensures
        r@ == localized_date_str(code@, y as int, m as int, d as int, fmt@),
{
    let loc = <chrono::Locale as std::str::FromStr>::from_str(code).unwrap_or(
        chrono::Locale::en_GB,
    );
    let nd = chrono::NaiveDate::from_ymd_opt(y as i32, m as u32, d as u32).unwrap();
    nd.format_localized(fmt, loc).to_string()
}

/// The day title put atop the chart and the post: the localized weekday
/// name and the localized short date, space separated.
pub fn get_day_title(y: i64, m: i64, d: i64, localization: &Localization) -> (r: String)
    requires
        spec_valid_date(y as int, m as int, d as int),
    ensures
        r@ == localized_date_str(
            localization@.day_name_locale,
            y as int,
            m as int,
            d as int,
            "%A"@,
        ) + " "@ + localized_date_str(
            localization@.chrono_locale,
            y as int,
            m as int,
            d as int,
            "%x"@,
        ),
{
    let mut s = format_localized_date(y, m, d, localization.day_name_locale.as_str(), "%A");
    s.append(" ");
    let tail = format_localized_date(y, m, d, localization.chrono_locale.as_str(), "%x");
    s.append(tail.as_str());
    s
}

} // verus!
