use spotbot::locale::{get_localization, Currencies};
use spotbot::parser::parse_xml;
use spotbot::pipeline::{run_day, run_from_document, PipelineError};
use spotbot::post::{compose_post_text, posts_contain_title, period_range};
use spotbot::series::{ConvertedPoint, PricePoint};
use spotbot::text::{format_fixed1, format_fixed2};
use spotbot::timestamp::days_from_civil;
use spotbot::transform::{
    calculate_aggregates, calculate_limits, color_by_value, convert_point, filter_by_local_day,
    Aggregates, PriceBand,
};
use spotbot::tz::{local_day, local_hour, TzId};

const T0: i64 = 1705359600; // 2024-01-15T23:00Z

fn hourly_document(prices: &[String]) -> String {
    let mut body = String::from(
        "<Publication_MarketDocument><TimeSeries><Period>\
         <timeInterval><start>2024-01-15T23:00Z</start></timeInterval>\
         <resolution>PT60M</resolution>",
    );
    for (i, p) in prices.iter().enumerate() {
        body.push_str(&format!(
            "<Point><position>{}</position><price.amount>{}</price.amount></Point>",
            i + 1,
            p
        ));
    }
    body.push_str("</Period></TimeSeries></Publication_MarketDocument>");
    body
}

fn day_ahead_prices() -> Vec<i64> {
    // Raw prices in thousandths: 50.0, 52.0, rising to 72.0 and back down
    // to 48.0 over 24 hourly points.
    vec![
        50_000, 52_000, 54_000, 56_000, 58_000, 60_000, 62_000, 64_000, 66_000, 68_000, 70_000,
        72_000, 71_000, 69_000, 67_000, 65_000, 63_000, 61_000, 59_000, 57_000, 55_000, 53_000,
        51_000, 48_000,
    ]
}

#[test]
fn converter_applies_multiplier_and_vat_exactly() {
    let p = PricePoint { ts: T0, value: 50_000 };
    // multiplier 100 (in millionths), VAT 25.5 % (in tenths)
    let c = convert_point(&p, 100_000_000, 255);
    assert_eq!(c.ts, T0);
    assert_eq!(c.value, 50_000i128 * 100_000_000 * 1255);
}

#[test]
fn vat_zero_is_a_no_op_multiplier() {
    let p = PricePoint { ts: T0, value: 37_500 };
    let c = convert_point(&p, 100_000_000, 0);
    assert_eq!(c.value, 37_500i128 * 100_000_000 * 1000);
    let with_vat = convert_point(&p, 100_000_000, 255);
    assert!(with_vat.value > c.value);
}

#[test]
fn aggregates_min_max_avg_with_first_tie_break() {
    let s = vec![
        ConvertedPoint { ts: 10, value: 500 },
        ConvertedPoint { ts: 20, value: 300 },
        ConvertedPoint { ts: 30, value: 900 },
        ConvertedPoint { ts: 40, value: 300 },
        ConvertedPoint { ts: 50, value: 900 },
    ];
    let a = calculate_aggregates(&s);
    assert_eq!(a.min, ConvertedPoint { ts: 20, value: 300 });
    assert_eq!(a.max, ConvertedPoint { ts: 30, value: 900 });
    assert_eq!(a.avg, (500 + 300 + 900 + 300 + 900) / 5);
    assert!(a.min.value <= a.avg && a.avg <= a.max.value);
    assert!(s.contains(&a.min) && s.contains(&a.max));
}

#[test]
fn filter_keeps_only_the_target_local_day() {
    let jan16 = days_from_civil(2024, 1, 16);
    let points: Vec<PricePoint> = (0..26)
        .map(|i| PricePoint { ts: T0 + 3600 * i, value: 1000 * i })
        .collect();
    let kept = filter_by_local_day(&points, &TzId::Helsinki, jan16);
    // 23:00Z on the 15th is 01:00 local on the 16th in Helsinki (UTC+2 in
    // winter); 22:00Z on the 16th is already 00:00 local on the 17th.
    assert_eq!(kept.len(), 23);
    assert_eq!(kept[0].ts, T0);
    assert_eq!(kept[22].ts, T0 + 22 * 3600);
}

#[test]
fn filter_without_transition_keeps_a_full_day() {
    // A mid-winter day has no DST transition: a series constrained to the
    // local day passes the filter unchanged.
    let jan16 = days_from_civil(2024, 1, 16);
    let points: Vec<PricePoint> = (0..23)
        .map(|i| PricePoint { ts: T0 + 3600 * i, value: 100 * i })
        .collect();
    let kept = filter_by_local_day(&points, &TzId::Helsinki, jan16);
    assert_eq!(kept, points);
}

#[test]
fn local_day_and_hour_follow_the_zone_offset() {
    let jan16_00z = 19738 * 86400; // 2024-01-16T00:00Z
    assert_eq!(local_day(&TzId::Helsinki, jan16_00z), 19738);
    assert_eq!(local_hour(&TzId::Helsinki, jan16_00z), 2);
    assert_eq!(local_day(&TzId::Cet, jan16_00z), 19738);
    assert_eq!(local_hour(&TzId::Cet, jan16_00z), 1);
    // 23:30Z on the 15th is past local midnight in Helsinki.
    assert_eq!(local_day(&TzId::Helsinki, T0 + 1800), 19738);
    // Summer time: 2024-07-01T00:00Z is 03:00 local in Helsinki.
    let jul1_00z = days_from_civil(2024, 7, 1) * 86400;
    assert_eq!(local_hour(&TzId::Helsinki, jul1_00z), 3);
    assert_eq!(local_hour(&TzId::Stockholm, jul1_00z), 2);
}

#[test]
fn end_to_end_day_ahead_run() {
    let raw = day_ahead_prices();
    let texts: Vec<String> = raw.iter().map(|v| format!("{}.{}", v / 1000, v % 1000)).collect();
    let doc = hourly_document(&texts);

    // The parsed document carries all 24 points, each converted exactly by
    // raw * multiplier / 1000 * 1.255 — in fixed point, raw * 100e6 * 1255.
    let points = parse_xml(&doc).unwrap();
    assert_eq!(points.len(), 24);
    let mut sum: i128 = 0;
    for (i, p) in points.iter().enumerate() {
        assert_eq!(p.ts, T0 + 3600 * i as i64);
        let c = convert_point(p, 100_000_000, 255);
        assert_eq!(c.value, raw[i] as i128 * 100_000_000 * 1255);
        sum += c.value;
    }
    assert!(23 <= points.len() && points.len() <= 25);

    // The same run through the pipeline with the fi_FI bundle, filtered to
    // the local day 2024-01-16: the last point falls on the 17th.
    let currencies = Currencies::from_rates(134_000, 85_000, 87_400);
    let loc = get_localization("fi_FI", &currencies);
    assert_eq!(loc.currency_multiplier, 100_000_000);
    let report = run_from_document(&doc, &loc, 255, days_from_civil(2024, 1, 16)).unwrap();
    assert_eq!(report.series.len(), 23);
    assert_eq!(report.series[0].value, 50_000i128 * 100_000_000 * 1255);
    let sum23: i128 = sum - 48_000i128 * 100_000_000 * 1255;
    assert_eq!(report.aggregates.avg, sum23 / 23);
    assert_eq!(report.aggregates.max.value, 72_000i128 * 100_000_000 * 1255);
    assert_eq!(report.aggregates.max.ts, T0 + 11 * 3600);
    assert_eq!(report.aggregates.min.value, 50_000i128 * 100_000_000 * 1255);
    assert_eq!(report.aggregates.min.ts, T0);
}

#[test]
fn count_invariant_violation_is_fatal() {
    let currencies = Currencies::from_rates(134_000, 85_000, 87_400);
    let loc = get_localization("fi_FI", &currencies);
    let empty: Vec<PricePoint> = Vec::new();
    assert!(matches!(
        run_day(&empty, &loc, 255, days_from_civil(2024, 1, 16)),
        Err(PipelineError::CountOutOfRange(0))
    ));
    let doc = hourly_document(&["50.0".to_string(), "52.0".to_string()]);
    match run_from_document(&doc, &loc, 255, days_from_civil(2024, 1, 16)) {
        Err(PipelineError::CountOutOfRange(2)) => {}
        other => panic!("unexpected result: {:?}", other),
    }
}

#[test]
fn malformed_price_aborts_the_run() {
    let currencies = Currencies::from_rates(134_000, 85_000, 87_400);
    let loc = get_localization("fi_FI", &currencies);
    let doc = hourly_document(&["50.0".to_string(), "bogus".to_string()]);
    assert!(matches!(
        run_from_document(&doc, &loc, 255, days_from_civil(2024, 1, 16)),
        Err(PipelineError::InvalidPrice)
    ));
}

#[test]
fn currency_snapshot_scales_the_swedish_rate() {
    let c = Currencies::from_rates(134_000, 85_000, 11_433_512);
    assert_eq!(c.eur_c, 100_000_000);
    assert_eq!(c.dkk, 134_000);
    assert_eq!(c.nok, 85_000);
    assert_eq!(c.sek_ore, 1_143_351_200);
}

#[test]
fn known_locales_fix_their_bundles() {
    let c = Currencies::from_rates(134_000, 85_000, 11_433_512);
    let fi = get_localization("fi_FI", &c);
    assert_eq!(fi.timezone, TzId::Helsinki);
    assert_eq!(fi.decimal_sep, ",");
    assert_eq!(fi.post_title, "P\u{f6}rssis\u{e4}hk\u{f6}n spot-hinnat");
    assert_eq!(fi.post_avg, "Keskiarvo");
    assert_eq!(fi.currency_multiplier, 100_000_000);
    assert_eq!(fi.plot_limit_multiplier, 1);
    let sv = get_localization("sv_SE", &c);
    assert_eq!(sv.timezone, TzId::Stockholm);
    assert_eq!(sv.currency_name, "\u{f6}re");
    assert_eq!(sv.currency_multiplier, 1_143_351_200);
    assert_eq!(sv.plot_limit_multiplier, 10);
    let et = get_localization("et_EE", &c);
    assert_eq!(et.timezone, TzId::Tallinn);
    assert_eq!(et.day_name_locale, "en_GB");
}

#[test]
fn unknown_locale_resolves_to_the_default_bundle() {
    let c = Currencies::from_rates(134_000, 85_000, 11_433_512);
    let loc = get_localization("xx_XX", &c);
    assert_eq!(loc.timezone, TzId::Cet);
    assert_eq!(loc.chrono_locale, "xx_XX");
    assert_eq!(loc.day_name_locale, "en_GB");
    assert_eq!(loc.decimal_sep, ".");
    assert_eq!(loc.post_title, "Electricity spot prices");
    assert_eq!(loc.post_vat, "");
    assert_eq!(loc.currency_name, "c");
    assert_eq!(loc.currency_multiplier, 100_000_000);
}

#[test]
fn fixed_point_display_rounds_half_away() {
    assert_eq!(format_fixed2(5_000_000_000_000_000, "."), "5.00");
    assert_eq!(format_fixed2(10_500_000_000_000_000, ","), "10,50");
    assert_eq!(format_fixed2(6_275_000_000_000_000, "."), "6.28");
    assert_eq!(format_fixed2(-1_234_000_000_000_000, "."), "-1.23");
    assert_eq!(format_fixed2(-1_235_000_000_000_000, "."), "-1.24");
    assert_eq!(format_fixed2(0, ","), "0,00");
    assert_eq!(format_fixed1(255, ","), "25,5");
    assert_eq!(format_fixed1(240, "."), "24.0");
}

#[test]
fn post_text_lays_out_statistics_and_vat() {
    let c = Currencies::from_rates(134_000, 85_000, 11_433_512);
    let loc = get_localization("xx_XX", &c);
    let jan16_00z = 19738 * 86400;
    let aggregates = Aggregates {
        min: ConvertedPoint { ts: jan16_00z, value: 5_000_000_000_000_000 },
        max: ConvertedPoint { ts: jan16_00z + 3600, value: 10_500_000_000_000_000 },
        avg: 7_750_000_000_000_000,
    };
    let text = compose_post_text(&aggregates, &loc, "Tuesday 16.1.", 0);
    assert_eq!(
        text,
        "Electricity spot prices Tuesday 16.1.\n\n\
         Average: 7.75 c/kWh\n\
         Minimum: 5.00 c/kWh (at 02-03)\n\
         Maximum: 10.50 c/kWh (at 03-04)"
    );
    let fi = get_localization("fi_FI", &c);
    let fi_text = compose_post_text(&aggregates, &fi, "tiistai 16.1.2024", 255);
    assert!(fi_text.starts_with("P\u{f6}rssis\u{e4}hk\u{f6}n spot-hinnat tiistai 16.1.2024\n\n"));
    assert!(fi_text.contains("Keskiarvo: 7,75 c/kWh\n"));
    assert!(fi_text.ends_with("\n\nHinnat sis\u{e4}lt\u{e4}v\u{e4}t alv. 25,5 %"));
}

#[test]
fn day_title_names_the_weekday() {
    let c = Currencies::from_rates(134_000, 85_000, 11_433_512);
    let et = get_localization("et_EE", &c);
    // 2024-01-16 is a Tuesday; the weekday name comes from the en_GB
    // day-name locale of the Estonian bundle.
    let title = spotbot::locale::get_day_title(2024, 1, 16, &et);
    assert!(title.starts_with("Tuesday "), "unexpected title: {}", title);
}

#[test]
fn duplicate_post_check_searches_titles() {
    let texts = vec![
        "Something else".to_string(),
        "Electricity spot prices Tuesday 16.1. and more".to_string(),
    ];
    assert!(posts_contain_title(&texts, "Tuesday 16.1."));
    assert!(!posts_contain_title(&texts, "Wednesday 17.1."));
    let none: Vec<String> = Vec::new();
    assert!(!posts_contain_title(&none, "anything"));
}

#[test]
fn chart_limits_round_outward() {
    let a = Aggregates {
        min: ConvertedPoint { ts: 0, value: -3_000_000_000_000_000 },
        max: ConvertedPoint { ts: 0, value: 23_400_000_000_000_000 },
        avg: 0,
    };
    let l = calculate_limits(&a, 1);
    assert_eq!(l.chart_max, 30_000_000_000_000_000);
    assert_eq!(l.chart_min, -5_000_000_000_000_000);
    assert_eq!(l.low, 5_000_000_000_000_000);
    assert_eq!(l.high, 20_000_000_000_000_000);
    // A small positive maximum keeps the floor at zero and the least
    // ceiling of twenty units.
    let b = Aggregates {
        min: ConvertedPoint { ts: 0, value: 2_000_000_000_000_000 },
        max: ConvertedPoint { ts: 0, value: 8_000_000_000_000_000 },
        avg: 0,
    };
    let lb = calculate_limits(&b, 1);
    assert_eq!(lb.chart_max, 20_000_000_000_000_000);
    assert_eq!(lb.chart_min, 0);
    // The Swedish bundle scales every limit tenfold.
    let ls = calculate_limits(&b, 10);
    assert_eq!(ls.chart_max, 200_000_000_000_000_000);
    assert_eq!(ls.low, 50_000_000_000_000_000);
}

#[test]
fn price_bands_classify_against_thresholds() {
    let high = 20_000_000_000_000_000;
    let low = 5_000_000_000_000_000;
    assert_eq!(color_by_value(25_000_000_000_000_000, high, low), PriceBand::High);
    assert_eq!(color_by_value(1_000_000_000_000_000, high, low), PriceBand::Low);
    assert_eq!(color_by_value(10_000_000_000_000_000, high, low), PriceBand::Normal);
    assert_eq!(color_by_value(high, high, low), PriceBand::Normal);
    assert_eq!(color_by_value(low, high, low), PriceBand::Normal);
}

#[test]
fn period_stamps_cover_the_local_day_in_utc() {
    let (start, end) = period_range(&TzId::Helsinki, 2024, 1, 16).unwrap();
    assert_eq!(start, "202401152200");
    assert_eq!(end, "202401162200");
    let (s2, e2) = period_range(&TzId::Cet, 2024, 7, 1).unwrap();
    assert_eq!(s2, "202406302200");
    assert_eq!(e2, "202407012200");
}
