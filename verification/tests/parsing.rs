use spotbot::parser::{parse_xml, ParseError, TimeSeriesParser};
use spotbot::series::PricePoint;
use spotbot::text::{parse_decimal, trim, str_eq, str_contains};
use spotbot::timestamp::{parse_timestamp, days_from_civil, civil_from_day_near, valid_date};
use spotbot::mathutil::{floor_div_i64, euclid_mod_i64, ceil_div_i128, floor_div_i128};

fn wrap_document(period_body: &str) -> String {
    format!(
        "<Publication_MarketDocument><TimeSeries><Period>{}</Period></TimeSeries></Publication_MarketDocument>",
        period_body
    )
}

fn hourly_document(start: &str, resolution: &str, prices: &[&str]) -> String {
    let mut body = format!(
        "<timeInterval><start>{}</start><end>x</end></timeInterval><resolution>{}</resolution>",
        start, resolution
    );
    for (i, p) in prices.iter().enumerate() {
        body.push_str(&format!(
            "<Point><position>{}</position><price.amount>{}</price.amount></Point>",
            i + 1,
            p
        ));
    }
    wrap_document(&body)
}

const T0: i64 = 1705359600; // 2024-01-15T23:00Z

#[test]
fn parses_hourly_points_with_increasing_timestamps() {
    let doc = hourly_document("2024-01-15T23:00Z", "PT60M", &["50.0", "52.0", "48.5"]);
    let points = parse_xml(&doc).unwrap();
    assert_eq!(points.len(), 3);
    assert_eq!(points[0], PricePoint { ts: T0, value: 50_000 });
    assert_eq!(points[1], PricePoint { ts: T0 + 3600, value: 52_000 });
    assert_eq!(points[2], PricePoint { ts: T0 + 7200, value: 48_500 });
    for w in points.windows(2) {
        assert_eq!(w[1].ts - w[0].ts, 3600);
    }
}

#[test]
fn reparsing_the_same_document_yields_identical_output() {
    let doc = hourly_document("2024-01-15T23:00Z", "PT60M", &["50.0", "-3.25", "0.1"]);
    let first = parse_xml(&doc).unwrap();
    let second = parse_xml(&doc).unwrap();
    assert_eq!(first, second);
}

#[test]
fn unsupported_resolution_leaves_cursor_unadvanced() {
    // With a PT15M resolution no step is known: every point is appended at
    // the stale cursor set by the interval start, and never advanced.
    let doc = hourly_document("2024-01-15T23:00Z", "PT15M", &["50.0", "52.0", "54.0"]);
    let points = parse_xml(&doc).unwrap();
    assert_eq!(points.len(), 3);
    for p in &points {
        assert_eq!(p.ts, T0);
    }
}

#[test]
fn points_before_any_interval_start_are_dropped() {
    let body = "<resolution>PT60M</resolution>\
        <Point><position>1</position><price.amount>50.0</price.amount></Point>";
    let points = parse_xml(&wrap_document(body)).unwrap();
    assert_eq!(points.len(), 0);
}

#[test]
fn malformed_price_is_a_fatal_error() {
    let doc = hourly_document("2024-01-15T23:00Z", "PT60M", &["50.0", "abc"]);
    assert_eq!(parse_xml(&doc), Err(ParseError::InvalidPrice));
}

#[test]
fn unparsable_interval_start_is_skipped() {
    let body = "<timeInterval><start>not-a-date</start></timeInterval>\
        <resolution>PT60M</resolution>\
        <Point><position>1</position><price.amount>50.0</price.amount></Point>";
    let points = parse_xml(&wrap_document(body)).unwrap();
    assert_eq!(points.len(), 0);
}

#[test]
fn transport_fault_returns_partial_series() {
    let doc = "<root><timeInterval><start>2024-01-15T23:00Z</start></timeInterval>\
        <resolution>PT60M</resolution>\
        <Point><position>1</position><price.amount>50.0</price.amount></Point>\
        <Point><position>2</position><price.amount>52.0</price.amount></Point>\
        </wrong>";
    let points = parse_xml(doc).unwrap();
    assert_eq!(points.len(), 2);
    assert_eq!(points[0].value, 50_000);
}

#[test]
fn later_resolution_can_enable_stepping() {
    let body = "<timeInterval><start>2024-01-15T23:00Z</start></timeInterval>\
        <resolution>PT30M</resolution>\
        <Point><position>1</position><price.amount>10.0</price.amount></Point>\
        <resolution>PT60M</resolution>\
        <Point><position>2</position><price.amount>20.0</price.amount></Point>\
        <Point><position>3</position><price.amount>30.0</price.amount></Point>";
    let points = parse_xml(&wrap_document(body)).unwrap();
    assert_eq!(points.len(), 3);
    assert_eq!(points[0].ts, T0);
    assert_eq!(points[1].ts, T0);
    assert_eq!(points[2].ts, T0 + 3600);
}

#[test]
fn second_interval_resets_the_cursor() {
    let body = "<timeInterval><start>2024-01-15T23:00Z</start></timeInterval>\
        <resolution>PT60M</resolution>\
        <Point><position>1</position><price.amount>1.0</price.amount></Point>\
        <timeInterval><start>2024-02-01T00:00Z</start></timeInterval>\
        <Point><position>1</position><price.amount>2.0</price.amount></Point>";
    let points = parse_xml(&wrap_document(body)).unwrap();
    let feb1: i64 = days_from_civil(2024, 2, 1) * 86400;
    assert_eq!(points.len(), 2);
    assert_eq!(points[0].ts, T0);
    assert_eq!(points[1].ts, feb1);
}

#[test]
fn parser_state_machine_tracks_elements() {
    let mut p = TimeSeriesParser::new();
    p.on_start_element("timeInterval");
    assert!(p.in_time_interval);
    p.on_start_element("start");
    p.on_characters("2024-01-15T23:00Z").unwrap();
    assert_eq!(p.current_timestamp, Some(T0));
    p.on_end_element("start");
    p.on_end_element("timeInterval");
    assert!(!p.in_time_interval);
    p.on_start_element("Point");
    assert!(p.in_point);
    p.on_end_element("Point");
    assert!(!p.in_point);
    assert_eq!(p.current_element, "");
}

#[test]
fn decimal_literals_parse_to_thousandths() {
    assert_eq!(parse_decimal("50.0"), Some(50_000));
    assert_eq!(parse_decimal("-3.25"), Some(-3_250));
    assert_eq!(parse_decimal("+2"), Some(2_000));
    assert_eq!(parse_decimal("5."), Some(5_000));
    assert_eq!(parse_decimal(".5"), Some(500));
    assert_eq!(parse_decimal("0.0015"), Some(1));
    assert_eq!(parse_decimal("-0.0019"), Some(-1));
    assert_eq!(parse_decimal("0"), Some(0));
    assert_eq!(parse_decimal(""), None);
    assert_eq!(parse_decimal("."), None);
    assert_eq!(parse_decimal("abc"), None);
    assert_eq!(parse_decimal("1e5"), None);
    assert_eq!(parse_decimal("1.2.3"), None);
    assert_eq!(parse_decimal("10000000000000"), None);
    assert_eq!(parse_decimal("999999999999.999"), Some(999_999_999_999_999));
}

#[test]
fn timestamp_literals_parse_as_utc() {
    assert_eq!(parse_timestamp("2024-01-15T23:00Z"), Some(T0));
    assert_eq!(parse_timestamp("1970-01-01T00:00Z"), Some(0));
    assert_eq!(parse_timestamp("1969-12-31T23:59Z"), Some(-60));
    assert_eq!(parse_timestamp("2024-02-29T12:30Z"), Some(days_from_civil(2024, 2, 29) * 86400 + 12 * 3600 + 30 * 60));
    assert_eq!(parse_timestamp("2023-02-29T00:00Z"), None);
    assert_eq!(parse_timestamp("2024-13-01T00:00Z"), None);
    assert_eq!(parse_timestamp("2024-01-15 23:00"), None);
    assert_eq!(parse_timestamp("1500-01-01T00:00Z"), None);
    assert_eq!(parse_timestamp("2024-01-15T24:00Z"), None);
}

#[test]
fn day_numbers_round_trip_near_a_hint() {
    assert_eq!(days_from_civil(1970, 1, 1), 0);
    assert_eq!(days_from_civil(2024, 1, 15), 19737);
    assert!(valid_date(2024, 2, 29));
    assert!(!valid_date(2023, 2, 29));
    let z = days_from_civil(2024, 3, 1);
    assert_eq!(civil_from_day_near(z - 1, 2024, 3, 1), (2024, 2, 29));
    assert_eq!(civil_from_day_near(z, 2024, 3, 1), (2024, 3, 1));
    let y_end = days_from_civil(2023, 12, 31);
    assert_eq!(civil_from_day_near(y_end + 1, 2023, 12, 31), (2024, 1, 1));
}

#[test]
fn text_utilities_behave() {
    assert_eq!(trim("  PT60M \n"), "PT60M");
    assert_eq!(trim(""), "");
    assert!(str_eq("abc", "abc"));
    assert!(!str_eq("abc", "abd"));
    assert!(str_contains("hello world", "lo wo"));
    assert!(!str_contains("hello", "world"));
    assert!(str_contains("anything", ""));
}

#[test]
fn division_helpers_round_as_specified() {
    assert_eq!(floor_div_i64(-7, 2), -4);
    assert_eq!(floor_div_i64(7, 2), 3);
    assert_eq!(euclid_mod_i64(-7, 2), 1);
    assert_eq!(euclid_mod_i64(-86399, 86400), 1);
    assert_eq!(ceil_div_i128(21, 10), 3);
    assert_eq!(ceil_div_i128(-21, 10), -2);
    assert_eq!(floor_div_i128(-21, 10), -3);
}
