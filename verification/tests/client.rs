use market_data::client::{Date, Interval, Series};
use market_data::decimal::parse_volume;
use market_data::endpoint::{resolve, with_pair, URL_LIMIT};
use market_data::errors::MarketError;
use market_data::fixed::Price;
use market_data::sorting::sort_by_date;
use market_data::text::{push_cents, push_decimal, push_signed_decimal, push_ticks};

#[test]
fn intervals_are_written_out() {
    assert_eq!(Interval::Min1.to_string(), "1 minute");
    assert_eq!(Interval::Min5.to_string(), "5 minutes");
    assert_eq!(Interval::Min15.to_string(), "15 minutes");
    assert_eq!(Interval::Min30.to_string(), "30 minutes");
    assert_eq!(Interval::Hour1.to_string(), "1 hour");
    assert_eq!(Interval::Hour2.to_string(), "2 hours");
    assert_eq!(Interval::Hour4.to_string(), "4 hours");
    assert_eq!(Interval::Daily.to_string(), "Daily");
    assert_eq!(Interval::Weekly.to_string(), "Weekly");
    assert_eq!(Interval::Monthly.to_string(), "Monthly");
}

#[test]
fn intervals_are_read_from_codes() {
    assert_eq!(Interval::from_str("1min"), Ok(Interval::Min1));
    assert_eq!(Interval::from_str("5min"), Ok(Interval::Min5));
    assert_eq!(Interval::from_str("15min"), Ok(Interval::Min15));
    assert_eq!(Interval::from_str("30min"), Ok(Interval::Min30));
    assert_eq!(Interval::from_str("60min"), Ok(Interval::Hour1));
    assert_eq!(Interval::from_str("1h"), Ok(Interval::Hour1));
    assert_eq!(Interval::from_str("2h"), Ok(Interval::Hour2));
    assert_eq!(Interval::from_str("4h"), Ok(Interval::Hour4));
    assert_eq!(Interval::from_str("1day"), Ok(Interval::Daily));
    assert_eq!(Interval::from_str("1week"), Ok(Interval::Weekly));
    assert_eq!(Interval::from_str("1month"), Ok(Interval::Monthly));
}

#[test]
fn interval_codes_may_be_in_upper_case() {
    assert_eq!(Interval::from_str("1DAY"), Ok(Interval::Daily));
    assert_eq!(Interval::from_str("1Week"), Ok(Interval::Weekly));
    assert_eq!(Interval::from_str("60MIN"), Ok(Interval::Hour1));
    // the code itself has to be in lower case where the case is not folded
    assert_eq!(Interval::from_code("1DAY"), Err("Invalid interval string"));
    assert_eq!(Interval::from_code("1day"), Ok(Interval::Daily));
}

#[test]
fn unknown_interval_codes_are_rejected() {
    for code in ["", "daily", "45min", " 1day", "1day ", "1 day"] {
        assert_eq!(Interval::from_str(code), Err("Invalid interval string"));
    }
}

#[test]
fn interval_from_text_falls_back_to_daily() {
    assert_eq!(Interval::from("1month".to_string()), Interval::Monthly);
    assert_eq!(Interval::from("5MIN".to_string()), Interval::Min5);
    assert_eq!(Interval::from("not_implemented".to_string()), Interval::Daily);
    assert_eq!(Interval::from_text("2h"), Interval::Hour2);
    assert_eq!(Interval::from_text(""), Interval::Daily);
    assert_eq!(Interval::default(), Interval::Daily);
}

#[test]
fn dates_are_written_out() {
    assert_eq!(Date { year: 2024, month: 1, day: 31 }.to_string(), "2024-01-31");
    assert_eq!(Date { year: 2024, month: 12, day: 1 }.to_string(), "2024-12-01");
    assert_eq!(Date { year: 0, month: 1, day: 1 }.to_string(), "0000-01-01");
    assert_eq!(Date { year: 987, month: 6, day: 5 }.to_string(), "0987-06-05");
    assert_eq!(Date { year: 9999, month: 12, day: 31 }.to_string(), "9999-12-31");
    assert_eq!(Date { year: 10000, month: 1, day: 1 }.to_string(), "+10000-01-01");
    assert_eq!(Date { year: -5, month: 1, day: 1 }.to_string(), "-0005-01-01");
    assert_eq!(Date { year: i32::MIN, month: 1, day: 1 }.to_string(), "-2147483648-01-01");
}

#[test]
fn dates_are_written_as_chrono_writes_them() {
    for (year, month, day) in [(2024, 2, 29), (1, 1, 1), (0, 12, 31), (-1, 3, 4), (-262142, 1, 1), (262141, 12, 31), (10000, 10, 10)] {
        let theirs = chrono::NaiveDate::from_ymd_opt(year, month, day).unwrap().to_string();
        assert_eq!(Date { year, month, day }.to_string(), theirs);
    }
}

#[test]
fn dates_are_ordered_by_year_month_day() {
    let a = Date { year: 2024, month: 1, day: 31 };
    let b = Date { year: 2024, month: 2, day: 1 };
    let c = Date { year: 2025, month: 1, day: 1 };
    assert!(a.is_before(&b) && b.is_before(&c) && a.is_before(&c));
    assert!(!b.is_before(&a) && !c.is_before(&b) && !a.is_before(&a));
    assert!(Date { year: 2024, month: 1, day: 30 }.is_before(&a));
}

#[test]
fn dates_are_read_from_text() {
    assert_eq!(Date::parse("2024-01-31", "%Y-%m-%d"), Ok(Date { year: 2024, month: 1, day: 31 }));
    assert_eq!(Date::parse("2024-01-31 15:30:00", "%Y-%m-%d %H:%M:%S"), Ok(Date { year: 2024, month: 1, day: 31 }));
    assert_eq!(Date::parse("2024-02-30", "%Y-%m-%d"), Err("input is out of range".to_string()));
    assert_eq!(Date::parse("yesterday", "%Y-%m-%d"), Err("input contains invalid characters".to_string()));
    assert_eq!(Date::parse("2024-01", "%Y-%m-%d"), Err("premature end of input".to_string()));
    assert_eq!(Date::parse("2024-01-31 15:30:00", "%Y-%m-%d"), Err("trailing input".to_string()));
}

#[test]
fn dates_are_taken_from_seconds() {
    assert_eq!(Date::from_seconds(0), Some(Date { year: 1970, month: 1, day: 1 }));
    assert_eq!(Date::from_seconds(86_399), Some(Date { year: 1970, month: 1, day: 1 }));
    assert_eq!(Date::from_seconds(86_400), Some(Date { year: 1970, month: 1, day: 2 }));
    assert_eq!(Date::from_seconds(-1), Some(Date { year: 1969, month: 12, day: 31 }));
    assert_eq!(Date::from_seconds(1_700_000_000), Some(Date { year: 2023, month: 11, day: 14 }));
    assert_eq!(Date::from_seconds(i64::MAX), None);
    assert_eq!(Date::from_seconds(i64::MIN), None);
}

#[test]
fn dates_are_taken_from_milliseconds() {
    assert_eq!(Date::from_millis(0), Some(Date { year: 1970, month: 1, day: 1 }));
    assert_eq!(Date::from_millis(86_399_999), Some(Date { year: 1970, month: 1, day: 1 }));
    assert_eq!(Date::from_millis(86_400_000), Some(Date { year: 1970, month: 1, day: 2 }));
    assert_eq!(Date::from_millis(-1), Some(Date { year: 1969, month: 12, day: 31 }));
    assert_eq!(Date::from_millis(1_700_000_000_000), Some(Date { year: 2023, month: 11, day: 14 }));
    assert_eq!(Date::from_millis(i64::MAX), None);
}

#[test]
fn prices_have_a_limit() {
    assert_eq!(Price::from_ticks(0).unwrap().ticks(), 0);
    assert_eq!(Price::zero().ticks(), 0);
    assert_eq!(Price::from_ticks(1_000_000_000_000).unwrap().ticks(), 1_000_000_000_000);
    assert_eq!(Price::from_ticks(-1_000_000_000_000).unwrap().ticks(), -1_000_000_000_000);
    assert!(Price::from_ticks(1_000_000_000_001).is_none());
    assert!(Price::from_ticks(-1_000_000_000_001).is_none());
    assert!(Price::from_ticks(i64::MAX).is_none());
    assert!(Price::from_ticks(i64::MIN).is_none());
}

fn parsed(text: &str) -> Option<i64> {
    Price::parse(text).map(|p| p.ticks())
}

#[test]
fn prices_are_read_from_decimal_text() {
    assert_eq!(parsed("123.45"), Some(1_234_500));
    assert_eq!(parsed("123.4500"), Some(1_234_500));
    assert_eq!(parsed("0.0001"), Some(1));
    assert_eq!(parsed("1"), Some(10_000));
    assert_eq!(parsed("1."), Some(10_000));
    assert_eq!(parsed("007.5"), Some(75_000));
    assert_eq!(parsed("-0.5"), Some(-5_000));
    assert_eq!(parsed("+2.5"), Some(25_000));
    assert_eq!(parsed("-0"), Some(0));
}

#[test]
fn digits_behind_the_fourth_place_are_dropped() {
    assert_eq!(parsed("1.23456"), Some(12_345));
    assert_eq!(parsed("1.23459999999999999999999999"), Some(12_345));
    assert_eq!(parsed("-1.99999"), Some(-19_999));
    assert_eq!(parsed("0.00009"), Some(0));
}

#[test]
fn text_that_is_no_decimal_number_is_no_price() {
    for text in ["", "-", "+", ".", ".5", "-.5", "abc", "1e3", "1,5", "1.2.3", "1 ", " 1", "--1", "1.-2", "NaN", "inf", "1.2x", "\u{661}\u{662}"] {
        assert_eq!(parsed(text), None);
    }
}

#[test]
fn prices_beyond_the_limit_are_not_read() {
    assert_eq!(parsed("100000000"), Some(1_000_000_000_000));
    assert_eq!(parsed("100000000.0000"), Some(1_000_000_000_000));
    assert_eq!(parsed("-100000000"), Some(-1_000_000_000_000));
    assert_eq!(parsed("100000000.0001"), None);
    assert_eq!(parsed("-100000000.0001"), None);
    assert_eq!(parsed("100000001"), None);
    assert_eq!(parsed("99999999999999999999999999999999999999999999"), None);
}

#[test]
fn volumes_are_read_from_decimal_text() {
    assert_eq!(parse_volume("0"), Some(0));
    assert_eq!(parse_volume("123456789012"), Some(1_234_567_890_120_000));
    assert_eq!(parse_volume("12.5"), Some(125_000));
    assert_eq!(parse_volume("900000000000000"), Some(9_000_000_000_000_000_000));
    assert_eq!(parse_volume("-900000000000000"), Some(-9_000_000_000_000_000_000));
    assert_eq!(parse_volume("900000000000000.0001"), None);
    assert_eq!(parse_volume("900000000000001"), None);
    assert_eq!(parse_volume("many"), None);
    assert_eq!(parse_volume(""), None);
}

fn dated(year: i32, month: u32, day: u32, volume: i64) -> Series {
    Series {
        date: Date { year, month, day },
        open: Price::zero(),
        close: Price::zero(),
        high: Price::zero(),
        low: Price::zero(),
        volume,
    }
}

fn order(bars: &[Series]) -> Vec<i64> {
    bars.iter().map(|b| b.volume).collect()
}

#[test]
fn sorting_puts_bars_in_order_of_date() {
    let bars = vec![dated(2024, 3, 1, 0), dated(2023, 12, 31, 1), dated(2024, 1, 15, 2), dated(2024, 1, 2, 3)];
    let sorted = sort_by_date(bars);
    assert_eq!(order(&sorted), vec![1, 3, 2, 0]);
    assert!(sorted.windows(2).all(|w| !w[1].date.is_before(&w[0].date)));
}

#[test]
fn sorting_keeps_bars_of_one_date_in_their_order() {
    let bars = vec![dated(2024, 1, 2, 0), dated(2024, 1, 1, 1), dated(2024, 1, 2, 2), dated(2024, 1, 1, 3), dated(2024, 1, 2, 4)];
    assert_eq!(order(&sort_by_date(bars)), vec![1, 3, 0, 2, 4]);
}

#[test]
fn sorting_leaves_short_and_sorted_series_alone() {
    assert!(sort_by_date(Vec::new()).is_empty());
    assert_eq!(order(&sort_by_date(vec![dated(2024, 1, 1, 7)])), vec![7]);
    let bars = vec![dated(2024, 1, 1, 0), dated(2024, 1, 2, 1), dated(2024, 1, 3, 2)];
    assert_eq!(order(&sort_by_date(bars)), vec![0, 1, 2]);
    let reversed = vec![dated(2024, 1, 3, 0), dated(2024, 1, 2, 1), dated(2024, 1, 1, 2)];
    assert_eq!(order(&sort_by_date(reversed)), vec![2, 1, 0]);
}

#[test]
fn query_pairs_are_added_to_urls_of_bounded_length() {
    assert_eq!(with_pair("https://example.com/a", "k", "v w").unwrap(), "https://example.com/a?k=v+w");
    assert_eq!(with_pair("https://example.com/a?x=1", "k", "").unwrap(), "https://example.com/a?x=1&k=");
    assert!(matches!(with_pair("not a url", "k", "v"), Err(MarketError::UrlParseError(_))));
    let long = format!("https://example.com/{}", "a".repeat(URL_LIMIT));
    assert!(matches!(with_pair(&long, "k", "v"), Err(MarketError::UrlParseError(_))));
    let text = "a".repeat(URL_LIMIT + 1);
    assert!(matches!(with_pair("https://example.com/a#b", &text, "v"), Err(MarketError::UrlParseError(_))));
    assert!(matches!(with_pair("https://example.com/a#b", "k", &text), Err(MarketError::UrlParseError(_))));
    assert_eq!(with_pair("https://example.com/a#b", "k", "v").unwrap(), "https://example.com/a?k=v#b");
    assert_eq!(resolve("https://example.com/a/b", "c?d=e").unwrap(), "https://example.com/a/c?d=e");
    assert_eq!(resolve("https://example.com/a/", "/c").unwrap(), "https://example.com/c");
    assert!(matches!(resolve("example", "c"), Err(MarketError::UrlParseError(_))));
}

#[test]
fn prices_are_read_back_as_they_are_written() {
    for ticks in [0i64, 1, -1, 9, 10, 99, 100, 999, 1_000, 9_999, 10_000, -10_001, 123_456_789, 1_000_000_000_000, -1_000_000_000_000] {
        let mut text = String::new();
        push_ticks(&mut text, ticks);
        assert_eq!(parsed(&text), Some(ticks));
    }
    let mut text = String::new();
    push_ticks(&mut text, -10_001);
    assert_eq!(text, "-1.0001");
}

#[test]
fn numbers_are_written_in_decimal() {
    let mut text = String::new();
    push_decimal(&mut text, 0);
    text.push(' ');
    push_decimal(&mut text, u128::MAX);
    text.push(' ');
    push_signed_decimal(&mut text, i128::MIN);
    text.push(' ');
    push_cents(&mut text, i64::MIN);
    text.push(' ');
    push_cents(&mut text, 995);
    assert_eq!(
        text,
        "0 340282366920938463463374607431768211455 -170141183460469231731687303715884105728 \
         -922337203685477.58 0.10"
    );
}
