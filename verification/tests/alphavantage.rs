use market_data::client::{Date, Interval};
use market_data::errors::MarketError;
use market_data::publishers::alphavantage::{
    transform, AVRequest, AlphaDailyPrices, AlphaInterval, AlphaIntradayPrices, AlphaVantage, AlphaWMPrices,
    Function, MetaDaily, MetaIntraday, MetaWeekMonth, OutputSize, Shape, TimeSeriesData,
};

fn bar(open: &str, high: &str, low: &str, close: &str, volume: &str) -> TimeSeriesData {
    TimeSeriesData {
        open: open.to_string(),
        high: high.to_string(),
        low: low.to_string(),
        close: close.to_string(),
        volume: volume.to_string(),
    }
}

fn good(close: &str) -> TimeSeriesData {
    bar("1.0", "3.0", "0.5", close, "1000")
}

fn days(entries: &[(&str, &str)]) -> Vec<(String, TimeSeriesData)> {
    entries.iter().map(|(date, close)| (date.to_string(), good(close))).collect()
}

fn daily(symbol: &str, entries: &[(&str, &str)]) -> AlphaDailyPrices {
    AlphaDailyPrices {
        meta_data: MetaDaily {
            information: String::new(),
            symbol: symbol.to_string(),
            last_refreshed: String::new(),
            output_size: String::new(),
            time_zone: String::new(),
        },
        time_series: days(entries),
    }
}

fn intraday(symbol: &str, interval: &str, entries: &[(&str, &str)]) -> AlphaIntradayPrices {
    AlphaIntradayPrices {
        meta_data: MetaIntraday {
            information: String::new(),
            symbol: symbol.to_string(),
            last_refreshed: String::new(),
            interval: interval.to_string(),
            output_size: String::new(),
            time_zone: String::new(),
        },
        time_series: days(entries),
    }
}

fn week_month(symbol: &str, entries: &[(&str, &str)]) -> AlphaWMPrices {
    AlphaWMPrices {
        meta_data: MetaWeekMonth {
            information: String::new(),
            symbol: symbol.to_string(),
            last_refreshed: String::new(),
            time_zone: String::new(),
        },
        time_series: days(entries),
    }
}

#[test]
fn alphavantage_names_in_queries() {
    assert_eq!(Function::TimeSeriesIntraday.to_string(), "TIME_SERIES_INTRADAY");
    assert_eq!(Function::TimeSeriesDaily.to_string(), "TIME_SERIES_DAILY");
    assert_eq!(Function::TimeSeriesDailyAdjusted.to_string(), "TIME_SERIES_DAILY_ADJUSTED");
    assert_eq!(Function::TimeSeriesWeekly.to_string(), "TIME_SERIES_WEEKLY");
    assert_eq!(Function::TimeSeriesWeeklyAdjusted.to_string(), "TIME_SERIES_WEEKLY_ADJUSTED");
    assert_eq!(Function::TimeSeriesMonthly.to_string(), "TIME_SERIES_MONTHLY");
    assert_eq!(Function::TimeSeriesMonthlyAdjusted.to_string(), "TIME_SERIES_MONTHLY_ADJUSTED");
    assert_eq!(OutputSize::Compact.to_string(), "Compact");
    assert_eq!(OutputSize::Full.to_string(), "Full");
    assert_eq!(AlphaInterval::Min1.to_string(), "1min");
    assert_eq!(AlphaInterval::Min5.to_string(), "5min");
    assert_eq!(AlphaInterval::Min15.to_string(), "15min");
    assert_eq!(AlphaInterval::Min30.to_string(), "30min");
    assert_eq!(AlphaInterval::Min60.to_string(), "60min");
}

#[test]
fn alphavantage_defaults() {
    assert_eq!(Function::default(), Function::TimeSeriesDaily);
    assert_eq!(OutputSize::default(), OutputSize::Compact);
    assert_eq!(AlphaInterval::default(), AlphaInterval::Min60);
    assert_eq!(AVRequest::default().function(), Function::TimeSeriesDaily);
}

#[test]
fn alphavantage_shapes_of_responses() {
    assert_eq!(Function::TimeSeriesIntraday.shape(), Shape::Intraday);
    assert_eq!(Function::TimeSeriesDaily.shape(), Shape::Daily);
    assert_eq!(Function::TimeSeriesDailyAdjusted.shape(), Shape::Daily);
    assert_eq!(Function::TimeSeriesWeekly.shape(), Shape::WeekMonth);
    assert_eq!(Function::TimeSeriesWeeklyAdjusted.shape(), Shape::WeekMonth);
    assert_eq!(Function::TimeSeriesMonthly.shape(), Shape::WeekMonth);
    assert_eq!(Function::TimeSeriesMonthlyAdjusted.shape(), Shape::WeekMonth);
}

#[test]
fn alphavantage_endpoints() {
    let mut site = AlphaVantage::new("demo".to_string());
    site.daily_series("IBM".to_string(), OutputSize::Compact);
    site.intraday_series("IBM".to_string(), OutputSize::Full, AlphaInterval::Min5);
    site.weekly_series("AAPL".to_string(), OutputSize::Full);
    site.monthly_series("MSFT".to_string(), OutputSize::Compact);
    site.create_endpoint().unwrap();
    assert_eq!(
        site.endpoints(),
        &vec![
            "https://www.alphavantage.co/query?function=TIME_SERIES_DAILY&symbol=IBM&outputsize=Compact&datatype=json&apikey=demo".to_string(),
            "https://www.alphavantage.co/query?function=TIME_SERIES_INTRADAY&symbol=IBM&interval=5min&outputsize=Full&datatype=json&apikey=demo".to_string(),
            "https://www.alphavantage.co/query?function=TIME_SERIES_WEEKLY&symbol=AAPL&outputsize=Full&datatype=json&apikey=demo".to_string(),
            "https://www.alphavantage.co/query?function=TIME_SERIES_MONTHLY&symbol=MSFT&outputsize=Compact&datatype=json&apikey=demo".to_string(),
        ]
    );
    assert_eq!(site.expected(0), Some(Shape::Daily));
    assert_eq!(site.expected(1), Some(Shape::Intraday));
    assert_eq!(site.expected(2), Some(Shape::WeekMonth));
    assert_eq!(site.expected(3), Some(Shape::WeekMonth));
    assert_eq!(site.expected(4), None);
    site.finish_download();
    assert!(site.endpoints().is_empty());
    site.create_endpoint().unwrap();
    assert!(site.endpoints().is_empty());
}

#[test]
fn alphavantage_bar_is_read_field_by_field() {
    let series = transform(&"2024-01-31".to_string(), &bar(" 1.5 ", "3", "0.25", "2.125", "1000")).unwrap();
    assert_eq!(series.date, Date { year: 2024, month: 1, day: 31 });
    assert_eq!(
        (series.open.ticks(), series.high.ticks(), series.low.ticks(), series.close.ticks(), series.volume),
        (15_000, 30_000, 2_500, 21_250, 10_000_000)
    );
}

fn complaint(date: &str, bar: TimeSeriesData) -> String {
    match transform(&date.to_string(), &bar) {
        Err(MarketError::ParsingError(message)) => message,
        _ => panic!("bar accepted"),
    }
}

#[test]
fn alphavantage_bar_names_the_first_field_it_cannot_read() {
    assert_eq!(
        complaint("never", bar("x", "x", "x", "x", "x")),
        "Unable to parse Open field: invalid decimal number"
    );
    assert_eq!(
        complaint("never", bar("1", "x", "x", "x", "x")),
        "Unable to parse Close field: invalid decimal number"
    );
    assert_eq!(
        complaint("never", bar("1", "x", "x", "1", "x")),
        "Unable to parse High field: invalid decimal number"
    );
    assert_eq!(
        complaint("never", bar("1", "1", "x", "1", "x")),
        "Unable to parse Low field: invalid decimal number"
    );
    assert_eq!(
        complaint("never", bar("1", "1", "1", "1", "x")),
        "Unable to parse Volume field: invalid decimal number"
    );
    assert_eq!(
        complaint("never", bar("1", "1", "1", "1", "1")),
        "Unable to parse Volume field: input contains invalid characters"
    );
}

#[test]
fn alphavantage_daily_response_becomes_a_sorted_series() {
    let mut site = AlphaVantage::new("demo".to_string());
    site.store_daily(daily("IBM", &[("2024-01-03", "3"), ("2024-01-01", "1"), ("2024-01-02", "2")]));
    assert_eq!(site.daily_data().len(), 1);
    let results = site.transform_data();
    assert_eq!(results.len(), 1);
    let series = results[0].as_ref().unwrap();
    assert_eq!(series.symbol, "IBM");
    assert_eq!(series.interval, Interval::Daily);
    let closes: Vec<i64> = series.data.iter().map(|b| b.close.ticks()).collect();
    assert_eq!(closes, vec![10_000, 20_000, 30_000]);
    assert!(site.daily_data().is_empty());
    assert!(site.transform_data().is_empty());
}

#[test]
fn alphavantage_responses_come_out_intraday_first() {
    let mut site = AlphaVantage::new("demo".to_string());
    site.store_week_month(week_month("W", &[("2024-01-05", "5")]));
    site.store_daily(daily("D", &[("2024-01-03", "3")]));
    site.store_intraday(intraday("I", "5min", &[("2024-01-02", "2")]));
    site.store_intraday(intraday("J", "hourly", &[]));
    let results = site.transform_data();
    let seen: Vec<(String, Interval, usize)> =
        results.iter().map(|r| r.as_ref().unwrap()).map(|s| (s.symbol.clone(), s.interval, s.data.len())).collect();
    assert_eq!(
        seen,
        vec![
            ("I".to_string(), Interval::Min5, 1),
            ("J".to_string(), Interval::Daily, 0),
            ("D".to_string(), Interval::Daily, 1),
            ("W".to_string(), Interval::Daily, 1),
        ]
    );
}

#[test]
fn alphavantage_bad_bar_gives_an_error_and_the_bars_before_it() {
    let mut site = AlphaVantage::new("demo".to_string());
    let mut prices = daily("IBM", &[("2024-01-03", "3"), ("2024-01-01", "1"), ("2024-01-02", "2")]);
    prices.time_series[2].1.low = "low".to_string();
    site.store_daily(prices);
    let results = site.transform_data();
    assert_eq!(results.len(), 2);
    assert!(matches!(
        &results[0],
        Err(MarketError::ParsingError(m)) if m == "Unable to parse Low field: invalid decimal number"
    ));
    let closes: Vec<i64> = results[1].as_ref().unwrap().data.iter().map(|b| b.close.ticks()).collect();
    assert_eq!(closes, vec![10_000, 30_000]);
}
