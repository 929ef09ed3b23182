use market_data::client::{Date, Interval};
use market_data::errors::MarketError;
use market_data::fixed::Price;
use market_data::publishers::massive::{transform, Massive, MassivePrices, TimeSeriesData};
use market_data::publishers::polygon_io::Polygon;

fn aggregate(close: i64, t: i64) -> TimeSeriesData {
    let p = |ticks| Price::from_ticks(ticks).unwrap();
    TimeSeriesData { c: p(close), h: p(close + 1), l: p(close - 1), o: p(close - 2), t, v: close * 10 }
}

fn response(status: &str, moments: &[i64]) -> MassivePrices {
    MassivePrices {
        time_series: moments.iter().enumerate().map(|(i, t)| aggregate(100 + i as i64, *t)).collect(),
        status: status.to_string(),
        ticker: "AAPL".to_string(),
    }
}

#[test]
fn massive_endpoints() {
    let massive = Massive::new("tok");
    let daily = massive.daily_series("AAPL", "2023-01-09", "2024-01-09", 120);
    assert_eq!(
        massive.create_endpoint(&daily).unwrap(),
        "https://api.massive.com/v2/aggs/ticker/AAPL/range/1/day/2023-01-09/2024-01-09?sort=asc&limit=120&apiKey=tok"
    );
    let weekly = massive.weekly_series("AAPL", "2023-01-09", "2024-01-09", 5);
    assert_eq!(
        massive.create_endpoint(&weekly).unwrap(),
        "https://api.massive.com/v2/aggs/ticker/AAPL/range/1/week/2023-01-09/2024-01-09?sort=asc&limit=5&apiKey=tok"
    );
    let monthly = massive.monthly_series("AAPL", "2023-01-09", "2024-01-09", -1);
    assert_eq!(
        massive.create_endpoint(&monthly).unwrap(),
        "https://api.massive.com/v2/aggs/ticker/AAPL/range/1/month/2023-01-09/2024-01-09?sort=asc&limit=-1&apiKey=tok"
    );
}

#[test]
fn massive_intraday_endpoints() {
    let massive = Massive::new("tok");
    for (interval, span) in [
        (Interval::Min1, "1/minute"),
        (Interval::Min5, "5/minute"),
        (Interval::Min15, "15/minute"),
        (Interval::Min30, "30/minute"),
        (Interval::Hour1, "1/hour"),
        (Interval::Hour2, "2/hour"),
        (Interval::Hour4, "4/hour"),
    ] {
        let request = massive.intraday_series("AAPL", "2024-01-01", "2024-01-02", interval, 10).unwrap();
        assert_eq!(
            massive.create_endpoint(&request).unwrap(),
            format!(
                "https://api.massive.com/v2/aggs/ticker/AAPL/range/{}/2024-01-01/2024-01-02?sort=asc&limit=10&apiKey=tok",
                span
            )
        );
    }
}

#[test]
fn massive_intraday_rejects_other_intervals() {
    let massive = Massive::new("tok");
    for (interval, name) in [(Interval::Daily, "Daily"), (Interval::Weekly, "Weekly"), (Interval::Monthly, "Monthly")] {
        match massive.intraday_series("AAPL", "a", "b", interval, 1) {
            Err(MarketError::UnsuportedInterval(message)) => {
                assert_eq!(message, format!("{} interval is not supported by Massive", name));
            }
            _ => panic!("interval accepted"),
        }
    }
}

#[test]
fn massive_endpoint_that_is_no_url() {
    let massive = Massive::new("tok");
    let request = massive.daily_series("http://[", "a", "b", 1);
    assert!(matches!(massive.create_endpoint(&request), Err(MarketError::UrlParseError(_))));
}

#[test]
fn massive_response_becomes_a_series_in_the_order_it_came() {
    let massive = Massive::new("tok");
    let request = massive.weekly_series("IGNORED", "a", "b", 1);
    let series = massive.transform_data(response("OK", &[1_700_086_400_000, 1_700_000_000_000]), &request).unwrap();
    assert_eq!(series.symbol, "AAPL");
    assert_eq!(series.interval, Interval::Weekly);
    let dates: Vec<Date> = series.data.iter().map(|b| b.date).collect();
    assert_eq!(dates, vec![Date { year: 2023, month: 11, day: 15 }, Date { year: 2023, month: 11, day: 14 }]);
    let bar = &series.data[1];
    assert_eq!(
        (bar.open.ticks(), bar.close.ticks(), bar.high.ticks(), bar.low.ticks(), bar.volume),
        (99, 101, 102, 100, 1010)
    );
}

#[test]
fn massive_response_with_bad_status() {
    for status in ["ERROR", "ok", ""] {
        match transform(&response(status, &[0]), Interval::Daily) {
            Err(MarketError::DownloadedData(message)) => {
                assert_eq!(message, format!("Downloaded data status is: {}", status));
            }
            _ => panic!("status accepted"),
        }
    }
}

#[test]
fn massive_response_with_a_moment_beyond_the_calendar() {
    match transform(&response("OK", &[0, i64::MAX]), Interval::Daily) {
        Err(MarketError::ParsingError(message)) => assert_eq!(message, "Unable to parse the timestamp"),
        _ => panic!("timestamp accepted"),
    }
}

#[test]
fn polygon_collects_requests_and_makes_endpoints() {
    let mut polygon = Polygon::new("tok");
    polygon.daily_series("AAPL", "2023-01-09", "2024-01-09", 120);
    polygon.intraday_series("MSFT", "2024-01-01", "2024-01-02", Interval::Hour4, 7).unwrap();
    assert!(polygon.endpoints().is_empty());
    polygon.create_endpoint().unwrap();
    assert_eq!(
        polygon.endpoints(),
        &vec![
            "https://api.polygon.io/v2/aggs/ticker/AAPL/range/1/day/2023-01-09/2024-01-09?sort=asc&limit=120&apiKey=tok"
                .to_string(),
            "https://api.polygon.io/v2/aggs/ticker/MSFT/range/4/hour/2024-01-01/2024-01-02?sort=asc&limit=7&apiKey=tok"
                .to_string(),
        ]
    );
    // the requests are used up: a second run makes no endpoint
    polygon.create_endpoint().unwrap();
    assert!(polygon.endpoints().is_empty());
}

#[test]
fn polygon_weekly_and_monthly_endpoints() {
    let mut polygon = Polygon::new("k");
    polygon.weekly_series("A", "f", "t", 1);
    polygon.monthly_series("B", "f", "t", 2);
    polygon.create_endpoint().unwrap();
    assert_eq!(
        polygon.endpoints(),
        &vec![
            "https://api.polygon.io/v2/aggs/ticker/A/range/1/week/f/t?sort=asc&limit=1&apiKey=k".to_string(),
            "https://api.polygon.io/v2/aggs/ticker/B/range/1/month/f/t?sort=asc&limit=2&apiKey=k".to_string(),
        ]
    );
}

#[test]
fn polygon_intraday_rejects_other_intervals() {
    let mut polygon = Polygon::new("tok");
    match polygon.intraday_series("AAPL", "a", "b", Interval::Monthly, 1) {
        Err(MarketError::UnsuportedInterval(message)) => assert_eq!(message, "Monthly Unsuported Interval"),
        _ => panic!("interval accepted"),
    }
    polygon.create_endpoint().unwrap();
    assert!(polygon.endpoints().is_empty());
}

#[test]
fn polygon_endpoint_that_is_no_url_changes_nothing() {
    let mut polygon = Polygon::new("tok");
    polygon.daily_series("AAPL", "a", "b", 1);
    polygon.create_endpoint().unwrap();
    polygon.daily_series("http://[", "a", "b", 1);
    assert!(matches!(polygon.create_endpoint(), Err(MarketError::UrlParseError(_))));
    assert_eq!(polygon.endpoints().len(), 1);
}

#[test]
fn polygon_transforms_with_the_interval_asked_for_last() {
    let mut polygon = Polygon::new("tok");
    polygon.daily_series("AAPL", "a", "b", 1);
    polygon.weekly_series("AAPL", "a", "b", 1);
    polygon.create_endpoint().unwrap();
    polygon.store(response("OK", &[0, 86_400_000]));
    polygon.store(response("NOT_OK", &[0]));
    polygon.finish_download();
    assert!(polygon.endpoints().is_empty());
    assert_eq!(polygon.data().len(), 2);
    let results = polygon.transform_data();
    assert_eq!(results.len(), 2);
    let series = results[0].as_ref().unwrap();
    assert_eq!(series.interval, Interval::Weekly);
    assert_eq!(series.symbol, "AAPL");
    assert_eq!(series.data.len(), 2);
    assert_eq!(series.data[1].date, Date { year: 1970, month: 1, day: 2 });
    assert!(matches!(&results[1], Err(MarketError::DownloadedData(m)) if m == "Downloaded data status is: NOT_OK"));
    // the responses are used up
    assert!(polygon.data().is_empty());
    assert!(polygon.transform_data().is_empty());
}
