use market_data::client::{Date, Interval};
use market_data::errors::MarketError;
use market_data::fixed::Price;
use market_data::publishers::iexcloud::{Iex, IexDailyPrices};
use market_data::publishers::twelvedata::{
    transform as transform_twelvedata, MetaData, TimeSeriesData, Twelvedata, TwelvedataPrices,
};
use market_data::publishers::yahoo_finance::{
    transform as transform_yahoo, Chart, ChartResult, Quote, YahooFin, YahooPrices, YahooRange,
};

fn price(ticks: i64) -> Price {
    Price::from_ticks(ticks).unwrap()
}

fn iex_day(symbol: &str, date: &str, close: i64) -> IexDailyPrices {
    IexDailyPrices {
        close: price(close),
        high: price(close + 1),
        low: price(close - 1),
        open: price(close - 2),
        symbol: symbol.to_string(),
        volume: 7,
        date: date.to_string(),
    }
}

#[test]
fn iex_endpoints() {
    let mut iex = Iex::new("tok".to_string());
    iex.daily_series("AAPL".to_string(), "2y".to_string());
    iex.daily_series("MSFT".to_string(), "5d".to_string());
    iex.create_endpoint().unwrap();
    assert_eq!(
        iex.endpoints(),
        &vec![
            "https://api.iex.cloud/v1/stock/AAPL/chart/2y?token=tok".to_string(),
            "https://api.iex.cloud/v1/stock/MSFT/chart/5d?token=tok".to_string(),
        ]
    );
    iex.finish_download();
    assert!(iex.endpoints().is_empty());
}

#[test]
fn iex_endpoint_that_is_no_url_changes_nothing() {
    let mut iex = Iex::new("tok".to_string());
    iex.daily_series("http://[".to_string(), "2y".to_string());
    assert!(matches!(iex.create_endpoint(), Err(MarketError::UrlParseError(_))));
    assert!(iex.endpoints().is_empty());
}

#[test]
fn iex_responses_become_sorted_daily_series() {
    let mut iex = Iex::new("tok".to_string());
    iex.store(vec![iex_day("AAPL", "2024-01-03", 30), iex_day("AAPL", "2024-01-02", 20)]);
    iex.store(vec![iex_day("MSFT", "2024-02-01", 40)]);
    let results = iex.transform_data();
    assert_eq!(results.len(), 2);
    let first = results[0].as_ref().unwrap();
    assert_eq!((first.symbol.as_str(), first.interval), ("AAPL", Interval::Daily));
    let closes: Vec<i64> = first.data.iter().map(|b| b.close.ticks()).collect();
    assert_eq!(closes, vec![20, 30]);
    assert_eq!(first.data[0].date, Date { year: 2024, month: 1, day: 2 });
    assert_eq!((first.data[0].open.ticks(), first.data[0].high.ticks(), first.data[0].low.ticks()), (18, 21, 19));
    assert_eq!(first.data[0].volume, 7);
    assert_eq!(results[1].as_ref().unwrap().symbol, "MSFT");
    // the responses stay
    assert_eq!(iex.data().len(), 2);
    assert_eq!(iex.transform_data().len(), 2);
}

#[test]
fn iex_bad_date_gives_an_error_and_the_days_before_it() {
    let mut iex = Iex::new("tok".to_string());
    iex.store(vec![iex_day("AAPL", "2024-01-03", 30), iex_day("AAPL", "03/01/2024", 20), iex_day("AAPL", "2024-01-01", 10)]);
    let results = iex.transform_data();
    assert_eq!(results.len(), 2);
    assert!(matches!(
        &results[0],
        Err(MarketError::ParsingError(m)) if m == "Unable to parse Date field: input contains invalid characters"
    ));
    let series = results[1].as_ref().unwrap();
    assert_eq!(series.symbol, "AAPL");
    assert_eq!(series.data.len(), 1);
    assert_eq!(series.data[0].close.ticks(), 30);
}

#[test]
fn iex_symbol_is_that_of_the_last_day_read() {
    let mut iex = Iex::new("tok".to_string());
    iex.store(vec![]);
    iex.store(vec![iex_day("AAPL", "2024-01-03", 30), iex_day("aapl", "2024-01-04", 40)]);
    iex.store(vec![iex_day("MSFT", "never", 1)]);
    let results = iex.transform_data();
    assert_eq!(results.len(), 4);
    assert_eq!(results[0].as_ref().unwrap().symbol, "");
    assert_eq!(results[1].as_ref().unwrap().symbol, "aapl");
    assert!(results[2].is_err());
    let last = results[3].as_ref().unwrap();
    assert_eq!(last.symbol, "aapl");
    assert!(last.data.is_empty());
}

fn td_bar(datetime: &str, close: &str) -> TimeSeriesData {
    TimeSeriesData {
        datetime: datetime.to_string(),
        open: "1.0".to_string(),
        high: "3.0".to_string(),
        low: "0.5".to_string(),
        close: close.to_string(),
        volume: "1500".to_string(),
    }
}

fn td_response(status: &str, interval: &str, bars: Vec<TimeSeriesData>) -> TwelvedataPrices {
    TwelvedataPrices {
        meta: MetaData {
            symbol: "AAPL".to_string(),
            interval: interval.to_string(),
            currency: "USD".to_string(),
            exchange_timezone: "America/New_York".to_string(),
            exchange: "NASDAQ".to_string(),
            mic_code: "XNGS".to_string(),
            kind: "Common Stock".to_string(),
        },
        time_series: bars,
        status: status.to_string(),
    }
}

#[test]
fn twelvedata_endpoints() {
    let mut site = Twelvedata::new("key");
    site.daily_series("AAPL", 50);
    site.weekly_series("AAPL", 5);
    site.monthly_series("AAPL", 0);
    site.intraday_series("AAPL", 4_000_000_000, Interval::Min15).unwrap();
    site.intraday_series("AAPL", 1, Interval::Hour1).unwrap();
    site.create_endpoint().unwrap();
    let wanted: Vec<String> = [("1day", "50"), ("1week", "5"), ("1month", "0"), ("15min", "4000000000"), ("1h", "1")]
        .iter()
        .map(|(interval, size)| {
            format!(
                "https://api.twelvedata.com/time_series?symbol=AAPL&interval={}&outputsize={}&format=json&apikey=key",
                interval, size
            )
        })
        .collect();
    assert_eq!(site.endpoints(), &wanted);
    site.finish_download();
    assert!(site.endpoints().is_empty());
}

#[test]
fn twelvedata_intraday_intervals() {
    let mut site = Twelvedata::new("key");
    for interval in [Interval::Min1, Interval::Min5, Interval::Min30] {
        assert!(site.intraday_series("AAPL", 1, interval).is_ok());
    }
    for (interval, name) in [(Interval::Hour2, "2 hours"), (Interval::Hour4, "4 hours"), (Interval::Daily, "Daily")] {
        match site.intraday_series("AAPL", 1, interval) {
            Err(MarketError::UnsuportedInterval(message)) => {
                assert_eq!(message, format!("{} interval is not supported by AlphaVantage", name));
            }
            _ => panic!("interval accepted"),
        }
    }
    site.create_endpoint().unwrap();
    assert_eq!(site.endpoints().len(), 3);
}

#[test]
fn twelvedata_daily_response_becomes_a_sorted_series() {
    let response = td_response("ok", "1day", vec![td_bar("2024-01-03", "3.5"), td_bar("2024-01-02", "2.5")]);
    let series = transform_twelvedata(&response).unwrap();
    assert_eq!((series.symbol.as_str(), series.interval), ("AAPL", Interval::Daily));
    let closes: Vec<i64> = series.data.iter().map(|b| b.close.ticks()).collect();
    assert_eq!(closes, vec![25_000, 35_000]);
    let bar = &series.data[0];
    assert_eq!(bar.date, Date { year: 2024, month: 1, day: 2 });
    assert_eq!((bar.open.ticks(), bar.high.ticks(), bar.low.ticks(), bar.volume), (10_000, 30_000, 5_000, 15_000_000));
}

#[test]
fn twelvedata_intraday_bars_are_dated_with_a_time() {
    let response = td_response("ok", "1h", vec![td_bar("2024-01-03 15:30:00", "3.5")]);
    let series = transform_twelvedata(&response).unwrap();
    assert_eq!(series.interval, Interval::Hour1);
    assert_eq!(series.data[0].date, Date { year: 2024, month: 1, day: 3 });
    let without_time = td_response("ok", "1h", vec![td_bar("2024-01-03", "3.5")]);
    assert!(matches!(
        transform_twelvedata(&without_time),
        Err(MarketError::ParsingError(m)) if m == "Unable to parse Volume field: premature end of input"
    ));
    let with_time = td_response("ok", "1week", vec![td_bar("2024-01-03 15:30:00", "3.5")]);
    assert!(matches!(
        transform_twelvedata(&with_time),
        Err(MarketError::ParsingError(m)) if m == "Unable to parse Volume field: trailing input"
    ));
}

#[test]
fn twelvedata_response_with_bad_status() {
    let response = td_response("error", "1day", vec![td_bar("2024-01-03", "3.5")]);
    assert!(matches!(
        transform_twelvedata(&response),
        Err(MarketError::DownloadedData(m)) if m == "Downloaded data status is: error"
    ));
}

#[test]
fn twelvedata_first_bad_field_fails_the_response() {
    let mut bars = vec![td_bar("2024-01-03", "3.5"), td_bar("2024-01-02", "2.5")];
    bars[1].high = "high".to_string();
    bars[1].volume = "lots".to_string();
    assert!(matches!(
        transform_twelvedata(&td_response("ok", "1day", bars)),
        Err(MarketError::ParsingError(m)) if m == "Unable to parse High field: invalid decimal number"
    ));
    let mut bars = vec![td_bar("2024-01-03", "3.5")];
    bars[0].open = "".to_string();
    assert!(matches!(
        transform_twelvedata(&td_response("ok", "1day", bars)),
        Err(MarketError::ParsingError(m)) if m == "Unable to parse Open field: invalid decimal number"
    ));
    let mut bars = vec![td_bar("2024-01-03", "3.5")];
    bars[0].close = "1e2".to_string();
    assert!(matches!(
        transform_twelvedata(&td_response("ok", "1day", bars)),
        Err(MarketError::ParsingError(m)) if m == "Unable to parse Close field: invalid decimal number"
    ));
    let mut bars = vec![td_bar("2024-01-03", "3.5")];
    bars[0].low = "-".to_string();
    assert!(matches!(
        transform_twelvedata(&td_response("ok", "1day", bars)),
        Err(MarketError::ParsingError(m)) if m == "Unable to parse Low field: invalid decimal number"
    ));
    let mut bars = vec![td_bar("2024-01-03", "3.5")];
    bars[0].volume = "1 000".to_string();
    assert!(matches!(
        transform_twelvedata(&td_response("ok", "1day", bars)),
        Err(MarketError::ParsingError(m)) if m == "Unable to parse Volume field: invalid decimal number"
    ));
}

#[test]
fn twelvedata_transforms_every_response_and_drops_them() {
    let mut site = Twelvedata::new("key");
    site.store(td_response("ok", "1month", vec![td_bar("2024-01-03", "3.5")]));
    site.store(td_response("bad", "1day", vec![]));
    assert_eq!(site.data().len(), 2);
    let results = site.transform_data();
    assert_eq!(results.len(), 2);
    assert_eq!(results[0].as_ref().unwrap().interval, Interval::Monthly);
    assert!(results[1].is_err());
    assert!(site.data().is_empty());
}

#[test]
fn yahoo_ranges_in_queries() {
    let names = [
        (YahooRange::Day1, "1d"),
        (YahooRange::Day5, "5d"),
        (YahooRange::Month1, "1mo"),
        (YahooRange::Month3, "3mo"),
        (YahooRange::Month6, "6mo"),
        (YahooRange::Year1, "1y"),
        (YahooRange::Year2, "2y"),
        (YahooRange::Year5, "5y"),
        (YahooRange::Year10, "10y"),
        (YahooRange::Ytd, "ytd"),
        (YahooRange::Max, "max"),
    ];
    for (range, name) in names {
        assert_eq!(range.to_string(), name);
    }
    assert_eq!(YahooRange::default(), YahooRange::Month6);
}

#[test]
fn yahoo_endpoints() {
    let mut yahoo = YahooFin::new();
    yahoo.daily_series("AAPL", YahooRange::Day5);
    yahoo.weekly_series("AAPL", YahooRange::Year1);
    yahoo.monthly_series("AAPL", YahooRange::Max);
    yahoo.intraday_series("AAPL", Interval::Min30, YahooRange::Day1).unwrap();
    yahoo.create_endpoint().unwrap();
    let wanted: Vec<String> = [("1d", "5d"), ("1wk", "1y"), ("1m", "max"), ("30m", "1d")]
        .iter()
        .map(|(interval, range)| {
            format!(
                "https://query1.finance.yahoo.com/v8/finance/chart/AAPL?metrics=high&interval={}&range={}",
                interval, range
            )
        })
        .collect();
    assert_eq!(yahoo.endpoints(), &wanted);
    yahoo.finish_download();
    assert!(yahoo.endpoints().is_empty());
}

#[test]
fn yahoo_intraday_intervals() {
    let mut yahoo = YahooFin::new();
    for interval in [Interval::Min1, Interval::Min5, Interval::Min15, Interval::Hour1] {
        assert!(yahoo.intraday_series("AAPL", interval, YahooRange::Day1).is_ok());
    }
    match yahoo.intraday_series("AAPL", Interval::Hour4, YahooRange::Day1) {
        Err(MarketError::UnsuportedInterval(message)) => {
            assert_eq!(message, "4 hours interval is not supported by AlphaVantage");
        }
        _ => panic!("interval accepted"),
    }
    yahoo.create_endpoint().unwrap();
    assert_eq!(yahoo.endpoints().len(), 4);
}

fn quote(closes: &[i64]) -> Quote {
    Quote {
        volume: closes.iter().map(|c| c * 100).collect(),
        close: closes.iter().map(|c| price(*c)).collect(),
        low: closes.iter().map(|c| price(c - 1)).collect(),
        open: closes.iter().map(|c| price(c - 2)).collect(),
        high: closes.iter().map(|c| price(c + 1)).collect(),
    }
}

fn chart(moments: Vec<i64>, quotes: Vec<Quote>) -> YahooPrices {
    YahooPrices {
        chart: Chart { result: vec![ChartResult { symbol: "AAPL".to_string(), timestamp: moments, quote: quotes }], error: None },
    }
}

#[test]
fn yahoo_chart_gives_the_bars_between_first_and_last() {
    let prices = chart(vec![0, 86_400, 172_800, 259_200], vec![quote(&[10, 20, 30, 40])]);
    let results = transform_yahoo(&prices, Interval::Weekly);
    assert_eq!(results.len(), 1);
    let series = results[0].as_ref().unwrap();
    assert_eq!((series.symbol.as_str(), series.interval), ("AAPL", Interval::Weekly));
    let closes: Vec<i64> = series.data.iter().map(|b| b.close.ticks()).collect();
    assert_eq!(closes, vec![20, 30]);
    let bar = &series.data[0];
    assert_eq!(bar.date, Date { year: 1970, month: 1, day: 2 });
    assert_eq!((bar.open.ticks(), bar.high.ticks(), bar.low.ticks(), bar.volume), (18, 21, 19, 2000));
}

#[test]
fn yahoo_chart_with_few_or_no_bars() {
    for closes in [vec![], vec![10], vec![10, 20]] {
        let results = transform_yahoo(&chart(vec![], vec![quote(&closes)]), Interval::Daily);
        assert_eq!(results.len(), 1);
        assert!(results[0].as_ref().unwrap().data.is_empty());
    }
    let results = transform_yahoo(&chart(vec![0, 1, 2], vec![]), Interval::Daily);
    assert!(results[0].as_ref().unwrap().data.is_empty());
}

#[test]
fn yahoo_reported_error_comes_first() {
    let mut prices = chart(vec![0, 86_400, 172_800], vec![quote(&[10, 20, 30])]);
    prices.chart.error = Some("throttled".to_string());
    let results = transform_yahoo(&prices, Interval::Daily);
    assert_eq!(results.len(), 2);
    assert!(matches!(
        &results[0],
        Err(MarketError::DownloadedData(m)) if m == "The return data has some error: throttled"
    ));
    assert_eq!(results[1].as_ref().unwrap().data.len(), 1);
}

#[test]
fn yahoo_moment_beyond_the_calendar_is_reported_and_left_out() {
    let prices = chart(vec![0, i64::MAX, 86_400, 172_800], vec![quote(&[10, 20, 30])]);
    let results = transform_yahoo(&prices, Interval::Daily);
    assert_eq!(results.len(), 2);
    assert!(matches!(&results[0], Err(MarketError::ParsingError(m)) if m == "Unable to parse the timestamp"));
    let series = results[1].as_ref().unwrap();
    assert_eq!(series.data.len(), 1);
    assert_eq!(series.data[0].date, Date { year: 1970, month: 1, day: 2 });
}

#[test]
fn yahoo_arrays_that_do_not_reach_are_reported() {
    let prices = chart(vec![0], vec![quote(&[10, 20, 30])]);
    let results = transform_yahoo(&prices, Interval::Daily);
    assert_eq!(results.len(), 1);
    assert!(matches!(&results[0], Err(MarketError::DownloadedData(m)) if m == "Quote arrays differ in length"));
    let mut short = quote(&[10, 20, 30]);
    short.volume = vec![1];
    let results = transform_yahoo(&chart(vec![0, 1, 2], vec![short]), Interval::Daily);
    assert!(matches!(&results[0], Err(MarketError::DownloadedData(m)) if m == "Quote arrays differ in length"));
}

#[test]
fn yahoo_responses_answer_the_requests_in_order() {
    let mut yahoo = YahooFin::new();
    yahoo.monthly_series("AAPL", YahooRange::Max);
    yahoo.daily_series("AAPL", YahooRange::Day5);
    yahoo.create_endpoint().unwrap();
    yahoo.store(chart(vec![0, 1, 2], vec![quote(&[10, 20, 30])]));
    yahoo.store(chart(vec![0, 1, 2], vec![quote(&[10, 20, 30]), quote(&[1, 2, 3])]));
    yahoo.store(chart(vec![], vec![]));
    assert_eq!(yahoo.data().len(), 3);
    let results = yahoo.transform_data();
    assert_eq!(results.len(), 3);
    assert_eq!(results[0].as_ref().unwrap().interval, Interval::Monthly);
    let second = results[1].as_ref().unwrap();
    assert_eq!(second.interval, Interval::Daily);
    let closes: Vec<i64> = second.data.iter().map(|b| b.close.ticks()).collect();
    assert_eq!(closes, vec![20, 2]);
    assert!(matches!(&results[2], Err(MarketError::DownloadedData(m)) if m == "Response without a request"));
    assert!(yahoo.data().is_empty());
}
