use market_data::client::{Date, Interval, MarketSeries, Series};
use market_data::fixed::Price;

fn price(ticks: i64) -> Price {
    Price::from_ticks(ticks).unwrap()
}

fn two_bars() -> Vec<Series> {
    vec![
        Series {
            date: Date { year: 2024, month: 1, day: 2 },
            open: price(15_000),
            close: price(22_500),
            high: price(30_000),
            low: price(10_000),
            volume: 10_000_000,
        },
        Series {
            date: Date { year: 2024, month: 1, day: 3 },
            open: price(20_000),
            close: price(30_000),
            high: price(35_000),
            low: price(20_000),
            volume: 20_000_000,
        },
    ]
}

fn series() -> MarketSeries {
    MarketSeries { symbol: "AAPL".to_string(), interval: Interval::Daily, data: two_bars() }
}

#[test]
fn report_without_indicators() {
    let text = series().enhance_data().to_string();
    assert_eq!(
        text,
        "EnhancedMarketSerie: Symbol = AAPL, Interval = Daily,  Requested Indicators: [], Series: \n\
         Date: 2024-01-02, Open: 1.50, Close: 2.25, High: 3.00, Low: 1.00, Volume: 1000.00, ,\n\
         Date: 2024-01-03, Open: 2.00, Close: 3.00, High: 3.50, Low: 2.00, Volume: 2000.00, "
    );
}

#[test]
fn report_lists_requests_before_they_are_computed() {
    let text = series().enhance_data().with_sma(1).with_macd(1, 2, 3).to_string();
    assert!(text.starts_with(
        "EnhancedMarketSerie: Symbol = AAPL, Interval = Daily,  Requested Indicators: [SMA(1), MACD(1, 2, 3)], Series: \n\
         Date: 2024-01-02, Open: 1.50, Close: 2.25, High: 3.00, Low: 1.00, Volume: 1000.00, ,\n"
    ));
}

#[test]
fn report_with_lines_and_bands() {
    let text = series().enhance_data().with_sma(1).with_ema(1).with_bb(1, 2).calculate().to_string();
    assert_eq!(
        text,
        "EnhancedMarketSerie: Symbol = AAPL, Interval = Daily,  Requested Indicators: [SMA(1), EMA(1), BB(1, 2)], Series: \n\
         Date: 2024-01-02, Open: 1.50, Close: 2.25, High: 3.00, Low: 1.00, Volume: 1000.00, \
         SMA 1: 2.25, EMA 1: 2.25, BB (1, 2): 0.00, 2.25, 0.00, ,\n\
         Date: 2024-01-03, Open: 2.00, Close: 3.00, High: 3.50, Low: 2.00, Volume: 2000.00, \
         SMA 1: 3.00, EMA 1: 3.00, BB (1, 2): 3.00, 3.00, 3.00, "
    );
}

#[test]
fn report_skips_results_that_do_not_reach_a_bar() {
    // a stochastic oscillator over the whole series is empty
    let text = series().enhance_data().with_stochastic(2).with_rsi(1).calculate().to_string();
    assert_eq!(
        text,
        "EnhancedMarketSerie: Symbol = AAPL, Interval = Daily,  Requested Indicators: [STO(2), RSI(1)], Series: \n\
         Date: 2024-01-02, Open: 1.50, Close: 2.25, High: 3.00, Low: 1.00, Volume: 1000.00, \
         RSI 1: 0.00, ,\n\
         Date: 2024-01-03, Open: 2.00, Close: 3.00, High: 3.50, Low: 2.00, Volume: 2000.00, \
         RSI 1: 100.00, "
    );
}

#[test]
fn report_of_an_empty_series_is_its_heading() {
    let empty = MarketSeries { symbol: "X".to_string(), interval: Interval::Min5, data: Vec::new() };
    assert_eq!(
        empty.enhance_data().with_rsi(14).to_string(),
        "EnhancedMarketSerie: Symbol = X, Interval = 5 minutes,  Requested Indicators: [RSI(14)], Series: \n"
    );
}

#[test]
fn report_rounds_to_two_places_away_from_zero() {
    let bars = vec![Series {
        date: Date { year: 2024, month: 12, day: 31 },
        open: price(12_345),
        close: price(12_350),
        high: price(-12_350),
        low: price(-1),
        volume: 49,
    }];
    let text = MarketSeries { symbol: "R".to_string(), interval: Interval::Weekly, data: bars }.enhance_data().to_string();
    assert_eq!(
        text,
        "EnhancedMarketSerie: Symbol = R, Interval = Weekly,  Requested Indicators: [], Series: \n\
         Date: 2024-12-31, Open: 1.23, Close: 1.24, High: -1.24, Low: -0.00, Volume: 0.00, "
    );
}

#[test]
fn market_series_is_written_line_by_line() {
    assert_eq!(
        series().to_string(),
        "MarketSeries: Symbol = AAPL, Interval = Daily, Series =\n  \
         Date: 2024-01-02, Open: 1.5000, Close: 2.2500, High: 3.0000, Low: 1.0000, Volume: 1000.0000\n  \
         Date: 2024-01-03, Open: 2.0000, Close: 3.0000, High: 3.5000, Low: 2.0000, Volume: 2000.0000"
    );
}

#[test]
fn market_series_without_bars_is_its_heading() {
    let empty = MarketSeries { symbol: "X".to_string(), interval: Interval::Hour2, data: Vec::new() };
    assert_eq!(empty.to_string(), "MarketSeries: Symbol = X, Interval = 2 hours, Series =\n");
}

#[test]
fn bar_is_written_with_four_places() {
    let bar = Series {
        date: Date { year: 1999, month: 2, day: 3 },
        open: price(-5),
        close: price(1_000_000_000_000),
        high: price(0),
        low: price(-1_000_000_000_000),
        volume: i64::MIN,
    };
    assert_eq!(
        bar.to_string(),
        "Date: 1999-02-03, Open: -0.0005, Close: 100000000.0000, High: 0.0000, Low: -100000000.0000, \
         Volume: -922337203685477.5808"
    );
}
