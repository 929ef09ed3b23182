use market_data::client::{Date, Interval, MarketSeries, Series};
use market_data::fixed::Price;
use market_data::indicators::bollinger::calculate_bollinger_bands;
use market_data::indicators::ema::calculate_ema;
use market_data::indicators::macd::calculate_macd;
use market_data::indicators::rsi::calculate_rsi;
use market_data::indicators::sma::calculate_sma;
use market_data::indicators::stochastic::calculate_stochastic;
use market_data::indicators::table::LabelMap;
use market_data::indicators::{Ask, EnhancedMarketSeries, Indicators};

fn thirty_bars() -> Vec<Series> {
    let mut bars = Vec::new();
    for i in 0..30i64 {
        // closes wander up and down around 150
        let close = 1_500_000 + (i * 37 % 11 - 5) * 12_500 + i * 3_000;
        bars.push(Series {
            date: Date { year: 2024, month: 1, day: i as u32 + 1 },
            open: Price::from_ticks(close - 5_000).unwrap(),
            close: Price::from_ticks(close).unwrap(),
            high: Price::from_ticks(close + 20_000).unwrap(),
            low: Price::from_ticks(close - 20_000).unwrap(),
            volume: 1_000_000 * 10_000,
        });
    }
    bars
}

fn aapl() -> EnhancedMarketSeries {
    MarketSeries { symbol: "AAPL".to_string(), interval: Interval::Daily, data: thirty_bars() }.enhance_data()
}

#[test]
fn enhance_data_starts_without_requests_or_results() {
    let enhanced = aapl();
    assert_eq!(enhanced.symbol, "AAPL");
    assert_eq!(enhanced.interval, Interval::Daily);
    assert_eq!(enhanced.series.len(), 30);
    assert!(enhanced.asks.is_empty());
    assert!(enhanced.indicators.sma.is_empty());
    assert!(enhanced.indicators.ema.is_empty());
    assert!(enhanced.indicators.rsi.is_empty());
    assert!(enhanced.indicators.stochastic.is_empty());
    assert!(enhanced.indicators.macd.is_empty());
    assert!(enhanced.indicators.bb.is_empty());
}

#[test]
fn requests_are_recorded_in_order_and_compute_nothing() {
    let enhanced = aapl().with_sma(10).with_ema(20).with_rsi(14).with_stochastic(5).with_macd(12, 26, 9).with_bb(20, 2);
    assert_eq!(
        enhanced.asks,
        vec![Ask::SMA(10), Ask::EMA(20), Ask::RSI(14), Ask::Stochastic(5), Ask::MACD(12, 26, 9), Ask::BB(20, 2)]
    );
    assert!(enhanced.indicators.sma.is_empty());
    assert!(enhanced.indicators.bb.is_empty());
    assert_eq!(enhanced.series.len(), 30);
}

#[test]
fn requests_are_not_validated() {
    let enhanced = aapl().with_sma(0).with_macd(26, 12, 9).with_bb(0, usize::MAX);
    assert_eq!(enhanced.asks, vec![Ask::SMA(0), Ask::MACD(26, 12, 9), Ask::BB(0, usize::MAX)]);
}

#[test]
fn end_to_end_sma_ema_rsi_on_thirty_bars() {
    let enhanced = aapl().with_sma(10).with_ema(20).with_rsi(14).calculate();
    assert_eq!(enhanced.indicators.sma.keys(), vec!["SMA 10".to_string()]);
    assert_eq!(enhanced.indicators.ema.keys(), vec!["EMA 20".to_string()]);
    assert_eq!(enhanced.indicators.rsi.keys(), vec!["RSI 14".to_string()]);
    assert!(enhanced.indicators.stochastic.is_empty());
    assert!(enhanced.indicators.macd.is_empty());
    assert!(enhanced.indicators.bb.is_empty());
    let sma = enhanced.indicators.sma.get("SMA 10").unwrap();
    let ema = enhanced.indicators.ema.get("EMA 20").unwrap();
    let rsi = enhanced.indicators.rsi.get("RSI 14").unwrap();
    assert_eq!((sma.len(), ema.len(), rsi.len()), (30, 30, 30));
    assert!(sma.iter().take(9).all(|v| *v == 0));
    assert!(sma[9] != 0);
    assert!(rsi.iter().take(14).all(|v| *v == 0));
    assert!(rsi[14] != 0);
    assert_eq!(ema[0], enhanced.series[0].close.ticks());
    assert_eq!(enhanced.symbol, "AAPL");
    assert_eq!(enhanced.asks, vec![Ask::SMA(10), Ask::EMA(20), Ask::RSI(14)]);
}

#[test]
fn calculate_stores_what_each_algorithm_returns() {
    let bars = thirty_bars();
    let enhanced = aapl()
        .with_sma(5)
        .with_ema(7)
        .with_rsi(3)
        .with_stochastic(4)
        .with_macd(2, 4, 6)
        .with_bb(5, 2)
        .calculate();
    assert_eq!(enhanced.indicators.sma.get("SMA 5"), Some(&calculate_sma(&bars, 5)));
    assert_eq!(enhanced.indicators.ema.get("EMA 7"), Some(&calculate_ema(&bars, 7)));
    assert_eq!(enhanced.indicators.rsi.get("RSI 3"), Some(&calculate_rsi(&bars, 3)));
    assert_eq!(enhanced.indicators.stochastic.get("STO 4"), Some(&calculate_stochastic(&bars, 4)));
    assert_eq!(enhanced.indicators.macd.get("MACD (2, 4, 6)"), Some(&calculate_macd(&bars, 2, 4, 6)));
    assert_eq!(enhanced.indicators.bb.get("BB (5, 2)"), Some(&calculate_bollinger_bands(&bars, 5, 2)));
    assert_eq!(enhanced.indicators.macd.get("MACD (2, 4, 6)").unwrap().0.len(), 30);
}

#[test]
fn two_periods_give_two_labels() {
    let enhanced = aapl().with_sma(10).with_sma(20).calculate();
    assert_eq!(enhanced.indicators.sma.keys(), vec!["SMA 10".to_string(), "SMA 20".to_string()]);
    let ten = enhanced.indicators.sma.get("SMA 10").unwrap();
    let twenty = enhanced.indicators.sma.get("SMA 20").unwrap();
    assert_eq!(ten, &calculate_sma(&thirty_bars(), 10));
    assert_eq!(twenty, &calculate_sma(&thirty_bars(), 20));
    assert!(ten != twenty);
}

#[test]
fn the_same_request_twice_gives_one_label() {
    let enhanced = aapl().with_sma(10).with_ema(3).with_sma(10).calculate();
    assert_eq!(enhanced.indicators.sma.len(), 1);
    assert_eq!(enhanced.indicators.sma.keys(), vec!["SMA 10".to_string()]);
    assert_eq!(enhanced.indicators.sma.get("SMA 10"), Some(&calculate_sma(&thirty_bars(), 10)));
    assert_eq!(enhanced.indicators.sma.get("SMA 10").unwrap().len(), 30);
}

#[test]
fn calculate_again_gives_the_same_results() {
    let once = aapl().with_sma(10).with_bb(5, 2).calculate();
    let sma = once.indicators.sma.get("SMA 10").unwrap().clone();
    let bands = once.indicators.bb.get("BB (5, 2)").unwrap().clone();
    let twice = once.calculate();
    assert_eq!(twice.indicators.sma.len(), 1);
    assert_eq!(twice.indicators.bb.len(), 1);
    assert_eq!(twice.indicators.sma.get("SMA 10"), Some(&sma));
    assert_eq!(twice.indicators.bb.get("BB (5, 2)"), Some(&bands));
}

#[test]
fn degenerate_requests_store_empty_results() {
    let enhanced = aapl().with_macd(26, 12, 9).with_stochastic(30).with_bb(30, 2).with_sma(0).calculate();
    let macd = enhanced.indicators.macd.get("MACD (26, 12, 9)").unwrap();
    assert!(macd.0.is_empty() && macd.1.is_empty() && macd.2.is_empty());
    assert!(enhanced.indicators.stochastic.get("STO 30").unwrap().is_empty());
    assert!(enhanced.indicators.bb.get("BB (30, 2)").unwrap().0.is_empty());
    assert!(enhanced.indicators.sma.get("SMA 0").unwrap().is_empty());
}

#[test]
fn requests_beyond_64_bits_are_told_apart() {
    assert!(aapl().is_computable());
    assert!(aapl().with_sma(0).with_rsi(0).with_stochastic(0).with_macd(0, 0, 0).is_computable());
    assert!(aapl().with_ema(1).with_bb(0, 4_611_685).with_ema(usize::MAX).is_computable());
    assert!(!aapl().with_ema(0).is_computable());
    assert!(!aapl().with_sma(3).with_bb(20, 4_611_686).with_sma(4).is_computable());
    assert!(!aapl().with_bb(20, usize::MAX).is_computable());
    assert!(Ask::EMA(1).is_computable() && !Ask::EMA(0).is_computable());
    assert!(Ask::BB(0, 0).is_computable() && !Ask::BB(5, 4_611_686).is_computable());
    assert!(Ask::MACD(26, 12, 9).is_computable() && Ask::SMA(0).is_computable());
}

#[test]
fn labels_name_kind_and_parameters() {
    assert_eq!(Ask::SMA(10).label(), "SMA 10");
    assert_eq!(Ask::EMA(20).label(), "EMA 20");
    assert_eq!(Ask::RSI(14).label(), "RSI 14");
    assert_eq!(Ask::Stochastic(5).label(), "STO 5");
    assert_eq!(Ask::MACD(12, 26, 9).label(), "MACD (12, 26, 9)");
    assert_eq!(Ask::BB(20, 2).label(), "BB (20, 2)");
    assert_eq!(Ask::SMA(0).label(), "SMA 0");
    assert_eq!(Ask::SMA(usize::MAX).label(), format!("SMA {}", usize::MAX));
}

#[test]
fn labels_of_different_requests_differ() {
    let asks = [
        Ask::SMA(1),
        Ask::SMA(10),
        Ask::SMA(100),
        Ask::EMA(1),
        Ask::RSI(1),
        Ask::Stochastic(1),
        Ask::MACD(1, 2, 3),
        Ask::MACD(12, 3, 4),
        Ask::MACD(1, 23, 4),
        Ask::MACD(1, 2, 34),
        Ask::BB(1, 2),
        Ask::BB(12, 2),
        Ask::BB(1, 22),
    ];
    for (i, a) in asks.iter().enumerate() {
        for (j, b) in asks.iter().enumerate() {
            assert_eq!(a.label() == b.label(), i == j);
        }
    }
}

#[test]
fn requests_are_written_out() {
    assert_eq!(Ask::SMA(10).to_string(), "SMA(10)");
    assert_eq!(Ask::EMA(20).to_string(), "EMA(20)");
    assert_eq!(Ask::RSI(14).to_string(), "RSI(14)");
    assert_eq!(Ask::Stochastic(5).to_string(), "STO(5)");
    assert_eq!(Ask::MACD(12, 26, 9).to_string(), "MACD(12, 26, 9)");
    assert_eq!(Ask::BB(20, 2).to_string(), "BB(20, 2)");
}

#[test]
fn label_map_replaces_and_keeps_order() {
    let map: LabelMap<i32> = LabelMap::new();
    assert!(map.is_empty());
    assert_eq!(map.get("a"), None);
    let map = map.insert("b".to_string(), 1).insert("a".to_string(), 2).insert("b".to_string(), 3);
    assert_eq!(map.len(), 2);
    assert_eq!(map.keys(), vec!["b".to_string(), "a".to_string()]);
    assert_eq!(map.get("b"), Some(&3));
    assert_eq!(map.get("a"), Some(&2));
    assert_eq!(map.get("c"), None);
    assert!(map.contains_key("a") && !map.contains_key("c"));
    assert_eq!(map.label_at(1), "a");
    assert_eq!(*map.value_at(0), 3);
}

#[test]
fn indicators_start_empty() {
    let indicators = Indicators::default();
    assert_eq!(indicators.sma.len() + indicators.ema.len() + indicators.rsi.len(), 0);
    assert_eq!(indicators.stochastic.len() + indicators.macd.len() + indicators.bb.len(), 0);
}
