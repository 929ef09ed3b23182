use market_data::client::{Date, Series};
use market_data::fixed::{div_floor, div_floor_signed, isqrt, Price};
use market_data::indicators::bollinger::calculate_bollinger_bands;
use market_data::indicators::ema::{calculate_ema, calculate_ema_slice};
use market_data::indicators::macd::calculate_macd;
use market_data::indicators::rsi::calculate_rsi;
use market_data::indicators::sma::{calculate_sma, sma_of};
use market_data::indicators::stochastic::calculate_stochastic;
use std::collections::VecDeque;

fn price(ticks: i64) -> Price {
    Price::from_ticks(ticks).unwrap()
}

fn bar(day: u32, high: i64, low: i64, close: i64) -> Series {
    Series {
        date: Date { year: 2024, month: 1, day },
        open: price(close),
        close: price(close),
        high: price(high),
        low: price(low),
        volume: 0,
    }
}

/// Bars whose prices are all the closing price, given in ticks.
fn closing(ticks: &[i64]) -> Vec<Series> {
    ticks.iter().enumerate().map(|(i, t)| bar(i as u32 + 1, *t, *t, *t)).collect()
}

/// Bars whose prices are all the closing price, given in whole units.
fn units(closes: &[i64]) -> Vec<Series> {
    closes.iter().enumerate().map(|(i, c)| bar(i as u32 + 1, c * 10_000, c * 10_000, c * 10_000)).collect()
}

fn line(values: &[i64]) -> VecDeque<i64> {
    values.iter().copied().collect()
}

#[test]
fn sma_of_one_to_five_over_three() {
    let out = calculate_sma(&units(&[1, 2, 3, 4, 5]), 3);
    assert_eq!(out, line(&[0, 0, 20_000, 30_000, 40_000]));
}

#[test]
fn sma_rounds_down() {
    assert_eq!(calculate_sma(&closing(&[1, 2]), 2), line(&[0, 1]));
    assert_eq!(calculate_sma(&closing(&[-1, -2]), 2), line(&[0, -2]));
}

#[test]
fn sma_of_period_one_is_the_close() {
    assert_eq!(calculate_sma(&closing(&[7, -3, 12]), 1), line(&[7, -3, 12]));
}

#[test]
fn sma_with_period_of_series_length() {
    assert_eq!(calculate_sma(&closing(&[3, 6, 9]), 3), line(&[0, 0, 6]));
}

#[test]
fn sma_with_period_beyond_series_is_all_zero() {
    assert_eq!(calculate_sma(&closing(&[3, 6, 9]), 7), line(&[0, 0, 0]));
}

#[test]
fn sma_with_period_zero_is_empty() {
    assert_eq!(calculate_sma(&closing(&[3, 6, 9]), 0), line(&[]));
}

#[test]
fn sma_of_empty_series_is_empty() {
    assert_eq!(calculate_sma(&closing(&[]), 3), line(&[]));
}

#[test]
fn sma_of_plain_values_takes_extremes() {
    let values = [i64::MAX, i64::MAX, i64::MIN, i64::MIN];
    assert_eq!(sma_of(&values, 2), line(&[0, i64::MAX, -1, i64::MIN]));
}

#[test]
fn ema_starts_at_first_close() {
    for period in [1usize, 2, 5, 200] {
        let out = calculate_ema(&units(&[42, 7, 99]), period);
        assert_eq!(out.len(), 3);
        assert_eq!(out[0], 420_000);
    }
}

#[test]
fn ema_of_ten_twenty_thirty_over_three() {
    let out = calculate_ema(&units(&[10, 20, 30]), 3);
    assert_eq!(out, line(&[100_000, 150_000, 225_000]));
}

#[test]
fn ema_rounds_down() {
    assert_eq!(calculate_ema(&closing(&[0, 1]), 2), line(&[0, 0]));
    assert_eq!(calculate_ema(&closing(&[0, -1]), 2), line(&[0, -1]));
}

#[test]
fn ema_with_period_beyond_series_is_not_padded() {
    let out = calculate_ema(&units(&[10, 20]), 9);
    assert_eq!(out, line(&[100_000, 120_000]));
}

#[test]
fn ema_of_period_one_is_the_close() {
    assert_eq!(calculate_ema(&closing(&[7, -3, 12]), 1), line(&[7, -3, 12]));
    assert_eq!(calculate_ema(&closing(&[]), 1), line(&[]));
    assert_eq!(calculate_ema_slice(&[], usize::MAX), line(&[]));
}

#[test]
fn ema_slice_follows_the_same_rule() {
    assert_eq!(calculate_ema_slice(&[100_000, 200_000, 300_000], 3), line(&[100_000, 150_000, 225_000]));
    assert_eq!(calculate_ema_slice(&[i64::MAX, i64::MIN], 1), line(&[i64::MAX, i64::MIN]));
}

#[test]
fn rsi_of_rising_series_is_one_hundred() {
    let out = calculate_rsi(&units(&[1, 2, 3, 4, 5]), 2);
    assert_eq!(out, line(&[0, 0, 1_000_000, 1_000_000, 1_000_000]));
}

#[test]
fn rsi_of_flat_series_is_one_hundred() {
    assert_eq!(calculate_rsi(&units(&[5, 5, 5]), 1), line(&[0, 1_000_000, 1_000_000]));
}

#[test]
fn rsi_of_falling_series_is_zero() {
    assert_eq!(calculate_rsi(&units(&[3, 2, 1]), 1), line(&[0, 0, 0]));
}

#[test]
fn rsi_weighs_rises_against_falls() {
    // every window holds a rise of 2 and a fall of 1: 100 * 2 / 3
    let out = calculate_rsi(&units(&[10, 12, 11, 13]), 2);
    assert_eq!(out, line(&[0, 0, 666_666, 666_666]));
}

#[test]
fn rsi_window_slides() {
    // changes +3, -1, -1, +1 over windows of two changes
    let out = calculate_rsi(&units(&[10, 13, 12, 11, 12]), 2);
    assert_eq!(out, line(&[0, 0, 750_000, 0, 500_000]));
}

#[test]
fn rsi_with_period_of_series_length_is_all_zero() {
    assert_eq!(calculate_rsi(&units(&[1, 2]), 2), line(&[0, 0]));
    assert_eq!(calculate_rsi(&units(&[1, 2]), 5), line(&[0, 0]));
}

#[test]
fn rsi_with_period_zero_is_empty() {
    assert_eq!(calculate_rsi(&units(&[1, 2]), 0), line(&[]));
}

#[test]
fn stochastic_places_close_in_range() {
    let series = vec![bar(1, 100_000, 50_000, 70_000), bar(2, 120_000, 60_000, 90_000)];
    // lowest low 5, highest high 12, close 9: 100 * 4 / 7
    assert_eq!(calculate_stochastic(&series, 1), line(&[0, 571_428]));
}

#[test]
fn stochastic_looks_back_over_period_plus_one_bars() {
    let series = vec![
        bar(1, 200_000, 10_000, 50_000),
        bar(2, 100_000, 50_000, 70_000),
        bar(3, 120_000, 60_000, 110_000),
    ];
    // at the last bar, over all three bars: low 1, high 20, close 11
    assert_eq!(calculate_stochastic(&series, 2), line(&[0, 0, 526_315]));
    // over the last two bars only: low 5, high 12, close 11
    assert_eq!(calculate_stochastic(&series, 1)[2], 857_142);
}

#[test]
fn stochastic_of_flat_range_is_zero() {
    assert_eq!(calculate_stochastic(&units(&[5, 5, 5]), 1), line(&[0, 0, 0]));
}

#[test]
fn stochastic_rounds_down_below_zero() {
    // close below the lowest low: 100 * (4 - 5) / (12 - 5) = -14.2857..
    let series = vec![bar(1, 100_000, 50_000, 70_000), bar(2, 120_000, 60_000, 40_000)];
    assert_eq!(calculate_stochastic(&series, 1), line(&[0, -142_858]));
}

#[test]
fn stochastic_needs_a_period_shorter_than_the_series() {
    assert_eq!(calculate_stochastic(&units(&[1, 2, 3]), 3), line(&[]));
    assert_eq!(calculate_stochastic(&units(&[1, 2, 3]), 0), line(&[]));
    assert_eq!(calculate_stochastic(&units(&[]), 1), line(&[]));
}

#[test]
fn macd_with_fast_not_below_slow_is_empty() {
    let series = units(&[1, 2, 3, 4, 5, 6, 7, 8, 9, 10, 11, 12, 13, 14, 15, 16, 17, 18, 19, 20, 21, 22, 23, 24, 25, 26, 27, 28, 29, 30]);
    let (macd, signal, histogram) = calculate_macd(&series, 26, 12, 9);
    assert!(macd.is_empty() && signal.is_empty() && histogram.is_empty());
    let (macd, signal, histogram) = calculate_macd(&series, 12, 12, 20);
    assert!(macd.is_empty() && signal.is_empty() && histogram.is_empty());
}

#[test]
fn macd_needs_increasing_periods_within_the_series() {
    let series = units(&[10, 20, 30, 40]);
    for (fast, slow, signal) in [(0usize, 2usize, 3usize), (1, 3, 2), (1, 2, 2), (1, 2, 4), (2, 3, 9)] {
        let (macd, line_of_signal, histogram) = calculate_macd(&series, fast, slow, signal);
        assert!(macd.is_empty() && line_of_signal.is_empty() && histogram.is_empty());
    }
}

#[test]
fn macd_lines_of_a_short_series() {
    let (macd, signal, histogram) = calculate_macd(&units(&[10, 20, 30, 40]), 1, 2, 3);
    assert_eq!(macd, line(&[0, 33_334, 44_445, 48_149]));
    assert_eq!(signal, line(&[0, 16_667, 30_556, 39_352]));
    assert_eq!(histogram, line(&[0, 16_667, 13_889, 8_797]));
}

#[test]
fn bollinger_bands_of_a_short_series() {
    let (upper, middle, lower) = calculate_bollinger_bands(&units(&[10, 20, 30]), 2, 2);
    assert_eq!(middle, line(&[100_000, 166_666, 255_555]));
    assert_eq!(upper, line(&[0, 0, 396_975]));
    assert_eq!(lower, line(&[0, 0, 114_135]));
}

#[test]
fn bollinger_uses_the_typical_price() {
    // typical prices 2 (7 / 3 rounded down) and 5; window of one bar: deviation zero
    let series = vec![bar(1, 3, 2, 2), bar(2, 6, 4, 5)];
    let (upper, middle, lower) = calculate_bollinger_bands(&series, 1, 3);
    assert_eq!(middle, line(&[2, 5]));
    assert_eq!(upper, line(&[0, 5]));
    assert_eq!(lower, line(&[0, 5]));
}

#[test]
fn bollinger_with_a_large_multiplier() {
    let (upper, middle, lower) = calculate_bollinger_bands(&units(&[10, 20, 30]), 2, 1_000_001);
    assert_eq!(middle, line(&[100_000, 166_666, 255_555]));
    assert_eq!(upper, line(&[0, 0, 255_555 + 1_000_001 * 70_710]));
    assert_eq!(lower, line(&[0, 0, 255_555 - 1_000_001 * 70_710]));
}

#[test]
fn bollinger_with_multiplier_zero_is_the_center() {
    let (upper, middle, lower) = calculate_bollinger_bands(&units(&[10, 20, 30]), 2, 0);
    assert_eq!(middle[2], 255_555);
    assert_eq!(upper, line(&[0, 0, 255_555]));
    assert_eq!(lower, line(&[0, 0, 255_555]));
}

#[test]
fn bollinger_needs_a_period_shorter_than_the_series() {
    for (period, multiplier) in [(3usize, 2usize), (0, 2), (9, 2), (0, 4_611_685)] {
        let (upper, middle, lower) = calculate_bollinger_bands(&units(&[10, 20, 30]), period, multiplier);
        assert!(upper.is_empty() && middle.is_empty() && lower.is_empty());
    }
}

#[test]
fn bollinger_at_the_limits_of_price_and_multiplier() {
    let limit = 1_000_000_000_000;
    let series = vec![bar(1, limit, limit, limit), bar(2, -limit, -limit, -limit), bar(3, limit, limit, limit)];
    let (upper, middle, lower) = calculate_bollinger_bands(&series, 2, 4_611_685);
    assert_eq!(middle.len(), 3);
    // deviation: square root of (2 * limit)^2 / 2
    assert_eq!(upper[2] - middle[2], 4_611_685 * 1_414_213_562_373);
    assert_eq!(middle[2] - lower[2], 4_611_685 * 1_414_213_562_373);
    assert_eq!((upper[0], upper[1], lower[0], lower[1]), (0, 0, 0, 0));
}

#[test]
fn every_line_is_as_long_as_the_series() {
    let series = units(&[5, 7, 6, 9, 12, 11, 10, 14, 15, 13]);
    assert_eq!(calculate_sma(&series, 4).len(), 10);
    assert_eq!(calculate_ema(&series, 4).len(), 10);
    assert_eq!(calculate_rsi(&series, 4).len(), 10);
    assert_eq!(calculate_stochastic(&series, 4).len(), 10);
    let (macd, signal, histogram) = calculate_macd(&series, 2, 4, 6);
    assert_eq!((macd.len(), signal.len(), histogram.len()), (10, 10, 10));
    let (upper, middle, lower) = calculate_bollinger_bands(&series, 4, 2);
    assert_eq!((upper.len(), middle.len(), lower.len()), (10, 10, 10));
}

#[test]
fn padding_is_zero_and_ends_where_the_window_fills() {
    let series = units(&[5, 7, 6, 9, 12, 11, 10, 14, 15, 13]);
    let sma = calculate_sma(&series, 4);
    assert!(sma.iter().take(3).all(|v| *v == 0) && sma[3] != 0);
    let rsi = calculate_rsi(&series, 4);
    assert!(rsi.iter().take(4).all(|v| *v == 0) && rsi[4] != 0);
    let stochastic = calculate_stochastic(&series, 4);
    assert!(stochastic.iter().take(4).all(|v| *v == 0) && stochastic[4] != 0);
    let (upper, middle, lower) = calculate_bollinger_bands(&series, 4, 2);
    assert!(upper.iter().take(4).all(|v| *v == 0) && upper[4] != 0);
    assert!(lower.iter().take(4).all(|v| *v == 0) && lower[4] != 0);
    assert!(middle.iter().all(|v| *v != 0));
    assert!(calculate_ema(&series, 4).iter().all(|v| *v != 0));
}

#[test]
fn integer_square_root_rounds_down() {
    assert_eq!(isqrt(0), 0);
    assert_eq!(isqrt(1), 1);
    assert_eq!(isqrt(15), 3);
    assert_eq!(isqrt(16), 4);
    assert_eq!(isqrt(5_000_000_000), 70_710);
    assert_eq!(isqrt(u128::MAX), u64::MAX as u128);
}

#[test]
fn division_rounds_towards_minus_infinity() {
    assert_eq!(div_floor(7, 2), 3);
    assert_eq!(div_floor(-7, 2), -4);
    assert_eq!(div_floor(-8, 2), -4);
    assert_eq!(div_floor(0, 5), 0);
    assert_eq!(div_floor(i128::MIN, 1), i128::MIN);
    assert_eq!(div_floor_signed(7, -2), -4);
    assert_eq!(div_floor_signed(-7, -2), 3);
    assert_eq!(div_floor_signed(-7, 2), -4);
}
