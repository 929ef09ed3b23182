//! Market data: normalised price series and technical indicators over them.
//!
//! A provider's answer becomes a [`MarketSeries`], the common representation
//! of a price series. `enhance_data` turns that into an
//! [`EnhancedMarketSeries`], on which indicators are requested one by one
//! and computed together by `calculate`.
//!
//! Prices are fixed-point numbers with four decimal places. Every indicator
//! is computed in exact integer arithmetic and rounds towards minus infinity
//! wherever a quotient or a square root is taken.

pub mod client;
pub mod dates;
pub mod decimal;
pub mod endpoint;
pub mod errors;
pub mod fixed;
pub mod indicators;
pub mod publishers;
pub mod sorting;
pub mod text;

pub use client::{Date, Interval, MarketSeries, Series};
pub use errors::MarketError;
pub use fixed::Price;
pub use indicators::{Ask, EnhancedMarketSeries, Indicators};
pub use publishers::alphavantage::{AlphaVantage, OutputSize};
pub use publishers::finnhub::Finnhub;
pub use publishers::iexcloud::Iex;
pub use publishers::massive::Massive;
pub use publishers::polygon_io::Polygon;
pub use publishers::twelvedata::Twelvedata;
pub use publishers::yahoo_finance::{YahooFin, YahooRange};
