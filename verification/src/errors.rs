//! What can go wrong between asking a provider and holding a series.

use vstd::prelude::*;

verus! {

/// `url::ParseError`: why a text is no URL.
#[verifier::external_type_specification]
#[verifier::external_body]
pub struct ExUrlParseError(url::ParseError);

/// `std::io::Error`: why a transfer failed.
#[verifier::external_type_specification]
#[verifier::external_body]
pub struct ExIoError(std::io::Error);

/// `serde_json::Error`: why a text is not the JSON that was expected.
#[verifier::external_type_specification]
#[verifier::external_body]
pub struct ExJsonError(serde_json::Error);

/// The error enum for market data
#[derive(Debug)]
pub enum MarketError {
    /// a text could not be made into a URL
    UrlParseError(url::ParseError),
    /// the data could not be retrieved
    RetriveDataError(std::io::Error),
    /// the response could not be deserialized
    UnableToDeserialize(serde_json::Error),
    /// the server answered with an error
    HttpError(String),
    /// the downloaded data says that something is wrong with it
    DownloadedData(String),
    /// a field of the downloaded data could not be read
    ParsingError(String),
    /// the data could not be written out
    ToWriter(String),
    /// the provider does not offer the interval
    UnsuportedInterval(String),
}

pub type MarketResult<T> = Result<T, MarketError>;

} // verus!

verus! {

/// An error as a value: its kind and, where it carries one, its message.
pub enum Failure {
    UrlParseError,
    RetriveDataError,
    UnableToDeserialize,
    HttpError(Seq<char>),
    DownloadedData(Seq<char>),
    ParsingError(Seq<char>),
    ToWriter(Seq<char>),
    UnsuportedInterval(Seq<char>),
}

impl View for MarketError {
    type V = Failure;

    open spec fn view(&self) -> Failure {
        match self {
            MarketError::UrlParseError(_) => Failure::UrlParseError,
            MarketError::RetriveDataError(_) => Failure::RetriveDataError,
            MarketError::UnableToDeserialize(_) => Failure::UnableToDeserialize,
            MarketError::HttpError(message) => Failure::HttpError(message@),
            MarketError::DownloadedData(message) => Failure::DownloadedData(message@),
            MarketError::ParsingError(message) => Failure::ParsingError(message@),
            MarketError::ToWriter(message) => Failure::ToWriter(message@),
            MarketError::UnsuportedInterval(message) => Failure::UnsuportedInterval(message@),
        }
    }
}

} // verus!
