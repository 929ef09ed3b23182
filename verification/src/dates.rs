//! Dates from the texts and timestamps of the providers.

use crate::client::Date;
use chrono::Datelike;
use vstd::prelude::*;

verus! {

/// What `NaiveDate::parse_from_str` makes of a text under a format: year,
/// month and day, or the message of its error.
pub uninterp spec fn parsed_date(text: Seq<char>, format: Seq<char>) -> Result<
    (int, int, int),
    Seq<char>,
>;

/// The date, in UTC, of the moment that `DateTime::from_timestamp` gives for
/// a number of seconds since the epoch; `None` where it gives none.
pub uninterp spec fn date_of_seconds(seconds: int) -> Option<(int, int, int)>;

/// The date, in UTC, of the moment that `DateTime::from_timestamp_millis`
/// gives for a number of milliseconds since the epoch; `None` where it gives
/// none.
pub uninterp spec fn date_of_millis(millis: int) -> Option<(int, int, int)>;

/// `NaiveDate::parse_from_str`: year, month and day of the date that `text`
/// holds under `format`, or the error as text.
#[verifier::external_body]
fn parse_from_str(text: &str, format: &str) -> (r: Result<(i32, u32, u32), String>)
    ensures
        match r {
            Ok(date) => parsed_date(text@, format@) == Ok::<(int, int, int), Seq<char>>(
                (date.0 as int, date.1 as int, date.2 as int),
            ),
            Err(message) => parsed_date(text@, format@) == Err::<(int, int, int), Seq<char>>(
                message@,
            ),
        },
{
    match chrono::NaiveDate::parse_from_str(text, format) {
        Ok(date) => Ok((date.year(), date.month(), date.day())),
        Err(e) => Err(e.to_string()),
    }
}

/// `DateTime::from_timestamp` with no nanoseconds, and `date_naive` on what
/// it gives: year, month and day.
#[verifier::external_body]
fn from_timestamp(seconds: i64) -> (r: Option<(i32, u32, u32)>)
    ensures
        match r {
            Some(date) => date_of_seconds(seconds as int) == Some(
                (date.0 as int, date.1 as int, date.2 as int),
            ),
            None => date_of_seconds(seconds as int) is None,
        },
{
    let date = chrono::DateTime::from_timestamp(seconds, 0)?.date_naive();
    Some((date.year(), date.month(), date.day()))
}

/// `DateTime::from_timestamp_millis`, and `date_naive` on what it gives:
/// year, month and day.
#[verifier::external_body]
fn from_timestamp_millis(millis: i64) -> (r: Option<(i32, u32, u32)>)
    ensures
        match r {
            Some(date) => date_of_millis(millis as int) == Some(
                (date.0 as int, date.1 as int, date.2 as int),
            ),
            None => date_of_millis(millis as int) is None,
        },
{
    let date = chrono::DateTime::from_timestamp_millis(millis)?.date_naive();
    Some((date.year(), date.month(), date.day()))
}

/// Whether `date` has these numbers as year, month and day.
pub open spec fn date_is(date: Date, numbers: (int, int, int)) -> bool {
    date.year == numbers.0 && date.month == numbers.1 && date.day == numbers.2
}

impl Date {
    /// The date that `text` holds under a `strftime` format, or the message
    /// that says why it holds none.
    pub fn parse(text: &str, format: &str) -> (r: Result<Date, String>)
        ensures
            match parsed_date(text@, format@) {
                Ok(numbers) => r is Ok && date_is(r->Ok_0, numbers),
                Err(message) => r is Err && r->Err_0@ == message,
            },
    {
        match parse_from_str(text, format) {
            Ok(date) => Ok(Date { year: date.0, month: date.1, day: date.2 }),
            Err(message) => Err(message),
        }
    }

    /// The date, in UTC, that lies `seconds` after the epoch, if the calendar
    /// reaches that far.
    pub fn from_seconds(seconds: i64) -> (r: Option<Date>)
        ensures
            match date_of_seconds(seconds as int) {
                Some(numbers) => r is Some && date_is(r->Some_0, numbers),
                None => r is None,
            },
    {
        match from_timestamp(seconds) {
            Some(date) => Some(Date { year: date.0, month: date.1, day: date.2 }),
            None => None,
        }
    }

    /// The date, in UTC, that lies `millis` milliseconds after the epoch, if
    /// the calendar reaches that far.
    pub fn from_millis(millis: i64) -> (r: Option<Date>)
        ensures
            match date_of_millis(millis as int) {
                Some(numbers) => r is Some && date_is(r->Some_0, numbers),
                None => r is None,
            },
    {
        match from_timestamp_millis(millis) {
            Some(date) => Some(Date { year: date.0, month: date.1, day: date.2 }),
            None => None,
        }
    }
}

} // verus!

verus! {

/// The date with these numbers as year, month and day.
pub open spec fn date_from(numbers: (int, int, int)) -> Date {
    Date { year: numbers.0 as i32, month: numbers.1 as u32, day: numbers.2 as u32 }
}

/// A date is the date of its own numbers.
pub proof fn lemma_date_from(date: Date, numbers: (int, int, int))
    requires
        date_is(date, numbers),
    ensures
        date == date_from(numbers),
{
}

/// The first position from `from` on whose number of seconds has no date, or
/// the length of `seconds` if every one has.
pub open spec fn first_undated_seconds(seconds: Seq<i64>, from: int) -> int
    decreases seconds.len() - from,
{
    if from >= seconds.len() {
        seconds.len() as int
    } else if date_of_seconds(seconds[from] as int) is None {
        from
    } else {
        first_undated_seconds(seconds, from + 1)
    }
}

/// The first position from `from` on whose number of milliseconds has no
/// date, or the length of `millis` if every one has.
pub open spec fn first_undated_millis(millis: Seq<i64>, from: int) -> int
    decreases millis.len() - from,
{
    if from >= millis.len() {
        millis.len() as int
    } else if date_of_millis(millis[from] as int) is None {
        from
    } else {
        first_undated_millis(millis, from + 1)
    }
}

} // verus!
