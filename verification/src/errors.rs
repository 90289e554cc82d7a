//! Error types surfaced by the library.
//!
//! Transport failures are carried as plain description strings handed
//! in by whatever layer performed the request; everything the library
//! itself detects is a dedicated variant.

use vstd::prelude::*;

verus! {

/// General error that can happen in most cases when making a request.
#[derive(Debug, Clone, PartialEq, Eq)]
pub enum RequestError {
    /// Error when sending the request.
    RequestError(String),
    /// Error when reading the response.
    ReadError(String),
    /// The given credentials are invalid.
    Unauthorized,
    /// Something went wrong on the server.
    InternalServerError,
    /// An unchecked status code was returned.
    UncheckedCode(u16),
}

/// Error that can happen when trying to get a list of schools.
#[derive(Debug, Clone, PartialEq, Eq)]
pub enum SchoolListingError {
    /// Error when sending the request.
    RequestError(RequestError),
    /// Error when reading the response.
    ParseError(String),
    /// The school url does not contain a name segment.
    BadUrl,
}

/// Error that can happen when trying to get a token.
#[derive(Debug, Clone, PartialEq, Eq)]
pub enum TokenError {
    /// Error when sending the request.
    RequestError(RequestError),
    /// Error when reading the response.
    ParseError(String),
}

/// Error that can happen when trying to login.
#[derive(Debug, Clone, PartialEq, Eq)]
pub enum LoginError {
    /// Error when sending the request.
    RequestError(RequestError),
    /// Error when reading the response.
    ParseError(String),
}

/// Error that can happen when trying to get a lunch menu.
#[derive(Debug, Clone, PartialEq, Eq)]
pub enum LunchMenuError {
    /// Error when sending the request.
    RequestError(RequestError),
    /// Error when retrieving a new token.
    TokenError(TokenError),
    /// Error when reading the response.
    ParseError(LunchMenuParseError),
}

/// Error that can happen when trying to get a schedule.
#[derive(Debug, Clone, PartialEq, Eq)]
pub enum ScheduleError {
    /// Error when sending the request.
    RequestError(RequestError),
    /// Error when retrieving a new token.
    TokenError(TokenError),
    /// Error when reading the response.
    ParseError(ScheduleParseError),
}

/// Error that can happen when trying to parse a lunch menu.
#[derive(Debug, Clone, PartialEq, Eq)]
pub enum LunchMenuParseError {
    /// No lunch menu available.
    NoLunchMenu,
    /// Error when parsing json.
    SerdeError(String),
    /// Error when parsing a date; carries the text that failed.
    DateParseError(String),
}

/// Error that can happen when trying to parse a schedule.
#[derive(Debug, Clone, PartialEq, Eq)]
pub enum ScheduleParseError {
    /// Error when parsing json.
    SerdeError(String),
    /// Error when parsing a date; carries the text that failed.
    DateParseError(String),
    /// Error when parsing a time of day; carries the text that failed.
    TimeParseError(String),
    /// The weekday code lies outside 0 through 6.
    DayOfWeekError(u8),
    /// Error when parsing a uuid; carries the text that failed.
    UuidParseError(String),
    /// A week-range string is malformed; carries the text that failed.
    WeekRangeError(String),
    /// A week number lies outside 1 through 53.
    WeekOutOfRange(u8),
}

/// A date or timestamp does not match its fixed format.
#[derive(Debug, Clone, Copy, PartialEq, Eq, Structural)]
pub enum DateParseError {
    BadFormat,
}

/// A week-range string does not match the week-range grammar.
#[derive(Debug, Clone, Copy, PartialEq, Eq, Structural)]
pub enum WeekRangeError {
    Malformed,
}

/// A uuid string is not in the canonical hyphenated form.
#[derive(Debug, Clone, Copy, PartialEq, Eq, Structural)]
pub enum UuidParseError {
    Invalid,
}

} // verus!
