//! Declarations of the outside types that the library carries through its
//! values, and the trusted wrappers around the outside calls it makes.

use vstd::prelude::*;

use crate::domain::{is_clock_date, is_clock_time, ClockInfo};
use crate::text::ascii_lower;

verus! {

/// `std::path::PathBuf`, carried opaquely in error values.
#[verifier::external_type_specification]
#[verifier::external_body]
pub struct ExPathBuf(std::path::PathBuf);

/// `std::io::Error`, carried opaquely in error values.
#[verifier::external_type_specification]
#[verifier::external_body]
pub struct ExIoError(std::io::Error);

/// `toml::de::Error`, the error of a TOML parse, carried opaquely in error values.
#[verifier::external_type_specification]
#[verifier::external_body]
pub struct ExTomlError(toml::de::Error);

/// Reads the local time with `chrono::Local::now` and writes it with
/// chrono's `format`, as `%H:%M` and as `%A, %d %b`. The contract claims what
/// chrono documents of these specifiers (zero-padded 24-hour time, English
/// weekday and month names); which moment it is, is not stated.
#[verifier::external_body]
pub(crate) fn local_clock() -> (clock: ClockInfo)
    ensures
        is_clock_time(clock.time@),
        is_clock_date(clock.date@),
{
    let now = chrono::Local::now();
    ClockInfo { time: now.format("%H:%M").to_string(), date: now.format("%A, %d %b").to_string() }
}

/// `str::to_ascii_lowercase`: the same text with each ASCII capital letter
/// made small and every other character unchanged, as std documents it.
#[verifier::external_body]
pub(crate) fn to_ascii_lowercase(s: &str) -> (lower: String)
    ensures
        lower@ == s@.map_values(|c: char| ascii_lower(c)),
{
    s.to_ascii_lowercase()
}

} // verus!
