//! The clock: the current time, and instants written as RFC 3339 text.

use std::time::{Duration, SystemTime, SystemTimeError};
use vstd::prelude::*;

verus! {

/// `std::time::SystemTime`, a point in time of the system clock.
#[verifier::external_type_specification]
#[verifier::external_body]
pub struct ExSystemTime(SystemTime);

/// `std::time::SystemTimeError`, the error of a time that lies before another.
#[verifier::external_type_specification]
#[verifier::external_body]
pub struct ExSystemTimeError(SystemTimeError);

/// `SystemTime::now` reads the system clock; nothing is known of the result.
pub assume_specification[ SystemTime::now ]() -> (now: SystemTime)
;

/// `SystemTime::duration_since` gives the time elapsed since `earlier`, or
/// an error where `earlier` is the later of the two.
pub assume_specification[ SystemTime::duration_since ](
    time: &SystemTime,
    earlier: SystemTime,
) -> (elapsed: Result<Duration, SystemTimeError>)
;

/// `Duration::as_secs` gives the whole seconds of a duration.
pub assume_specification[ Duration::as_secs ](duration: &Duration) -> (seconds: u64)
;

/// The start of the epoch, `SystemTime::UNIX_EPOCH`.
#[verifier::external_body]
fn epoch() -> (start: SystemTime) {
    SystemTime::UNIX_EPOCH
}

/// The instant that an RFC 3339 text names, in nanoseconds since the
/// epoch; `None` for a text that is no RFC 3339 date and time.
pub uninterp spec fn rfc3339_instant(text: Seq<char>) -> Option<i128>;

/// The RFC 3339 text of the instant that lies `seconds` after the epoch, in
/// UTC; `None` where the instant cannot be written so.
pub uninterp spec fn rfc3339_text(seconds: i64) -> Option<Seq<char>>;

/// Calls `time::OffsetDateTime::parse` with the RFC 3339 format and hands
/// out the instant as `unix_timestamp_nanos` gives it: a function of the
/// text alone.
#[verifier::external_body]
pub(crate) fn parse_rfc3339(text: &str) -> (r: Option<i128>)
    ensures
        r == rfc3339_instant(text@),
{
    time::OffsetDateTime::parse(text, &time::format_description::well_known::Rfc3339).ok().map(
        |instant| instant.unix_timestamp_nanos(),
    )
}

/// Calls `time::OffsetDateTime::from_unix_timestamp` and formats the result
/// as RFC 3339 with `OffsetDateTime::format`: a function of `seconds` alone.
#[verifier::external_body]
pub(crate) fn format_rfc3339(seconds: i64) -> (r: Option<String>)
    ensures
        crate::transaction::optional_text(r) == rfc3339_text(seconds),
{
    time::OffsetDateTime::from_unix_timestamp(seconds).ok().and_then(
        |instant| instant.format(&time::format_description::well_known::Rfc3339).ok(),
    )
}

/// Calls `time::OffsetDateTime::now_utc` and hands out the instant twice:
/// in nanoseconds since the epoch, as `unix_timestamp_nanos` gives it, and
/// as RFC 3339 text, as `OffsetDateTime::format` gives it. Nothing is known
/// of the result.
#[verifier::external_body]
fn utc_now() -> (now: (i128, Option<String>)) {
    let now = time::OffsetDateTime::now_utc();
    (now.unix_timestamp_nanos(), now.format(&time::format_description::well_known::Rfc3339).ok())
}

/// The current time in whole seconds since the epoch; zero where the clock
/// stands before the epoch.
pub fn now_unix() -> (seconds: u64) {
    let now = SystemTime::now();
    match now.duration_since(epoch()) {
        Ok(elapsed) => elapsed.as_secs(),
        Err(_) => 0,
    }
}

/// The current time in nanoseconds since the epoch.
pub fn now_nanos() -> (now: i128) {
    utc_now().0
}

/// The text that stands for a time that cannot be written.
pub open spec fn epoch_text() -> Seq<char> {
    "1970-01-01T00:00:00Z"@
}

/// A time as text, where it could be written; the start of the epoch
/// where it could not.
pub open spec fn written_or_epoch(text: Option<Seq<char>>) -> Seq<char> {
    match text {
        Some(t) => t,
        None => epoch_text(),
    }
}

/// The text of a time where it could be written, and the start of the
/// epoch where it could not.
pub fn text_or_epoch(text: Option<String>) -> (r: String)
    ensures
        r@ == written_or_epoch(crate::transaction::optional_text(text)),
{
    match text {
        Some(t) => t,
        None => "1970-01-01T00:00:00Z".to_string(),
    }
}

/// The current time as RFC 3339 text. The clock decides the text; where it
/// cannot be written, `text_or_epoch` decides what stands for it.
pub fn now_iso() -> (now: String) {
    text_or_epoch(utc_now().1)
}

/// The RFC 3339 text of an instant given in seconds since the epoch.
pub open spec fn iso_of(seconds: u64) -> Seq<char> {
    if seconds <= i64::MAX {
        match rfc3339_text(seconds as i64) {
            Some(text) => text,
            None => epoch_text(),
        }
    } else {
        epoch_text()
    }
}

/// Writes an instant given in seconds since the epoch as RFC 3339 text; an
/// instant that cannot be written so becomes the start of the epoch.
pub fn system_time_to_iso(seconds: u64) -> (r: String)
    ensures
        r@ == iso_of(seconds),
{
    if seconds <= i64::MAX as u64 {
        text_or_epoch(format_rfc3339(seconds as i64))
    } else {
        text_or_epoch(None)
    }
}

} // verus!
