use vstd::prelude::*;
use crate::error::io_error_text;
use crate::text::{concat, int_parse_message, parse_decimal, parse_decimal_spec, trim, trimmed};

verus! {

/// `std::time::SystemTime`, a point in time read from the system clock.
#[verifier::external_type_specification]
#[verifier::external_body]
pub struct ExSystemTime(std::time::SystemTime);

/// `std::time::SystemTimeError`, a clock set before the epoch.
#[verifier::external_type_specification]
#[verifier::external_body]
pub struct ExSystemTimeError(std::time::SystemTimeError);

/// Errors of reading dates.
#[derive(Debug)]
pub enum DateError {
    CommandError(String),
    ParseError(String),
    InvalidTimestamp(String),
    IOError(std::io::Error),
}

impl DateError {
    /// The message that describes the error.
    pub fn message(&self) -> (r: String)
        ensures
            match self {
                DateError::CommandError(m) => r@ == "Command error: "@ + m@,
                DateError::ParseError(m) => r@ == "Parse error: "@ + m@,
                DateError::InvalidTimestamp(m) => r@ == "Invalid timestamp: "@ + m@,
                DateError::IOError(_) => exists|t: Seq<char>| r@ == "IO error: "@ + t,
            },
    {
        match self {
            DateError::CommandError(m) => concat("Command error: ", m.as_str()),
            DateError::ParseError(m) => concat("Parse error: ", m.as_str()),
            DateError::InvalidTimestamp(m) => concat("Invalid timestamp: ", m.as_str()),
            DateError::IOError(e) => {
                let t = io_error_text(e);
                concat("IO error: ", t.as_str())
            },
        }
    }
}

/// The outcome of reading the output of `date +%s`: the number it prints,
/// which must lie between the epoch and the end of 32-bit time, or the
/// error, marked as a parse error or not.
pub open spec fn date_output_outcome(output: Seq<char>) -> Result<u32, (bool, Seq<char>)> {
    match parse_decimal_spec(trimmed(output), i64::MIN as int, i64::MAX as int) {
        Err(e) => Err((true, "Failed to parse timestamp: "@ + int_parse_message(e))),
        Ok(v) => if v < 0 {
            Err((false, "Dates should be on or after the epoch of 1970-01-01 00:00 UTC"@))
        } else if v > u32::MAX {
            Err((false, "Dates should be before 2106-02-07 06:28:16 UTC"@))
        } else {
            Ok(v as u32)
        },
    }
}

/// Read the timestamp that `date -d ... +%s` printed: the number, with
/// surrounding white space dropped, between 0 and the largest 32-bit value.
pub fn parse_date_output(output: &str) -> (r: Result<u32, DateError>)
    ensures
        match date_output_outcome(output@) {
            Ok(v) => r matches Ok(x) && x == v,
            Err((true, m)) => r matches Err(DateError::ParseError(s)) && s@ == m,
            Err((false, m)) => r matches Err(DateError::InvalidTimestamp(s)) && s@ == m,
        },
{
    let t = trim(output);
    let timestamp = match parse_decimal(t.as_str(), i64::MIN, i64::MAX) {
        Ok(v) => v,
        Err(e) => {
            return Err(DateError::ParseError(concat("Failed to parse timestamp: ", e.message())));
        },
    };
    if timestamp < 0 {
        return Err(
            DateError::InvalidTimestamp(
                String::from_str("Dates should be on or after the epoch of 1970-01-01 00:00 UTC"),
            ),
        );
    }
    if timestamp > u32::MAX as i64 {
        return Err(
            DateError::InvalidTimestamp(String::from_str("Dates should be before 2106-02-07 06:28:16 UTC")),
        );
    }
    Ok(timestamp as u32)
}

/// The current time of the system clock (`SystemTime::now`).
#[verifier::external_body]
fn system_now() -> std::time::SystemTime {
    std::time::SystemTime::now()
}

/// The time elapsed from the epoch to `t` (`SystemTime::duration_since`
/// with `UNIX_EPOCH`); an error for a time before the epoch.
#[verifier::external_body]
fn since_epoch(t: &std::time::SystemTime) -> Result<core::time::Duration, std::time::SystemTimeError> {
    t.duration_since(std::time::UNIX_EPOCH)
}

/// The whole seconds of a duration (`Duration::as_secs`).
#[verifier::external_body]
fn whole_seconds(d: &core::time::Duration) -> u64 {
    d.as_secs()
}

/// The message of a clock error (its `Display` text).
#[verifier::external_body]
fn time_error_text(e: &std::time::SystemTimeError) -> String {
    format!("{}", e)
}

/// The current time in seconds since the epoch, where the clock is not
/// set before the epoch.
pub(crate) fn current_seconds() -> (r: Option<u64>) {
    let now = system_now();
    match since_epoch(&now) {
        Ok(d) => Some(whole_seconds(&d)),
        Err(_) => None,
    }
}

/// A count of seconds as a 32-bit timestamp: its low 32 bits.
pub fn timestamp_of_seconds(secs: u64) -> (r: u32)
    ensures
        r == secs as u32,
        r == secs % 0x1_0000_0000,
{
    assert(secs as u32 == secs % 0x1_0000_0000) by (bit_vector);
    secs as u32
}

/// The current time as seconds since the epoch, cut to 32 bits (see
/// `timestamp_of_seconds`); an error when the clock is set before the
/// epoch. Which of the two comes, and the time itself, rest on the clock.
pub fn get_current_timestamp() -> (r: Result<u32, DateError>)
    ensures
        r is Err ==> (r matches Err(DateError::CommandError(m))
            && "Failed to get current time: "@.is_prefix_of(m@)),
        r matches Ok(t) ==> exists|s: u64| t == #[trigger] (s as u32),
{
    let now = system_now();
    match since_epoch(&now) {
        Ok(d) => {
            let s = whole_seconds(&d);
            let t = timestamp_of_seconds(s);
            assert(t == (s as u32));
            Ok(t)
        },
        Err(e) => {
            let t = time_error_text(&e);
            let m = concat("Failed to get current time: ", t.as_str());
            assert(m@ == "Failed to get current time: "@ + t@);
            assert("Failed to get current time: "@.is_prefix_of(m@));
            Err(DateError::CommandError(m))
        },
    }
}

} // verus!
