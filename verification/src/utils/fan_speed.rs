//! Parsers for the speed and timer arguments.
use crate::text::{parse_u8, parse_unsigned_spec};
use vstd::prelude::*;

verus! {

/// Why a timer argument was refused.
#[derive(Debug, PartialEq, Eq, Structural)]
pub enum TimerError {
    NotANumber,
    OutOfRange,
}

/// Reads a fan speed: a number from 1 to 6.
pub fn speed_parser(s: &str) -> (r: Result<u8, &'static str>)
    ensures
        match parse_unsigned_spec(s@, 255) {
            None => r == Err::<u8, &'static str>("Speed must be a number"),
            Some(v) => if 1 <= v <= 6 {
                r == Ok::<u8, &'static str>(v as u8)
            } else {
                r == Err::<u8, &'static str>("Speed must be between 1 and 6")
            },
        },
{
    let v = match parse_u8(s) {
        Some(v) => v,
        None => {
            return Err("Speed must be a number");
        },
    };
    if 1 <= v && v <= 6 {
        Ok(v)
    } else {
        Err("Speed must be between 1 and 6")
    }
}

/// Reads a timer setting: a number from 0 to 4 (off, 1, 2, 3 or 6 hours).
pub fn timer_parser(value: &str) -> (r: Result<u8, TimerError>)
    ensures
        match parse_unsigned_spec(value@, 255) {
            None => r == Err::<u8, TimerError>(TimerError::NotANumber),
            Some(v) => if v <= 4 {
                r == Ok::<u8, TimerError>(v as u8)
            } else {
                r == Err::<u8, TimerError>(TimerError::OutOfRange)
            },
        },
{
    let parsed = match parse_u8(value) {
        Some(v) => v,
        None => {
            return Err(TimerError::NotANumber);
        },
    };
    if parsed > 4 {
        return Err(TimerError::OutOfRange);
    }
    Ok(parsed)
}

/// The text a refused timer argument is reported with.
pub open spec fn timer_error_text(e: TimerError) -> Seq<char> {
    match e {
        TimerError::NotANumber => "Timer must be a number between 0 and 4"@,
        TimerError::OutOfRange => "Timer must be between 0 and 4"@,
    }
}

impl TimerError {
    /// The text this error is reported with.
    pub fn message(&self) -> (r: &'static str)
        ensures
            r@ == timer_error_text(*self),
    {
        match self {
            TimerError::NotANumber => "Timer must be a number between 0 and 4",
            TimerError::OutOfRange => "Timer must be between 0 and 4",
        }
    }
}

} // verus!
