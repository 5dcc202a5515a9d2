//! Command-line value parsing.

use vstd::prelude::*;

use crate::text::{int_error_message, parse_unsigned, parse_unsigned_str};
use crate::time::{TimeSpan, NANOS_PER_MILLI};

verus! {

/// The message given for a zero interval.
pub open spec fn zero_interval_message() -> Seq<char> {
    "value must be at least 1ms"@
}

/// Parse a refresh interval given in milliseconds: a non-negative decimal
/// integer that fits in 64 bits and is at least 1.
pub fn parse_millis(s: &str) -> (r: Result<TimeSpan, String>)
    ensures
        match parse_unsigned(s@, u64::MAX as nat) {
            Err(e) => r matches Err(m) && m@ == int_error_message(e),
            Ok(ms) => if ms == 0 {
                r matches Err(m) && m@ == zero_interval_message()
            } else {
                r matches Ok(t) && t@ == ms * NANOS_PER_MILLI
            },
        },
{
    match parse_unsigned_str(s, u64::MAX) {
        Err(e) => Err(e.message()),
        Ok(ms) => {
            if ms == 0 {
                Err("value must be at least 1ms".to_owned())
            } else {
                Ok(TimeSpan::from_millis(ms))
            }
        },
    }
}

} // verus!
