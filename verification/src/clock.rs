//! Trusted facade over the wall clock.
//!
//! The current time depends on the machine, so nothing is promised of
//! the values; every function whose logic depends on time takes the
//! time as an argument and is verified for all of its values.

use vstd::prelude::*;

verus! {

/// Current wall-clock time in milliseconds since the Unix epoch.
///
/// Relies on chrono::Local::now().timestamp_millis().
#[verifier::external_body]
pub fn now_timestamp_millis() -> i64 {
    chrono::Local::now().timestamp_millis()
}

/// Current wall-clock time in seconds since the Unix epoch.
///
/// Relies on chrono::Local::now().timestamp().
#[verifier::external_body]
pub fn now_timestamp_secs() -> i64 {
    chrono::Local::now().timestamp()
}

} // verus!
