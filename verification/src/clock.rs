//! The wall clock, and the time-of-day label used in logs.
use vstd::prelude::*;
use crate::text::{push_two_digits, spec_two_digits, string_of};

verus! {

/// `chrono::Utc::now().timestamp()`: the current time in whole seconds since
/// the Unix epoch. Nothing is claimed of the value: it is whatever the
/// system clock says.
#[verifier::external_body]
pub(crate) fn unix_now() -> (now: i64) {
    chrono::Utc::now().timestamp()
}

/// `chrono::Utc::now().timestamp_millis()`: the current time in
/// milliseconds since the Unix epoch. Nothing is claimed of the value.
#[verifier::external_body]
pub(crate) fn unix_now_millis() -> (now: i64) {
    chrono::Utc::now().timestamp_millis()
}

/// Seconds since midnight (UTC) at `timestamp`.
pub open spec fn spec_second_of_day(timestamp: i64) -> int {
    (timestamp as int) % 86400
}

/// The time of day (UTC) at `timestamp` as `HH:MM:SS`.
pub open spec fn spec_time_label(timestamp: i64) -> Seq<char> {
    let s = spec_second_of_day(timestamp);
    spec_two_digits((s / 3600) as nat) + seq![':'] + spec_two_digits(((s % 3600) / 60) as nat)
        + seq![':'] + spec_two_digits((s % 60) as nat)
}

/// Seconds since midnight (UTC) at `timestamp`.
pub fn second_of_day(timestamp: i64) -> (s: u32)
    ensures
        s == spec_second_of_day(timestamp),
        s < 86400,
{
    if timestamp >= 0 {
        (timestamp % 86400) as u32
    } else {
        let back: i64 = -(timestamp + 1);
        let m: i64 = back % 86400;
        assert(spec_second_of_day(timestamp) == 86399 - m) by (nonlinear_arith)
            requires
                timestamp < 0,
                back == -(timestamp + 1),
                m == back % 86400,
                spec_second_of_day(timestamp) == (timestamp as int) % 86400,
        ;
        (86399 - m) as u32
    }
}

/// The time of day (UTC) at `timestamp` as `HH:MM:SS`.
pub fn time_label(timestamp: i64) -> (label: String)
    ensures
        label@ == spec_time_label(timestamp),
{
    let s = second_of_day(timestamp);
    let mut out: Vec<char> = Vec::new();
    push_two_digits(&mut out, (s / 3600) as u8);
    out.push(':');
    push_two_digits(&mut out, ((s % 3600) / 60) as u8);
    out.push(':');
    push_two_digits(&mut out, (s % 60) as u8);
    proof {
        assert(out@ =~= spec_time_label(timestamp));
    }
    string_of(&out)
}

} // verus!
