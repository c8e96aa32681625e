//! Values drawn from outside the library: fresh identifiers, the wall
//! clock, and the calendar rendering of a timestamp.

use vstd::prelude::*;

verus! {

/// Greatest timestamp the calendar formatter accepts: the last second of
/// year 9999.
pub const MAX_TIMESTAMP: u64 = 253402300799;

/// The calendar rendering (`%Y-%m-%d %H:%M:%S`) of a timestamp; the text
/// depends on the seconds value alone.
pub uninterp spec fn timestamp_text_of(secs: u64) -> Seq<char>;

/// The display form of a timestamp: its calendar rendering within range,
/// and empty beyond it.
pub open spec fn timestamp_display_spec(secs: u64) -> Seq<char> {
    if secs <= MAX_TIMESTAMP {
        timestamp_text_of(secs)
    } else {
        Seq::empty()
    }
}

/// Relies on `uuid::Uuid::new_v4`: a freshly drawn random identifier.
/// Nothing is assumed of the value.
#[verifier::external_body]
pub fn fresh_id() -> u128 {
    uuid::Uuid::new_v4().as_u128()
}

/// Relies on `chrono::Utc::now`: the current wall-clock time in whole
/// seconds since the epoch. Nothing is assumed of the value.
#[verifier::external_body]
fn now_raw_secs() -> i64 {
    chrono::Utc::now().timestamp()
}

/// The current time, clamped to the unsigned range the library stores.
pub fn now_secs() -> u64 {
    let t = now_raw_secs();
    if t < 0 {
        0
    } else {
        t as u64
    }
}

/// Relies on `chrono::DateTime::from_timestamp` and its
/// `%Y-%m-%d %H:%M:%S` formatting: within range the rendering exists, is a
/// pure function of the seconds value, and is 19 characters long.
#[verifier::external_body]
fn format_timestamp(secs: u64) -> (r: String)
    requires
        secs <= MAX_TIMESTAMP,
    ensures
        r@ == timestamp_text_of(secs),
        r@.len() == 19,
{
    let dt = chrono::DateTime::from_timestamp(secs as i64, 0).unwrap();
    format!("{}", dt.format("%Y-%m-%d %H:%M:%S"))
}

/// The display form of a creation timestamp.
pub fn timestamp_display(secs: u64) -> (r: String)
    ensures
        r@ == timestamp_display_spec(secs),
{
    if secs <= MAX_TIMESTAMP {
        format_timestamp(secs)
    } else {
        String::new()
    }
}

} // verus!
