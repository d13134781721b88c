//! The boundary to calendar time.  The rest of the crate treats an instant as
//! a count of non-leap milliseconds since the Unix epoch; turning an instant
//! plus an IANA zone name plus a strftime-style pattern into text is the one
//! computation delegated to the `chrono` and `chrono-tz` crates.
//!
//! What that call returns is named by the bodiless spec function
//! [`time_text`]: the rendered text is a function of the three arguments
//! alone (the zone database is compiled into `chrono-tz`), so the name is
//! sound, and every caller's contract speaks of the name exactly.

use vstd::prelude::*;

use core::fmt::Write;

verus! {

/// The text that rendering `epoch_ms` in zone `tz` under pattern `fmt`
/// produces.  `fmt` is a strftime-style pattern as `chrono` reads it; an
/// unknown zone name, an out-of-range instant or a malformed pattern renders
/// as the empty sequence.
pub uninterp spec fn time_text(epoch_ms: int, tz: Seq<char>, fmt: Seq<char>) -> Seq<char>;

/// Relies on `chrono_tz::Tz::from_str`, `chrono::DateTime::from_timestamp_millis`,
/// `DateTime::with_timezone` and `DateTime::format`: the rendered text depends
/// on the instant, the zone name and the pattern alone, and a failure at any
/// step renders as the empty string.
#[verifier::external_body]
pub fn format_instant(epoch_ms: i64, tz: &str, fmt: &Vec<char>) -> (r: String)
    ensures
        r@ == time_text(epoch_ms as int, tz@, fmt@),
{
    let zone: chrono_tz::Tz = match tz.parse() {
        Ok(z) => z,
        Err(_) => return String::new(),
    };
    let utc = match chrono::DateTime::from_timestamp_millis(epoch_ms) {
        Some(d) => d,
        None => return String::new(),
    };
    let pattern: String = fmt.iter().collect();
    let mut out = String::new();
    match write!(out, "{}", utc.with_timezone(&zone).format(&pattern)) {
        Ok(()) => out,
        Err(_) => String::new(),
    }
}

/// How long the render loop sleeps so that the next tick lands close to the
/// wall-clock second boundary: `1000ms - (current millisecond of second)`,
/// floored at zero for the leap-second case.
pub fn tick_delay_ms(nanosecond: u32) -> (r: u32)
    ensures
        r as int == if nanosecond / 1000000 <= 1000 {
            1000 - nanosecond as int / 1000000
        } else {
            0
        },
{
    let ms = nanosecond / 1000000;
    if ms <= 1000 {
        1000 - ms
    } else {
        0
    }
}

} // verus!
