//! The current UTC time, read and written through `chrono`.
use vstd::prelude::*;

use chrono::DateTime;
use chrono::Datelike;
use chrono::NaiveDate;
use chrono::Timelike;
use std::time::SystemTime;
use std::time::UNIX_EPOCH;

verus! {

/// A UTC date and time of day, as `chrono::NaiveDateTime` holds it (a
/// nanosecond count of a billion or more marks a leap second).
#[derive(Clone, Copy, Debug)]
pub struct UtcTime {
    pub year: i32,
    pub month: u32,
    pub day: u32,
    pub hour: u32,
    pub minute: u32,
    pub second: u32,
    pub nanosecond: u32,
}

/// A Gregorian leap year.
pub open spec fn is_leap_year(y: int) -> bool {
    (y % 4 == 0 && y % 100 != 0) || y % 400 == 0
}

/// Days in month `m` of year `y`.
pub open spec fn days_in_month(y: int, m: int) -> int {
    if m == 2 {
        if is_leap_year(y) { 29 } else { 28 }
    } else if m == 4 || m == 6 || m == 9 || m == 11 {
        30
    } else {
        31
    }
}

/// A date and time that `chrono` can hold: a calendar date within its year
/// range (-262143 to 262142) and a time of day (with a leap second only at
/// second 59).
pub open spec fn valid_time(t: UtcTime) -> bool {
    &&& -262143 <= t.year <= 262142
    &&& 1 <= t.month <= 12
    &&& 1 <= t.day <= days_in_month(t.year as int, t.month as int)
    &&& t.hour < 24
    &&& t.minute < 60
    &&& t.second < 60
    &&& t.nanosecond < 2_000_000_000
    &&& (t.nanosecond >= 1_000_000_000 ==> t.second == 59)
}

/// `n` in decimal, zero-padded to `width` digits (the last `width` digits).
pub open spec fn zero_padded(n: nat, width: nat) -> Seq<char>
    decreases width,
{
    if width == 0 {
        Seq::empty()
    } else {
        zero_padded(n / 10, (width - 1) as nat).push(((n % 10) + 48) as char)
    }
}

/// The second as `%S` writes it: 60 during a leap second.
pub open spec fn shown_second(t: UtcTime) -> nat {
    if t.nanosecond >= 1_000_000_000 { (t.second + 1) as nat } else { t.second as nat }
}

/// `t` as `%Y%m%dT%H%M%SZ` writes it for years 0 to 9999, e.g.
/// `20240309T101112Z`.
pub open spec fn utc_stamp(t: UtcTime) -> Seq<char> {
    zero_padded(t.year as nat, 4) + zero_padded(t.month as nat, 2) + zero_padded(t.day as nat, 2) + seq!['T']
        + zero_padded(t.hour as nat, 2) + zero_padded(t.minute as nat, 2) + zero_padded(shown_second(t), 2)
        + seq!['Z']
}

/// The text that `chrono`'s `format(pattern)` writes for a date and time
/// given by its fields.
pub uninterp spec fn chrono_format(
    year: int,
    month: int,
    day: int,
    hour: int,
    minute: int,
    second: int,
    nanosecond: int,
    pattern: Seq<char>,
) -> Seq<char>;

/// `t` written with `pattern`.
pub open spec fn formatted(t: UtcTime, pattern: Seq<char>) -> Seq<char> {
    chrono_format(
        t.year as int,
        t.month as int,
        t.day as int,
        t.hour as int,
        t.minute as int,
        t.second as int,
        t.nanosecond as int,
        pattern,
    )
}

/// The patterns the library writes times with.
pub open spec fn known_pattern(p: Seq<char>) -> bool {
    p == "%Y"@ || p == "%m"@ || p == "%d"@ || p == "%Y-%m-%d"@ || p == "%Y%m%dT%H%M%SZ"@
}

/// `std::time::SystemTime`, carried opaquely.
#[verifier::external_type_specification]
#[verifier::external_body]
pub struct ExSystemTime(SystemTime);

/// The system clock's current reading.
///
/// Trusted: `std::time::SystemTime::now`. It depends on the clock, so
/// nothing is stated of it.
#[verifier::external_body]
pub(crate) fn system_now() -> (r: SystemTime) {
    SystemTime::now()
}

/// The time since the Unix epoch as whole seconds and the nanoseconds of the
/// second; `None` when `t` is before the epoch.
///
/// Trusted: `SystemTime::duration_since(UNIX_EPOCH)`, the `Duration` read out
/// with `as_secs` and `subsec_nanos`; the latter is below one billion, as its
/// documentation says.
#[verifier::external_body]
pub(crate) fn since_epoch(t: &SystemTime) -> (r: Option<(u64, u32)>)
    ensures
        r matches Some(p) ==> p.1 < 1_000_000_000,
{
    match t.duration_since(UNIX_EPOCH) {
        Ok(d) => Some((d.as_secs(), d.subsec_nanos())),
        Err(_) => None,
    }
}

/// The UTC date and time that `chrono::DateTime::from_timestamp(secs, nanos)`
/// gives, or `None` where it refuses the timestamp.
pub uninterp spec fn chrono_from_timestamp(secs: int, nanos: int) -> Option<UtcTime>;

/// The UTC date and time `secs` seconds and `nanos` nanoseconds after the
/// Unix epoch.
///
/// Trusted: `chrono::DateTime::from_timestamp`, read through `naive_utc` and
/// the `Datelike`/`Timelike` accessors one for one. The result is named by
/// `chrono_from_timestamp`. Besides the name, the contract states what every
/// `NaiveDateTime` is (`valid_time`), and what the documentation and source
/// show of success: a non-negative timestamp before the year 10000
/// (253402300800 seconds) with fewer than a billion nanoseconds is accepted.
#[verifier::external_body]
fn utc_from_timestamp(secs: i64, nanos: u32) -> (r: Option<UtcTime>)
    ensures
        r == chrono_from_timestamp(secs as int, nanos as int),
        r matches Some(t) ==> valid_time(t),
        0 <= secs < 253402300800 && nanos < 1_000_000_000 ==> r is Some,
{
    match DateTime::from_timestamp(secs, nanos) {
        Some(dt) => {
            let t = dt.naive_utc();
            Some(UtcTime {
                year: t.year(),
                month: t.month(),
                day: t.day(),
                hour: t.hour(),
                minute: t.minute(),
                second: t.second(),
                nanosecond: t.nanosecond(),
            })
        },
        None => None,
    }
}

/// The UTC time of a clock reading (whole seconds and nanoseconds since the
/// Unix epoch, `None` for a clock before it), as `chrono::Utc::now` turns
/// it into one: seconds beyond `i64::MAX` give `None`, others go to
/// `DateTime::from_timestamp`.
pub open spec fn utc_of_reading_spec(reading: Option<(u64, u32)>) -> Option<UtcTime> {
    match reading {
        None => None,
        Some(p) => if p.0 > i64::MAX {
            None
        } else {
            chrono_from_timestamp(p.0 as int, p.1 as int)
        },
    }
}

/// The UTC time of a clock reading; `None` for a clock before the epoch or
/// a reading `chrono` cannot hold.
pub fn utc_of_reading(reading: Option<(u64, u32)>) -> (r: Option<UtcTime>)
    ensures
        r == utc_of_reading_spec(reading),
        r matches Some(t) ==> valid_time(t),
{
    match reading {
        None => None,
        Some(p) => {
            let (secs, nanos) = p;
            if secs > 9_223_372_036_854_775_807u64 {
                None
            } else {
                utc_from_timestamp(secs as i64, nanos)
            }
        },
    }
}

/// `st` is a time that `SystemTime::now` gave and `reading` is what reading
/// it against the Unix epoch (`since_epoch`) gave.
pub closed spec fn clock_reading(st: SystemTime, reading: Option<(u64, u32)>) -> bool {
    call_ensures(system_now, (), st) && call_ensures(since_epoch, (&st,), reading)
}

/// The current time in UTC, as `chrono::Utc::now` reads it; `None` when the
/// system clock reads before the Unix epoch or beyond what `chrono` can hold.
pub(crate) fn now_utc() -> (r: Option<UtcTime>)
    ensures
        r matches Some(t) ==> valid_time(t),
        exists|reading: Option<(u64, u32)>| r == #[trigger] utc_of_reading_spec(reading),
        exists|st: SystemTime, reading: Option<(u64, u32)>| #[trigger] clock_reading(st, reading)
            && r == utc_of_reading_spec(reading),
{
    let now = system_now();
    let reading = since_epoch(&now);
    assert(clock_reading(now, reading));
    utc_of_reading(reading)
}

/// `t` written with the `strftime`-style `pattern`.
///
/// Trusted: `chrono::NaiveDateTime::format` with `to_string` (the time enters
/// through `NaiveDate::from_ymd_opt` and `and_hms_nano_opt`, which accept
/// every time that `valid_time` admits: years -262143 to 262142, real
/// calendar days, and a leap second only at second 59). The text is named by `chrono_format`; for years 0 to
/// 9999 the contract states what `chrono`'s format table says of `%Y`
/// (4 digits), `%m`, `%d`, `%H`, `%M`, `%S` (2 digits, zero-padded, 60 in a
/// leap second), other characters being copied.
#[verifier::external_body]
pub(crate) fn format_utc(t: &UtcTime, pattern: &str) -> (r: String)
    requires
        valid_time(*t),
        known_pattern(pattern@),
    ensures
        r@ == chrono_format(
            t.year as int,
            t.month as int,
            t.day as int,
            t.hour as int,
            t.minute as int,
            t.second as int,
            t.nanosecond as int,
            pattern@,
        ),
        0 <= t.year <= 9999 && pattern@ == "%Y"@ ==> r@ == zero_padded(t.year as nat, 4),
        pattern@ == "%m"@ ==> r@ == zero_padded(t.month as nat, 2),
        pattern@ == "%d"@ ==> r@ == zero_padded(t.day as nat, 2),
        0 <= t.year <= 9999 && pattern@ == "%Y-%m-%d"@ ==> r@ == zero_padded(t.year as nat, 4) + seq!['-']
            + zero_padded(t.month as nat, 2) + seq!['-'] + zero_padded(t.day as nat, 2),
        0 <= t.year <= 9999 && pattern@ == "%Y%m%dT%H%M%SZ"@ ==> r@ == utc_stamp(*t),
{
    NaiveDate::from_ymd_opt(t.year, t.month, t.day)
        .and_then(|d| d.and_hms_nano_opt(t.hour, t.minute, t.second, t.nanosecond))
        .map(|dt| dt.format(pattern).to_string())
        .unwrap_or_default()
}

} // verus!
