//! A plain-text stooq history URL and today's date.
use vstd::prelude::*;

use crate::clock::format_utc;
use crate::clock::formatted;
use crate::clock::now_utc;
use crate::clock::clock_reading;
use crate::clock::utc_of_reading_spec;
use std::time::SystemTime;
use crate::clock::valid_time;
use crate::clock::zero_padded;
use crate::clock::UtcTime;

verus! {

/// `https://stooq.com/q/d/l/?s=<ticker>&i=d`, the ticker written as it is.
pub open spec fn plain_stooq_url(ticker: Seq<char>) -> Seq<char> {
    "https://stooq.com/q/d/l/?s="@ + ticker + "&i=d"@
}

/// The daily history URL of `ticker`, with the ticker pasted in unescaped.
pub fn stooq_url(ticker: &str) -> (r: String)
    ensures
        r@ == plain_stooq_url(ticker@),
{
    let mut u = String::from_str("https://stooq.com/q/d/l/?s=");
    u.append(ticker);
    u.append("&i=d");
    u
}

/// The date of `t` as `chrono` writes `%Y-%m-%d`: for years 0 to 9999, four
/// digits of year, two of month and two of day, joined by `-`.
pub fn iso_date(t: &UtcTime) -> (r: String)
    requires
        valid_time(*t),
    ensures
        r@ == formatted(*t, "%Y-%m-%d"@),
        0 <= t.year <= 9999 ==> r@ == zero_padded(t.year as nat, 4) + seq!['-'] + zero_padded(t.month as nat, 2)
            + seq!['-'] + zero_padded(t.day as nat, 2),
{
    proof {
        reveal_strlit("%Y");
        reveal_strlit("%m");
        reveal_strlit("%d");
        reveal_strlit("%Y%m%dT%H%M%SZ");
        reveal_strlit("%Y-%m-%d");
    }
    format_utc(t, "%Y-%m-%d")
}

/// Today's date in UTC as `iso_date` writes it. `None` when the system clock
/// reads before the Unix epoch (where `chrono::Utc::now` panics) or beyond
/// what `chrono` can hold.
pub fn iso8601now() -> (r: Option<String>)
    ensures
        r matches Some(s) ==> exists|t: UtcTime| {
            &&& valid_time(t)
            &&& s@ == #[trigger] formatted(t, "%Y-%m-%d"@)
            &&& 0 <= t.year <= 9999 ==> s@ == zero_padded(t.year as nat, 4) + seq!['-'] + zero_padded(t.month as nat, 2)
                + seq!['-'] + zero_padded(t.day as nat, 2)
        },
        exists|st: SystemTime, reading: Option<(u64, u32)>| {
            &&& #[trigger] clock_reading(st, reading)
            &&& match utc_of_reading_spec(reading) {
                None => r is None,
                Some(t) => r matches Some(s) && s@ == formatted(t, "%Y-%m-%d"@),
            }
        },
{
    let now = now_utc();
    match now {
        Some(t) => Some(iso_date(&t)),
        None => None,
    }
}

} // verus!
