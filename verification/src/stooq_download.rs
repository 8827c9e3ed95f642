//! Where stooq's daily history of a symbol comes from and where it is kept.
use vstd::prelude::*;

use crate::clock::format_utc;
use crate::clock::formatted;
use crate::clock::now_utc;
use crate::clock::clock_reading;
use crate::clock::utc_of_reading_spec;
use std::time::SystemTime;
use crate::clock::utc_stamp;
use crate::clock::zero_padded;
use crate::clock::valid_time;
use crate::clock::UtcTime;
use crate::paths::path_of_parts;
use crate::paths::path_pushed;
use crate::paths::push_path;
use crate::paths::DATA_BASE;
use crate::weburl::form_encoded;
use crate::weburl::lacks;
use crate::weburl::lemma_form_encoded_lacks;
use crate::weburl::one_inner_question_mark;
use crate::weburl::query_pair;
use crate::weburl::stooq_history_endpoint;
use vstd::utf8::encode_utf8;
use crate::weburl::UrlError;
use crate::weburl::WebUrl;

verus! {

/// The endpoint of stooq's daily history download.
pub const STOOQ_HISTORY_URL: &'static str = "https://stooq.com/q/d/l/";

/// The stored daily history of `symbol`:
/// `DATA_BASE/raw/stooq/symbol=<symbol>/data.csv`.
pub open spec fn raw_filename_spec(symbol: Seq<char>) -> Seq<char> {
    path_pushed(
        path_pushed(path_pushed(path_pushed(DATA_BASE@, "raw"@), "stooq"@), "symbol="@ + symbol),
        "data.csv"@,
    )
}

/// The path of the stored daily history of `symbol`.
pub fn raw_filename(symbol: &str) -> (r: String)
    ensures
        r@ == raw_filename_spec(symbol@),
{
    let p = push_path(DATA_BASE, "raw");
    let p = push_path(p.as_str(), "stooq");
    let mut dir = String::from_str("symbol=");
    dir.append(symbol);
    let p = push_path(p.as_str(), dir.as_str());
    push_path(p.as_str(), "data.csv")
}

/// The daily history URL of `ticker`: the endpoint with the query pairs
/// `s=<ticker>` and `i=d`, form-urlencoded, so that `&` or `=` in the ticker
/// add no pairs (e.g. `https://stooq.com/q/d/l/?s=foo&i=d`).
pub open spec fn stooq_url_spec(ticker: Seq<char>) -> Seq<char> {
    stooq_history_endpoint() + seq!['?'] + query_pair("s"@, ticker) + seq!['&'] + query_pair("i"@, "d"@)
}

/// The URL of stooq's daily history of `ticker`; it always succeeds.
pub fn stooq_url(ticker: &str) -> (r: Result<String, UrlError>)
    ensures
        r matches Ok(s) && s@ == stooq_url_spec(ticker@),
{
    proof {
        reveal_strlit("https://stooq.com/q/d/l/");
    }
    assert(STOOQ_HISTORY_URL@ == stooq_history_endpoint());
    let mut u = match WebUrl::parse(STOOQ_HISTORY_URL) {
        Ok(u) => u,
        Err(e) => {
            return Err(e);
        },
    };
    let ghost u0 = u@;
    proof {
        assert(lacks(u0, '?'));
        assert(lacks(u0, '#'));
    }
    u.append_pair("s", ticker);
    let ghost u1 = u@;
    proof {
        let q1 = query_pair("s"@, ticker@);
        assert(u1 == u0 + seq!['?'] + q1);
        lemma_form_encoded_lacks(encode_utf8("s"@));
        lemma_form_encoded_lacks(encode_utf8(ticker@));
        reveal_strlit("s");
        assert(encode_utf8("s"@) == seq![115u8]) by {
            assert("s"@ == seq!['s']);
            assert(vstd::utf8::is_ascii_chars("s"@));
            vstd::utf8::is_ascii_chars_encode_utf8("s"@);
            assert(encode_utf8("s"@)[0] == ('s' as u8));
            assert(encode_utf8("s"@) =~= seq![115u8]);
        }
        assert(form_encoded(seq![115u8]) == seq!['s']) by {
            reveal_with_fuel(form_encoded, 2);
            assert(seq![115u8].drop_last().len() == 0);
            assert(((115u8) as char) == 's');
        }
        let n = u0.len() as int;
        assert(u1[n] == '?');
        assert(u1[n + 1] == 's');
        assert forall|j: int| 0 <= j < u1.len() && u1[j] == '?' implies j == n by {
            if j < n {
                assert(u1[j] == u0[j]);
            } else if j > n {
                let e = form_encoded(encode_utf8(ticker@));
                if j == n + 1 {
                } else if j == n + 2 {
                    assert(u1[j] == '=');
                } else {
                    assert(u1[j] == e[j - n - 3]);
                }
            }
        }
        assert(one_inner_question_mark(u1));
        assert forall|j: int| 0 <= j < u1.len() implies u1[j] != '#' by {
            if j < n {
                assert(u1[j] == u0[j]);
            } else if j > n + 2 {
                let e = form_encoded(encode_utf8(ticker@));
                assert(u1[j] == e[j - n - 3]);
            }
        }
    }
    u.append_pair("i", "d");
    Ok(u.into_string())
}

/// `p` under the data store's base directory.
pub fn full_path(p: &str) -> (r: String)
    ensures
        r@ == path_pushed(DATA_BASE@, p@),
{
    push_path(DATA_BASE, p)
}

/// The dated path of a download of `symbol`:
/// `raw/stooq/<symbol>/<year>/<month>/<day>/<stamp>.csv`.
pub open spec fn stooq_path_spec(symbol: Seq<char>, year: Seq<char>, month: Seq<char>, day: Seq<char>, stamp: Seq<char>) -> Seq<char> {
    path_of_parts(seq!["raw"@, "stooq"@, symbol, year, month, day, stamp + ".csv"@])
}

/// The dated path of a download of `symbol` made at the given date texts.
pub fn stooq_path_at(symbol: &str, year: &str, month: &str, day: &str, stamp: &str) -> (r: String)
    ensures
        r@ == stooq_path_spec(symbol@, year@, month@, day@, stamp@),
{
    let mut file = String::from_str(stamp);
    file.append(".csv");
    let p = push_path("", "raw");
    let p = push_path(p.as_str(), "stooq");
    let p = push_path(p.as_str(), symbol);
    let p = push_path(p.as_str(), year);
    let p = push_path(p.as_str(), month);
    let p = push_path(p.as_str(), day);
    let p = push_path(p.as_str(), file.as_str());
    proof {
        let parts = seq!["raw"@, "stooq"@, symbol@, year@, month@, day@, stamp@ + ".csv"@];
        assert(""@ =~= Seq::<char>::empty()) by {
            reveal_strlit("");
        }
        let p0 = parts.take(0);
        assert(parts.take(1).drop_last() =~= p0);
        assert(parts.take(2).drop_last() =~= parts.take(1));
        assert(parts.take(3).drop_last() =~= parts.take(2));
        assert(parts.take(4).drop_last() =~= parts.take(3));
        assert(parts.take(5).drop_last() =~= parts.take(4));
        assert(parts.take(6).drop_last() =~= parts.take(5));
        assert(parts.take(7).drop_last() =~= parts.take(6));
        assert(parts.take(7) =~= parts);
        assert(path_of_parts(p0) == Seq::<char>::empty());
        assert(path_of_parts(parts.take(1)) == path_pushed(Seq::<char>::empty(), "raw"@));
        assert(path_of_parts(parts.take(2)) == path_pushed(path_of_parts(parts.take(1)), "stooq"@));
        assert(path_of_parts(parts.take(3)) == path_pushed(path_of_parts(parts.take(2)), symbol@));
        assert(path_of_parts(parts.take(4)) == path_pushed(path_of_parts(parts.take(3)), year@));
        assert(path_of_parts(parts.take(5)) == path_pushed(path_of_parts(parts.take(4)), month@));
        assert(path_of_parts(parts.take(6)) == path_pushed(path_of_parts(parts.take(5)), day@));
        assert(path_of_parts(parts.take(7)) == path_pushed(path_of_parts(parts.take(6)), file@));
    }
    p
}

/// The dated path of a download of `symbol` made at time `t`: year `%Y`,
/// month `%m`, day `%d` and stamp `%Y%m%dT%H%M%SZ`, as `chrono` writes them.
pub open spec fn stooq_path_at_time(symbol: Seq<char>, t: UtcTime) -> Seq<char> {
    stooq_path_spec(
        symbol,
        formatted(t, "%Y"@),
        formatted(t, "%m"@),
        formatted(t, "%d"@),
        formatted(t, "%Y%m%dT%H%M%SZ"@),
    )
}

/// The dated path of a download of `symbol` made at time `t`.
pub fn stooq_path_at_utc(symbol: &str, t: &UtcTime) -> (r: String)
    requires
        valid_time(*t),
    ensures
        r@ == stooq_path_at_time(symbol@, *t),
        0 <= t.year <= 9999 ==> r@ == stooq_path_spec(
            symbol@,
            zero_padded(t.year as nat, 4),
            zero_padded(t.month as nat, 2),
            zero_padded(t.day as nat, 2),
            utc_stamp(*t),
        ),
{
    proof {
        reveal_strlit("%Y");
        reveal_strlit("%m");
        reveal_strlit("%d");
        reveal_strlit("%Y%m%dT%H%M%SZ");
        reveal_strlit("%Y-%m-%d");
    }
    let year = format_utc(t, "%Y");
    let month = format_utc(t, "%m");
    let day = format_utc(t, "%d");
    let stamp = format_utc(t, "%Y%m%dT%H%M%SZ");
    stooq_path_at(symbol, year.as_str(), month.as_str(), day.as_str(), stamp.as_str())
}

/// The dated path of a download of `symbol` made now (UTC), as
/// `stooq_path_at_utc` writes it; `None` when the system clock reads before
/// the Unix epoch (where `chrono::Utc::now` panics) or beyond what `chrono`
/// can hold.
pub fn stooq_path(symbol: &str) -> (r: Option<String>)
    ensures
        r matches Some(p) ==> exists|t: UtcTime| {
            &&& valid_time(t)
            &&& p@ == #[trigger] stooq_path_at_time(symbol@, t)
            &&& 0 <= t.year <= 9999 ==> p@ == stooq_path_spec(
                symbol@,
                zero_padded(t.year as nat, 4),
                zero_padded(t.month as nat, 2),
                zero_padded(t.day as nat, 2),
                utc_stamp(t),
            )
        },
        exists|st: SystemTime, reading: Option<(u64, u32)>| {
            &&& #[trigger] clock_reading(st, reading)
            &&& match utc_of_reading_spec(reading) {
                None => r is None,
                Some(t) => r matches Some(p) && p@ == stooq_path_at_time(symbol@, t),
            }
        },
{
    let now = now_utc();
    match now {
        Some(t) => Some(stooq_path_at_utc(symbol, &t)),
        None => None,
    }
}

} // verus!
