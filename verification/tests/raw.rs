use vigilant_waddle::clock::{utc_of_reading, UtcTime};
use vigilant_waddle::raw::{iso_date, iso8601now, stooq_url};

#[test]
fn main_test_daily_url() {
    let ticker = "foo";
    let expected = format!("https://stooq.com/q/d/l/?s={ticker}&i=d");
    assert!(stooq_url(ticker) == expected)
}

#[test]
fn test_now() {
    let now = iso8601now().unwrap();
    println!("func returned {})", now);
    let b = now.as_bytes();
    assert!(
        b.len() == 10
            && b[4] == b'-'
            && b[7] == b'-'
            && b.iter().enumerate().all(|(i, c)| i == 4 || i == 7 || c.is_ascii_digit())
    );
}

#[test]
fn raw_stooq_url_pastes_ticker() {
    assert_eq!(stooq_url("a b"), "https://stooq.com/q/d/l/?s=a b&i=d");
}

#[test]
fn iso_date_writes_zero_padded_fields() {
    let t = UtcTime { year: 2024, month: 3, day: 9, hour: 10, minute: 11, second: 12, nanosecond: 0 };
    assert_eq!(iso_date(&t), "2024-03-09");
}

#[test]
fn clock_readings_become_utc_times() {
    assert!(utc_of_reading(None).is_none());
    assert!(utc_of_reading(Some((u64::MAX, 0))).is_none());
    let t = utc_of_reading(Some((1_431_648_000, 5))).unwrap();
    assert_eq!((t.year, t.month, t.day, t.hour, t.minute, t.second, t.nanosecond), (2015, 5, 15, 0, 0, 0, 5));
}
