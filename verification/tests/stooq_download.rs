use std::path::{Component, Path};

use vigilant_waddle::paths::DATA_BASE;
use vigilant_waddle::clock::UtcTime;
use vigilant_waddle::stooq_download::{raw_filename, stooq_path, stooq_path_at, stooq_path_at_utc, stooq_url};

#[test]
fn stooq_download_test_daily_url() {
    let ticker = "foo";
    let expected = format!("https://stooq.com/q/d/l/?s={ticker}&i=d");
    assert!(stooq_url(ticker).unwrap().to_string() == expected)
}

#[test]
fn stooq_test_daily_url() {
    let ticker = "foo";
    let expected = format!("https://stooq.com/q/d/l/?s={ticker}&i=d");
    assert!(stooq_url(ticker).unwrap().to_string() == expected)
}

#[test]
fn stooq_url_escapes_ticker() {
    assert_eq!(stooq_url("a b&c").unwrap(), "https://stooq.com/q/d/l/?s=a+b%26c&i=d");
}

#[test]
fn test_path() {
    let p = stooq_path("foo").unwrap();
    let parts: Vec<_> = Path::new(&p).components().collect();
    println!("Returned {p}");
    assert_eq!(parts[0], Component::Normal("raw".as_ref()));
    assert_eq!(parts[1], Component::Normal("stooq".as_ref()));
}

#[test]
fn stooq_path_at_lays_out_date_directories() {
    assert_eq!(
        stooq_path_at("foo", "2024", "03", "09", "20240309T101112Z"),
        "raw/stooq/foo/2024/03/09/20240309T101112Z.csv"
    );
}

#[test]
fn raw_filename_is_symbol_partition() {
    assert_eq!(raw_filename("IBM"), format!("{DATA_BASE}/raw/stooq/symbol=IBM/data.csv"));
}

#[test]
fn stooq_path_at_utc_uses_chrono_fields() {
    let t = UtcTime { year: 2024, month: 3, day: 9, hour: 10, minute: 11, second: 12, nanosecond: 0 };
    assert_eq!(stooq_path_at_utc("foo", &t), "raw/stooq/foo/2024/03/09/20240309T101112Z.csv");
}
