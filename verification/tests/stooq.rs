use vigilant_waddle::amount::Amount;
use vigilant_waddle::portfolio::QuoteError;
use vigilant_waddle::stooq::{adjusted_price, parse_close, price_from_answer, quote_url, quote_url_in, SymbolConfig, SymbolMap};

#[test]
fn price_nd_returns_error() {
    let csv = "Symbol,Date,Time,Open,High,Low,Close,Volume\n\
               AAPL.US,2026-01-01,12:00:00,100,110,90,N/D,0\n";
    assert!(parse_close(csv).is_err());
}

#[test]
fn price_divisor_applied() {
    let csv = "Symbol,Date,Time,Open,High,Low,Close,Volume\n\
               AAPL.US,2026-01-01,12:00:00,100,110,90,10000,1000\n";
    let raw = parse_close(csv).unwrap();
    let divisor = 100u32;
    let result = raw.checked_div(&Amount::from_u32(divisor)).unwrap();
    assert!(result.equals(&Amount::parse("100").unwrap()));
}

#[test]
fn parse_close_errors() {
    assert_eq!(parse_close("Symbol,Date,Time,Open,High,Low,Close,Volume\n").err(), Some(QuoteError::NoDataRow));
    assert_eq!(parse_close("a,b\n1,2\n").err(), Some(QuoteError::MissingClose));
    assert_eq!(
        parse_close("Symbol,Date,Time,Open,High,Low,Close,Volume\nX,d,t,1,2,3,abc,4\n").err(),
        Some(QuoteError::InvalidClose)
    );
    assert_eq!(
        parse_close("Symbol,Date,Time,Open,High,Low,Close,Volume\nX,d,t,1,2,3,N/D,4\n").err(),
        Some(QuoteError::NotAvailable)
    );
    assert_eq!(
        parse_close("Symbol,Date,Time,Open,High,Low,Close,Volume\nX,d,t,1,2,3,4\n").err(),
        Some(QuoteError::UnreadableResponse)
    );
}

#[test]
fn divisor_divides_close() {
    let cfg = SymbolConfig { suffix: ".UK".to_string(), divisor: Some(100) };
    let csv = "Symbol,Date,Time,Open,High,Low,Close,Volume\nVOD.UK,d,t,1,2,3,850.00,4\n";
    let p = price_from_answer(&cfg, csv).unwrap();
    assert!(p.equals(&Amount::parse("8.50").unwrap()));
    let plain = adjusted_price(Amount::from_i32(7), None).unwrap();
    assert!(plain.equals(&Amount::from_i32(7)));
}

#[test]
fn quote_url_lowercases_and_suffixes() {
    let cfg = SymbolConfig { suffix: ".US".to_string(), divisor: None };
    assert_eq!(quote_url("AAPL", &cfg), "https://stooq.com/q/l/?s=aapl.US&f=sd2t2ohlcv&h&e=csv");
}

#[test]
fn unknown_symbol_has_no_url() {
    let mut map = SymbolMap::new();
    map.insert("IBM", SymbolConfig { suffix: ".US".to_string(), divisor: None });
    assert_eq!(quote_url_in(&map, "AAPL").err(), Some(QuoteError::UnknownSymbol));
    assert_eq!(quote_url_in(&map, "IBM").unwrap(), "https://stooq.com/q/l/?s=ibm.US&f=sd2t2ohlcv&h&e=csv");
    assert_eq!(map.len(), 1);
}
