use vigilant_waddle::amount::Amount;
use vigilant_waddle::date::Date;
use vigilant_waddle::transactions::{Transactions, TransactionsError};

fn test_rd() -> &'static [u8] {
    b"date;symbol;number;price;commision;currency\n\
      2000-01-01;FOO;1;42.42;4.2;BAR\n\
      2000-01-02;BAZ;1;42.42;4.2;QUX\n"
}

#[test]
fn transactions_test_from_csv() {
    let test_rd = b"date;symbol;number;price;commission;currency\n2000-01-01;FOO;1;42.42;4.2;BAR\n";
    let sut = Transactions::try_from_reader(test_rd).unwrap();
    let tx = sut.iter().next().unwrap();
    assert_eq!(tx.symbol, "FOO");
    assert_eq!(tx.number, 1);
    assert!(tx.price.equals(&Amount::parse("42.42").unwrap()));
}

#[test]
fn from_reader_test_from_csv() {
    let test_rd = b"date;symbol;number;price;commision;currency\n2000-01-01;FOO;1;42.42;4.2;BAR\n";
    let sut = Transactions::from_reader(test_rd).unwrap();
    sut.into_iter().next().unwrap();
}

#[test]
fn test_date_empty() {
    let sut = Transactions::new();
    assert!(sut.first_date().is_none());
}

#[test]
fn test_the_first1() {
    let sut = Transactions::from_reader(test_rd()).unwrap();
    assert_eq!(sut.first_date().unwrap(), &Date { year: 2000, month: 01, day: 01 })
}

#[test]
fn test_the_last1() {
    let sut = Transactions::from_reader(test_rd()).unwrap();
    assert_eq!(sut.last_date().unwrap(), &Date { year: 2000, month: 01, day: 02 })
}

#[test]
fn test_by_date() {
    let sut = Transactions::from_reader(test_rd()).unwrap();
    let d = Date { year: 2000, month: 01, day: 01 };
    let found = sut.trans_by_date(&d);
    let mut i = found.iter();
    let v = i.next().unwrap();
    assert_eq!(v.date, d);
    assert!(i.next().is_none());
}

#[test]
fn test_invalid_csv_fails() {
    let invalid_csv = b"invalid,csv,data\n";
    let result = Transactions::try_from_reader(invalid_csv);
    assert!(result.is_err(), "Expected parsing to fail for invalid CSV");
}

#[test]
fn test_wrong_delimiter_fails() {
    let wrong_delimiter = b"date,symbol,number,price,commission,currency\n2000-01-01,FOO,1,42.42,4.2,BAR\n";
    let result = Transactions::try_from_reader(wrong_delimiter);
    assert!(result.is_err(), "Expected parsing to fail with wrong delimiter");
}

#[test]
fn test_missing_required_fields() {
    let missing_fields = b"date;symbol\n2000-01-01;FOO\n";
    let result = Transactions::try_from_reader(missing_fields);
    assert!(result.is_err(), "Expected parsing to fail when required fields are missing");
}

#[test]
fn error_kinds_of_try_from_reader() {
    assert_eq!(Transactions::try_from_reader(b"").err(), Some(TransactionsError::InvalidHeaders));
    assert_eq!(
        Transactions::try_from_reader(b"date;symbol;number;price;commission;currency\nxx;FOO;1;1;1;EUR\n").err(),
        Some(TransactionsError::DeserializeRows)
    );
    assert_eq!(
        Transactions::try_from_reader(b"date;symbol;number;price;commission;currency\n2000-01-01;FOO;1;1\n").err(),
        Some(TransactionsError::DeserializeRows)
    );
    assert_eq!(
        Transactions::try_from_reader(b"date;symbol;number;price;commision;currency\n").err(),
        Some(TransactionsError::InvalidHeaders)
    );
}

#[test]
fn header_only_log_is_empty() {
    let t = Transactions::try_from_reader(b"date;symbol;number;price;commission;currency\n").unwrap();
    assert!(t.is_empty());
    assert_eq!(t.len(), 0);
}

#[test]
fn rows_keep_file_order() {
    let t = Transactions::try_from_reader(
        b"date;symbol;number;price;commission;currency\n2000-01-02;B;-2;1.5;0;EUR\n2000-01-01;A;3;2;0.1;USD\n",
    )
    .unwrap();
    assert_eq!(t.len(), 2);
    let v: Vec<_> = t.iter().collect();
    assert_eq!(v[0].symbol, "B");
    assert_eq!(v[0].number, -2);
    assert_eq!(v[1].symbol, "A");
    assert_eq!(v[1].currency, "USD");
    assert!(v[1].commission.equals(&Amount::parse("0.1").unwrap()));
    assert_eq!(t.first_date(), Some(&Date { year: 2000, month: 1, day: 1 }));
    assert_eq!(t.last_date(), Some(&Date { year: 2000, month: 1, day: 2 }));
}

#[test]
fn from_reader_maps_columns_by_name() {
    let t = Transactions::from_reader(b"currency;number;symbol;extra;date;price;commision\nEUR;5;X;z;2001-02-03;1;0\n").unwrap();
    let v: Vec<_> = t.iter().collect();
    assert_eq!(v[0].symbol, "X");
    assert_eq!(v[0].number, 5);
    assert_eq!(v[0].currency, "EUR");
    assert_eq!(v[0].date, Date { year: 2001, month: 2, day: 3 });
}

#[test]
fn from_reader_errors() {
    assert_eq!(
        Transactions::from_reader(b"date;symbol\n2000-01-01;FOO\n").err(),
        Some(TransactionsError::DeserializeRows)
    );
    assert!(Transactions::from_reader(b"date;symbol\n").unwrap().is_empty());
    assert!(Transactions::from_reader(b"").unwrap().is_empty());
}

#[test]
fn trans_by_date_keeps_order() {
    let t = Transactions::try_from_reader(
        b"date;symbol;number;price;commission;currency\n2000-01-01;A;1;1;0;E\n2000-01-02;B;1;1;0;E\n2000-01-01;C;1;1;0;E\n",
    )
    .unwrap();
    let d = Date { year: 2000, month: 1, day: 1 };
    let v = t.trans_by_date(&d);
    assert_eq!(v.len(), 2);
    assert_eq!(v[0].symbol, "A");
    assert_eq!(v[1].symbol, "C");
    assert!(t.trans_by_date(&Date { year: 1999, month: 1, day: 1 }).is_empty());
}
