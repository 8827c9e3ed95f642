use vigilant_waddle::amount::Amount;
use vigilant_waddle::portfolio::{value_entry, MockQuotes, Portfolio, Quote, QuoteError, Quotes};
use vigilant_waddle::transactions::Transactions;

fn dec(s: &str) -> Amount {
    Amount::parse(s).unwrap()
}

fn make_transactions(rows: &[(&str, i32)]) -> Transactions {
    let header = "date;symbol;number;price;commission;currency\n";
    let body: String = rows
        .iter()
        .map(|(sym, n)| format!("2000-01-01;{sym};{n};42.42;4.2;BAR\n"))
        .collect();
    Transactions::try_from_reader(format!("{header}{body}").as_bytes()).unwrap()
}

#[test]
fn mock_quotes_known_symbol() {
    let mut q = MockQuotes::new();
    q.insert("FOO", dec("5.00"), "EUR");
    let quote = q.price("FOO").unwrap();
    assert!(quote.price.equals(&dec("5.00")));
    assert_eq!(quote.currency, "EUR");
}

#[test]
fn mock_quotes_unknown_symbol() {
    let q = MockQuotes::new();
    let quote = q.price("UNKNOWN").unwrap();
    assert!(quote.price.equals(&Amount::from_i32(1)));
    assert_eq!(quote.currency, "USD");
}

#[test]
fn portfolio_values_computed() {
    let mut q = MockQuotes::new();
    q.insert("FOO", dec("100.00"), "USD");
    let t = make_transactions(&[("FOO", 3)]);
    let p = Portfolio::from_transactions_with_quotes(&t, q);
    let v = p.valuation().unwrap();
    assert_eq!(v[0].value, "300.00");
    assert_eq!(v[0].currency, "USD");
}

#[test]
fn portfolio_multi_currency_short() {
    let mut q = MockQuotes::new();
    q.insert("FOO", dec("100.00"), "USD");
    q.insert("BAR", dec("50.00"), "EUR");
    let t = make_transactions(&[("FOO", 3), ("BAR", -1)]);
    let p = Portfolio::from_transactions_with_quotes(&t, q);
    let v = p.valuation().unwrap();
    assert_eq!(v[0].symbol, "FOO");
    assert_eq!(v[0].quantity, 3);
    assert_eq!(v[0].value, "300.00");
    assert_eq!(v[0].currency, "USD");
    assert_eq!(v[1].symbol, "BAR");
    assert_eq!(v[1].quantity, -1);
    assert_eq!(v[1].value, "-50.00");
    assert_eq!(v[1].currency, "EUR");
}

#[test]
fn insert_replaces_quote() {
    let mut q = MockQuotes::default();
    q.insert("FOO", dec("1.5"), "EUR");
    q.insert("FOO", dec("2.5"), "GBP");
    let quote = q.price("FOO").unwrap();
    assert!(quote.price.equals(&dec("2.5")));
    assert_eq!(quote.currency, "GBP");
    assert_eq!(q.price("BAR").unwrap().currency, "USD");
}

#[test]
fn holdings_sum_per_symbol_in_first_trade_order() {
    let t = make_transactions(&[("B", 2), ("A", 5), ("B", -3), ("A", 1), ("C", 0)]);
    let p = Portfolio::from_transactions_with_quotes(&t, MockQuotes::new());
    assert_eq!(p.len(), 3);
    let v = p.valuation().unwrap();
    assert_eq!(v[0].symbol, "B");
    assert_eq!(v[0].quantity, -1);
    assert_eq!(v[0].value, "-1");
    assert_eq!(v[1].symbol, "A");
    assert_eq!(v[1].quantity, 6);
    assert_eq!(v[1].value, "6");
    assert_eq!(v[2].symbol, "C");
    assert_eq!(v[2].quantity, 0);
    assert_eq!(v[2].value, "0");
}

#[test]
fn overflowing_holding_is_refused() {
    let t = make_transactions(&[("A", i32::MAX), ("A", 1)]);
    assert!(Portfolio::try_from_transactions_with_quotes(&t, MockQuotes::new()).is_none());
    let t = make_transactions(&[("A", i32::MAX), ("B", 1)]);
    assert!(Portfolio::try_from_transactions_with_quotes(&t, MockQuotes::new()).is_some());
}

#[test]
fn empty_log_has_empty_portfolio() {
    let p = Portfolio::from_transactions_with_quotes(&Transactions::new(), MockQuotes::new());
    assert_eq!(p.len(), 0);
    assert!(p.valuation().unwrap().is_empty());
}

struct FailingQuotes;

impl Quotes for FailingQuotes {
    fn price(&self, _symbol: &str) -> Result<Quote, QuoteError> {
        Err(QuoteError::Unavailable)
    }
}

#[test]
fn failing_quote_fails_valuation() {
    let t = make_transactions(&[("A", 1)]);
    let p = Portfolio::from_transactions_with_quotes(&t, FailingQuotes);
    assert_eq!(p.valuation().err(), Some(QuoteError::Unavailable));
}

#[test]
fn value_entry_multiplies_and_overflows() {
    let q = Quote { price: dec("0.25"), currency: "EUR".to_string() };
    let e = value_entry(&"X".to_string(), 7, &q).unwrap();
    assert_eq!(e.value, "1.75");
    assert_eq!(e.currency, "EUR");
    let big = Quote { price: Amount::from_parts(79228162514264337593543950335, 0).unwrap(), currency: "E".to_string() };
    assert_eq!(value_entry(&"X".to_string(), 2, &big).err(), Some(QuoteError::ValueOverflow));
}

#[test]
fn holdings_of_joined_logs_add_up() {
    let a = make_transactions(&[("X", 2), ("Y", 1)]);
    let b = make_transactions(&[("X", -5), ("Z", 4)]);
    let ab = make_transactions(&[("X", 2), ("Y", 1), ("X", -5), ("Z", 4)]);
    let va = Portfolio::from_transactions_with_quotes(&a, MockQuotes::new()).valuation().unwrap();
    let vb = Portfolio::from_transactions_with_quotes(&b, MockQuotes::new()).valuation().unwrap();
    let vab = Portfolio::from_transactions_with_quotes(&ab, MockQuotes::new()).valuation().unwrap();
    assert_eq!(va[0].quantity + vb[0].quantity, vab[0].quantity);
    assert_eq!(vab[0].quantity, -3);
    assert_eq!(vab.iter().map(|e| e.symbol.as_str()).collect::<Vec<_>>(), vec!["X", "Y", "Z"]);
}
