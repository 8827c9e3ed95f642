use vigilant_waddle::amount::Amount;
use vigilant_waddle::portfolio::MockQuotes;
use vigilant_waddle::service::{Status, Store, UploadAction, UploadEvent};

const CSV: &[u8] = b"date;symbol;number;price;commission;currency\n2000-01-01;FOO;1;42.42;4.2;BAR\n";

#[test]
fn test_get_portfolio_empty() {
    let store = Store::new();
    assert_eq!(store.portfolio(MockQuotes::new()).err(), Some(Status::NotFound));
}

#[test]
fn test_upload_transactions_success() {
    let mut store = Store::new();
    assert!(store.upload_permitted(None).is_ok());
    assert_eq!(store.accept_upload(CSV), Status::Success);
    assert!(store.transactions().is_ok());
}

#[test]
fn test_upload_transactions_invalid_csv() {
    let mut store = Store::new();
    assert_eq!(store.accept_upload(b"invalid,csv,data\n"), Status::BadRequest);
    assert_eq!(store.transactions().err(), Some(Status::NotFound));
}

#[test]
fn test_upload_transactions_conflict_requires_header() {
    let mut store = Store::new();
    assert!(store.upload_permitted(None).is_ok());
    assert_eq!(store.accept_upload(CSV), Status::Success);
    assert_eq!(store.upload_permitted(None).err(), Some(Status::Conflict));
    assert_eq!(store.upload_permitted(Some("yes")).err(), Some(Status::Conflict));
    assert!(store.upload_permitted(Some("confirm")).is_ok());
    assert_eq!(store.accept_upload(CSV), Status::Success);
}

#[test]
fn test_get_transactions_empty() {
    let store = Store::new();
    assert_eq!(store.transactions().err(), Some(Status::NotFound));
}

#[test]
fn test_get_transactions_after_upload() {
    let mut store = Store::new();
    assert_eq!(store.accept_upload(CSV), Status::Success);
    let t = store.transactions().unwrap();
    assert!(t.len() == 1);
    assert!(t.iter().next().unwrap().symbol == "FOO");
}

#[test]
fn refused_upload_keeps_stored_log() {
    let mut store = Store::new();
    assert_eq!(store.accept_upload(CSV), Status::Success);
    assert_eq!(store.accept_upload(b"nope"), Status::BadRequest);
    assert_eq!(store.transactions().unwrap().len(), 1);
}

#[test]
fn test_get_portfolio_after_upload() {
    let mut store = Store::new();
    assert_eq!(store.accept_upload(CSV), Status::Success);
    let v = store.portfolio(MockQuotes::new()).unwrap();
    assert_eq!(v[0].symbol, "FOO");
    assert_eq!(v[0].quantity, 1);
    assert_eq!(v[0].value, "1");
    assert_eq!(v[0].currency, "BAR");
}

#[test]
fn portfolio_currency_is_first_trade_currency() {
    let mut store = Store::new();
    let csv = b"date;symbol;number;price;commission;currency\n\
2000-01-01;FOO;3;1.00;0;USD\n\
2000-01-02;BAR;-1;1.00;0;EUR\n\
2000-01-03;FOO;1;1.00;0;GBP\n";
    assert_eq!(store.accept_upload(csv), Status::Success);
    let mut q = MockQuotes::new();
    q.insert("FOO", Amount::parse("2.50").unwrap(), "CHF");
    let v = store.portfolio(q).unwrap();
    assert_eq!(v.len(), 2);
    assert_eq!((v[0].symbol.as_str(), v[0].quantity, v[0].value.as_str(), v[0].currency.as_str()), ("FOO", 4, "10.00", "USD"));
    assert_eq!((v[1].symbol.as_str(), v[1].quantity, v[1].value.as_str(), v[1].currency.as_str()), ("BAR", -1, "-1", "EUR"));
}

#[test]
fn upload_field_name() {
    assert!(Store::is_upload_field(Some("transaction_log")));
    assert!(!Store::is_upload_field(Some("other")));
    assert!(!Store::is_upload_field(None));
}

#[test]
fn upload_events_pick_the_log_field() {
    let mut store = Store::new();
    assert_eq!(store.on_upload_event(UploadEvent::Field(None)), UploadAction::NextField);
    assert_eq!(store.on_upload_event(UploadEvent::Field(Some("other".to_string()))), UploadAction::NextField);
    assert_eq!(
        store.on_upload_event(UploadEvent::Field(Some("transaction_log".to_string()))),
        UploadAction::ReadBody
    );
    assert!(store.transactions().is_err());
    assert_eq!(store.on_upload_event(UploadEvent::Body(CSV.to_vec())), UploadAction::Answer(Status::Success));
    assert_eq!(store.transactions().unwrap().len(), 1);
}

#[test]
fn upload_event_failures_keep_the_log() {
    let mut store = Store::new();
    assert_eq!(store.on_upload_event(UploadEvent::Body(CSV.to_vec())), UploadAction::Answer(Status::Success));
    assert_eq!(
        store.on_upload_event(UploadEvent::Body(b"nonsense".to_vec())),
        UploadAction::Answer(Status::BadRequest)
    );
    assert_eq!(store.on_upload_event(UploadEvent::End), UploadAction::Answer(Status::BadRequest));
    assert_eq!(store.on_upload_event(UploadEvent::StreamFailed), UploadAction::Answer(Status::BadRequest));
    assert_eq!(
        store.on_upload_event(UploadEvent::BodyFailed),
        UploadAction::Answer(Status::InternalServerError)
    );
    assert_eq!(store.transactions().unwrap().len(), 1);
}
