//! Live quotes from stooq.com: the symbol map, the quote URL, and reading the
//! Close price out of stooq's CSV answer. Fetching the answer is left to the
//! caller.
use vstd::prelude::*;
use vstd::string::StringSliceAdditionalSpecFns;

use crate::amount::decimal_checked_div;
use crate::amount::decimal_from_str;
use crate::amount::Amount;
use crate::portfolio::QuoteError;
use crate::records::csv_first_data_record;
use crate::records::read_first_data_record;
use crate::table::Table;

verus! {

/// How a portfolio symbol is looked up at stooq.
pub struct SymbolConfig {
    /// Appended to the lower-cased symbol (e.g. `.US`).
    pub suffix: String,
    /// Stooq's price is divided by this (e.g. 100 for prices in pence).
    pub divisor: Option<u32>,
}

/// The stooq configuration of each portfolio symbol.
pub type SymbolMap = Table<SymbolConfig>;

/// `str::to_lowercase` of a text.
pub uninterp spec fn lowercase(text: Seq<char>) -> Seq<char>;

/// `text` in lower case.
///
/// Trusted: `str::to_lowercase` (Unicode lower-casing); the result is named
/// by `lowercase`.
#[verifier::external_body]
fn to_lowercase(text: &str) -> (r: String)
    ensures
        r@ == lowercase(text@),
{
    text.to_lowercase()
}

/// The stooq quote URL of `symbol` under `config`:
/// `https://stooq.com/q/l/?s=<lower-case symbol><suffix>&f=sd2t2ohlcv&h&e=csv`.
pub open spec fn quote_url_spec(symbol: Seq<char>, suffix: Seq<char>) -> Seq<char> {
    "https://stooq.com/q/l/?s="@ + lowercase(symbol) + suffix + "&f=sd2t2ohlcv&h&e=csv"@
}

/// The URL of stooq's current quote of `symbol`.
pub fn quote_url(symbol: &str, config: &SymbolConfig) -> (r: String)
    ensures
        r@ == quote_url_spec(symbol@, config.suffix@),
{
    let mut u = String::from_str("https://stooq.com/q/l/?s=");
    let lower = to_lowercase(symbol);
    u.append(lower.as_str());
    u.append(config.suffix.as_str());
    u.append("&f=sd2t2ohlcv&h&e=csv");
    u
}

/// The quote URL of `symbol` in `map`; `UnknownSymbol` when the map has no
/// entry for it.
pub fn quote_url_in(map: &SymbolMap, symbol: &str) -> (r: Result<String, QuoteError>)
    ensures
        r is Err <==> !map.map().contains_key(symbol@),
        r matches Err(e) ==> e == QuoteError::UnknownSymbol,
        r matches Ok(u) ==> u@ == quote_url_spec(symbol@, map.map()[symbol@].suffix@),
{
    match map.get(symbol) {
        Some(c) => Ok(quote_url(symbol, c)),
        None => Err(QuoteError::UnknownSymbol),
    }
}

/// The column of Close in stooq's answer
/// (`Symbol,Date,Time,Open,High,Low,Close,Volume`).
pub const CLOSE_COLUMN: usize = 6;

/// What `parse_close` makes of stooq's answer `bytes`: the Close field of
/// the first data row, parsed with `Decimal::from_str`.
pub open spec fn parse_close_outcome(bytes: Seq<u8>) -> Result<(int, int), QuoteError> {
    match csv_first_data_record(bytes, 44u8) {
        None => Err(QuoteError::UnreadableResponse),
        Some(None) => Err(QuoteError::NoDataRow),
        Some(Some(rec)) => if rec.len() <= CLOSE_COLUMN {
            Err(QuoteError::MissingClose)
        } else if rec[CLOSE_COLUMN as int] == "N/D"@ {
            Err(QuoteError::NotAvailable)
        } else {
            match decimal_from_str(rec[CLOSE_COLUMN as int]) {
                Some(v) => Ok(v),
                None => Err(QuoteError::InvalidClose),
            }
        },
    }
}

/// The Close price in stooq's CSV answer: the seventh field of the first row
/// after the header. Fails when the answer cannot be read, has no data row or
/// no Close field, when Close is `N/D`, or when it is not a decimal.
pub fn parse_close(csv_text: &str) -> (r: Result<Amount, QuoteError>)
    ensures
        match r {
            Ok(a) => parse_close_outcome(csv_text.spec_bytes()) == Ok::<(int, int), QuoteError>(a.parts()),
            Err(e) => parse_close_outcome(csv_text.spec_bytes()) == Err::<(int, int), QuoteError>(e),
        },
{
    let bytes = csv_text.as_bytes();
    match read_first_data_record(bytes, 44u8) {
        None => Err(QuoteError::UnreadableResponse),
        Some(None) => Err(QuoteError::NoDataRow),
        Some(Some(rec)) => {
            if rec.len() <= CLOSE_COLUMN {
                return Err(QuoteError::MissingClose);
            }
            let nd = String::from_str("N/D");
            if rec[CLOSE_COLUMN] == nd {
                return Err(QuoteError::NotAvailable);
            }
            match Amount::parse(rec[CLOSE_COLUMN].as_str()) {
                Some(a) => Ok(a),
                None => Err(QuoteError::InvalidClose),
            }
        },
    }
}

/// `price` divided by the configured divisor, if any.
pub open spec fn adjusted_outcome(price: (int, int), divisor: Option<u32>) -> Result<(int, int), QuoteError> {
    match divisor {
        None => Ok(price),
        Some(d) => match decimal_checked_div(price.0, price.1, d as int, 0) {
            Some(v) => Ok(v),
            None => Err(QuoteError::InvalidDivisor),
        },
    }
}

/// `price` divided by `divisor` when there is one (with `Decimal`'s
/// division); a zero divisor is left out. It always succeeds.
pub fn adjusted_price(price: Amount, divisor: Option<u32>) -> (r: Result<Amount, QuoteError>)
    requires
        divisor != Some(0u32),
    ensures
        r is Ok,
        match r {
            Ok(a) => adjusted_outcome(price.parts(), divisor) == Ok::<(int, int), QuoteError>(a.parts()),
            Err(e) => adjusted_outcome(price.parts(), divisor) == Err::<(int, int), QuoteError>(e),
        },
{
    match divisor {
        None => Ok(price),
        Some(d) => {
            let den = Amount::from_u32(d);
            match price.checked_div(&den) {
                Some(v) => Ok(v),
                None => Err(QuoteError::InvalidDivisor),
            }
        },
    }
}

/// The price of a symbol configured as `config`, read from stooq's answer
/// `csv_text`: its Close divided by the configured divisor. It fails exactly
/// when the Close cannot be had, with `parse_close`'s error.
pub fn price_from_answer(config: &SymbolConfig, csv_text: &str) -> (r: Result<Amount, QuoteError>)
    requires
        config.divisor != Some(0u32),
    ensures
        parse_close_outcome(csv_text.spec_bytes()) is Ok <==> r is Ok,
        match r {
            Ok(a) => parse_close_outcome(csv_text.spec_bytes()) matches Ok(c) && adjusted_outcome(c, config.divisor) == Ok::<(int, int), QuoteError>(a.parts()),
            Err(e) => parse_close_outcome(csv_text.spec_bytes()) == Err::<(int, int), QuoteError>(e),
        },
{
    let close = match parse_close(csv_text) {
        Ok(c) => c,
        Err(e) => {
            return Err(e);
        },
    };
    adjusted_price(close, config.divisor)
}

} // verus!
