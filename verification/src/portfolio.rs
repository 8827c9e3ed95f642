//! Quotes, a quote source for tests and offline use, and the portfolio that
//! folds a transaction log into net holdings and values them.
use vstd::prelude::*;

use crate::amount::decimal_checked_mul;
use crate::amount::decimal_display;
use crate::amount::Amount;
use crate::table::Table;
use crate::transactions::Transactions;
use crate::transactions::TxFields;

verus! {

/// A price and the currency it is in.
#[derive(Debug)]
pub struct Quote {
    pub price: Amount,
    pub currency: String,
}

impl Clone for Quote {
    fn clone(&self) -> (r: Quote)
        ensures
            r.price == self.price,
            r.currency@ == self.currency@,
    {
        Quote { price: self.price, currency: self.currency.clone() }
    }
}

/// Why no quote, or no value, could be had.
#[derive(Debug, Clone, Copy, PartialEq, Eq, Structural)]
pub enum QuoteError {
    /// The quote source does not know the symbol.
    UnknownSymbol,
    /// The quote source could not be reached or answered with an error.
    Unavailable,
    /// The quote source's answer holds no data row.
    NoDataRow,
    /// The quote source's answer could not be read as CSV.
    UnreadableResponse,
    /// The quote source's data row has no Close column.
    MissingClose,
    /// The quote source has no Close value for the symbol (`N/D`).
    NotAvailable,
    /// The Close value is not a decimal number.
    InvalidClose,
    /// The configured divisor is zero, or the division overflows.
    InvalidDivisor,
    /// quantity times price does not fit a decimal.
    ValueOverflow,
}

/// A source of current quotes, one symbol at a time.
pub trait Quotes {
    /// `r` is an answer the source may give when asked for `symbol`. A
    /// relation, not a function: a live source may answer differently from
    /// one call to the next. A source that does not describe its answers
    /// relates every answer.
    open spec fn answers(&self, symbol: Seq<char>, r: Result<Quote, QuoteError>) -> bool {
        true
    }

    /// The current quote for `symbol`.
    fn price(&self, symbol: &str) -> (r: Result<Quote, QuoteError>)
        ensures
            self.answers(symbol@, r),
    ;
}

/// The quote that `MockQuotes::price` hands out for a symbol it was not
/// given: 1 USD (`Decimal::ONE`).
pub open spec fn default_quote() -> ((int, int), Seq<char>) {
    ((1int, 0int), "USD"@)
}

/// What a quote table answers for `symbol`: the stored quote, or the default.
pub open spec fn quoted(table: Map<Seq<char>, ((int, int), Seq<char>)>, symbol: Seq<char>) -> ((int, int), Seq<char>) {
    if table.contains_key(symbol) {
        table[symbol]
    } else {
        default_quote()
    }
}

/// Fixed quotes kept in memory; unknown symbols are quoted at 1 USD.
pub struct MockQuotes {
    data: Table<Quote>,
}

/// A quote as (price, currency).
pub open spec fn quote_view(q: Quote) -> ((int, int), Seq<char>) {
    (q.price.parts(), q.currency@)
}

impl MockQuotes {
    /// The stored quotes, by symbol, as (price, currency).
    pub closed spec fn table(self) -> Map<Seq<char>, ((int, int), Seq<char>)> {
        self.data.map().map_values(|q: Quote| quote_view(q))
    }

    /// No stored quotes.
    pub fn new() -> (r: MockQuotes)
        ensures
            r.table() == Map::<Seq<char>, ((int, int), Seq<char>)>::empty(),
    {
        let r = MockQuotes { data: Table::new() };
        proof {
            assert(r.table() =~= Map::<Seq<char>, ((int, int), Seq<char>)>::empty());
        }
        r
    }

    /// Stores the quote (`price`, `currency`) for `symbol`, replacing any
    /// quote stored for it before.
    pub fn insert(&mut self, symbol: &str, price: Amount, currency: &str)
        ensures
            final(self).table() == old(self).table().insert(symbol@, (price.parts(), currency@)),
    {
        let ghost before = self.data.map();
        let quote = Quote { price, currency: String::from_str(currency) };
        self.data.insert(symbol, quote);
        proof {
            assert(self.table() =~= before.map_values(|q: Quote| quote_view(q)).insert(symbol@, (price.parts(), currency@)));
        }
    }
}

impl Default for MockQuotes {
    fn default() -> (r: MockQuotes)
        ensures
            r.table() == Map::<Seq<char>, ((int, int), Seq<char>)>::empty(),
    {
        MockQuotes::new()
    }
}

impl Quotes for MockQuotes {
    /// The stored quote for the symbol, or 1 USD; never an error.
    open spec fn answers(&self, symbol: Seq<char>, r: Result<Quote, QuoteError>) -> bool {
        r matches Ok(q) && quote_view(q) == quoted(self.table(), symbol)
    }

    /// The stored quote for `symbol`, or 1 USD; never fails.
    fn price(&self, symbol: &str) -> (r: Result<Quote, QuoteError>)
        ensures
            r is Ok,
            r matches Ok(q) ==> quote_view(q) == quoted(self.table(), symbol@),
    {
        match self.data.get(symbol) {
            Some(q) => Ok(q.clone()),
            None => {
                let price = Amount::from_i32(1);
                let q = Quote { price, currency: String::from_str("USD") };
                Ok(q)
            },
        }
    }
}

/// The net quantity of `symbol` over the trades `txs`: the sum of their
/// `number` fields.
pub open spec fn symbol_total(txs: Seq<TxFields>, symbol: Seq<char>) -> int
    decreases txs.len(),
{
    if txs.len() == 0 {
        0
    } else {
        symbol_total(txs.drop_last(), symbol) + (if txs.last().symbol == symbol { txs.last().number } else { 0 })
    }
}

/// The symbols of `txs`, each once, in the order of their first trade.
pub open spec fn symbols_in_order(txs: Seq<TxFields>) -> Seq<Seq<char>>
    decreases txs.len(),
{
    if txs.len() == 0 {
        Seq::empty()
    } else {
        let prev = symbols_in_order(txs.drop_last());
        if prev.contains(txs.last().symbol) {
            prev
        } else {
            prev.push(txs.last().symbol)
        }
    }
}

/// The net holdings of `txs`: every traded symbol once, in the order of its
/// first trade, with its net quantity (zero included).
pub open spec fn net_holdings(txs: Seq<TxFields>) -> Seq<(Seq<char>, int)> {
    symbols_in_order(txs).map_values(|s: Seq<char>| (s, symbol_total(txs, s)))
}

/// Every running net quantity, after every prefix of `txs`, fits an `i32`.
pub open spec fn totals_fit(txs: Seq<TxFields>) -> bool {
    forall|k: int, s: Seq<char>|
        0 <= k <= txs.len() ==> i32::MIN <= #[trigger] symbol_total(txs.take(k), s) <= i32::MAX
}

/// A symbol without trades has net quantity zero.
pub proof fn lemma_total_of_untraded(txs: Seq<TxFields>, s: Seq<char>)
    requires
        !symbols_in_order(txs).contains(s),
    ensures
        symbol_total(txs, s) == 0,
    decreases txs.len(),
{
    if txs.len() > 0 {
        let prev = symbols_in_order(txs.drop_last());
        if prev.contains(s) {
            let w = choose|w: int| 0 <= w < prev.len() && prev[w] == s;
            if !prev.contains(txs.last().symbol) {
                assert(symbols_in_order(txs)[w] == s);
            } else {
                assert(symbols_in_order(txs)[w] == s);
            }
        }
        if txs.last().symbol == s {
            if prev.contains(s) {
            } else {
                assert(symbols_in_order(txs)[prev.len() as int] == s);
            }
        }
        lemma_total_of_untraded(txs.drop_last(), s);
    }
}

/// The symbols of `txs` are distinct.
pub proof fn lemma_symbols_distinct(txs: Seq<TxFields>)
    ensures
        forall|a: int, b: int|
            0 <= a < b < symbols_in_order(txs).len() ==> symbols_in_order(txs)[a] != symbols_in_order(txs)[b],
    decreases txs.len(),
{
    if txs.len() > 0 {
        lemma_symbols_distinct(txs.drop_last());
        let prev = symbols_in_order(txs.drop_last());
        let cur = symbols_in_order(txs);
        if !prev.contains(txs.last().symbol) {
            assert forall|a: int, b: int| 0 <= a < b < cur.len() implies cur[a] != cur[b] by {
                if b == prev.len() {
                    assert(cur[a] == prev[a]);
                    if cur[a] == cur[b] {
                        assert(prev.contains(txs.last().symbol));
                    }
                } else {
                    assert(cur[a] == prev[a] && cur[b] == prev[b]);
                }
            }
        }
    }
}

/// A net holding: a symbol and its net quantity.
#[derive(Debug)]
pub struct Holding {
    pub symbol: String,
    pub quantity: i32,
}

/// Holdings as (symbol, quantity) pairs.
pub open spec fn holdings_view(v: Seq<Holding>) -> Seq<(Seq<char>, int)> {
    v.map_values(|h: Holding| (h.symbol@, h.quantity as int))
}

/// Folds the trades into net holdings, in the order of each symbol's first
/// trade; `None` when a running net quantity leaves the `i32` range.
pub fn net_holdings_of(t: &Transactions) -> (r: Option<Vec<Holding>>)
    ensures
        r is Some <==> totals_fit(t@),
        r matches Some(v) ==> holdings_view(v@) == net_holdings(t@),
{
    let txs = t.as_slice();
    let ghost tv = t@;
    proof {
        t.lemma_view();
    }
    let mut data: Vec<Holding> = Vec::new();
    let mut i: usize = 0;
    proof {
        assert(holdings_view(data@) =~= net_holdings(tv.take(0)));
        assert forall|k: int, s: Seq<char>| 0 <= k <= 0 implies i32::MIN <= #[trigger] symbol_total(tv.take(k), s) <= i32::MAX by {
            assert(tv.take(k).len() == 0);
        }
    }
    while i < txs.len()
        invariant
            0 <= i <= txs.len(),
            tv == t@,
            tv.len() == txs@.len(),
            forall|j: int| 0 <= j < tv.len() ==> #[trigger] tv[j] == txs@[j]@,
            holdings_view(data@) == net_holdings(tv.take(i as int)),
            forall|k: int, s: Seq<char>|
                0 <= k <= i ==> i32::MIN <= #[trigger] symbol_total(tv.take(k), s) <= i32::MAX,
        decreases txs.len() - i,
    {
        let tx = &txs[i];
        let ghost pre = tv.take(i as int);
        let ghost post = tv.take(i + 1);
        let ghost sym = tx.symbol@;
        proof {
            assert(post.drop_last() =~= pre);
            assert(post.last() == tv[i as int]);
            assert(tv[i as int] == tx@);
            lemma_symbols_distinct(pre);
        }
        let mut j: usize = 0;
        let mut found = false;
        while j < data.len()
            invariant_except_break
                !found,
            invariant
                0 <= j <= data.len(),
                holdings_view(data@) == net_holdings(pre),
                sym == tx.symbol@,
                forall|w: int| 0 <= w < j ==> data@[w].symbol@ != sym,
            ensures
                j <= data.len(),
                found ==> j < data.len() && data@[j as int].symbol@ == sym,
                !found ==> forall|w: int| 0 <= w < data.len() ==> data@[w].symbol@ != sym,
            decreases data.len() - j,
        {
            if data[j].symbol == tx.symbol {
                found = true;
                break;
            }
            j = j + 1;
        }
        proof {
            assert(holdings_view(data@).len() == symbols_in_order(pre).len());
            assert forall|w: int| 0 <= w < data@.len() implies #[trigger] data@[w].symbol@ == symbols_in_order(pre)[w]
                && data@[w].quantity as int == symbol_total(pre, symbols_in_order(pre)[w]) by {
                assert(holdings_view(data@)[w] == net_holdings(pre)[w]);
            }
        }
        if found {
            let sum: i64 = data[j].quantity as i64 + tx.number as i64;
            proof {
                assert(symbols_in_order(pre).contains(sym));
                assert(symbols_in_order(post) == symbols_in_order(pre));
                assert(symbol_total(post, sym) == sum);
            }
            if sum < i32::MIN as i64 || sum > i32::MAX as i64 {
                proof {
                    assert(!(i32::MIN <= symbol_total(tv.take(i + 1), sym) <= i32::MAX));
                }
                return None;
            }
            let h = Holding { symbol: data[j].symbol.clone(), quantity: sum as i32 };
            let ghost old_data = data@;
            data.set(j, h);
            proof {
                assert forall|w: int| 0 <= w < data@.len() implies #[trigger] holdings_view(data@)[w] == net_holdings(post)[w] by {
                    let s = symbols_in_order(pre)[w];
                    assert(symbols_in_order(post)[w] == s);
                    if w != j as int {
                        assert(data@[w] == old_data[w]);
                        assert(s != sym);
                    }
                }
                assert(holdings_view(data@) =~= net_holdings(post));
            }
        } else {
            let h = Holding { symbol: tx.symbol.clone(), quantity: tx.number };
            let ghost old_data = data@;
            proof {
                assert(!symbols_in_order(pre).contains(sym)) by {
                    if symbols_in_order(pre).contains(sym) {
                        let w = choose|w: int| 0 <= w < symbols_in_order(pre).len() && symbols_in_order(pre)[w] == sym;
                        assert(data@[w].symbol@ == sym);
                    }
                }
                lemma_total_of_untraded(pre, sym);
                assert(symbols_in_order(post) == symbols_in_order(pre).push(sym));
            }
            data.push(h);
            proof {
                assert forall|w: int| 0 <= w < data@.len() implies #[trigger] holdings_view(data@)[w] == net_holdings(post)[w] by {
                    if w < old_data.len() {
                        let s = symbols_in_order(pre)[w];
                        assert(data@[w] == old_data[w]);
                        assert(s != sym);
                        assert(symbols_in_order(post)[w] == s);
                    } else {
                        assert(symbols_in_order(post)[w] == sym);
                    }
                }
                assert(holdings_view(data@) =~= net_holdings(post));
            }
        }
        proof {
            assert forall|k: int, s: Seq<char>| 0 <= k <= i + 1 implies i32::MIN <= #[trigger] symbol_total(tv.take(k), s) <= i32::MAX by {
                if k == i + 1 {
                    assert(tv.take(k) == post);
                    if s != sym {
                        assert(symbol_total(post, s) == symbol_total(pre, s));
                        assert(pre == tv.take(i as int));
                    } else if !found {
                        assert(symbol_total(post, s) == tx.number);
                    }
                }
            }
        }
        i = i + 1;
    }
    proof {
        assert(tv.take(i as int) =~= tv);
    }
    Some(data)
}

/// One valued holding: symbol, net quantity, value (quantity times price, as
/// `rust_decimal` writes it) and the quote's currency.
#[derive(Debug)]
pub struct PortfolioEntry {
    pub symbol: String,
    pub quantity: i32,
    pub value: String,
    pub currency: String,
}

/// `e` prices the holding `h` at `price`: the symbol and quantity are the
/// holding's and the value is the text of `Decimal::from(quantity) * price`.
pub open spec fn priced(e: PortfolioEntry, h: (Seq<char>, int), price: (int, int)) -> bool {
    &&& e.symbol@ == h.0
    &&& e.quantity as int == h.1
    &&& match decimal_checked_mul(h.1, 0, price.0, price.1) {
        Some(v) => e.value@ == decimal_display(v.0, v.1),
        None => false,
    }
}

/// `e` values the holding `h` at the quote (`price`, `currency`): it prices
/// the holding at `price` and carries `currency`.
pub open spec fn valued(e: PortfolioEntry, h: (Seq<char>, int), price: (int, int), currency: Seq<char>) -> bool {
    &&& priced(e, h, price)
    &&& e.currency@ == currency
}

/// `e` prices the holding `h` at the price of a quote that `src` may answer
/// for its symbol.
pub open spec fn priced_by<Q: Quotes>(src: Q, e: PortfolioEntry, h: (Seq<char>, int)) -> bool {
    exists|q: Quote| #[trigger] src.answers(h.0, Ok(q)) && priced(e, h, q.price.parts())
}

/// The currency of the first trade of `symbol` in `txs` (empty when there
/// is none).
pub open spec fn first_currency(txs: Seq<TxFields>, symbol: Seq<char>) -> Seq<char>
    decreases txs.len(),
{
    if txs.len() == 0 {
        Seq::empty()
    } else if txs[0].symbol == symbol {
        txs[0].currency
    } else {
        first_currency(txs.drop_first(), symbol)
    }
}

/// The currency of the first trade of `symbol` in the log (empty when the
/// log has no trade of it).
pub fn first_currency_of(t: &Transactions, symbol: &str) -> (r: String)
    ensures
        r@ == first_currency(t@, symbol@),
{
    let txs = t.as_slice();
    let ghost tv = t@;
    proof {
        t.lemma_view();
    }
    let key = String::from_str(symbol);
    let mut i: usize = 0;
    proof {
        assert(tv.subrange(0, tv.len() as int) =~= tv);
    }
    while i < txs.len()
        invariant
            0 <= i <= txs.len(),
            key@ == symbol@,
            tv == t@,
            tv.len() == txs@.len(),
            forall|j: int| 0 <= j < tv.len() ==> #[trigger] tv[j] == txs@[j]@,
            first_currency(tv, symbol@) == first_currency(tv.subrange(i as int, tv.len() as int), symbol@),
        decreases txs.len() - i,
    {
        proof {
            let rest = tv.subrange(i as int, tv.len() as int);
            assert(rest[0] == tv[i as int]);
            assert(rest.drop_first() =~= tv.subrange(i + 1, tv.len() as int));
            assert(tv[i as int] == txs@[i as int]@);
        }
        if txs[i].symbol == key {
            return txs[i].currency.clone();
        }
        i = i + 1;
    }
    proof {
        assert(tv.subrange(i as int, tv.len() as int).len() == 0);
    }
    String::new()
}

/// `e` values the holding `h` at a quote that `src` may answer for its
/// symbol: the symbol and quantity are the holding's, the value is quantity
/// times that quote's price, and the currency is that quote's.
pub open spec fn valued_by<Q: Quotes>(src: Q, e: PortfolioEntry, h: (Seq<char>, int)) -> bool {
    exists|q: Quote| #[trigger] src.answers(h.0, Ok(q)) && valued(e, h, q.price.parts(), q.currency@)
}

/// `src` may answer the holding's symbol with a quote at which the holding
/// can be valued (quantity times price fits a decimal).
pub open spec fn answered_ok<Q: Quotes>(src: Q, h: (Seq<char>, int)) -> bool {
    exists|q: Quote| #[trigger] src.answers(h.0, Ok(q)) && decimal_checked_mul(h.1, 0, q.price.parts().0, q.price.parts().1) is Some
}

/// Valuing the holding `h` may fail with `e`: `src` may answer its symbol
/// with the error `e`, or `e` is `ValueOverflow` and `src` may answer with a
/// quote at which quantity times price does not fit a decimal.
pub open spec fn fails_with<Q: Quotes>(src: Q, h: (Seq<char>, int), e: QuoteError) -> bool {
    ||| src.answers(h.0, Err(e))
    ||| (e == QuoteError::ValueOverflow && exists|q: Quote| #[trigger] src.answers(h.0, Ok(q))
        && decimal_checked_mul(h.1, 0, q.price.parts().0, q.price.parts().1) is None)
}

/// Valuing the holdings `hs` in order may stop with `e`: every holding
/// before some `i` can be valued, and holding `i` fails with `e`.
pub open spec fn valuation_fails_with<Q: Quotes>(src: Q, hs: Seq<(Seq<char>, int)>, e: QuoteError) -> bool {
    exists|i: int| 0 <= i < hs.len() && #[trigger] fails_with(src, hs[i], e)
        && forall|j: int| 0 <= j < i ==> answered_ok(src, #[trigger] hs[j])
}

/// Values `quantity` of `symbol` at `quote`; fails with `ValueOverflow` when
/// quantity times price does not fit a decimal.
pub fn value_entry(symbol: &String, quantity: i32, quote: &Quote) -> (r: Result<PortfolioEntry, QuoteError>)
    ensures
        r is Err <==> decimal_checked_mul(quantity as int, 0, quote.price.parts().0, quote.price.parts().1) is None,
        r matches Err(e) ==> e == QuoteError::ValueOverflow,
        r matches Ok(e) ==> valued(e, (symbol@, quantity as int), quote.price.parts(), quote.currency@),
        quantity == 0 ==> (r matches Ok(e) && e.value@ == decimal_display(0, 0)),
{
    let q = Amount::from_i32(quantity);
    match q.checked_mul(&quote.price) {
        None => Err(QuoteError::ValueOverflow),
        Some(v) => {
            let value = v.to_text();
            Ok(PortfolioEntry { symbol: symbol.clone(), quantity, value, currency: quote.currency.clone() })
        },
    }
}

/// Net holdings of a transaction log, with the quote source that values them.
pub struct Portfolio<Q: Quotes> {
    data: Vec<Holding>,
    quotes: Q,
}

impl<Q: Quotes> Portfolio<Q> {
    /// The net holdings, in the order of each symbol's first trade.
    pub closed spec fn holdings(self) -> Seq<(Seq<char>, int)> {
        holdings_view(self.data@)
    }

    /// The quote source.
    pub closed spec fn quote_source(self) -> Q {
        self.quotes
    }

    /// The portfolio of a transaction log: each traded symbol once, in the
    /// order of its first trade, with the sum of its trades' numbers.
    pub fn from_transactions_with_quotes(t: &Transactions, quotes: Q) -> (r: Portfolio<Q>)
        requires
            totals_fit(t@),
        ensures
            r.holdings() == net_holdings(t@),
            r.quote_source() == quotes,
    {
        let data = net_holdings_of(t).unwrap();
        Portfolio { data, quotes }
    }

    /// As `from_transactions_with_quotes`, or `None` when a running net
    /// quantity leaves the `i32` range.
    pub fn try_from_transactions_with_quotes(t: &Transactions, quotes: Q) -> (r: Option<Portfolio<Q>>)
        ensures
            r is Some <==> totals_fit(t@),
            r matches Some(p) ==> p.holdings() == net_holdings(t@) && p.quote_source() == quotes,
    {
        match net_holdings_of(t) {
            Some(data) => Some(Portfolio { data, quotes }),
            None => None,
        }
    }

    /// Number of holdings.
    pub fn len(&self) -> (r: usize)
        ensures
            r == self.holdings().len(),
    {
        self.data.len()
    }

    /// Values every holding, in order, at the quote that the quote source
    /// answers for its symbol; the first failing quote or value fails it all.
    /// With no holdings nothing is asked of the quote source, and the
    /// valuation is empty.
    pub fn valuation(&self) -> (r: Result<Vec<PortfolioEntry>, QuoteError>)
        ensures
            r matches Ok(v) ==> v@.len() == self.holdings().len(),
            r matches Ok(v) ==> forall|i: int| #![trigger v@[i]] 0 <= i < v@.len() ==> valued_by(self.quote_source(), v@[i], self.holdings()[i]),
            r matches Ok(v) ==> forall|i: int| #![trigger v@[i]] 0 <= i < v@.len() && self.holdings()[i].1 == 0
                ==> v@[i].value@ == decimal_display(0, 0),
            r matches Err(e) ==> valuation_fails_with(self.quote_source(), self.holdings(), e),
            self.holdings().len() == 0 ==> (r matches Ok(v) && v@.len() == 0),
    {
        let mut out: Vec<PortfolioEntry> = Vec::new();
        let mut i: usize = 0;
        while i < self.data.len()
            invariant
                0 <= i <= self.data.len(),
                out@.len() == i,
                forall|j: int| #![trigger out@[j]] 0 <= j < i ==> valued_by(self.quotes, out@[j], self.holdings()[j]),
                forall|j: int| #![trigger out@[j]] 0 <= j < i && self.holdings()[j].1 == 0 ==> out@[j].value@ == decimal_display(0, 0),
                forall|j: int| 0 <= j < i ==> answered_ok(self.quotes, #[trigger] self.holdings()[j]),
            decreases self.data.len() - i,
        {
            let h = &self.data[i];
            let answer = self.quotes.price(h.symbol.as_str());
            proof {
                assert(self.holdings()[i as int] == (h.symbol@, h.quantity as int));
                assert(self.quotes.answers(self.holdings()[i as int].0, answer));
            }
            let quote = match answer {
                Ok(q) => q,
                Err(e) => {
                    proof {
                        assert(fails_with(self.quotes, self.holdings()[i as int], e));
                    }
                    return Err(e);
                },
            };
            let e = match value_entry(&h.symbol, h.quantity, &quote) {
                Ok(e) => e,
                Err(e) => {
                    proof {
                        assert(fails_with(self.quotes, self.holdings()[i as int], e));
                    }
                    return Err(e);
                },
            };
            proof {
                assert(valued(e, self.holdings()[i as int], quote.price.parts(), quote.currency@));
                assert(answered_ok(self.quotes, self.holdings()[i as int]));
            }
            let ghost old_out = out@;
            out.push(e);
            proof {
                assert forall|j: int| #![trigger out@[j]] 0 <= j < i + 1 implies valued_by(self.quotes, out@[j], self.holdings()[j])
                    && (self.holdings()[j].1 == 0 ==> out@[j].value@ == decimal_display(0, 0)) by {
                    if j == i as int {
                        assert(valued(out@[j], self.holdings()[j], quote.price.parts(), quote.currency@));
                    } else {
                        assert(out@[j] == old_out[j]);
                    }
                }
            }
            i = i + 1;
        }
        proof {
            assert(self.holdings().len() == self.data@.len());
        }
        Ok(out)
    }
}

} // verus!
