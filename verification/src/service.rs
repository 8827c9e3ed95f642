//! The decisions of the transaction web service: what an upload, a read of
//! the log and a read of the portfolio answer, and how the stored log
//! changes. Receiving requests and sending answers is left to the caller.
use vstd::prelude::*;

use crate::portfolio::net_holdings;
use crate::portfolio::totals_fit;
use crate::portfolio::QuoteError;
use crate::portfolio::valuation_fails_with;
use crate::portfolio::first_currency;
use crate::portfolio::first_currency_of;
use crate::portfolio::priced;
use crate::portfolio::priced_by;
use crate::portfolio::valued;
use crate::portfolio::valued_by;
use crate::portfolio::Quote;
use crate::portfolio::Portfolio;
use crate::portfolio::PortfolioEntry;
use crate::portfolio::Quotes;
use crate::transactions::try_from_reader_outcome;
use crate::transactions::Transactions;
use crate::transactions::TxFields;

verus! {

/// The answer's status.
#[derive(Debug, Clone, Copy, PartialEq, Eq, Structural)]
pub enum Status {
    /// 200
    Success,
    /// 400
    BadRequest,
    /// 404
    NotFound,
    /// 409
    Conflict,
    /// 500
    InternalServerError,
}

/// What the upload handler learns next from the multipart request.
pub enum UploadEvent {
    /// The next field, with its name if it has one.
    Field(Option<String>),
    /// The body of the field the handler was told to read.
    Body(Vec<u8>),
    /// Reading the body of that field failed.
    BodyFailed,
    /// The multipart request is malformed.
    StreamFailed,
    /// No field is left.
    End,
}

/// What the upload handler does next.
#[derive(Debug, Clone, Copy, PartialEq, Eq, Structural)]
pub enum UploadAction {
    /// Skip this field and read the next one.
    NextField,
    /// Read this field's body and report it.
    ReadBody,
    /// Answer the request with this status.
    Answer(Status),
}

/// The multipart field that carries the transaction log.
pub open spec fn upload_field_name() -> Seq<char> {
    "transaction_log"@
}

/// The `x-overwrite` header value that allows replacing a stored log.
pub open spec fn overwrite_confirmation() -> Seq<char> {
    "confirm"@
}

/// The stored log after an upload of `data` onto `before`: the log read from
/// `data` when it reads, else `before`.
pub open spec fn after_upload(before: Option<Seq<TxFields>>, data: Seq<u8>) -> Option<Seq<TxFields>> {
    match try_from_reader_outcome(data) {
        Ok(t) => Some(t),
        Err(_) => before,
    }
}

/// The stored log and the handler's next action after `ev`: the first field
/// named `transaction_log` is read; its body is stored when it reads (200)
/// and refused otherwise (400); a body that cannot be read answers 500, a
/// malformed request or one without such a field answers 400. Only a body
/// that reads changes the stored log.
pub open spec fn upload_step(before: Option<Seq<TxFields>>, ev: UploadEvent) -> (Option<Seq<TxFields>>, UploadAction) {
    match ev {
        UploadEvent::Field(name) => (
            before,
            if (name matches Some(n) && n@ == upload_field_name()) {
                UploadAction::ReadBody
            } else {
                UploadAction::NextField
            },
        ),
        UploadEvent::Body(bytes) => (
            after_upload(before, bytes@),
            UploadAction::Answer(
                if try_from_reader_outcome(bytes@) is Ok {
                    Status::Success
                } else {
                    Status::BadRequest
                },
            ),
        ),
        UploadEvent::BodyFailed => (before, UploadAction::Answer(Status::InternalServerError)),
        UploadEvent::StreamFailed => (before, UploadAction::Answer(Status::BadRequest)),
        UploadEvent::End => (before, UploadAction::Answer(Status::BadRequest)),
    }
}

/// The service's state: the uploaded transaction log, if any.
pub struct Store {
    transactions: Option<Transactions>,
}

impl Store {
    /// The stored log's trades, if a log is stored.
    pub closed spec fn contents(self) -> Option<Seq<TxFields>> {
        match self.transactions {
            Some(t) => Some(t@),
            None => None,
        }
    }

    /// Nothing stored.
    pub fn new() -> (r: Store)
        ensures
            r.contents() is None,
    {
        Store { transactions: None }
    }

    /// Whether an upload may go ahead: always when nothing is stored, else
    /// only with the `x-overwrite: confirm` header; otherwise `Conflict`.
    pub fn upload_permitted(&self, overwrite: Option<&str>) -> (r: Result<(), Status>)
        ensures
            r is Ok <==> (self.contents() is None || (overwrite matches Some(h) && h@ == overwrite_confirmation())),
            r matches Err(s) ==> s == Status::Conflict,
    {
        if self.transactions.is_none() {
            return Ok(());
        }
        match overwrite {
            Some(h) => {
                let given = String::from_str(h);
                let wanted = String::from_str("confirm");
                if given == wanted {
                    Ok(())
                } else {
                    Err(Status::Conflict)
                }
            },
            None => Err(Status::Conflict),
        }
    }

    /// Whether a multipart field of this name carries the transaction log.
    pub fn is_upload_field(name: Option<&str>) -> (r: bool)
        ensures
            r == (name matches Some(n) && n@ == upload_field_name()),
    {
        match name {
            Some(n) => String::from_str(n) == String::from_str("transaction_log"),
            None => false,
        }
    }

    /// Stores the log read from the uploaded `csv` (`Ok`); an unreadable log
    /// is refused (`BadRequest`) and the stored log stays as it was.
    pub fn accept_upload(&mut self, csv: &[u8]) -> (r: Status)
        ensures
            final(self).contents() == after_upload(old(self).contents(), csv@),
            r == (if try_from_reader_outcome(csv@) is Ok { Status::Success } else { Status::BadRequest }),
    {
        match Transactions::try_from_reader(csv) {
            Ok(t) => {
                self.transactions = Some(t);
                Status::Success
            },
            Err(_) => Status::BadRequest,
        }
    }

    /// Takes the next event of an upload (after `upload_permitted`) and says
    /// what the handler does next, storing the uploaded log when its body
    /// reads.
    pub fn on_upload_event(&mut self, ev: UploadEvent) -> (r: UploadAction)
        ensures
            (final(self).contents(), r) == upload_step(old(self).contents(), ev),
    {
        match ev {
            UploadEvent::Field(name) => {
                let chosen = match &name {
                    Some(n) => Store::is_upload_field(Some(n.as_str())),
                    None => Store::is_upload_field(None),
                };
                if chosen {
                    UploadAction::ReadBody
                } else {
                    UploadAction::NextField
                }
            },
            UploadEvent::Body(bytes) => UploadAction::Answer(self.accept_upload(bytes.as_slice())),
            UploadEvent::BodyFailed => UploadAction::Answer(Status::InternalServerError),
            UploadEvent::StreamFailed => UploadAction::Answer(Status::BadRequest),
            UploadEvent::End => UploadAction::Answer(Status::BadRequest),
        }
    }

    /// The stored log; `NotFound` when none is stored.
    pub fn transactions(&self) -> (r: Result<&Transactions, Status>)
        ensures
            r is Err <==> self.contents() is None,
            r matches Err(s) ==> s == Status::NotFound,
            r matches Ok(t) ==> self.contents() == Some(t@),
    {
        match &self.transactions {
            Some(t) => Ok(t),
            None => Err(Status::NotFound),
        }
    }

    /// The stored log's portfolio valued with `quotes`: each held symbol, its
    /// net quantity, its value (quantity times the price `quotes` answers for
    /// it) and the currency of its first trade in the log. `NotFound` exactly
    /// when no log is stored; `InternalServerError`, with nothing partial, when
    /// a net quantity leaves the `i32` range or a quote or value fails.
    pub fn portfolio<Q: Quotes>(&self, quotes: Q) -> (r: Result<Vec<PortfolioEntry>, Status>)
        ensures
            self.contents() is None <==> r == Err::<Vec<PortfolioEntry>, Status>(Status::NotFound),
            self.contents() matches Some(t) && !totals_fit(t) ==> r == Err::<Vec<PortfolioEntry>, Status>(Status::InternalServerError),
            self.contents() matches Some(t) && totals_fit(t) && net_holdings(t).len() == 0 ==> (r matches Ok(v) && v@.len() == 0),
            r matches Ok(v) ==> self.contents() matches Some(t) && v@.len() == net_holdings(t).len()
                && forall|i: int| #![trigger v@[i]] 0 <= i < v@.len() ==> priced_by(quotes, v@[i], net_holdings(t)[i])
                    && v@[i].currency@ == first_currency(t, net_holdings(t)[i].0),
            r matches Err(s) ==> s == Status::NotFound || s == Status::InternalServerError,
            r == Err::<Vec<PortfolioEntry>, Status>(Status::InternalServerError) ==> (self.contents() matches Some(t)
                && (!totals_fit(t) || exists|e: QuoteError| #[trigger] valuation_fails_with(quotes, net_holdings(t), e))),
    {
        let t = match &self.transactions {
            Some(t) => t,
            None => {
                return Err(Status::NotFound);
            },
        };
        let p = match Portfolio::try_from_transactions_with_quotes(t, quotes) {
            Some(p) => p,
            None => {
                return Err(Status::InternalServerError);
            },
        };
        let v = match p.valuation() {
            Ok(v) => v,
            Err(e) => {
                proof {
                    assert(valuation_fails_with(p.quote_source(), p.holdings(), e));
                }
                return Err(Status::InternalServerError);
            },
        };
        let ghost hs = p.holdings();
        let mut out: Vec<PortfolioEntry> = Vec::new();
        let mut i: usize = 0;
        while i < v.len()
            invariant
                0 <= i <= v.len(),
                v@.len() == hs.len(),
                hs == net_holdings(t@),
                forall|j: int| #![trigger v@[j]] 0 <= j < v@.len() ==> valued_by(quotes, v@[j], hs[j]),
                out@.len() == i,
                forall|j: int| #![trigger out@[j]] 0 <= j < i ==> priced_by(quotes, out@[j], hs[j])
                    && out@[j].currency@ == first_currency(t@, hs[j].0),
            decreases v.len() - i,
        {
            let e = &v[i];
            let currency = first_currency_of(t, e.symbol.as_str());
            let entry = PortfolioEntry {
                symbol: e.symbol.clone(),
                quantity: e.quantity,
                value: e.value.clone(),
                currency,
            };
            proof {
                assert(valued_by(quotes, v@[i as int], hs[i as int]));
                let q = choose|q: Quote| #[trigger] quotes.answers(hs[i as int].0, Ok(q))
                    && valued(v@[i as int], hs[i as int], q.price.parts(), q.currency@);
                assert(priced(entry, hs[i as int], q.price.parts()));
                assert(priced_by(quotes, entry, hs[i as int]));
            }
            let ghost old_out = out@;
            out.push(entry);
            proof {
                assert forall|j: int| #![trigger out@[j]] 0 <= j < i + 1 implies priced_by(quotes, out@[j], hs[j])
                    && out@[j].currency@ == first_currency(t@, hs[j].0) by {
                    if j < i {
                        assert(out@[j] == old_out[j]);
                    }
                }
            }
            i = i + 1;
        }
        Ok(out)
    }
}

} // verus!
