//! The transaction log: one row per trade, read from semicolon-separated
//! text with a header row.
use vstd::prelude::*;

use crate::amount::csv_decimal_field;
use crate::amount::decode_decimal_field;
use crate::amount::Amount;
use crate::date::date_le;
use crate::date::Date;
use crate::records::csv_date_field;
use crate::records::csv_i32_field;
use crate::records::csv_records_until_error;
use crate::records::decode_date_field;
use crate::records::decode_i32_field;
use crate::records::read_records;
use crate::records::records_text;

verus! {

/// The field separator of the transaction log.
pub const SEMICOLON: u8 = 59u8;

/// One trade: `date;symbol;number;price;commission;currency`.
#[derive(Debug)]
pub struct MyTransaction {
    pub date: Date,
    pub symbol: String,
    pub number: i32,
    pub price: Amount,
    pub commission: Amount,
    pub currency: String,
}

/// The plain values of a trade.
pub ghost struct TxFields {
    pub date: (int, int, int),
    pub symbol: Seq<char>,
    pub number: int,
    pub price: (int, int),
    pub commission: (int, int),
    pub currency: Seq<char>,
}

impl View for MyTransaction {
    type V = TxFields;

    open spec fn view(&self) -> TxFields {
        TxFields {
            date: self.date.parts(),
            symbol: self.symbol@,
            number: self.number as int,
            price: self.price.parts(),
            commission: self.commission.parts(),
            currency: self.currency@,
        }
    }
}

/// Why a transaction log was refused.
#[derive(Debug, Clone, Copy, PartialEq, Eq, Structural)]
pub enum TransactionsError {
    /// The header row could not be read.
    ReadHeaders,
    /// The header row is not the expected one.
    InvalidHeaders,
    /// A data row could not be read or decoded.
    DeserializeRows,
}

/// The header row that `Transactions::try_from_reader` demands, in order.
pub open spec fn expected_headers() -> Seq<Seq<char>> {
    seq!["date"@, "symbol"@, "number"@, "price"@, "commission"@, "currency"@]
}

/// The header names, in field order, that `Transactions::from_reader` maps
/// by name.
pub open spec fn column_names() -> Seq<Seq<char>> {
    seq!["date"@, "symbol"@, "number"@, "price"@, "commision"@, "currency"@]
}

/// A row decoded with the fields taken from columns `cols` (date, symbol,
/// number, price, commission, currency), each as `csv` deserializes it.
pub open spec fn decode_row_at(row: Seq<Seq<char>>, cols: Seq<int>) -> Option<TxFields> {
    if cols.len() != 6 || exists|k: int| 0 <= k < 6 && !(0 <= #[trigger] cols[k] < row.len()) {
        None
    } else {
        match (csv_date_field(row[cols[0]]), csv_i32_field(row[cols[2]])) {
            (Some(d), Some(n)) => match (csv_decimal_field(row[cols[3]]), csv_decimal_field(row[cols[4]])) {
                (Some(p), Some(c)) => Some(TxFields {
                    date: d,
                    symbol: row[cols[1]],
                    number: n,
                    price: p,
                    commission: c,
                    currency: row[cols[5]],
                }),
                _ => None,
            },
            _ => None,
        }
    }
}

/// Columns 0 to 5, in order.
pub open spec fn positional_columns() -> Seq<int> {
    seq![0int, 1int, 2int, 3int, 4int, 5int]
}

/// The outcome of decoding every data row with the fields at `cols`, after
/// the reading stopped (`failed` when an error stopped it).
pub open spec fn rows_outcome(rows: Seq<Seq<Seq<char>>>, failed: bool, cols: Seq<int>) -> Result<Seq<TxFields>, TransactionsError> {
    if failed || exists|i: int| 0 <= i < rows.len() && (#[trigger] decode_row_at(rows[i], cols)) is None {
        Err(TransactionsError::DeserializeRows)
    } else {
        Ok(rows.map_values(|r: Seq<Seq<char>>| decode_row_at(r, cols).unwrap()))
    }
}

/// The first record, or the empty record when there is none.
pub open spec fn header_of(recs: Seq<Seq<Seq<char>>>) -> Seq<Seq<char>> {
    if recs.len() == 0 {
        Seq::empty()
    } else {
        recs[0]
    }
}

/// What `Transactions::try_from_reader` makes of the bytes `data`.
pub open spec fn try_from_reader_outcome(data: Seq<u8>) -> Result<Seq<TxFields>, TransactionsError> {
    let (recs, failed) = csv_records_until_error(data, SEMICOLON);
    if recs.len() == 0 && failed {
        Err(TransactionsError::ReadHeaders)
    } else if header_of(recs) != expected_headers() {
        Err(TransactionsError::InvalidHeaders)
    } else {
        rows_outcome(recs.drop_first(), failed, positional_columns())
    }
}

/// How many fields of `header` are `name`.
pub open spec fn count_name(header: Seq<Seq<char>>, name: Seq<char>) -> nat
    decreases header.len(),
{
    if header.len() == 0 {
        0
    } else {
        count_name(header.drop_last(), name) + (if header.last() == name { 1nat } else { 0nat })
    }
}

/// The position of `name` in `header` (meaningful where it occurs once).
pub open spec fn position_of(header: Seq<Seq<char>>, name: Seq<char>) -> int {
    choose|i: int| 0 <= i < header.len() && header[i] == name
}

/// Every name of `names` occurs exactly once in `header`.
pub open spec fn names_once(header: Seq<Seq<char>>, names: Seq<Seq<char>>) -> bool {
    forall|k: int| 0 <= k < names.len() ==> count_name(header, #[trigger] names[k]) == 1
}

/// What `Transactions::from_reader` makes of the bytes `data`: fields are
/// taken from the columns whose header names them; a data row where a name is
/// missing or doubled fails.
pub open spec fn from_reader_outcome(data: Seq<u8>) -> Result<Seq<TxFields>, TransactionsError> {
    let (recs, failed) = csv_records_until_error(data, SEMICOLON);
    if recs.len() == 0 {
        if failed {
            Err(TransactionsError::ReadHeaders)
        } else {
            Ok(Seq::empty())
        }
    } else if recs.len() > 1 && !names_once(recs[0], column_names()) {
        Err(TransactionsError::DeserializeRows)
    } else {
        rows_outcome(
            recs.drop_first(),
            failed,
            column_names().map_values(|n: Seq<char>| position_of(recs[0], n)),
        )
    }
}

/// The trades of `s` dated `d`, in order.
pub open spec fn dated(s: Seq<MyTransaction>, d: Date) -> Seq<MyTransaction>
    decreases s.len(),
{
    if s.len() == 0 {
        Seq::empty()
    } else if s.last().date == d {
        dated(s.drop_last(), d).push(s.last())
    } else {
        dated(s.drop_last(), d)
    }
}

/// The text of a record's fields.
pub open spec fn fields_text(rec: Seq<String>) -> Seq<Seq<char>> {
    rec.map_values(|f: String| f@)
}

/// Column positions as integers.
pub open spec fn cols_int(cols: Seq<usize>) -> Seq<int> {
    cols.map_values(|c: usize| c as int)
}

/// Two different positions holding `name` make it occur at least twice.
proof fn lemma_count_two(header: Seq<Seq<char>>, name: Seq<char>, i: int, j: int)
    requires
        0 <= i < header.len(),
        0 <= j < header.len(),
        i != j,
        header[i] == name,
        header[j] == name,
    ensures
        count_name(header, name) >= 2,
    decreases header.len(),
{
    let n = header.len() - 1;
    if i == n {
        lemma_count_one(header.drop_last(), name, j);
    } else if j == n {
        lemma_count_one(header.drop_last(), name, i);
    } else {
        lemma_count_two(header.drop_last(), name, i, j);
    }
}

/// A position holding `name` makes it occur at least once.
proof fn lemma_count_one(header: Seq<Seq<char>>, name: Seq<char>, i: int)
    requires
        0 <= i < header.len(),
        header[i] == name,
    ensures
        count_name(header, name) >= 1,
    decreases header.len(),
{
    if i < header.len() - 1 {
        lemma_count_one(header.drop_last(), name, i);
    }
}

/// The list of names as owned strings.
fn name_strings(by_name: bool) -> (r: Vec<String>)
    ensures
        fields_text(r@) == (if by_name { column_names() } else { expected_headers() }),
{
    let mut v: Vec<String> = Vec::new();
    v.push(String::from_str("date"));
    v.push(String::from_str("symbol"));
    v.push(String::from_str("number"));
    v.push(String::from_str("price"));
    if by_name {
        v.push(String::from_str("commision"));
    } else {
        v.push(String::from_str("commission"));
    }
    v.push(String::from_str("currency"));
    proof {
        assert(fields_text(v@) =~= (if by_name { column_names() } else { expected_headers() }));
    }
    v
}

/// `rec` is exactly the list of names `names`.
fn same_fields(rec: &Vec<String>, names: &Vec<String>) -> (r: bool)
    ensures
        r == (fields_text(rec@) == fields_text(names@)),
{
    if rec.len() != names.len() {
        proof {
            assert(fields_text(rec@).len() != fields_text(names@).len());
        }
        return false;
    }
    let mut i: usize = 0;
    while i < rec.len()
        invariant
            rec.len() == names.len(),
            0 <= i <= rec.len(),
            forall|j: int| 0 <= j < i ==> rec@[j]@ == names@[j]@,
        decreases rec.len() - i,
    {
        if rec[i] != names[i] {
            proof {
                assert(fields_text(rec@)[i as int] != fields_text(names@)[i as int]);
            }
            return false;
        }
        i = i + 1;
    }
    proof {
        assert(fields_text(rec@) =~= fields_text(names@));
    }
    true
}

/// The position of the only field of `header` that is `name`; `None` when
/// `name` is missing or doubled.
fn column_of(header: &Vec<String>, name: &String) -> (r: Option<usize>)
    ensures
        r is Some <==> count_name(fields_text(header@), name@) == 1,
        r matches Some(i) ==> i < header.len() && position_of(fields_text(header@), name@) == i,
{
    let ghost h = fields_text(header@);
    let mut count: usize = 0;
    let mut found: usize = 0;
    let mut k: usize = 0;
    while k < header.len()
        invariant
            0 <= k <= header.len(),
            h == fields_text(header@),
            count <= k,
            count == count_name(h.take(k as int), name@),
            count >= 1 ==> found < k && h[found as int] == name@,
        decreases header.len() - k,
    {
        proof {
            assert(h.take(k + 1).drop_last() =~= h.take(k as int));
        }
        if header[k] == *name {
            if count == 0 {
                found = k;
            }
            count = count + 1;
        }
        k = k + 1;
    }
    proof {
        assert(h.take(header.len() as int) =~= h);
    }
    if count == 1 {
        proof {
            let c = position_of(h, name@);
            assert(0 <= c < h.len() && h[c] == name@);
            if c != found as int {
                lemma_count_two(h, name@, c, found as int);
            }
        }
        Some(found)
    } else {
        None
    }
}

/// Decodes the fields at columns `cols` of one record; `None` where a column
/// is missing or a field does not decode.
fn decode_row(row: &Vec<String>, cols: &Vec<usize>) -> (r: Option<MyTransaction>)
    requires
        cols.len() == 6,
    ensures
        r matches Some(t) ==> decode_row_at(fields_text(row@), cols_int(cols@)) == Some(t@),
        r is None ==> decode_row_at(fields_text(row@), cols_int(cols@)) is None,
{
    let ghost rt = fields_text(row@);
    let ghost ci = cols_int(cols@);
    let mut k: usize = 0;
    while k < 6
        invariant
            0 <= k <= 6,
            cols.len() == 6,
            ci == cols_int(cols@),
            rt == fields_text(row@),
            forall|j: int| 0 <= j < k ==> 0 <= #[trigger] ci[j] < rt.len(),
        decreases 6 - k,
    {
        if cols[k] >= row.len() {
            proof {
                assert(!(0 <= ci[k as int] < rt.len()));
            }
            return None;
        }
        k = k + 1;
    }
    let d = decode_date_field(row[cols[0]].as_str());
    let n = decode_i32_field(row[cols[2]].as_str());
    let p = decode_decimal_field(row[cols[3]].as_str());
    let c = decode_decimal_field(row[cols[4]].as_str());
    match (d, n) {
        (Some(d), Some(n)) => match (p, c) {
            (Some(p), Some(c)) => {
                let t = MyTransaction {
                    date: d,
                    symbol: row[cols[1]].clone(),
                    number: n,
                    price: p,
                    commission: c,
                    currency: row[cols[5]].clone(),
                };
                Some(t)
            },
            _ => None,
        },
        _ => None,
    }
}

/// Decodes every record after the first with the fields at `cols`.
fn decode_rows(recs: &Vec<Vec<String>>, failed: bool, cols: &Vec<usize>) -> (r: Result<Vec<MyTransaction>, TransactionsError>)
    requires
        recs.len() >= 1,
        cols.len() == 6,
    ensures
        match r {
            Ok(v) => rows_outcome(records_text(recs@).drop_first(), failed, cols_int(cols@)) == Ok::<Seq<TxFields>, TransactionsError>(v@.map_values(|t: MyTransaction| t@)),
            Err(e) => rows_outcome(records_text(recs@).drop_first(), failed, cols_int(cols@)) == Err::<Seq<TxFields>, TransactionsError>(e),
        },
{
    let ghost rows = records_text(recs@).drop_first();
    let ghost ci = cols_int(cols@);
    if failed {
        return Err(TransactionsError::DeserializeRows);
    }
    let mut out: Vec<MyTransaction> = Vec::new();
    let mut i: usize = 1;
    while i < recs.len()
        invariant
            1 <= i <= recs.len(),
            cols.len() == 6,
            rows == records_text(recs@).drop_first(),
            ci == cols_int(cols@),
            out.len() == i - 1,
            forall|j: int| 0 <= j < i - 1 ==> decode_row_at(#[trigger] rows[j], ci) == Some(out@[j]@),
        decreases recs.len() - i,
    {
        assert(rows[i - 1] == fields_text(recs@[i as int]@));
        match decode_row(&recs[i], cols) {
            None => {
                assert(decode_row_at(rows[i - 1], ci) is None);
                return Err(TransactionsError::DeserializeRows);
            },
            Some(t) => {
                out.push(t);
            },
        }
        i = i + 1;
    }
    proof {
        assert(!exists|i: int| 0 <= i < rows.len() && (#[trigger] decode_row_at(rows[i], ci)) is None);
        assert(out@.map_values(|t: MyTransaction| t@) =~= rows.map_values(|r: Seq<Seq<char>>| decode_row_at(r, ci).unwrap()));
    }
    Ok(out)
}

/// The transaction log, in file order.
#[derive(Debug)]
pub struct Transactions {
    p: Vec<MyTransaction>,
}

impl View for Transactions {
    type V = Seq<TxFields>;

    closed spec fn view(&self) -> Seq<TxFields> {
        self.p@.map_values(|t: MyTransaction| t@)
    }
}

impl Transactions {
    /// The trades, in order.
    pub closed spec fn items(self) -> Seq<MyTransaction> {
        self.p@
    }

    /// The view is the trades' plain values.
    pub proof fn lemma_view(self)
        ensures
            self@.len() == self.items().len(),
            forall|i: int| 0 <= i < self@.len() ==> #[trigger] self@[i] == self.items()[i]@,
    {
    }

    /// An empty log.
    pub fn new() -> (r: Transactions)
        ensures
            r.items().len() == 0,
            r@.len() == 0,
    {
        Transactions { p: Vec::new() }
    }

    /// Reads a transaction log: a header row that is exactly
    /// `date;symbol;number;price;commission;currency`, then one trade per row.
    ///
    /// Fails when the header row cannot be read (`ReadHeaders`), when it is
    /// not the expected one (`InvalidHeaders`), or when a data row cannot be
    /// read or a field of it does not decode (`DeserializeRows`).
    pub fn try_from_reader(data: &[u8]) -> (r: Result<Transactions, TransactionsError>)
        ensures
            match r {
                Ok(t) => try_from_reader_outcome(data@) == Ok::<Seq<TxFields>, TransactionsError>(t@),
                Err(e) => try_from_reader_outcome(data@) == Err::<Seq<TxFields>, TransactionsError>(e),
            },
    {
        let (recs, failed) = read_records(data, SEMICOLON);
        let ghost rt = records_text(recs@);
        if recs.len() == 0 {
            if failed {
                return Err(TransactionsError::ReadHeaders);
            }
            proof {
                assert(header_of(rt).len() != expected_headers().len());
            }
            return Err(TransactionsError::InvalidHeaders);
        }
        let names = name_strings(false);
        proof {
            assert(header_of(rt) == fields_text(recs@[0]@));
        }
        if !same_fields(&recs[0], &names) {
            return Err(TransactionsError::InvalidHeaders);
        }
        let mut cols: Vec<usize> = Vec::new();
        cols.push(0);
        cols.push(1);
        cols.push(2);
        cols.push(3);
        cols.push(4);
        cols.push(5);
        proof {
            assert(cols_int(cols@) =~= positional_columns());
            assert(records_text(recs@).drop_first() =~= rt.drop_first());
        }
        match decode_rows(&recs, failed, &cols) {
            Ok(v) => {
                let t = Transactions { p: v };
                Ok(t)
            },
            Err(e) => Err(e),
        }
    }

    /// Reads a transaction log whose header row names the columns `date`,
    /// `symbol`, `number`, `price`, `commision` and `currency` in any order
    /// (other columns are ignored). A log without data rows is empty whatever
    /// its header; a data row fails when a name is missing or doubled.
    pub fn from_reader(data: &[u8]) -> (r: Result<Transactions, TransactionsError>)
        ensures
            match r {
                Ok(t) => from_reader_outcome(data@) == Ok::<Seq<TxFields>, TransactionsError>(t@),
                Err(e) => from_reader_outcome(data@) == Err::<Seq<TxFields>, TransactionsError>(e),
            },
    {
        let (recs, failed) = read_records(data, SEMICOLON);
        let ghost rt = records_text(recs@);
        if recs.len() == 0 {
            if failed {
                return Err(TransactionsError::ReadHeaders);
            }
            let t = Transactions::new();
            proof {
                assert(t@ =~= Seq::<TxFields>::empty());
            }
            return Ok(t);
        }
        let names = name_strings(true);
        let ghost header = fields_text(recs@[0]@);
        let ghost cols_spec = column_names().map_values(|n: Seq<char>| position_of(rt[0], n));
        assert(rt[0] == header);
        let mut cols: Vec<usize> = Vec::new();
        if recs.len() > 1 {
            let mut k: usize = 0;
            while k < 6
                invariant
                    0 <= k <= 6,
                    names.len() == 6,
                    fields_text(names@) == column_names(),
                    header == fields_text(recs@[0]@),
                    recs.len() > 1,
                    rt == records_text(recs@),
                    (rt, failed) == csv_records_until_error(data@, SEMICOLON),
                    rt[0] == header,
                    cols_spec == column_names().map_values(|n: Seq<char>| position_of(rt[0], n)),
                    cols.len() == k,
                    forall|j: int| 0 <= j < k ==> count_name(header, #[trigger] column_names()[j]) == 1,
                    forall|j: int| 0 <= j < k ==> cols_int(cols@)[j] == #[trigger] cols_spec[j],
                decreases 6 - k,
            {
                assert(fields_text(names@)[k as int] == names@[k as int]@);
                match column_of(&recs[0], &names[k]) {
                    None => {
                        proof {
                            assert(names@[k as int]@ == column_names()[k as int]);
                            assert(count_name(header, column_names()[k as int]) != 1);
                            assert(!names_once(header, column_names()));
                            assert(rt.len() == recs@.len());
                        }
                        return Err(TransactionsError::DeserializeRows);
                    },
                    Some(c) => {
                        let ghost old_cols = cols@;
                        cols.push(c);
                        proof {
                            assert(cols_spec[k as int] == position_of(header, column_names()[k as int]));
                            assert forall|j: int| 0 <= j < k + 1 implies cols_int(cols@)[j] == #[trigger] cols_spec[j] by {
                                if j < k {
                                    assert(cols@[j] == old_cols[j]);
                                    assert(cols_int(old_cols)[j] == cols_spec[j]);
                                }
                            }
                        }
                    },
                }
                k = k + 1;
            }
            proof {
                assert(names_once(header, column_names()));
                assert(cols_int(cols@) =~= cols_spec);
            }
        } else {
            let mut k: usize = 0;
            while k < 6
                invariant
                    0 <= k <= 6,
                    cols.len() == k,
                decreases 6 - k,
            {
                cols.push(0);
                k = k + 1;
            }
        }
        proof {
            assert(records_text(recs@).drop_first() =~= rt.drop_first());
        }
        match decode_rows(&recs, failed, &cols) {
            Ok(v) => {
                let t = Transactions { p: v };
                proof {
                    if recs.len() == 1 {
                        assert(rt.drop_first().len() == 0);
                        assert(t@ =~= rt.drop_first().map_values(|r: Seq<Seq<char>>| decode_row_at(r, cols_spec).unwrap()));
                    }
                }
                Ok(t)
            },
            Err(e) => Err(e),
        }
    }

    /// The trades in order, as a slice iterator.
    pub fn iter(&self) -> (r: std::slice::Iter<'_, MyTransaction>)
        ensures
            vstd::std_specs::iter::IteratorSpec::remaining(&r) == self.items().as_ref(),
    {
        broadcast use vstd::std_specs::slice::axiom_spec_slice_iter;
        self.p.as_slice().iter()
    }

    /// The trades in order, as a slice iterator (the same as `iter`).
    pub fn into_iter(&self) -> (r: std::slice::Iter<'_, MyTransaction>)
        ensures
            vstd::std_specs::iter::IteratorSpec::remaining(&r) == self.items().as_ref(),
    {
        self.iter()
    }

    /// The earliest trade date; `None` for an empty log.
    pub fn first_date(&self) -> (r: Option<&Date>)
        ensures
            r is None <==> self.items().len() == 0,
            r matches Some(d) ==> exists|i: int| 0 <= i < self.items().len() && self.items()[i].date == *d,
            r matches Some(d) ==> forall|i: int| 0 <= i < self.items().len() ==> date_le(*d, #[trigger] self.items()[i].date),
    {
        if self.p.len() == 0 {
            return None;
        }
        let mut best: usize = 0;
        let mut i: usize = 1;
        while i < self.p.len()
            invariant
                1 <= i <= self.p.len(),
                best < i,
                forall|j: int| 0 <= j < i ==> date_le(self.p@[best as int].date, #[trigger] self.p@[j].date),
            decreases self.p.len() - i,
        {
            if !self.p[best].date.le(&self.p[i].date) {
                best = i;
            }
            i = i + 1;
        }
        Some(&self.p[best].date)
    }

    /// The latest trade date; `None` for an empty log.
    pub fn last_date(&self) -> (r: Option<&Date>)
        ensures
            r is None <==> self.items().len() == 0,
            r matches Some(d) ==> exists|i: int| 0 <= i < self.items().len() && self.items()[i].date == *d,
            r matches Some(d) ==> forall|i: int| 0 <= i < self.items().len() ==> date_le(#[trigger] self.items()[i].date, *d),
    {
        if self.p.len() == 0 {
            return None;
        }
        let mut best: usize = 0;
        let mut i: usize = 1;
        while i < self.p.len()
            invariant
                1 <= i <= self.p.len(),
                best < i,
                forall|j: int| 0 <= j < i ==> date_le(#[trigger] self.p@[j].date, self.p@[best as int].date),
            decreases self.p.len() - i,
        {
            if self.p[best].date.le(&self.p[i].date) {
                best = i;
            }
            i = i + 1;
        }
        Some(&self.p[best].date)
    }

    /// The trades dated `d`, in order.
    pub fn trans_by_date<'a>(&'a self, d: &Date) -> (r: Vec<&'a MyTransaction>)
        ensures
            r@.map_values(|t: &MyTransaction| *t) == dated(self.items(), *d),
            r@.map_values(|t: &MyTransaction| *t) == self.items().filter(|t: MyTransaction| t.date == *d),
    {
        let mut out: Vec<&'a MyTransaction> = Vec::new();
        let mut i: usize = 0;
        while i < self.p.len()
            invariant
                0 <= i <= self.p.len(),
                out@.map_values(|t: &MyTransaction| *t) == dated(self.p@.take(i as int), *d),
            decreases self.p.len() - i,
        {
            proof {
                assert(self.p@.take(i + 1).drop_last() =~= self.p@.take(i as int));
            }
            if self.p[i].date == *d {
                out.push(&self.p[i]);
                proof {
                    assert(out@.map_values(|t: &MyTransaction| *t) =~= dated(self.p@.take(i as int), *d).push(self.p@[i as int]));
                }
            }
            i = i + 1;
        }
        proof {
            assert(self.p@.take(self.p.len() as int) =~= self.p@);
            crate::laws::law_dated_is_filter(self.p@, *d);
        }
        out
    }

    /// Number of trades.
    pub fn len(&self) -> (r: usize)
        ensures
            r == self.items().len(),
            r == self@.len(),
    {
        self.p.len()
    }

    /// No trades at all.
    pub fn is_empty(&self) -> (r: bool)
        ensures
            r == (self.items().len() == 0),
    {
        self.p.len() == 0
    }

    /// The trades as a slice, in order.
    pub fn as_slice(&self) -> (r: &[MyTransaction])
        ensures
            r@ == self.items(),
    {
        self.p.as_slice()
    }
}

impl Default for Transactions {
    fn default() -> (r: Transactions)
        ensures
            r.items().len() == 0,
    {
        Transactions::new()
    }
}

} // verus!
