//! Properties that hold across the library's operations.
use vstd::prelude::*;

use crate::clock::utc_stamp;
use crate::clock::zero_padded;
use crate::clock::UtcTime;
use crate::date::date_le;
use crate::date::Date;
use crate::hivepart::hive_segment;
use crate::paths::path_of_parts;
use crate::paths::path_pushed;
use crate::portfolio::default_quote;
use crate::portfolio::lemma_symbols_distinct;
use crate::portfolio::lemma_total_of_untraded;
use crate::portfolio::quoted;
use crate::portfolio::symbol_total;
use crate::portfolio::symbols_in_order;
use crate::service::after_upload;
use crate::stooq_download::stooq_path_spec;
use crate::service::upload_field_name;
use crate::service::upload_step;
use crate::service::Status;
use crate::service::UploadAction;
use crate::service::UploadEvent;
use crate::amount::csv_decimal_field;
use crate::records::csv_date_field;
use crate::records::csv_i32_field;
use crate::records::csv_records_until_error;
use crate::transactions::dated;
use crate::transactions::decode_row_at;
use crate::transactions::from_reader_outcome;
use crate::transactions::position_of;
use crate::transactions::SEMICOLON;
use crate::transactions::try_from_reader_outcome;
use crate::transactions::MyTransaction;
use crate::transactions::TxFields;

verus! {

/// `parts` joined with `/` between neighbours.
pub open spec fn joined(parts: Seq<Seq<char>>) -> Seq<char>
    decreases parts.len(),
{
    if parts.len() == 0 {
        Seq::empty()
    } else if parts.len() == 1 {
        parts[0]
    } else {
        joined(parts.drop_last()) + seq!['/'] + parts.last()
    }
}

/// A path part that neither starts nor ends with `/` and is not empty.
pub open spec fn plain_part(p: Seq<char>) -> bool {
    p.len() > 0 && p[0] != '/' && p.last() != '/'
}

/// Pushing plain parts onto an empty path joins them with `/`.
pub proof fn law_plain_parts_join(parts: Seq<Seq<char>>)
    requires
        forall|i: int| 0 <= i < parts.len() ==> plain_part(#[trigger] parts[i]),
    ensures
        path_of_parts(parts) == joined(parts),
        parts.len() > 0 ==> path_of_parts(parts).len() > 0 && path_of_parts(parts).last() != '/'
            && path_of_parts(parts)[0] != '/',
    decreases parts.len(),
{
    if parts.len() > 0 {
        let prev = parts.drop_last();
        assert forall|i: int| 0 <= i < prev.len() implies plain_part(#[trigger] prev[i]) by {
            assert(prev[i] == parts[i]);
        }
        law_plain_parts_join(prev);
        assert(plain_part(parts[parts.len() - 1]));
        if parts.len() == 1 {
            assert(path_of_parts(prev) == Seq::<char>::empty());
        } else {
            let j = joined(prev);
            let last = parts.last();
            assert((j + seq!['/'] + last).last() == last.last());
            assert((j + seq!['/'] + last)[0] == j[0]);
        }
    }
}

/// A hive path whose keys do not start with `/` and whose values do not end
/// with `/` is its `key=value` directories joined with `/` (e.g.
/// `foo=bar/baz=qux`).
pub proof fn law_hive_path_joins_segments(fields: Seq<(Seq<char>, Seq<char>)>)
    requires
        forall|i: int| 0 <= i < fields.len() ==> !((#[trigger] fields[i]).0.len() > 0 && fields[i].0[0] == '/'),
        forall|i: int| 0 <= i < fields.len() ==> !((#[trigger] fields[i]).1.len() > 0 && fields[i].1.last() == '/'),
    ensures
        path_of_parts(fields.map_values(|f: (Seq<char>, Seq<char>)| hive_segment(f)))
            == joined(fields.map_values(|f: (Seq<char>, Seq<char>)| hive_segment(f))),
{
    let segs = fields.map_values(|f: (Seq<char>, Seq<char>)| hive_segment(f));
    assert forall|i: int| 0 <= i < segs.len() implies plain_part(#[trigger] segs[i]) by {
        let f = fields[i];
        let s = hive_segment(f);
        assert(segs[i] == s);
        assert(s.len() > 0);
        if f.0.len() > 0 {
            assert(s[0] == f.0[0]);
        } else {
            assert(s[0] == '=');
        }
        if f.1.len() > 0 {
            assert(s.last() == f.1.last());
        } else {
            assert(s.last() == '=');
        }
    }
    law_plain_parts_join(segs);
}

/// Plain tag directories under a base directory that does not end with `/`
/// are the base, a `/`, and the tags joined with `/` (e.g.
/// `/a_folder/foo/bar/baz`).
pub proof fn law_tags_under_base(base: Seq<char>, tags: Seq<Seq<char>>)
    requires
        base.len() > 0,
        base.last() != '/',
        tags.len() > 0,
        forall|i: int| 0 <= i < tags.len() ==> plain_part(#[trigger] tags[i]),
    ensures
        path_pushed(base, path_of_parts(tags)) == base + seq!['/'] + joined(tags),
{
    law_plain_parts_join(tags);
}

/// Every traded symbol is held, and every held symbol was traded.
pub proof fn law_holdings_are_traded_symbols(txs: Seq<TxFields>, s: Seq<char>)
    ensures
        symbols_in_order(txs).contains(s) <==> exists|i: int| 0 <= i < txs.len() && (#[trigger] txs[i]).symbol == s,
    decreases txs.len(),
{
    if txs.len() > 0 {
        let prev = txs.drop_last();
        law_holdings_are_traded_symbols(prev, s);
        let cur = symbols_in_order(txs);
        let p = symbols_in_order(prev);
        if p.contains(s) {
            let w = choose|w: int| 0 <= w < p.len() && p[w] == s;
            assert(cur[w] == s);
            let i = choose|i: int| 0 <= i < prev.len() && (#[trigger] prev[i]).symbol == s;
            assert(txs[i] == prev[i]);
        } else if txs.last().symbol == s {
            assert(cur[p.len() as int] == s);
        } else {
            if cur.contains(s) {
                let w = choose|w: int| 0 <= w < cur.len() && cur[w] == s;
                assert(w < p.len());
                assert(p[w] == s);
            }
            if exists|i: int| 0 <= i < txs.len() && (#[trigger] txs[i]).symbol == s {
                let i = choose|i: int| 0 <= i < txs.len() && (#[trigger] txs[i]).symbol == s;
                assert(i < prev.len());
                assert(prev[i] == txs[i]);
            }
        }
    }
}

/// Each symbol is held once.
pub proof fn law_holdings_distinct(txs: Seq<TxFields>)
    ensures
        forall|a: int, b: int|
            0 <= a < b < symbols_in_order(txs).len() ==> symbols_in_order(txs)[a] != symbols_in_order(txs)[b],
{
    lemma_symbols_distinct(txs);
}

/// A symbol never traded has net quantity zero.
pub proof fn law_untraded_symbol_is_flat(txs: Seq<TxFields>, s: Seq<char>)
    requires
        forall|i: int| 0 <= i < txs.len() ==> (#[trigger] txs[i]).symbol != s,
    ensures
        symbol_total(txs, s) == 0,
{
    law_holdings_are_traded_symbols(txs, s);
    lemma_total_of_untraded(txs, s);
}

/// The net quantity over two logs one after the other is the sum of the net
/// quantities over each.
pub proof fn law_total_of_concatenation(a: Seq<TxFields>, b: Seq<TxFields>, s: Seq<char>)
    ensures
        symbol_total(a + b, s) == symbol_total(a, s) + symbol_total(b, s),
    decreases b.len(),
{
    if b.len() == 0 {
        assert(a + b =~= a);
    } else {
        law_total_of_concatenation(a, b.drop_last(), s);
        assert((a + b).drop_last() =~= a + b.drop_last());
        assert((a + b).last() == b.last());
    }
}

/// After storing a quote for a symbol, that symbol is quoted at it and every
/// other symbol is quoted as before.
pub proof fn law_quote_after_insert(
    table: Map<Seq<char>, ((int, int), Seq<char>)>,
    s: Seq<char>,
    q: ((int, int), Seq<char>),
    other: Seq<char>,
)
    ensures
        quoted(table.insert(s, q), s) == q,
        other != s ==> quoted(table.insert(s, q), other) == quoted(table, other),
{
}

/// A symbol with no stored quote is quoted at 1 USD.
pub proof fn law_unknown_symbol_default(table: Map<Seq<char>, ((int, int), Seq<char>)>, s: Seq<char>)
    requires
        !table.contains_key(s),
    ensures
        quoted(table, s) == default_quote(),
{
}

/// A log that reads holds one trade per data row, in file order.
pub proof fn law_one_trade_per_row(data: Seq<u8>)
    requires
        try_from_reader_outcome(data) is Ok,
    ensures
        ({
            let (recs, failed) = crate::records::csv_records_until_error(data, crate::transactions::SEMICOLON);
            &&& !failed
            &&& recs.len() >= 1
            &&& try_from_reader_outcome(data)->Ok_0.len() == recs.len() - 1
            &&& forall|i: int| 0 <= i < recs.len() - 1 ==> crate::transactions::decode_row_at(#[trigger] recs[i + 1], crate::transactions::positional_columns())
                == Some(try_from_reader_outcome(data)->Ok_0[i])
        }),
{
    let (recs, failed) = crate::records::csv_records_until_error(data, crate::transactions::SEMICOLON);
    if recs.len() == 0 {
        assert(crate::transactions::header_of(recs).len() == 0);
        assert(crate::transactions::expected_headers().len() == 6);
    }
    let rows = recs.drop_first();
    assert forall|i: int| 0 <= i < recs.len() - 1 implies crate::transactions::decode_row_at(#[trigger] recs[i + 1], crate::transactions::positional_columns())
        == Some(try_from_reader_outcome(data)->Ok_0[i]) by {
        assert(rows[i] == recs[i + 1]);
        assert(crate::transactions::decode_row_at(rows[i], crate::transactions::positional_columns()) is Some);
    }
}

/// The earliest date is on or before the latest date.
pub proof fn law_first_not_after_last(items: Seq<MyTransaction>, first: Date, last: Date)
    requires
        exists|i: int| 0 <= i < items.len() && items[i].date == last,
        forall|i: int| 0 <= i < items.len() ==> date_le(first, #[trigger] items[i].date),
    ensures
        date_le(first, last),
{
    let i = choose|i: int| 0 <= i < items.len() && items[i].date == last;
    assert(date_le(first, items[i].date));
}

/// The trades of a date all carry that date, and there are no more of them
/// than trades.
pub proof fn law_dated_trades(items: Seq<MyTransaction>, d: Date)
    ensures
        forall|i: int| 0 <= i < dated(items, d).len() ==> (#[trigger] dated(items, d)[i]).date == d,
        dated(items, d).len() <= items.len(),
    decreases items.len(),
{
    if items.len() > 0 {
        law_dated_trades(items.drop_last(), d);
        let prev = dated(items.drop_last(), d);
        if items.last().date == d {
            assert forall|i: int| 0 <= i < dated(items, d).len() implies (#[trigger] dated(items, d)[i]).date == d by {
                if i < prev.len() {
                    assert(dated(items, d)[i] == prev[i]);
                }
            }
        }
    }
}

/// An upload that reads replaces the stored log with it; one that does not
/// leaves the stored log as it was.
pub proof fn law_upload_replaces_or_keeps(before: Option<Seq<TxFields>>, data: Seq<u8>)
    ensures
        try_from_reader_outcome(data) is Ok ==> after_upload(before, data) == Some(try_from_reader_outcome(data)->Ok_0),
        try_from_reader_outcome(data) is Err ==> after_upload(before, data) == before,
{
}

/// During an upload, only a field named `transaction_log` is read; the
/// stored log changes only when an upload is answered with success, and then
/// it is the log read from that field's body; every other answer leaves the
/// stored log as it was.
pub proof fn law_upload_step(before: Option<Seq<TxFields>>, ev: UploadEvent)
    ensures
        upload_step(before, ev).1 == UploadAction::ReadBody <==> (ev matches UploadEvent::Field(Some(n)) && n@ == upload_field_name()),
        upload_step(before, ev).1 != UploadAction::Answer(Status::Success) ==> upload_step(before, ev).0 == before,
        upload_step(before, ev).1 == UploadAction::Answer(Status::Success) ==> (ev matches UploadEvent::Body(b)
            && try_from_reader_outcome(b@) is Ok && upload_step(before, ev).0 == Some(try_from_reader_outcome(b@)->Ok_0)),
{
}

/// A zero-padded number is `width` decimal digits.
proof fn lemma_zero_padded_digits(n: nat, width: nat)
    ensures
        zero_padded(n, width).len() == width,
        forall|i: int| 0 <= i < width ==> #[trigger] zero_padded(n, width)[i] != '/',
    decreases width,
{
    if width > 0 {
        lemma_zero_padded_digits(n / 10, (width - 1) as nat);
        let d: nat = (n % 10) + 48;
        assert(48 <= d < 58);
        assert((d as char) != '/') by {
            assert((d as char) as int == d);
        }
        let prev = zero_padded(n / 10, (width - 1) as nat);
        assert forall|i: int| 0 <= i < width implies #[trigger] zero_padded(n, width)[i] != '/' by {
            if i < width - 1 {
                assert(zero_padded(n, width)[i] == prev[i]);
            }
        }
    }
}

/// The dated path of a download made in a year from 0 to 9999, of a symbol
/// that neither starts nor ends with `/`, is its seven parts joined with `/`:
/// `raw/stooq/<symbol>/<YYYY>/<MM>/<DD>/<stamp>.csv`.
pub proof fn law_stooq_path_components(symbol: Seq<char>, t: UtcTime)
    requires
        plain_part(symbol),
        0 <= t.year <= 9999,
    ensures
        stooq_path_spec(
            symbol,
            zero_padded(t.year as nat, 4),
            zero_padded(t.month as nat, 2),
            zero_padded(t.day as nat, 2),
            utc_stamp(t),
        ) == joined(
            seq![
                "raw"@,
                "stooq"@,
                symbol,
                zero_padded(t.year as nat, 4),
                zero_padded(t.month as nat, 2),
                zero_padded(t.day as nat, 2),
                utc_stamp(t) + ".csv"@,
            ],
        ),
{
    reveal_strlit("raw");
    reveal_strlit("stooq");
    reveal_strlit(".csv");
    let y = zero_padded(t.year as nat, 4);
    let m = zero_padded(t.month as nat, 2);
    let d = zero_padded(t.day as nat, 2);
    lemma_zero_padded_digits(t.year as nat, 4);
    lemma_zero_padded_digits(t.month as nat, 2);
    lemma_zero_padded_digits(t.day as nat, 2);
    let file = utc_stamp(t) + ".csv"@;
    assert(file[0] == y[0]);
    assert(file.last() == 'v');
    assert(y[0] != '/' && y[3] != '/');
    assert(m[0] != '/' && m[1] != '/');
    assert(d[0] != '/' && d[1] != '/');
    let parts = seq!["raw"@, "stooq"@, symbol, y, m, d, file];
    assert forall|i: int| 0 <= i < parts.len() implies plain_part(#[trigger] parts[i]) by {
        if i == 3 {
            assert(parts[i] == y);
        } else if i == 4 {
            assert(parts[i] == m);
        } else if i == 5 {
            assert(parts[i] == d);
        } else if i == 6 {
            assert(parts[i] == file);
        }
    }
    law_plain_parts_join(parts);
}

/// Dates are ordered as the calendar orders them: an earlier year comes
/// first whatever the month and day; in the same year an earlier month comes
/// first whatever the day; in the same month the earlier day comes first. So
/// the earliest and latest trade dates are the chronological ones.
pub proof fn law_dates_in_calendar_order(a: Date, b: Date)
    ensures
        a.year < b.year ==> date_le(a, b) && !date_le(b, a),
        a.year == b.year && a.month < b.month ==> date_le(a, b) && !date_le(b, a),
        a.year == b.year && a.month == b.month ==> (date_le(a, b) <==> a.day <= b.day),
{
}

/// The date order is a total order: reflexive, antisymmetric, transitive
/// and total.
pub proof fn law_date_order_total(a: Date, b: Date, c: Date)
    ensures
        date_le(a, a),
        date_le(a, b) && date_le(b, a) ==> a == b,
        date_le(a, b) && date_le(b, c) ==> date_le(a, c),
        date_le(a, b) || date_le(b, a),
{
}

/// The trades of a date are exactly the log's trades with that date, in log
/// order: the log filtered by date.
pub proof fn law_dated_is_filter(items: Seq<MyTransaction>, d: Date)
    ensures
        dated(items, d) == items.filter(|t: MyTransaction| t.date == d),
    decreases items.len(),
{
    reveal(Seq::filter);
    if items.len() > 0 {
        law_dated_is_filter(items.drop_last(), d);
    }
}

/// No trade of the date is left out: every trade of the log dated `d` is
/// among the trades of `d`.
pub proof fn law_dated_complete(items: Seq<MyTransaction>, d: Date, i: int)
    requires
        0 <= i < items.len(),
        items[i].date == d,
    ensures
        dated(items, d).contains(items[i]),
{
    law_dated_is_filter(items, d);
    let pred = |t: MyTransaction| t.date == d;
    items.lemma_filter_contains(pred, i);
}

/// A log read by column names takes each field of a trade from the column
/// whose header names it: date from `date`, symbol from `symbol`, number from
/// `number`, price from `price`, commission from `commision`, currency from
/// `currency`; trade `i` comes from data row `i`.
pub proof fn law_from_reader_reads_by_header(data: Seq<u8>, i: int)
    requires
        from_reader_outcome(data) is Ok,
        0 <= i < from_reader_outcome(data)->Ok_0.len(),
    ensures
        ({
            let recs = csv_records_until_error(data, SEMICOLON).0;
            let h = recs[0];
            let row = recs[i + 1];
            let t = from_reader_outcome(data)->Ok_0[i];
            &&& i + 1 < recs.len()
            &&& csv_date_field(row[position_of(h, "date"@)]) == Some(t.date)
            &&& row[position_of(h, "symbol"@)] == t.symbol
            &&& csv_i32_field(row[position_of(h, "number"@)]) == Some(t.number)
            &&& csv_decimal_field(row[position_of(h, "price"@)]) == Some(t.price)
            &&& csv_decimal_field(row[position_of(h, "commision"@)]) == Some(t.commission)
            &&& row[position_of(h, "currency"@)] == t.currency
        }),
{
    let (recs, failed) = csv_records_until_error(data, SEMICOLON);
    assert(recs.len() > 0);
    let names = crate::transactions::column_names();
    let cols = names.map_values(|n: Seq<char>| position_of(recs[0], n));
    let rows = recs.drop_first();
    assert(rows[i] == recs[i + 1]);
    assert(decode_row_at(rows[i], cols) is Some);
    assert(decode_row_at(rows[i], cols) == Some(from_reader_outcome(data)->Ok_0[i]));
    assert(names[0] == "date"@ && names[1] == "symbol"@ && names[2] == "number"@);
    assert(names[3] == "price"@ && names[4] == "commision"@ && names[5] == "currency"@);
}

/// A log read with its fixed header takes each field of a trade from the
/// column whose header names it: date from `date`, symbol from `symbol`,
/// number from `number`, price from `price`, commission from `commission`,
/// currency from `currency`; trade `i` comes from data row `i`.
pub proof fn law_try_from_reader_reads_by_header(data: Seq<u8>, i: int)
    requires
        try_from_reader_outcome(data) is Ok,
        0 <= i < try_from_reader_outcome(data)->Ok_0.len(),
    ensures
        ({
            let recs = csv_records_until_error(data, SEMICOLON).0;
            let h = recs[0];
            let row = recs[i + 1];
            let t = try_from_reader_outcome(data)->Ok_0[i];
            &&& i + 1 < recs.len()
            &&& csv_date_field(row[position_of(h, "date"@)]) == Some(t.date)
            &&& row[position_of(h, "symbol"@)] == t.symbol
            &&& csv_i32_field(row[position_of(h, "number"@)]) == Some(t.number)
            &&& csv_decimal_field(row[position_of(h, "price"@)]) == Some(t.price)
            &&& csv_decimal_field(row[position_of(h, "commission"@)]) == Some(t.commission)
            &&& row[position_of(h, "currency"@)] == t.currency
        }),
{
    let (recs, failed) = csv_records_until_error(data, SEMICOLON);
    law_one_trade_per_row(data);
    let h = recs[0];
    assert(crate::transactions::header_of(recs) == h);
    let names = crate::transactions::expected_headers();
    assert(h == names);
    reveal_strlit("date");
    reveal_strlit("symbol");
    reveal_strlit("number");
    reveal_strlit("price");
    reveal_strlit("commission");
    reveal_strlit("currency");
    assert(h.len() == 6);
    assert forall|k: int, j: int| 0 <= k < 6 && 0 <= j < 6 && h[k] == h[j] implies k == j by {
        if k != j {
            if h[k].len() == h[j].len() {
                assert(h[k][0] != h[j][0]);
            }
        }
    }
    assert forall|k: int| 0 <= k < 6 implies position_of(h, #[trigger] h[k]) == k by {
        assert(0 <= k < h.len() && h[k] == h[k]);
        let c = position_of(h, h[k]);
        assert(0 <= c < h.len() && h[c] == h[k]);
    }
    assert(h[0] == "date"@ && h[1] == "symbol"@ && h[2] == "number"@);
    assert(h[3] == "price"@ && h[4] == "commission"@ && h[5] == "currency"@);
    assert(position_of(h, h[0]) == 0 && position_of(h, h[1]) == 1 && position_of(h, h[2]) == 2);
    assert(position_of(h, h[3]) == 3 && position_of(h, h[4]) == 4 && position_of(h, h[5]) == 5);
    let cols = crate::transactions::positional_columns();
    assert(decode_row_at(recs[i + 1], cols) == Some(try_from_reader_outcome(data)->Ok_0[i]));
}

} // verus!
