use crate::date::{formatted_date, iso_date_format};
use crate::decimal::{amount_text, amount_to_text};
use crate::transaction::{views, Transaction, TransactionView};
use vstd::prelude::*;
use vstd::string::*;

verus! {

/// The bytes that the `csv` crate writes for the single record `record`,
/// its line end included, or nothing where it reports an error.
pub uninterp spec fn csv_record_bytes(record: Seq<Seq<char>>) -> Option<Seq<u8>>;

/// Calls `csv::Writer::write_record` with `record` on a writer into memory,
/// made by `csv::Writer::from_writer`, and takes the bytes back with
/// `csv::Writer::into_inner`. Nothing is claimed of the bytes but that they
/// depend on the fields alone.
#[verifier::external_body]
fn encode_csv_record(record: &Vec<String>) -> (r: Option<Vec<u8>>)
    ensures
        r.deep_view() == csv_record_bytes(record.deep_view()),
{
    let mut writer = csv::Writer::from_writer(Vec::new());
    writer.write_record(record).ok()?;
    writer.into_inner().ok()
}

/// The names of the columns of the detail table.
pub open spec fn detail_header() -> Seq<Seq<char>> {
    seq![
        "Sell Date"@,
        "USD Gain"@,
        "USD Loss"@,
        "EUR Gain"@,
        "EUR Loss"@,
        "EXR"@,
        "USD Proceeds"@,
        "EUR Proceeds"@,
    ]
}

/// The fields of the detail record of `t`, where `day` writes down the day
/// of its sale.
pub open spec fn detail_fields(t: TransactionView, day: Seq<char>) -> Seq<Seq<char>> {
    seq![
        day,
        amount_text(t.usd_gain as int),
        amount_text(t.usd_loss as int),
        amount_text(t.eur_gain as int),
        amount_text(t.eur_loss as int),
        amount_text(t.exr as int),
        amount_text(t.usd_proceeds as int),
        amount_text(t.eur_proceeds as int),
    ]
}

/// The detail record of `t`, where the day of its sale can be written
/// down.
pub open spec fn detail_record(t: TransactionView) -> Option<Seq<Seq<char>>> {
    match formatted_date(iso_date_format(), t.sell_date.year, t.sell_date.month, t.sell_date.day) {
        Some(day) => Some(detail_fields(t, day)),
        None => None,
    }
}

/// The detail table of `ts`: the header row, then one record for each
/// transaction, in order. Nothing where a day cannot be written down.
pub open spec fn detail_records(ts: Seq<TransactionView>) -> Option<Seq<Seq<Seq<char>>>>
    decreases ts.len(),
{
    if ts.len() == 0 {
        Some(seq![detail_header()])
    } else {
        match (detail_records(ts.drop_last()), detail_record(ts.last())) {
            (Some(records), Some(record)) => Some(records.push(record)),
            _ => None,
        }
    }
}

/// The bytes of `records` as CSV: the bytes of each record, one after the
/// other. Nothing where a record cannot be written.
pub open spec fn csv_bytes(records: Seq<Seq<Seq<char>>>) -> Option<Seq<u8>>
    decreases records.len(),
{
    if records.len() == 0 {
        Some(Seq::empty())
    } else {
        match (csv_bytes(records.drop_last()), csv_record_bytes(records.last())) {
            (Some(head), Some(line)) => Some(head + line),
            _ => None,
        }
    }
}

/// The detail table of `ts` as CSV.
pub open spec fn detail_csv(ts: Seq<TransactionView>) -> Option<Seq<u8>> {
    match detail_records(ts) {
        Some(records) => csv_bytes(records),
        None => None,
    }
}

/// The header row of the detail table.
pub fn detail_header_row() -> (r: Vec<String>)
    ensures
        r.deep_view() == detail_header(),
{
    let mut r: Vec<String> = Vec::new();
    r.push(String::from_str("Sell Date"));
    r.push(String::from_str("USD Gain"));
    r.push(String::from_str("USD Loss"));
    r.push(String::from_str("EUR Gain"));
    r.push(String::from_str("EUR Loss"));
    r.push(String::from_str("EXR"));
    r.push(String::from_str("USD Proceeds"));
    r.push(String::from_str("EUR Proceeds"));
    assert(r.deep_view() =~= detail_header());
    r
}

/// The detail record of `t`, where `day` writes down the day of its sale.
pub fn detail_row(t: &Transaction, day: String) -> (r: Vec<String>)
    ensures
        r.deep_view() == detail_fields(t@, day@),
{
    let ghost day_text = day@;
    let mut r: Vec<String> = Vec::new();
    r.push(day);
    r.push(amount_to_text(t.usd_gain() as i128));
    r.push(amount_to_text(t.usd_loss() as i128));
    r.push(amount_to_text(t.eur_gain() as i128));
    r.push(amount_to_text(t.eur_loss() as i128));
    r.push(amount_to_text(t.exr() as i128));
    r.push(amount_to_text(t.usd_proceeds() as i128));
    r.push(amount_to_text(t.eur_proceeds() as i128));
    assert(r.deep_view() =~= detail_fields(t@, day_text));
    r
}

/// The detail table of `transactions`: the header row, then one record for
/// each transaction, in order. `None` where a day cannot be written down.
pub fn detail_table(transactions: &[Transaction]) -> (r: Option<Vec<Vec<String>>>)
    ensures
        r.deep_view() == detail_records(views(transactions@)),
{
    let ghost ts = views(transactions@);
    let mut records: Vec<Vec<String>> = Vec::new();
    records.push(detail_header_row());
    assert(records.deep_view() =~= seq![detail_header()]);
    assert(ts.take(0).len() == 0);
    let mut i: usize = 0;
    while i < transactions.len()
        invariant
            i <= transactions.len(),
            ts == views(transactions@),
            detail_records(ts.take(i as int)) == Some(records.deep_view()),
        decreases transactions.len() - i,
    {
        let t = &transactions[i];
        proof {
            assert(ts.take(i as int + 1).drop_last() =~= ts.take(i as int));
            assert(ts.take(i as int + 1).last() == t@);
        }
        match t.sell_date().iso_text() {
            Some(day) => {
                let row = detail_row(t, day);
                let ghost before = records.deep_view();
                let ghost fields = row.deep_view();
                records.push(row);
                assert(records.deep_view() =~= before.push(fields));
            },
            None => {
                proof {
                    lemma_detail_stays_unwritten(ts, i as int + 1);
                }
                return None;
            },
        }
        i += 1;
    }
    assert(ts.take(i as int) =~= ts);
    Some(records)
}

/// Where the detail table of the first `count` transactions cannot be
/// written, that of all of them cannot be written.
pub proof fn lemma_detail_stays_unwritten(ts: Seq<TransactionView>, count: int)
    requires
        0 <= count <= ts.len(),
        detail_records(ts.take(count)) is None,
    ensures
        detail_records(ts) is None,
    decreases ts.len() - count,
{
    if count < ts.len() {
        assert(ts.take(count + 1).drop_last() =~= ts.take(count));
        lemma_detail_stays_unwritten(ts, count + 1);
    } else {
        assert(ts.take(count) =~= ts);
    }
}

/// Where the first `count` records cannot be written as CSV, all of them
/// cannot.
pub proof fn lemma_csv_stays_unwritten(records: Seq<Seq<Seq<char>>>, count: int)
    requires
        0 <= count <= records.len(),
        csv_bytes(records.take(count)) is None,
    ensures
        csv_bytes(records) is None,
    decreases records.len() - count,
{
    if count < records.len() {
        assert(records.take(count + 1).drop_last() =~= records.take(count));
        lemma_csv_stays_unwritten(records, count + 1);
    } else {
        assert(records.take(count) =~= records);
    }
}

/// Writes `records` as CSV, one record after the other. `None` where a
/// record cannot be written.
pub fn csv_encode(records: &Vec<Vec<String>>) -> (r: Option<Vec<u8>>)
    ensures
        r.deep_view() == csv_bytes(records.deep_view()),
{
    let ghost table = records.deep_view();
    let mut bytes: Vec<u8> = Vec::new();
    assert(table.take(0).len() == 0);
    let mut i: usize = 0;
    while i < records.len()
        invariant
            i <= records.len(),
            table == records.deep_view(),
            csv_bytes(table.take(i as int)) == Some(bytes@),
        decreases records.len() - i,
    {
        proof {
            assert(table.take(i as int + 1).drop_last() =~= table.take(i as int));
            assert(table.take(i as int + 1).last() == records@[i as int].deep_view());
        }
        match encode_csv_record(&records[i]) {
            Some(mut line) => {
                assert(line.deep_view() =~= line@);
                bytes.append(&mut line);
            },
            None => {
                proof {
                    lemma_csv_stays_unwritten(table, i as int + 1);
                }
                return None;
            },
        }
        i += 1;
    }
    assert(table.take(i as int) =~= table);
    assert(bytes.deep_view() =~= bytes@);
    Some(bytes)
}

/// Writes the detail of `transactions` as CSV: a header row, then for each
/// transaction, in order, the day of the sale as year, month and day, the
/// gain and the loss in USD, the gain and the loss in EUR, the exchange rate,
/// and the proceeds in USD and in EUR. `None` where a day or a record cannot
/// be written.
pub fn write_detail_as_csv(transactions: &[Transaction]) -> (r: Option<Vec<u8>>)
    ensures
        r.deep_view() == detail_csv(views(transactions@)),
{
    match detail_table(transactions) {
        Some(records) => csv_encode(&records),
        None => None,
    }
}

} // verus!
