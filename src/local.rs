use vstd::prelude::*;
use crate::bar::{DataSource, FetchError, MarketData};
use crate::decimal::{amount_text, format_amount, format_int, int_text, lemma_int_text_value, parse_int, parsed_int};
use crate::number::{lemma_stored_amount_text, read_stored_amount, stored_amount};
use crate::text::{joined, lower_of, same_text, to_lower};

verus! {

/// What the `csv` crate writes for one record: the fields, separated by
/// commas and quoted where needed, then a line end.
pub uninterp spec fn csv_record_bytes(fields: Seq<Seq<char>>) -> Seq<u8>;

/// What the `csv` crate reads from a text of records without a header row:
/// each record's fields, or `None` where the text is not well-formed.
pub uninterp spec fn csv_records_of(bytes: Seq<u8>) -> Option<Seq<Seq<Seq<char>>>>;

/// Relies on `csv::Writer::write_record` and `csv::Writer::into_inner` over a
/// `Vec<u8>`: the bytes of one record. On a fresh writer the field-count check
/// cannot fail, and writing into a `Vec<u8>` cannot fail either.
#[verifier::external_body]
fn csv_encode_record(fields: &Vec<String>) -> (r: Option<Vec<u8>>)
    ensures
        r is Some,
        r->Some_0@ == csv_record_bytes(fields.deep_view()),
{
    let mut w = csv::Writer::from_writer(Vec::new());
    if w.write_record(fields).is_err() {
        return None;
    }
    w.into_inner().ok()
}

/// The bytes that the `csv` crate writes for records one after the other.
pub open spec fn csv_join(recs: Seq<Seq<Seq<char>>>) -> Seq<u8>
    decreases recs.len(),
{
    if recs.len() == 0 {
        Seq::empty()
    } else {
        csv_join(recs.drop_last()) + csv_record_bytes(recs.last())
    }
}

/// Records whose text does not open with a UTF-8 byte-order mark: the
/// reader drops one at the start of its input, and the writer leaves a
/// first field that begins with U+FEFF unquoted.
pub open spec fn no_leading_bom(recs: Seq<Seq<Seq<char>>>) -> bool {
    recs.len() > 0 && recs[0].len() > 0 && recs[0][0].len() > 0 ==> recs[0][0][0] != '\u{FEFF}'
}

/// Records that all have the same, non-zero number of fields.
pub open spec fn same_width(recs: Seq<Seq<Seq<char>>>) -> bool {
    forall|i: int| 0 <= i < recs.len() ==> (#[trigger] recs[i]).len() == recs[0].len() && recs[0].len() > 0
}

/// Relies on `csv::ReaderBuilder` with `has_headers(false)` and
/// `csv::Reader::records`: every record of the text, each as its fields.
/// The reader's defaults (comma, double quote, doubled quotes inside quoted
/// fields, no comments, not flexible) undo what the writer's defaults do: it
/// quotes exactly the fields holding a comma, a quote, CR or LF, doubles the
/// quotes inside, and ends each record with LF. So text written for records of
/// one non-zero width reads back as those records, unless it opens with the
/// bytes of a byte-order mark, which the reader drops.
#[verifier::external_body]
fn csv_decode(bytes: &Vec<u8>) -> (r: Option<Vec<Vec<String>>>)
    ensures
        r.deep_view() == csv_records_of(bytes@),
        forall|recs: Seq<Seq<Seq<char>>>|
            #[trigger] csv_join(recs) == bytes@ && same_width(recs) && no_leading_bom(recs) ==> r.deep_view() == Some(recs),
{
    let mut rdr = csv::ReaderBuilder::new().has_headers(false).from_reader(bytes.as_slice());
    let mut out = Vec::new();
    for rec in rdr.records() {
        out.push(rec.ok()?.iter().map(String::from).collect());
    }
    Some(out)
}

/// One row of the flat file: a bar without its source. The timestamp is in
/// epoch seconds; prices and volume are amounts in units of 10^-8.
#[derive(Debug, Clone, PartialEq, Eq)]
pub struct LocalMarketData {
    pub symbol: String,
    pub timestamp: i64,
    pub open: u64,
    pub high: u64,
    pub low: u64,
    pub close: u64,
    pub volume: u64,
}

/// The column names of the flat file, in order.
pub open spec fn header_fields() -> Seq<Seq<char>> {
    seq!["symbol"@, "timestamp"@, "open"@, "high"@, "low"@, "close"@, "volume"@]
}

/// The fields of one row as the file holds them.
pub open spec fn record_fields(r: LocalMarketData) -> Seq<Seq<char>> {
    seq![
        r.symbol@,
        int_text(r.timestamp as int),
        amount_text(r.open as nat),
        amount_text(r.high as nat),
        amount_text(r.low as nat),
        amount_text(r.close as nat),
        amount_text(r.volume as nat),
    ]
}

/// Whether seven fields read as one row.
pub open spec fn fields_readable(f: Seq<Seq<char>>) -> bool {
    &&& f.len() == 7
    &&& parsed_int(f[1]) is Some
    &&& stored_amount(f[2]) is Some
    &&& stored_amount(f[3]) is Some
    &&& stored_amount(f[4]) is Some
    &&& stored_amount(f[5]) is Some
    &&& stored_amount(f[6]) is Some
}

/// `r` is the row that the fields `f` spell.
pub open spec fn fields_spell(f: Seq<Seq<char>>, r: LocalMarketData) -> bool {
    &&& f.len() == 7
    &&& r.symbol@ == f[0]
    &&& parsed_int(f[1]) == Some(r.timestamp)
    &&& stored_amount(f[2]) == Some(r.open)
    &&& stored_amount(f[3]) == Some(r.high)
    &&& stored_amount(f[4]) == Some(r.low)
    &&& stored_amount(f[5]) == Some(r.close)
    &&& stored_amount(f[6]) == Some(r.volume)
}

/// The bar that a stored row stands for.
pub open spec fn bar_of(r: LocalMarketData, b: MarketData) -> bool {
    &&& b.symbol@ == r.symbol@
    &&& b.timestamp == r.timestamp
    &&& b.open == r.open
    &&& b.high == r.high
    &&& b.low == r.low
    &&& b.close == r.close
    &&& b.volume == r.volume
    &&& b.source == DataSource::Local
}

/// Whether a time lies in the window given by optional bounds, both inclusive.
pub open spec fn in_window(t: i64, start: Option<i64>, end: Option<i64>) -> bool {
    (start matches Some(s) ==> t >= s) && (end matches Some(e) ==> t <= e)
}

/// The rows whose time lies in the window, in their order.
pub open spec fn rows_in_window(rows: Seq<LocalMarketData>, start: Option<i64>, end: Option<i64>) -> Seq<LocalMarketData>
    decreases rows.len(),
{
    if rows.len() == 0 {
        Seq::empty()
    } else {
        let before = rows_in_window(rows.drop_last(), start, end);
        if in_window(rows.last().timestamp, start, end) {
            before.push(rows.last())
        } else {
            before
        }
    }
}

/// The bytes of a whole file: the header row, then each row in order.
pub open spec fn file_bytes(rows: Seq<LocalMarketData>) -> Seq<u8>
    decreases rows.len(),
{
    if rows.len() == 0 {
        csv_record_bytes(header_fields())
    } else {
        file_bytes(rows.drop_last()) + csv_record_bytes(record_fields(rows.last()))
    }
}

/// The records of a file of `rows`: the header, then each row's fields.
pub open spec fn file_records(rows: Seq<LocalMarketData>) -> Seq<Seq<Seq<char>>> {
    seq![header_fields()] + Seq::new(rows.len(), |i: int| record_fields(rows[i]))
}

/// Two rows hold the same symbol, time, prices and volume.
pub open spec fn same_row(a: LocalMarketData, b: LocalMarketData) -> bool {
    &&& a.symbol@ == b.symbol@
    &&& a.timestamp == b.timestamp
    &&& a.open == b.open
    &&& a.high == b.high
    &&& a.low == b.low
    &&& a.close == b.close
    &&& a.volume == b.volume
}

pub open spec fn same_rows(a: Seq<LocalMarketData>, b: Seq<LocalMarketData>) -> bool {
    &&& a.len() == b.len()
    &&& forall|i: int| 0 <= i < a.len() ==> same_row(#[trigger] a[i], b[i])
}

/// The bytes of a file of `rows` are the writer's bytes of its records.
pub proof fn lemma_file_bytes_join(rows: Seq<LocalMarketData>)
    ensures
        file_bytes(rows) == csv_join(file_records(rows)),
    decreases rows.len(),
{
    if rows.len() == 0 {
        let recs = file_records(rows);
        assert(recs.drop_last() =~= Seq::<Seq<Seq<char>>>::empty());
        assert(csv_join(Seq::<Seq<Seq<char>>>::empty()) == Seq::<u8>::empty());
        assert(Seq::<u8>::empty() + csv_record_bytes(header_fields()) =~= csv_record_bytes(header_fields()));
    } else {
        lemma_file_bytes_join(rows.drop_last());
        assert(file_records(rows).drop_last() =~= file_records(rows.drop_last()));
        assert(file_records(rows).last() == record_fields(rows.last()));
    }
}

/// A row's fields, read back, spell the row again.
pub proof fn lemma_record_round_trip(r: LocalMarketData)
    ensures
        fields_readable(record_fields(r)),
        fields_spell(record_fields(r), r),
{
    lemma_int_text_value(r.timestamp);
    lemma_stored_amount_text(r.open);
    lemma_stored_amount_text(r.high);
    lemma_stored_amount_text(r.low);
    lemma_stored_amount_text(r.close);
    lemma_stored_amount_text(r.volume);
}

/// The fields of one row as the file holds them.
pub fn record_to_fields(r: &LocalMarketData) -> (f: Vec<String>)
    ensures
        f.deep_view() == record_fields(*r),
{
    let mut f: Vec<String> = Vec::new();
    f.push(String::from_str(r.symbol.as_str()));
    f.push(format_int(r.timestamp));
    f.push(format_amount(r.open));
    f.push(format_amount(r.high));
    f.push(format_amount(r.low));
    f.push(format_amount(r.close));
    f.push(format_amount(r.volume));
    assert(f.deep_view() =~= record_fields(*r));
    f
}

/// The row that seven fields spell, if they spell one.
pub fn record_from_fields(f: &Vec<String>) -> (r: Option<LocalMarketData>)
    ensures
        r is Some <==> fields_readable(f.deep_view()),
        r matches Some(rec) ==> fields_spell(f.deep_view(), rec),
{
    if f.len() != 7 {
        return None;
    }
    let ghost d = f.deep_view();
    assert(d[1] == f@[1]@ && d[2] == f@[2]@ && d[3] == f@[3]@ && d[4] == f@[4]@);
    assert(d[5] == f@[5]@ && d[6] == f@[6]@ && d[0] == f@[0]@);
    let timestamp = match parse_int(f[1].as_str()) {
        Some(v) => v,
        None => return None,
    };
    let open = match read_stored_amount(f[2].as_str()) {
        Some(v) => v,
        None => return None,
    };
    let high = match read_stored_amount(f[3].as_str()) {
        Some(v) => v,
        None => return None,
    };
    let low = match read_stored_amount(f[4].as_str()) {
        Some(v) => v,
        None => return None,
    };
    let close = match read_stored_amount(f[5].as_str()) {
        Some(v) => v,
        None => return None,
    };
    let volume = match read_stored_amount(f[6].as_str()) {
        Some(v) => v,
        None => return None,
    };
    Some(LocalMarketData { symbol: String::from_str(f[0].as_str()), timestamp, open, high, low, close, volume })
}

/// Whether a record holds exactly the column names.
fn is_header(f: &Vec<String>) -> (r: bool)
    ensures
        r == (f.deep_view() == header_fields()),
{
    if f.len() != 7 {
        assert(f.deep_view().len() != header_fields().len());
        return false;
    }
    let ok = same_text(f[0].as_str(), "symbol") && same_text(f[1].as_str(), "timestamp") && same_text(
        f[2].as_str(),
        "open",
    ) && same_text(f[3].as_str(), "high") && same_text(f[4].as_str(), "low") && same_text(
        f[5].as_str(),
        "close",
    ) && same_text(f[6].as_str(), "volume");
    if ok {
        assert(f.deep_view() =~= header_fields());
    } else {
        assert(f.deep_view() != header_fields()) by {
            if f.deep_view() == header_fields() {
                assert(f.deep_view()[0] == f@[0]@);
                assert(f.deep_view()[1] == f@[1]@);
                assert(f.deep_view()[2] == f@[2]@);
                assert(f.deep_view()[3] == f@[3]@);
                assert(f.deep_view()[4] == f@[4]@);
                assert(f.deep_view()[5] == f@[5]@);
                assert(f.deep_view()[6] == f@[6]@);
            }
        }
    }
    ok
}

/// The bar that a stored row stands for.
pub fn convert_to_market_data(r: LocalMarketData) -> (b: MarketData)
    ensures
        bar_of(r, b),
{
    MarketData {
        symbol: r.symbol,
        timestamp: r.timestamp,
        open: r.open,
        high: r.high,
        low: r.low,
        close: r.close,
        volume: r.volume,
        source: DataSource::Local,
    }
}

/// The provider over flat files, one per symbol, under a data directory.
pub struct LocalDataProvider {
    pub data_dir: String,
}

impl LocalDataProvider {
    pub fn new(data_dir: &str) -> (r: LocalDataProvider)
        ensures
            r.data_dir@ == data_dir@,
    {
        LocalDataProvider { data_dir: String::from_str(data_dir) }
    }

    /// Where the rows of `symbol` are kept: `{data_dir}/{symbol in lower case}.csv`.
    pub fn get_file_path(&self, symbol: &str) -> (r: String)
        ensures
            r@ == self.data_dir@ + "/"@ + lower_of(symbol@) + ".csv"@,
    {
        let mut p = joined(self.data_dir.as_str(), "/");
        let lower = to_lower(symbol);
        p.append(lower.as_str());
        p.append(".csv");
        p
    }

    /// The bytes of a file holding `rows`: the header row, then each row.
    pub fn encode_rows(rows: &Vec<LocalMarketData>) -> (r: Result<Vec<u8>, FetchError>)
        ensures
            r matches Ok(b) && b@ == file_bytes(rows@),
    {
        let mut header: Vec<String> = Vec::new();
        header.push(String::from_str("symbol"));
        header.push(String::from_str("timestamp"));
        header.push(String::from_str("open"));
        header.push(String::from_str("high"));
        header.push(String::from_str("low"));
        header.push(String::from_str("close"));
        header.push(String::from_str("volume"));
        assert(header.deep_view() =~= header_fields());
        let mut out = match csv_encode_record(&header) {
            Some(b) => b,
            None => return Err(FetchError::LocalStorageError(String::from_str("could not write the header"))),
        };
        let mut i: usize = 0;
        while i < rows.len()
            invariant
                i <= rows@.len(),
                out@ == file_bytes(rows@.take(i as int)),
            decreases rows@.len() - i,
        {
            let f = record_to_fields(&rows[i]);
            let mut b = match csv_encode_record(&f) {
                Some(b) => b,
                None => return Err(FetchError::LocalStorageError(String::from_str("could not write a row"))),
            };
            out.append(&mut b);
            proof {
                assert(rows@.take(i + 1).drop_last() =~= rows@.take(i as int));
            }
            i = i + 1;
        }
        assert(rows@.take(i as int) =~= rows@);
        Ok(out)
    }

    /// The rows of a file: a header row, then rows that all read. A text that
    /// is not well-formed, a missing header or a row that does not read fails
    /// the whole read.
    fn decode_rows_checked(bytes: &Vec<u8>) -> (r: Result<Vec<LocalMarketData>, FetchError>)
        ensures
            forall|recs: Seq<Seq<Seq<char>>>|
                #[trigger] csv_join(recs) == bytes@ && same_width(recs) && no_leading_bom(recs) ==> csv_records_of(bytes@) == Some(recs),
            r matches Ok(rows) ==> {
                &&& csv_records_of(bytes@) matches Some(recs)
                &&& recs.len() == rows@.len() + 1
                &&& recs[0] == header_fields()
                &&& forall|i: int| 0 <= i < rows@.len() ==> fields_spell(recs[i + 1], #[trigger] rows@[i])
            },
            r is Err ==> r matches Err(FetchError::LocalStorageError(_)),
            (csv_records_of(bytes@) matches Some(recs) && recs.len() > 0 && recs[0] == header_fields()
                && forall|i: int| 1 <= i < recs.len() ==> fields_readable(#[trigger] recs[i])) ==> r is Ok,
    {
        let recs = match csv_decode(bytes) {
            Some(recs) => recs,
            None => return Err(FetchError::LocalStorageError(String::from_str("not a well-formed file"))),
        };
        let ghost dv = recs.deep_view();
        if recs.len() == 0 || !is_header(&recs[0]) {
            assert(recs.len() > 0 ==> dv[0] == recs@[0].deep_view());
            return Err(FetchError::LocalStorageError(String::from_str("missing header row")));
        }
        assert(dv[0] == recs@[0].deep_view());
        let mut rows: Vec<LocalMarketData> = Vec::new();
        let mut i: usize = 1;
        while i < recs.len()
            invariant
                1 <= i <= recs@.len(),
                dv == recs.deep_view(),
                csv_records_of(bytes@) == Some(dv),
                forall|recs: Seq<Seq<Seq<char>>>|
                    #[trigger] csv_join(recs) == bytes@ && same_width(recs) && no_leading_bom(recs) ==> csv_records_of(bytes@) == Some(recs),
                rows@.len() == i - 1,
                forall|k: int| 0 <= k < rows@.len() ==> fields_spell(dv[k + 1], #[trigger] rows@[k]),
            decreases recs@.len() - i,
        {
            assert(dv[i as int] == recs@[i as int].deep_view());
            match record_from_fields(&recs[i]) {
                Some(row) => rows.push(row),
                None => {
                    assert(!fields_readable(dv[i as int]));
                    return Err(FetchError::LocalStorageError(String::from_str("a row does not read")));
                },
            }
            i = i + 1;
        }
        Ok(rows)
    }

    /// The rows of a file: a header row, then rows that all read. A text that
    /// is not well-formed, a missing header or a row that does not read fails
    /// the whole read. The bytes written for some rows read back as those rows.
    pub fn decode_rows(bytes: &Vec<u8>) -> (r: Result<Vec<LocalMarketData>, FetchError>)
        ensures
            r matches Ok(rows) ==> {
                &&& csv_records_of(bytes@) matches Some(recs)
                &&& recs.len() == rows@.len() + 1
                &&& recs[0] == header_fields()
                &&& forall|i: int| 0 <= i < rows@.len() ==> fields_spell(recs[i + 1], #[trigger] rows@[i])
            },
            r is Err ==> r matches Err(FetchError::LocalStorageError(_)),
            (csv_records_of(bytes@) matches Some(recs) && recs.len() > 0 && recs[0] == header_fields()
                && forall|i: int| 1 <= i < recs.len() ==> fields_readable(#[trigger] recs[i])) ==> r is Ok,
            forall|rows: Seq<LocalMarketData>|
                #[trigger] file_bytes(rows) == bytes@ ==> (r matches Ok(out) && same_rows(out@, rows)),
    {
        let r = Self::decode_rows_checked(bytes);
        proof {
            assert forall|rows: Seq<LocalMarketData>| #[trigger] file_bytes(rows) == bytes@ implies (r matches Ok(
                out,
            ) && same_rows(out@, rows)) by {
                lemma_file_bytes_join(rows);
                let recs = file_records(rows);
                assert(same_width(recs));
                assert(no_leading_bom(recs)) by {
                    reveal_strlit("symbol");
                    assert(recs[0] == header_fields());
                }
                assert(csv_join(recs) == bytes@);
                assert(csv_records_of(bytes@) == Some(recs));
                assert forall|i: int| 1 <= i < recs.len() implies fields_readable(#[trigger] recs[i]) by {
                    lemma_record_round_trip(rows[i - 1]);
                }
                assert(recs[0] == header_fields());
                let out = r->Ok_0;
                assert forall|i: int| 0 <= i < rows.len() implies same_row(#[trigger] out@[i], rows[i]) by {
                    assert(recs[i + 1] == record_fields(rows[i]));
                    assert(fields_spell(recs[i + 1], out@[i]));
                    lemma_record_round_trip(rows[i]);
                }
            }
        }
        r
    }

    /// The bars of the stored rows whose time lies in the window, in their
    /// order; with no bounds, every row.
    pub fn history_from_rows(rows: Vec<LocalMarketData>, start: Option<i64>, end: Option<i64>) -> (r: Vec<MarketData>)
        ensures
            r@.len() == rows_in_window(rows@, start, end).len(),
            forall|i: int| 0 <= i < r@.len() ==> bar_of(rows_in_window(rows@, start, end)[i], #[trigger] r@[i]),
    {
        let ghost all = rows@;
        let n = rows.len();
        let mut rest = rows;
        let mut out: Vec<MarketData> = Vec::new();
        let mut k: usize = 0;
        while rest.len() > 0
            invariant
                all.len() == n,
                k + rest@.len() == n,
                rest@ == all.skip(k as int),
                out@.len() == rows_in_window(all.take(k as int), start, end).len(),
                forall|i: int|
                    0 <= i < out@.len() ==> bar_of(rows_in_window(all.take(k as int), start, end)[i], #[trigger] out@[i]),
            decreases rest@.len(),
        {
            let row = rest.remove(0);
            proof {
                assert(all.take(k + 1).drop_last() =~= all.take(k as int));
                assert(all.take(k + 1).last() == all[k as int]);
                assert(rest@ =~= all.skip(k + 1));
            }
            let keep = match start {
                Some(s) => row.timestamp >= s,
                None => true,
            } && match end {
                Some(e) => row.timestamp <= e,
                None => true,
            };
            if keep {
                out.push(convert_to_market_data(row));
            }
            k = k + 1;
        }
        assert(all.take(k as int) =~= all);
        out
    }

    /// The bar of the last stored row; a file with no rows has no latest bar.
    pub fn latest_from_rows(rows: Vec<LocalMarketData>) -> (r: Result<MarketData, FetchError>)
        ensures
            rows@.len() == 0 ==> r matches Err(FetchError::NotFound(_)),
            rows@.len() > 0 ==> (r matches Ok(b) && bar_of(rows@.last(), b)),
    {
        let mut rows = rows;
        match rows.pop() {
            Some(row) => Ok(convert_to_market_data(row)),
            None => Err(FetchError::NotFound(String::from_str("no data available"))),
        }
    }
}

/// With no time bounds every stored row is kept, in order.
pub proof fn lemma_no_window_keeps_all(rows: Seq<LocalMarketData>)
    ensures
        rows_in_window(rows, None, None) == rows,
    decreases rows.len(),
{
    if rows.len() > 0 {
        lemma_no_window_keeps_all(rows.drop_last());
        assert(rows.drop_last().push(rows.last()) =~= rows);
    }
}

} // verus!
