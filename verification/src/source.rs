//! The CSV source: its header line and its data rows, read with the `csv`
//! crate.

use vstd::prelude::*;

verus! {

/// The reader of the `csv` crate. Nothing is known of its inside; what it
/// reads from, and how far it has come, is named by `reader_source` and
/// `reader_taken`.
#[verifier::external_type_specification]
#[verifier::external_body]
#[verifier::reject_recursive_types(R)]
pub struct ExReader<R>(csv::Reader<R>);

/// The error of the `csv` crate, carried through unread.
#[verifier::external_type_specification]
#[verifier::external_body]
pub struct ExError(csv::Error);

/// What `csv::Reader::headers` gives for a reader over `contents` that
/// takes the first line as the header line: the fields of that line, or
/// `None` where it gives an error.
pub uninterp spec fn csv_header(contents: Seq<u8>) -> Option<Seq<Seq<char>>>;

/// What the iterator of `csv::Reader::records` yields, item by item, for a
/// reader over `contents` that takes the first line as the header line: the
/// fields of each data row, or `None` for an item that is an error.
pub uninterp spec fn csv_records(contents: Seq<u8>) -> Seq<Option<Seq<Seq<char>>>>;

/// The bytes that a reader reads from.
pub uninterp spec fn reader_source(reader: csv::Reader<&[u8]>) -> Seq<u8>;

/// The number of data rows that a reader has handed out.
pub uninterp spec fn reader_taken(reader: csv::Reader<&[u8]>) -> nat;

/// `csv::ReaderBuilder::from_reader`, on a builder with headers switched on
/// and every other setting left at its default: a reader over `contents`
/// that has handed out nothing yet.
#[verifier::external_body]
fn open_reader<'a>(contents: &'a [u8]) -> (reader: csv::Reader<&'a [u8]>)
    ensures
        reader_source(reader) == contents@,
        reader_taken(reader) == 0,
{
    csv::ReaderBuilder::new().has_headers(true).from_reader(contents)
}

/// `csv::Reader::headers`: the fields of the header line, or the crate's
/// error for it. The header line is no data row: reading it hands out none,
/// whether it is read before the first data row or after.
#[verifier::external_body]
fn read_headers(reader: &mut csv::Reader<&[u8]>) -> (headers: Result<Vec<String>, csv::Error>)
    ensures
        reader_source(*final(reader)) == reader_source(*old(reader)),
        reader_taken(*final(reader)) == reader_taken(*old(reader)),
        match headers {
            Ok(names) => csv_header(reader_source(*old(reader))) == Some(names.deep_view()),
            Err(_) => csv_header(reader_source(*old(reader))) is None,
        },
{
    match reader.headers() {
        Ok(record) => Ok(record.iter().map(String::from).collect()),
        Err(error) => Err(error),
    }
}

/// `next` on the iterator of `csv::Reader::records`: the next data row, or
/// `None` once the source is used up. A row that the crate gives as an
/// error counts as handed out, and the reader goes on behind it.
#[verifier::external_body]
fn next_record(reader: &mut csv::Reader<&[u8]>) -> (next: Option<Result<Vec<String>, csv::Error>>)
    ensures
        reader_source(*final(reader)) == reader_source(*old(reader)),
        match next {
            None => reader_taken(*old(reader)) >= csv_records(reader_source(*old(reader))).len()
                && reader_taken(*final(reader)) == reader_taken(*old(reader)),
            Some(row) => reader_taken(*old(reader)) < csv_records(
                reader_source(*old(reader)),
            ).len() && reader_taken(*final(reader)) == reader_taken(*old(reader)) + 1 && match row {
                Ok(fields) => csv_records(reader_source(*old(reader)))[reader_taken(
                    *old(reader),
                ) as int] == Some(fields.deep_view()),
                Err(_) => csv_records(reader_source(*old(reader)))[reader_taken(
                    *old(reader),
                ) as int] is None,
            },
        },
{
    match reader.records().next() {
        None => None,
        Some(Ok(record)) => Some(Ok(record.iter().map(String::from).collect())),
        Some(Err(error)) => Some(Err(error)),
    }
}

/// The text that `csv::Error` displays. Nothing is claimed of it.
#[verifier::external_body]
fn describe(error: &csv::Error) -> (text: String) {
    error.to_string()
}

/// A CSV source in memory: the names of its header line, and its data rows
/// in order. A row that could not be parsed is kept as the description of
/// what was wrong with it.
#[derive(Debug, Clone, PartialEq, Eq)]
pub struct CsvTable {
    pub headers: Vec<String>,
    pub rows: Vec<Result<Vec<String>, String>>,
}

/// A data row as texts: its fields, or the description of its error.
pub type RowView = Result<Seq<Seq<char>>, Seq<char>>;

/// A table as texts.
pub struct CsvTableView {
    pub headers: Seq<Seq<char>>,
    pub rows: Seq<RowView>,
}

/// A data row as texts.
pub open spec fn row_view(row: Result<Vec<String>, String>) -> RowView {
    match row {
        Ok(fields) => Ok(fields.deep_view()),
        Err(text) => Err(text@),
    }
}

/// Data rows as texts, in order.
pub open spec fn rows_view(rows: Seq<Result<Vec<String>, String>>) -> Seq<RowView> {
    Seq::new(rows.len(), |i: int| row_view(rows[i]))
}

impl View for CsvTable {
    type V = CsvTableView;

    open spec fn view(&self) -> CsvTableView {
        CsvTableView { headers: self.headers.deep_view(), rows: rows_view(self.rows@) }
    }
}

/// The fields of a data row, or `None` for a row that could not be parsed.
pub open spec fn row_fields(row: RowView) -> Option<Seq<Seq<char>>> {
    match row {
        Ok(fields) => Some(fields),
        Err(_) => None,
    }
}

/// The fields of each data row in order, `None` standing for a row that
/// could not be parsed.
pub open spec fn rows_fields(rows: Seq<RowView>) -> Seq<Option<Seq<Seq<char>>>> {
    Seq::new(rows.len(), |i: int| row_fields(rows[i]))
}

/// Whether `table` is what the `csv` crate reads from `contents`: the table
/// with that header line and those rows, or an error where the header line
/// cannot be read.
pub open spec fn is_table_of(table: Result<CsvTable, String>, contents: Seq<u8>) -> bool {
    match table {
        Ok(t) => csv_header(contents) == Some(t@.headers) && rows_fields(t@.rows) == csv_records(
            contents,
        ),
        Err(_) => csv_header(contents) is None,
    }
}

/// Parses a whole CSV source held in memory. The first line is the header
/// line; an error there is the error of the whole source. An error in a data
/// row is kept in that row's place, with its description, and the rows
/// behind it are still read.
pub fn read_table(contents: &[u8]) -> (table: Result<CsvTable, String>)
    ensures
        is_table_of(table, contents@),
{
    let mut reader = open_reader(contents);
    let headers = match read_headers(&mut reader) {
        Ok(names) => names,
        Err(error) => {
            return Err(describe(&error));
        },
    };
    let ghost records = csv_records(contents@);
    let mut rows: Vec<Result<Vec<String>, String>> = Vec::new();
    loop
        invariant
            records == csv_records(contents@),
            reader_source(reader) == contents@,
            reader_taken(reader) == rows.len(),
            rows.len() <= records.len(),
            forall|i: int| 0 <= i < rows.len() ==> row_fields(row_view(#[trigger] rows@[i])) == records[i],
        ensures
            rows.len() == records.len(),
        decreases records.len() - rows.len(),
    {
        let row = match next_record(&mut reader) {
            None => {
                break ;
            },
            Some(Ok(fields)) => Ok(fields),
            Some(Err(error)) => Err(describe(&error)),
        };
        rows.push(row);
    }
    assert(rows_fields(rows_view(rows@)) == records);
    Ok(CsvTable { headers, rows })
}

} // verus!
