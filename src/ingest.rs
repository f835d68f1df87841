use vstd::prelude::*;

use crate::record::{dataset_view, fields_view, Record, DELIMITER, REC_SIZE};

verus! {

/// What the CSV reader yields for `text` when it reads headerless rows of
/// varying width whose fields are separated by `delimiter`: one item per row,
/// in order, holding the row's fields or the text of the reader's error.
pub uninterp spec fn csv_rows_of(text: Seq<u8>, delimiter: u8) -> Seq<Result<Seq<Seq<char>>, Seq<char>>>;

/// A row as the reader yields it, with its strings as character sequences.
pub open spec fn row_view(row: Result<Vec<String>, String>) -> Result<Seq<Seq<char>>, Seq<char>> {
    match row {
        Ok(fields) => Ok(fields_view(fields@)),
        Err(cause) => Err(cause@),
    }
}

pub open spec fn rows_view(rows: Seq<Result<Vec<String>, String>>) -> Seq<Result<Seq<Seq<char>>, Seq<char>>> {
    rows.map_values(|row: Result<Vec<String>, String>| row_view(row))
}

/// Relies on `csv::ReaderBuilder` (with the given delimiter, `flexible(true)`
/// and `has_headers(false)`) and `csv::Reader::records`: every item that the
/// reader yields for `text`, with each record's fields as strings and each
/// error as its display text.
#[verifier::external_body]
fn read_csv_rows(text: &[u8], delimiter: u8) -> (r: Vec<Result<Vec<String>, String>>)
    ensures
        rows_view(r@) == csv_rows_of(text@, delimiter),
{
    csv::ReaderBuilder::new()
        .delimiter(delimiter)
        .flexible(true)
        .has_headers(false)
        .from_reader(text)
        .records()
        .map(|row| row.map(|rec| rec.iter().map(String::from).collect()).map_err(|e| e.to_string()))
        .collect()
}

/// Why a table could not be ingested.
#[derive(Debug, PartialEq, Eq)]
pub enum IngestError {
    /// The reader could not read a row: the table's path and the reader's
    /// description of the fault.
    Parse { path: String, cause: String },
    /// A row holds `actual` fields where `expected` are required.
    Validation { expected: usize, actual: usize },
}

/// A row is accepted when it was read and holds exactly `REC_SIZE` fields.
pub open spec fn row_accepted(row: Result<Seq<Seq<char>>, Seq<char>>) -> bool {
    &&& row is Ok
    &&& row->Ok_0.len() == REC_SIZE
}

/// The number of leading rows that are accepted, up to the first one that is not.
pub open spec fn accepted_count(rows: Seq<Result<Seq<Seq<char>>, Seq<char>>>) -> nat
    decreases rows.len(),
{
    if rows.len() == 0 {
        0
    } else if row_accepted(rows[0]) {
        1 + accepted_count(rows.drop_first())
    } else {
        0
    }
}

/// The records that ingesting `rows` appends: the fields of each leading
/// accepted row, in order.
pub open spec fn appended_records(rows: Seq<Result<Seq<Seq<char>>, Seq<char>>>) -> Seq<Seq<Seq<char>>> {
    read_fields(rows.take(accepted_count(rows) as int))
}

/// The fields of each of `rows`, which were all read.
pub open spec fn read_fields(rows: Seq<Result<Seq<Seq<char>>, Seq<char>>>) -> Seq<Seq<Seq<char>>> {
    rows.map_values(|row: Result<Seq<Seq<char>>, Seq<char>>| row->Ok_0)
}

/// `e` is the error reported for the rejected `row` of the table at `path`.
pub open spec fn rejection(path: Seq<char>, row: Result<Seq<Seq<char>>, Seq<char>>, e: IngestError) -> bool {
    match row {
        Ok(fields) => e matches IngestError::Validation { expected, actual } && expected == REC_SIZE
            && actual == fields.len(),
        Err(cause) => e matches IngestError::Parse { path: p, cause: c } && p@ == path && c@ == cause,
    }
}

/// The result of ingesting `rows` of the table at `path`: success when every
/// row is accepted, else the error for the first row that is not.
pub open spec fn ingest_result(
    path: Seq<char>,
    rows: Seq<Result<Seq<Seq<char>>, Seq<char>>>,
    r: Result<(), IngestError>,
) -> bool {
    let k = accepted_count(rows);
    if k == rows.len() {
        r is Ok
    } else {
        r matches Err(e) && rejection(path, rows[k as int], e)
    }
}

proof fn lemma_accepted_count(rows: Seq<Result<Seq<Seq<char>>, Seq<char>>>, i: int)
    requires
        0 <= i <= rows.len(),
        forall|j: int| 0 <= j < i ==> row_accepted(#[trigger] rows[j]),
        i == rows.len() || !row_accepted(rows[i]),
    ensures
        accepted_count(rows) == i,
    decreases i,
{
    if i > 0 {
        let rest = rows.drop_first();
        assert forall|j: int| 0 <= j < i - 1 implies row_accepted(#[trigger] rest[j]) by {
            assert(rest[j] == rows[j + 1]);
        }
        if i < rows.len() {
            assert(rest[i - 1] == rows[i]);
        }
        lemma_accepted_count(rest, i - 1);
    }
}

/// Appends to `dataset`, in order, the rows read from the table at `path`,
/// up to the first row that could not be read or does not hold `REC_SIZE`
/// fields; that row ends the work with its error, and the rows appended
/// before it stay in `dataset`.
pub fn ingest_rows(path: &str, rows: &Vec<Result<Vec<String>, String>>, dataset: &mut Vec<Record>) -> (r: Result<(), IngestError>)
    ensures
        dataset_view(final(dataset)@) == dataset_view(old(dataset)@) + appended_records(rows_view(rows@)),
        ingest_result(path@, rows_view(rows@), r),
{
    let ghost rv = rows_view(rows@);
    let ghost start = dataset_view(dataset@);
    let mut i: usize = 0;
    while i < rows.len()
        invariant
            0 <= i <= rows.len(),
            rv == rows_view(rows@),
            start == dataset_view(old(dataset)@),
            forall|j: int| 0 <= j < i ==> row_accepted(#[trigger] rv[j]),
            dataset_view(dataset@) == start + read_fields(rv.take(i as int)),
        decreases rows.len() - i,
    {
        match &rows[i] {
            Ok(fields) => {
                if fields.len() != REC_SIZE {
                    proof {
                        assert(rv[i as int] == row_view(rows@[i as int]));
                        lemma_accepted_count(rv, i as int);
                        assert(appended_records(rv) == read_fields(rv.take(i as int)));
                    }
                    return Err(IngestError::Validation { expected: REC_SIZE, actual: fields.len() });
                }
                let copy = fields.clone();
                assert(copy@ =~= fields@);
                match Record::new(copy) {
                    Some(rec) => {
                        let ghost before = dataset@;
                        dataset.push(rec);
                        proof {
                            assert(dataset@ == before.push(rec));
                            assert(dataset_view(dataset@) =~= dataset_view(before).push(rec@));
                            assert(rv.take(i + 1) =~= rv.take(i as int).push(rv[i as int]));
                            assert(read_fields(rv.take(i + 1)) =~= read_fields(rv.take(i as int)).push(
                                rv[i as int]->Ok_0,
                            ));
                        }
                    },
                    None => {
                        return Err(IngestError::Validation { expected: REC_SIZE, actual: fields.len() });
                    },
                }
            },
            Err(cause) => {
                proof {
                    assert(rv[i as int] == row_view(rows@[i as int]));
                    lemma_accepted_count(rv, i as int);
                    assert(appended_records(rv) == read_fields(rv.take(i as int)));
                }
                return Err(IngestError::Parse { path: path.to_string(), cause: cause.clone() });
            },
        }
        i = i + 1;
    }
    proof {
        lemma_accepted_count(rv, i as int);
        assert(rv.take(i as int) =~= rv);
    }
    Ok(())
}

/// Appends to `dataset` the rows of the table whose bytes are `text`, read
/// from `path`, as `ingest_rows` does with the rows that the CSV reader
/// yields for `text` with the `DELIMITER` separator.
pub fn append_csv_table_from_bytes(path: &str, text: &[u8], dataset: &mut Vec<Record>) -> (r: Result<(), IngestError>)
    ensures
        dataset_view(final(dataset)@) == dataset_view(old(dataset)@) + appended_records(
            csv_rows_of(text@, DELIMITER),
        ),
        ingest_result(path@, csv_rows_of(text@, DELIMITER), r),
{
    let rows = read_csv_rows(text, DELIMITER);
    ingest_rows(path, &rows, dataset)
}

/// When every row was read and holds `REC_SIZE` fields, ingesting succeeds
/// and appends one record per row, in order, each with exactly the row's
/// fields.
pub proof fn lemma_valid_rows_all_appended(path: Seq<char>, rows: Seq<Result<Seq<Seq<char>>, Seq<char>>>)
    requires
        forall|j: int| 0 <= j < rows.len() ==> row_accepted(#[trigger] rows[j]),
    ensures
        appended_records(rows).len() == rows.len(),
        forall|j: int| 0 <= j < rows.len() ==> #[trigger] appended_records(rows)[j] == rows[j]->Ok_0,
        forall|r: Result<(), IngestError>| ingest_result(path, rows, r) <==> r is Ok,
{
    lemma_accepted_count(rows, rows.len() as int);
    assert(rows.take(rows.len() as int) =~= rows);
}

/// A row that does not hold `REC_SIZE` fields makes ingesting fail, and no
/// row from it on is appended; when every row before it was accepted, the
/// error is a validation error with the expected and the actual width.
pub proof fn lemma_wrong_width_stops(path: Seq<char>, rows: Seq<Result<Seq<Seq<char>>, Seq<char>>>, i: int)
    requires
        0 <= i < rows.len(),
        rows[i] is Ok,
        rows[i]->Ok_0.len() != REC_SIZE,
    ensures
        accepted_count(rows) <= i,
        appended_records(rows).len() <= i,
        forall|r: Result<(), IngestError>| ingest_result(path, rows, r) ==> r is Err,
        (forall|j: int| 0 <= j < i ==> row_accepted(#[trigger] rows[j])) ==> {
            &&& appended_records(rows) == read_fields(rows.take(i))
            &&& forall|r: Result<(), IngestError>| #[trigger] ingest_result(path, rows, r) ==> (r matches Err(
                IngestError::Validation { expected, actual },
            ) && expected == REC_SIZE && actual == rows[i]->Ok_0.len())
        },
    decreases i,
{
    if i > 0 && row_accepted(rows[0]) {
        let rest = rows.drop_first();
        assert(rest[i - 1] == rows[i]);
        lemma_wrong_width_stops(path, rest, i - 1);
    }
    if forall|j: int| 0 <= j < i ==> row_accepted(#[trigger] rows[j]) {
        lemma_accepted_count(rows, i);
    }
}

} // verus!
