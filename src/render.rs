use vstd::prelude::*;
use vstd::string::StringExecFns;

use crate::record::{dataset_view, fields_view, Record, DELIMITER, REC_SIZE};

verus! {

/// How the last field of each written line ends.
#[derive(Clone, Copy, Debug, PartialEq, Eq, Structural)]
pub enum LineEnding {
    /// Lines end with the bare line feed of the CSV writer.
    Lf,
    /// A carriage return is added to the last field of every line, so that
    /// each line ends with a carriage return and a line feed.
    Crlf,
}

/// `fields` joined by `delimiter`.
pub open spec fn joined(fields: Seq<Seq<char>>, delimiter: char) -> Seq<char>
    decreases fields.len(),
{
    if fields.len() == 0 {
        seq![]
    } else if fields.len() == 1 {
        fields[0]
    } else {
        joined(fields.drop_last(), delimiter) + seq![delimiter] + fields.last()
    }
}

/// One written line: the fields joined by `delimiter`, unquoted, then a line feed.
pub open spec fn csv_line(fields: Seq<Seq<char>>, delimiter: char) -> Seq<char> {
    joined(fields, delimiter) + seq!['\n']
}

/// Relies on `csv::WriterBuilder` (with the given delimiter and
/// `QuoteStyle::Never`) and `csv::Writer::write_record`: a record of two or
/// more fields is written as its fields, unquoted, joined by the delimiter and
/// followed by the default line-feed terminator. Writing into a `Vec<u8>`
/// cannot fail, and the bytes are UTF-8 since the delimiter is ASCII.
#[verifier::external_body]
fn write_csv_line(fields: &Vec<String>, delimiter: u8) -> (r: String)
    requires
        fields@.len() > 1,
        delimiter < 128,
    ensures
        r@ == csv_line(fields_view(fields@), delimiter as char),
{
    let mut wtr = csv::WriterBuilder::new()
        .delimiter(delimiter)
        .quote_style(csv::QuoteStyle::Never)
        .from_writer(Vec::new());
    let _ = wtr.write_record(fields);
    String::from_utf8(wtr.into_inner().unwrap_or_default()).unwrap_or_default()
}

/// The names of the columns, written as the first line of every table.
pub open spec fn header_fields() -> Seq<Seq<char>> {
    seq!["Data"@, "Descrição"@, "Categoria"@, "Valor"@, "Situação"@, "Informações adicionais"@]
}

/// `fields` as written under `ending`: with `Crlf` a carriage return is added
/// to the last field.
pub open spec fn with_ending(fields: Seq<Seq<char>>, ending: LineEnding) -> Seq<Seq<char>> {
    match ending {
        LineEnding::Lf => fields,
        LineEnding::Crlf => fields.update(fields.len() - 1, fields.last() + seq!['\r']),
    }
}

/// The lines written for `records`, in order.
pub open spec fn record_lines(records: Seq<Seq<Seq<char>>>, ending: LineEnding) -> Seq<char>
    decreases records.len(),
{
    if records.len() == 0 {
        seq![]
    } else {
        record_lines(records.drop_last(), ending) + csv_line(
            with_ending(records.last(), ending),
            DELIMITER as char,
        )
    }
}

/// The whole table written for `records`: the header line, then one line per record.
pub open spec fn csv_table(records: Seq<Seq<Seq<char>>>, ending: LineEnding) -> Seq<char> {
    csv_line(with_ending(header_fields(), ending), DELIMITER as char) + record_lines(records, ending)
}

/// The column names, in order.
pub fn header() -> (r: Vec<String>)
    ensures
        fields_view(r@) == header_fields(),
        r@.len() == REC_SIZE,
{
    let r = vec![
        String::from_str("Data"),
        String::from_str("Descrição"),
        String::from_str("Categoria"),
        String::from_str("Valor"),
        String::from_str("Situação"),
        String::from_str("Informações adicionais"),
    ];
    assert(fields_view(r@) =~= header_fields());
    r
}

/// `fields` with the carriage return that `ending` asks for added to the last one.
pub fn apply_line_ending(fields: Vec<String>, ending: LineEnding) -> (r: Vec<String>)
    requires
        fields@.len() > 0,
    ensures
        fields_view(r@) == with_ending(fields_view(fields@), ending),
        r@.len() == fields@.len(),
{
    match ending {
        LineEnding::Lf => fields,
        LineEnding::Crlf => {
            let mut fields = fields;
            let last = fields.len() - 1;
            let patched = fields[last].clone().concat("\r");
            proof {
                reveal_strlit("\r");
            }
            assert(patched@ == fields@[last as int]@ + seq!['\r']);
            let ghost before = fields@;
            fields.set(last, patched);
            assert(fields_view(fields@) =~= with_ending(fields_view(before), ending));
            fields
        },
    }
}

/// The text of the table that holds `dataset`: the header line, then one
/// line per record in order, each of them the fields joined by `DELIMITER`
/// without quoting, with `ending` applied to the last field.
pub fn write_dataset_to_csv_text(dataset: &Vec<Record>, ending: LineEnding) -> (r: String)
    ensures
        r@ == csv_table(dataset_view(dataset@), ending),
{
    let ghost records = dataset_view(dataset@);
    let head = apply_line_ending(header(), ending);
    let mut out = write_csv_line(&head, DELIMITER);
    let mut i: usize = 0;
    while i < dataset.len()
        invariant
            0 <= i <= dataset@.len(),
            records == dataset_view(dataset@),
            out@ == csv_line(with_ending(header_fields(), ending), DELIMITER as char) + record_lines(
                records.take(i as int),
                ending,
            ),
        decreases dataset@.len() - i,
    {
        let own = dataset[i].fields();
        let fields = own.clone();
        assert(fields@ =~= own@);
        assert(dataset_view(dataset@)[i as int] == dataset@[i as int]@);
        let fields = apply_line_ending(fields, ending);
        let line = write_csv_line(&fields, DELIMITER);
        out.append(line.as_str());
        proof {
            assert(records.take(i + 1).drop_last() =~= records.take(i as int));
        }
        i = i + 1;
    }
    assert(records.take(i as int) =~= records);
    out
}

/// The text written for a dataset depends on its records and the line ending
/// alone, so writing the same dataset twice gives the same text.
pub proof fn lemma_write_repeatable(a: Seq<Record>, b: Seq<Record>, ending: LineEnding)
    requires
        dataset_view(a) == dataset_view(b),
    ensures
        csv_table(dataset_view(a), ending) == csv_table(dataset_view(b), ending),
{
}

} // verus!
