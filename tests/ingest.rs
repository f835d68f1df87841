use csv_merge::ingest::{append_csv_table_from_bytes, ingest_rows, IngestError};
use csv_merge::record::{Record, REC_SIZE};

fn record(fields: &[&str]) -> Record {
    Record::new(fields.iter().map(|f| f.to_string()).collect()).unwrap()
}

fn expected_records() -> Vec<Record> {
    vec![
        record(&["05.04.2023", "Descricao despesa 1", "Transporte", "-65,66", "Não pago", ""]),
        record(&["05.03.2023", "Livro técnico", "Educação", "-421,66", "Não pago", ""]),
        record(&["05.02.2023", "Aluguel", "Moradia", "66", "Pago", ""]),
        record(&["05.07.2023", "Descricao despesa 3", "Saúde", "-1200,66", "Não pago", ""]),
        record(&["05.06.2023", "Curso UDEMY", "Educação", "-27,99", "Não pago", ""]),
        record(&["05.05.2023", "NETFLIX", "Lazer", "24,90", "Pago", ""]),
    ]
}

const TABLE_ONE: &str = "05.04.2023;Descricao despesa 1;Transporte;-65,66;Não pago;\n\
05.03.2023;Livro técnico;Educação;-421,66;Não pago;\n\
05.02.2023;Aluguel;Moradia;66;Pago;\n";

const TABLE_TWO: &str = "05.07.2023;Descricao despesa 3;Saúde;-1200,66;Não pago;\r\n\
05.06.2023;Curso UDEMY;Educação;-27,99;Não pago;\r\n\
05.05.2023;NETFLIX;Lazer;24,90;Pago;\r\n";

const MISSING_COLUMN: &str = "05.04.2023;Descricao despesa 1;Transporte;-65,66;Não pago;\n\
05.03.2023;Livro técnico;Educação;-421,66;Não pago\n\
05.02.2023;Aluguel;Moradia;66;Pago;\n";

#[test]
fn test_read_csv() {
    let mut dataset: Vec<Record> = Vec::new();
    let res1 = append_csv_table_from_bytes("test.csv", TABLE_ONE.as_bytes(), &mut dataset);
    assert!(res1.is_ok());
    assert_eq!(dataset.len(), 3);
}

#[test]
fn test_read_fake_csv() {
    let mut dataset: Vec<Record> = Vec::new();
    let res2 = append_csv_table_from_bytes("test - missing 1 col.csv", MISSING_COLUMN.as_bytes(), &mut dataset);
    assert!(res2.is_err());
}

#[test]
fn test_csv_table_append() {
    let expected = expected_records();
    let mut dataset: Vec<Record> = Vec::new();
    let res = append_csv_table_from_bytes("test.csv", TABLE_ONE.as_bytes(), &mut dataset);
    assert!(res.is_ok());
    assert_eq!(dataset.len(), 3);
    let res = append_csv_table_from_bytes("test2.csv", TABLE_TWO.as_bytes(), &mut dataset);
    assert!(res.is_ok());
    assert_eq!(dataset.len(), expected.len());
    for it in dataset.iter().zip(expected.iter()) {
        let (data_read, data_exp) = it;
        assert_eq!(data_read, data_exp);
    }
}

#[test]
fn wrong_width_reports_expected_and_actual_and_keeps_earlier_rows() {
    let mut dataset: Vec<Record> = Vec::new();
    let res = append_csv_table_from_bytes("t.csv", MISSING_COLUMN.as_bytes(), &mut dataset);
    assert_eq!(res, Err(IngestError::Validation { expected: 6, actual: 5 }));
    assert_eq!(dataset, vec![expected_records().remove(0)]);
}

#[test]
fn wrong_width_in_first_row_appends_nothing() {
    let mut dataset: Vec<Record> = Vec::new();
    let text = "a;b;c;d;e\na;b;c;d;e;f\n";
    let res = append_csv_table_from_bytes("t.csv", text.as_bytes(), &mut dataset);
    assert_eq!(res, Err(IngestError::Validation { expected: REC_SIZE, actual: 5 }));
    assert!(dataset.is_empty());
}

#[test]
fn too_many_fields_is_rejected() {
    let mut dataset: Vec<Record> = Vec::new();
    let res = append_csv_table_from_bytes("t.csv", "a;b;c;d;e;f;g\n".as_bytes(), &mut dataset);
    assert_eq!(res, Err(IngestError::Validation { expected: 6, actual: 7 }));
    assert!(dataset.is_empty());
}

#[test]
fn invalid_utf8_is_a_parse_error_with_path() {
    let mut dataset: Vec<Record> = Vec::new();
    let text: Vec<u8> = vec![b'a', b';', b'b', b';', b'c', b';', b'd', b';', b'e', b';', b'f', b'\n', 0xff, 0xfe, b';', b'x', b'\n'];
    let res = append_csv_table_from_bytes("bad.csv", &text, &mut dataset);
    match res {
        Err(IngestError::Parse { path, cause }) => {
            assert_eq!(path, "bad.csv");
            assert!(!cause.is_empty());
        }
        other => panic!("unexpected result {:?}", other),
    }
    assert_eq!(dataset, vec![record(&["a", "b", "c", "d", "e", "f"])]);
}

#[test]
fn first_row_is_data_not_header() {
    let mut dataset: Vec<Record> = Vec::new();
    let res = append_csv_table_from_bytes("t.csv", "h1;h2;h3;h4;h5;h6\n".as_bytes(), &mut dataset);
    assert!(res.is_ok());
    assert_eq!(dataset, vec![record(&["h1", "h2", "h3", "h4", "h5", "h6"])]);
}

#[test]
fn empty_table_appends_nothing() {
    let mut dataset: Vec<Record> = vec![record(&["1", "2", "3", "4", "5", "6"])];
    let res = append_csv_table_from_bytes("empty.csv", b"", &mut dataset);
    assert!(res.is_ok());
    assert_eq!(dataset.len(), 1);
}

#[test]
fn fields_are_kept_verbatim() {
    let mut dataset: Vec<Record> = Vec::new();
    let res = append_csv_table_from_bytes("t.csv", " a ; b;c ;;-1,5;x y\n".as_bytes(), &mut dataset);
    assert!(res.is_ok());
    assert_eq!(dataset[0].fields(), &vec![" a ", " b", "c ", "", "-1,5", "x y"]);
}

#[test]
fn ingest_rows_stops_at_reader_error() {
    let rows: Vec<Result<Vec<String>, String>> = vec![
        Ok(["1", "2", "3", "4", "5", "6"].iter().map(|f| f.to_string()).collect()),
        Err("broken".to_string()),
        Ok(["a", "b", "c", "d", "e", "f"].iter().map(|f| f.to_string()).collect()),
    ];
    let mut dataset: Vec<Record> = Vec::new();
    let res = ingest_rows("p.csv", &rows, &mut dataset);
    assert_eq!(res, Err(IngestError::Parse { path: "p.csv".to_string(), cause: "broken".to_string() }));
    assert_eq!(dataset, vec![record(&["1", "2", "3", "4", "5", "6"])]);
}

#[test]
fn record_new_requires_six_fields() {
    assert!(Record::new(vec!["a".to_string(); 5]).is_none());
    assert!(Record::new(vec!["a".to_string(); 7]).is_none());
    assert!(Record::new(vec!["a".to_string(); 6]).is_some());
}
