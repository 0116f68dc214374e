use std::sync::Arc;

use arrow::array::{Array, ArrayRef, Int32Array, StringArray, UnionArray};
use arrow::buffer::ScalarBuffer;
use arrow::datatypes::{DataType, Field, Schema, UnionFields};
use arrow::record_batch::RecordBatch;
use lancedb_viewer::models::{AppError, ErrorCategory};
use lancedb_viewer::sampler::{
    decode_rows, encode_batches, get_table_data, needs_declared_schema, rows_of, sample_columns,
    table_data_from, Batch, DataProbe, RowsFailure,
};
use serde_json::Value;

fn people_schema() -> Arc<Schema> {
    Arc::new(Schema::new(vec![
        Field::new("id", DataType::Int32, false),
        Field::new("name", DataType::Utf8, true),
    ]))
}

fn people(ids: Vec<i32>, names: Vec<Option<&str>>) -> Batch {
    let columns: Vec<ArrayRef> =
        vec![Arc::new(Int32Array::from(ids)), Arc::new(StringArray::from(names))];
    Batch { inner: RecordBatch::try_new(people_schema(), columns).expect("batch") }
}

fn failure(probe: DataProbe) -> AppError {
    match get_table_data(probe) {
        Ok(_) => panic!("a sample of a table that could not be read"),
        Err(error) => error,
    }
}

#[test]
fn rows_come_in_batch_order() {
    let batches = vec![
        people(vec![1, 2], vec![Some("ada"), Some("bob")]),
        people(vec![3], vec![Some("cy")]),
    ];
    let probe = DataProbe::Fetched { row_count: Some(10), batches, declared: None };
    let data = get_table_data(probe).expect("sample");
    assert_eq!(data.total_rows, 10);
    assert_eq!(data.columns, vec!["id", "name"]);
    assert_eq!(data.rows.len(), 3);
    let ids: Vec<Option<i64>> =
        data.rows.iter().map(|row| row.get("id").and_then(Value::as_i64)).collect();
    assert_eq!(ids, vec![Some(1), Some(2), Some(3)]);
    let names: Vec<Option<&str>> =
        data.rows.iter().map(|row| row.get("name").and_then(Value::as_str)).collect();
    assert_eq!(names, vec![Some("ada"), Some("bob"), Some("cy")]);
}

#[test]
fn an_unknown_row_count_is_reported_as_zero() {
    let batches = vec![people(vec![5], vec![None])];
    let probe = DataProbe::Fetched { row_count: None, batches, declared: None };
    let data = get_table_data(probe).expect("sample");
    assert_eq!(data.total_rows, 0);
    assert_eq!(data.rows.len(), 1);
    assert_eq!(data.rows[0].get("id").and_then(Value::as_i64), Some(5));
}

#[test]
fn an_empty_read_takes_its_columns_from_the_declared_schema() {
    let declared = Schema::new(vec![
        Field::new("a", DataType::Int32, false),
        Field::new("b", DataType::Utf8, true),
        Field::new("c", DataType::Boolean, true),
    ]);
    let probe =
        DataProbe::Fetched { row_count: Some(0), batches: Vec::new(), declared: Some(declared) };
    let data = get_table_data(probe).expect("sample");
    assert_eq!(data.total_rows, 0);
    assert_eq!(data.columns, vec!["a", "b", "c"]);
    assert!(data.rows.is_empty());

    let probe = DataProbe::Fetched { row_count: None, batches: Vec::new(), declared: None };
    let data = get_table_data(probe).expect("sample");
    assert!(data.columns.is_empty());
    assert!(data.rows.is_empty());
}

#[test]
fn the_first_batch_names_the_columns() {
    let declared = Schema::new(vec![Field::new("other", DataType::Int32, false)]);
    let batches = vec![people(vec![1], vec![Some("ada")])];
    assert_eq!(sample_columns(&batches, &Some(declared)), vec!["id", "name"]);
    assert!(!needs_declared_schema(&batches));
    assert!(needs_declared_schema(&Vec::new()));
    let empty_batch = vec![people(Vec::new(), Vec::new())];
    assert_eq!(sample_columns(&empty_batch, &None), vec!["id", "name"]);
    assert_eq!(rows_of(&empty_batch).expect("rows").len(), 0);
}

#[test]
fn each_failed_read_has_its_error() {
    let error = failure(DataProbe::DatasetUnavailable { detail: "gone".to_string() });
    assert_eq!(error.category, ErrorCategory::OpenFailed);
    assert_eq!(error.message, "Unable to open LanceDB dataset");
    assert_eq!(error.detail.as_deref(), Some("gone"));

    let error = failure(DataProbe::TableUnavailable { detail: "no table".to_string() });
    assert_eq!(error.category, ErrorCategory::MetadataUnavailable);
    assert_eq!(error.message, "Unable to open table");
    assert_eq!(error.detail.as_deref(), Some("no table"));

    let error = failure(DataProbe::QueryFailed { detail: "bad plan".to_string() });
    assert_eq!(error.category, ErrorCategory::Unknown);
    assert_eq!(error.message, "Query failed");
    assert_eq!(error.detail.as_deref(), Some("bad plan"));

    let error = failure(DataProbe::BatchFailed { detail: "truncated".to_string() });
    assert_eq!(error.category, ErrorCategory::Unknown);
    assert_eq!(error.message, "Batch error");
    assert_eq!(error.detail.as_deref(), Some("truncated"));
}

#[test]
fn batches_are_written_as_one_array() {
    let batches = vec![people(vec![1], vec![Some("ada")]), people(vec![2], vec![None])];
    let bytes = encode_batches(&batches).expect("bytes");
    assert_eq!(String::from_utf8(bytes).expect("text"), "[{\"id\":1,\"name\":\"ada\"},{\"id\":2}]");
    let bytes = encode_batches(&Vec::new()).expect("bytes");
    assert_eq!(bytes, b"[]".to_vec());
}

#[test]
fn rows_are_read_back_from_bytes() {
    let rows = decode_rows(b"[{\"a\":1},{\"a\":null},3]".to_vec()).expect("rows");
    assert_eq!(rows.len(), 3);
    assert_eq!(rows[0].get("a").and_then(Value::as_i64), Some(1));
    assert_eq!(rows[1].get("a"), Some(&Value::Null));
    assert_eq!(rows[2].as_i64(), Some(3));
    assert_eq!(decode_rows(b"[]".to_vec()).expect("rows").len(), 0);
    assert_eq!(decode_rows("[\"é\"]".as_bytes().to_vec()).expect("rows")[0].as_str(), Some("é"));
}

#[test]
fn bytes_that_are_no_rows_fail_at_their_step() {
    match decode_rows(vec![0xff, 0xfe]) {
        Err(RowsFailure::Utf8 { detail }) => assert!(!detail.is_empty()),
        other => panic!("unexpected outcome: {:?}", other),
    }
    match decode_rows(b"{\"a\":1}".to_vec()) {
        Err(RowsFailure::Parse { detail }) => assert!(!detail.is_empty()),
        other => panic!("unexpected outcome: {:?}", other),
    }
    match decode_rows(b"[1,".to_vec()) {
        Err(RowsFailure::Parse { .. }) => {}
        other => panic!("unexpected outcome: {:?}", other),
    }
    match decode_rows(Vec::new()) {
        Err(RowsFailure::Parse { .. }) => {}
        other => panic!("unexpected outcome: {:?}", other),
    }
}

#[test]
fn each_failed_step_of_the_rows_has_its_message() {
    let cases = vec![
        (RowsFailure::Write { detail: "w".to_string() }, "JSON write error", "w"),
        (RowsFailure::Finish { detail: "f".to_string() }, "JSON finish error", "f"),
        (RowsFailure::Utf8 { detail: "u".to_string() }, "UTF8 conversion error", "u"),
        (RowsFailure::Parse { detail: "p".to_string() }, "JSON parse error", "p"),
    ];
    for (failure, message, detail) in cases {
        let error = failure.clone().into_error();
        assert_eq!(error.category, ErrorCategory::Unknown);
        assert_eq!(error.message, message);
        assert_eq!(error.detail.as_deref(), Some(detail));
        let error = table_data_from(Some(1), Vec::new(), Err(failure)).err().expect("error");
        assert_eq!(error.category, ErrorCategory::Unknown);
        assert_eq!(error.message, message);
        assert_eq!(error.detail.as_deref(), Some(detail));
    }
}

#[test]
fn a_sample_is_put_together_from_its_parts() {
    let rows = vec![Value::from(1), Value::from("x")];
    let columns = vec!["a".to_string(), "b".to_string()];
    let data = table_data_from(Some(12), columns.clone(), Ok(rows.clone())).expect("sample");
    assert_eq!(data.total_rows, 12);
    assert_eq!(data.columns, columns);
    assert_eq!(data.rows, rows);
    let data = table_data_from(None, Vec::new(), Ok(Vec::new())).expect("sample");
    assert_eq!(data.total_rows, 0);
    assert!(data.columns.is_empty());
    assert!(data.rows.is_empty());
}

fn union_batch() -> Batch {
    let fields = UnionFields::try_new(vec![0_i8], vec![Field::new("a", DataType::Int32, false)])
        .expect("fields");
    let children: Vec<ArrayRef> = vec![Arc::new(Int32Array::from(vec![1, 2]))];
    let union = UnionArray::try_new(fields, ScalarBuffer::from(vec![0_i8, 0_i8]), None, children)
        .expect("union");
    let schema = Arc::new(Schema::new(vec![Field::new("u", union.data_type().clone(), false)]));
    let columns: Vec<ArrayRef> = vec![Arc::new(union)];
    Batch { inner: RecordBatch::try_new(schema, columns).expect("batch") }
}

#[test]
fn a_batch_that_cannot_be_written_fails_at_the_write() {
    match encode_batches(&vec![people(vec![1], vec![None]), union_batch()]) {
        Err(RowsFailure::Write { detail }) => assert!(!detail.is_empty()),
        other => panic!("unexpected outcome: {:?}", other),
    }
    let probe =
        DataProbe::Fetched { row_count: Some(2), batches: vec![union_batch()], declared: None };
    let error = failure(probe);
    assert_eq!(error.category, ErrorCategory::Unknown);
    assert_eq!(error.message, "JSON write error");
    assert!(error.detail.is_some());
}

#[test]
fn batches_without_rows_leave_no_trace_in_the_array() {
    let empty = || people(Vec::new(), Vec::new());
    let text = |batches: Vec<Batch>| {
        String::from_utf8(encode_batches(&batches).expect("bytes")).expect("text")
    };
    assert_eq!(text(vec![empty()]), "[]");
    assert_eq!(text(vec![empty(), empty()]), "[]");
    assert_eq!(text(vec![empty(), people(vec![1], vec![None])]), "[{\"id\":1}]");
    assert_eq!(text(vec![people(vec![1], vec![None]), empty()]), "[{\"id\":1}]");
    assert_eq!(
        text(vec![
            people(vec![1], vec![None]),
            empty(),
            people(vec![2, 3], vec![None, Some("c")]),
            empty(),
            people(vec![4], vec![None]),
        ]),
        "[{\"id\":1},{\"id\":2},{\"id\":3,\"name\":\"c\"},{\"id\":4}]"
    );
}

#[test]
fn rows_are_what_the_written_array_reads_back_as() {
    let batches = vec![
        people(vec![1, 2], vec![Some("a"), None]),
        people(Vec::new(), Vec::new()),
        people(vec![3], vec![Some("c")]),
    ];
    let bytes = encode_batches(&batches).expect("bytes");
    let read_back = decode_rows(bytes).expect("rows");
    let rows = rows_of(&batches).expect("rows");
    assert_eq!(rows, read_back);
    assert_eq!(rows.len(), 3);
    assert_eq!(rows[1].get("id").and_then(Value::as_i64), Some(2));
    assert_eq!(rows[1].get("name"), None);
    assert_eq!(rows[2].get("name").and_then(Value::as_str), Some("c"));
}
