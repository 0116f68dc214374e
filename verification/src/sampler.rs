//! A bounded sample of a table's rows, from the batches that a read fetched.

use crate::models::{AppError, AppErrorView, ErrorCategory, TableData};
use crate::schema::{column_names, names_of, schema_columns};
use arrow::datatypes::Schema;
use arrow::error::ArrowError;
use arrow::json::ArrayWriter;
use arrow::record_batch::RecordBatch;
use std::string::FromUtf8Error;
use std::sync::Arc;
use vstd::prelude::*;
use vstd::utf8::{decode_utf8, valid_utf8};

verus! {

/// `arrow::error::ArrowError`, the error of the arrow crates.
#[verifier::external_type_specification]
#[verifier::external_body]
pub struct ExArrowError(ArrowError);

/// `std::string::FromUtf8Error`, the error of `String::from_utf8`.
#[verifier::external_type_specification]
#[verifier::external_body]
pub struct ExFromUtf8Error(FromUtf8Error);

/// `serde_json::Value`, a generic JSON value. The library carries such values
/// and never looks inside them.
#[verifier::external_type_specification]
#[verifier::external_body]
pub struct ExValue(serde_json::Value);

/// `serde_json::Error`, the error of the JSON parser.
#[verifier::external_type_specification]
#[verifier::external_body]
pub struct ExJsonError(serde_json::Error);

/// A chunk of rows in columnar form, as a read hands it out. It holds an
/// `arrow::record_batch::RecordBatch`, which the verifier cannot take in a
/// signature; so the field is open to the caller, who puts the batch in, and
/// closed to the proofs, which know of a batch only what `batch_columns` and
/// `batch_rows` name.
#[verifier::external_body]
pub struct Batch {
    pub inner: RecordBatch,
}

/// The columns of the schema of a batch: for each field its name and the debug
/// rendering of its data type.
pub uninterp spec fn batch_columns(batch: Batch) -> Seq<(Seq<char>, Seq<char>)>;

/// The rows of a batch in their order, each as the bytes of the JSON object
/// that `arrow::json::ArrayWriter` writes for it.
pub uninterp spec fn batch_rows(batch: Batch) -> Seq<Seq<u8>>;

/// Whether `arrow::json::ArrayWriter` can write a batch: it can where the
/// batch has no row, or an encoder can be made for every column.
pub uninterp spec fn batch_writable(batch: Batch) -> bool;

/// `RecordBatch::schema`: the schema that the batch carries. Its columns are
/// those that `batch_columns` names for the batch.
#[verifier::external_body]
fn batch_schema(batch: &Batch) -> (schema: Arc<Schema>)
    ensures
        schema_columns(*schema) == batch_columns(*batch),
{
    batch.inner.schema()
}

/// An `arrow::json::ArrayWriter` over a buffer in memory. The proofs know of a
/// writer what `writer_output` and `writer_flags` name: the buffer, and the two
/// marks that the writer keeps of where it stands.
#[verifier::external_body]
pub struct RowWriter {
    inner: ArrayWriter<Vec<u8>>,
}

/// The bytes that a writer has put into its buffer so far.
pub uninterp spec fn writer_output(writer: RowWriter) -> Seq<u8>;

/// Where a writer stands: whether it has opened the array, and whether it has
/// closed it.
pub uninterp spec fn writer_flags(writer: RowWriter) -> (bool, bool);

/// The bracket that opens a JSON array.
pub open spec fn array_open() -> Seq<u8> {
    seq![0x5Bu8]
}

/// The comma between the elements of a JSON array.
pub open spec fn array_comma() -> Seq<u8> {
    seq![0x2Cu8]
}

/// The bracket that closes a JSON array.
pub open spec fn array_close() -> Seq<u8> {
    seq![0x5Du8]
}

/// What writing `rows` adds to an array: every row with a comma before it, but
/// for the very first row of the array, which has the opening bracket before
/// it. `opened` tells whether the array was opened before.
pub open spec fn rows_text(opened: bool, rows: Seq<Seq<u8>>) -> Seq<u8>
    decreases rows.len(),
{
    if rows.len() == 0 {
        Seq::<u8>::empty()
    } else {
        let mark = if !opened && rows.len() == 1 {
            array_open()
        } else {
            array_comma()
        };
        rows_text(opened, rows.drop_last()) + mark + rows.last()
    }
}

/// What closing adds to an array: the opening bracket where the array was not
/// opened yet, and the closing bracket where it was not closed yet.
pub open spec fn closing_text(flags: (bool, bool)) -> Seq<u8> {
    let opening = if flags.0 {
        Seq::<u8>::empty()
    } else {
        array_open()
    };
    let closing = if flags.1 {
        Seq::<u8>::empty()
    } else {
        array_close()
    };
    opening + closing
}

/// `arrow::json::ArrayWriter::new`, over an empty buffer: nothing is written
/// yet, and the array is neither opened nor closed.
#[verifier::external_body]
fn new_writer() -> (writer: RowWriter)
    ensures
        writer_output(writer) == Seq::<u8>::empty(),
        writer_flags(writer) == (false, false),
{
    RowWriter { inner: ArrayWriter::new(Vec::new()) }
}

/// `arrow::json::ArrayWriter::write`: serialises the rows of a batch. Over a
/// buffer in memory it succeeds exactly where the batch is writable, whatever
/// the writer holds. Where it succeeds it has added the rows of the batch to
/// the array, and the array is opened if it was before or the batch has a row.
/// Nothing is stated of the writer after a failure.
#[verifier::external_body]
fn write_batch(writer: &mut RowWriter, batch: &Batch) -> (done: Result<(), ArrowError>)
    ensures
        done is Ok <==> batch_writable(*batch),
        done is Ok ==> writer_output(*final(writer)) == writer_output(*old(writer)) + rows_text(
            writer_flags(*old(writer)).0,
            batch_rows(*batch),
        ),
        done is Ok ==> writer_flags(*final(writer)) == (
            writer_flags(*old(writer)).0 || batch_rows(*batch).len() > 0,
            writer_flags(*old(writer)).1,
        ),
{
    writer.inner.write(&batch.inner)
}

/// `arrow::json::ArrayWriter::finish`: closes the array. Over a buffer in
/// memory it only adds the brackets that were missing, and succeeds; the array
/// is then opened and closed.
#[verifier::external_body]
fn finish_writer(writer: &mut RowWriter) -> (done: Result<(), ArrowError>)
    ensures
        done is Ok,
        done is Ok ==> writer_output(*final(writer)) == writer_output(*old(writer)) + closing_text(
            writer_flags(*old(writer)),
        ),
        done is Ok ==> writer_flags(*final(writer)) == (true, true),
{
    writer.inner.finish()
}

/// `arrow::json::ArrayWriter::into_inner`: the buffer with what was written.
#[verifier::external_body]
fn writer_bytes(writer: RowWriter) -> (bytes: Vec<u8>)
    ensures
        bytes@ == writer_output(writer),
{
    writer.inner.into_inner()
}

/// `String::from_utf8`: the text that the bytes encode, or an error where, and
/// only where, they are not valid UTF-8.
#[verifier::external_body]
fn utf8_text(bytes: Vec<u8>) -> (text: Result<String, FromUtf8Error>)
    ensures
        match text {
            Ok(s) => valid_utf8(bytes@) && s@ == decode_utf8(bytes@),
            Err(_) => !valid_utf8(bytes@),
        },
{
    String::from_utf8(bytes)
}

/// The values that a text holds when read as a JSON array, or nothing where
/// the text is no JSON array.
pub uninterp spec fn json_rows(text: Seq<char>) -> Option<Seq<serde_json::Value>>;

/// `serde_json::from_str` for a list of values: the elements of the JSON array
/// that the text holds, or the parser's error. The contract claims that the
/// outcome depends on the text alone, and gives it the name `json_rows`.
#[verifier::external_body]
fn parse_rows(text: &str) -> (rows: Result<Vec<serde_json::Value>, serde_json::Error>)
    ensures
        match rows {
            Ok(values) => json_rows(text@) == Some(values@),
            Err(_) => json_rows(text@) is None,
        },
{
    serde_json::from_str(text)
}

/// The step at which turning batches into rows failed, with the underlying
/// message.
#[derive(Debug, Clone)]
pub enum RowsFailure {
    /// A batch could not be written.
    Write { detail: String },
    /// The array could not be closed.
    Finish { detail: String },
    /// What was written is no text.
    Utf8 { detail: String },
    /// What was written could not be read back.
    Parse { detail: String },
}

impl RowsFailure {
    /// The error that this failure is reported as.
    pub open spec fn error(self) -> AppErrorView {
        match self {
            RowsFailure::Write { detail } => AppErrorView {
                category: ErrorCategory::Unknown,
                message: "JSON write error"@,
                detail: Some(detail@),
            },
            RowsFailure::Finish { detail } => AppErrorView {
                category: ErrorCategory::Unknown,
                message: "JSON finish error"@,
                detail: Some(detail@),
            },
            RowsFailure::Utf8 { detail } => AppErrorView {
                category: ErrorCategory::Unknown,
                message: "UTF8 conversion error"@,
                detail: Some(detail@),
            },
            RowsFailure::Parse { detail } => AppErrorView {
                category: ErrorCategory::Unknown,
                message: "JSON parse error"@,
                detail: Some(detail@),
            },
        }
    }

    /// Reports the failure as an error of the viewer.
    pub fn into_error(self) -> (error: AppError)
        ensures
            error@ == self.error(),
    {
        match self {
            RowsFailure::Write { detail } => AppError::new(
                ErrorCategory::Unknown,
                "JSON write error",
                Some(detail),
            ),
            RowsFailure::Finish { detail } => AppError::new(
                ErrorCategory::Unknown,
                "JSON finish error",
                Some(detail),
            ),
            RowsFailure::Utf8 { detail } => AppError::new(
                ErrorCategory::Unknown,
                "UTF8 conversion error",
                Some(detail),
            ),
            RowsFailure::Parse { detail } => AppError::new(
                ErrorCategory::Unknown,
                "JSON parse error",
                Some(detail),
            ),
        }
    }
}

/// The rows of all batches: those of the first batch in their order, then
/// those of the second, and so on.
pub open spec fn all_rows(batches: Seq<Batch>) -> Seq<Seq<u8>>
    decreases batches.len(),
{
    if batches.len() == 0 {
        Seq::<Seq<u8>>::empty()
    } else {
        all_rows(batches.drop_last()) + batch_rows(batches.last())
    }
}

/// The JSON array of `rows`: the rows in their order, with commas between them
/// and brackets around them.
pub open spec fn array_text(rows: Seq<Seq<u8>>) -> Seq<u8> {
    rows_text(false, rows) + closing_text((rows.len() > 0, false))
}

/// Writing `more` after `rows` gives the text of `rows` followed by what
/// `more` adds to an array that is opened exactly where `rows` has a row.
pub proof fn lemma_rows_text_extended(rows: Seq<Seq<u8>>, more: Seq<Seq<u8>>)
    ensures
        rows_text(false, rows + more) == rows_text(false, rows) + rows_text(rows.len() > 0, more),
    decreases more.len(),
{
    if more.len() == 0 {
        assert(rows + more =~= rows);
        assert(rows_text(false, rows) + Seq::<u8>::empty() =~= rows_text(false, rows));
    } else {
        let whole = rows + more;
        lemma_rows_text_extended(rows, more.drop_last());
        assert(whole.drop_last() =~= rows + more.drop_last());
        assert(whole.last() == more.last());
        let mark = if rows.len() == 0 && more.len() == 1 {
            array_open()
        } else {
            array_comma()
        };
        assert(rows_text(false, whole) == rows_text(false, whole.drop_last()) + mark + more.last());
        assert(rows_text(rows.len() > 0, more) == rows_text(rows.len() > 0, more.drop_last()) + mark
            + more.last());
        assert(rows_text(false, rows) + rows_text(rows.len() > 0, more.drop_last()) + mark
            + more.last() =~= rows_text(false, rows) + (rows_text(rows.len() > 0, more.drop_last())
            + mark + more.last()));
    }
}

/// Every batch is writable.
pub open spec fn all_writable(batches: Seq<Batch>) -> bool {
    forall|k: int| 0 <= k < batches.len() ==> batch_writable(#[trigger] batches[k])
}

/// Writes the batches, in order, as one JSON array. It succeeds exactly where
/// every batch is writable, and the bytes are then the array of the rows of all
/// batches; else it fails at the write.
pub fn encode_batches(batches: &Vec<Batch>) -> (encoded: Result<Vec<u8>, RowsFailure>)
    ensures
        match encoded {
            Ok(bytes) => all_writable(batches@) && bytes@ == array_text(all_rows(batches@)),
            Err(failure) => failure is Write && !all_writable(batches@),
        },
{
    let mut writer = new_writer();
    let mut i: usize = 0;
    while i < batches.len()
        invariant
            i <= batches.len(),
            forall|k: int| 0 <= k < i ==> batch_writable(#[trigger] batches@[k]),
            writer_output(writer) == rows_text(false, all_rows(batches@.take(i as int))),
            writer_flags(writer) == (all_rows(batches@.take(i as int)).len() > 0, false),
        decreases batches.len() - i,
    {
        proof {
            let before = all_rows(batches@.take(i as int));
            assert(batches@.take(i + 1).drop_last() =~= batches@.take(i as int));
            assert(batches@.take(i + 1).last() == batches@[i as int]);
            lemma_rows_text_extended(before, batch_rows(batches@[i as int]));
        }
        match write_batch(&mut writer, &batches[i]) {
            Ok(_) => {},
            Err(e) => {
                return Err(RowsFailure::Write { detail: e.to_string() });
            },
        }
        i += 1;
    }
    proof {
        assert(batches@.take(batches@.len() as int) =~= batches@);
    }
    match finish_writer(&mut writer) {
        Ok(_) => {},
        Err(e) => {
            return Err(RowsFailure::Finish { detail: e.to_string() });
        },
    }
    Ok(writer_bytes(writer))
}

/// The rows that the bytes of a JSON array hold: none where the bytes are no
/// text, or the text is no JSON array.
pub open spec fn decoded_rows(bytes: Seq<u8>) -> Option<Seq<serde_json::Value>> {
    if valid_utf8(bytes) {
        json_rows(decode_utf8(bytes))
    } else {
        None
    }
}

/// Reads the rows back from the bytes of a JSON array.
pub fn decode_rows(bytes: Vec<u8>) -> (decoded: Result<Vec<serde_json::Value>, RowsFailure>)
    ensures
        match decoded {
            Ok(rows) => decoded_rows(bytes@) == Some(rows@),
            Err(failure) => decoded_rows(bytes@) is None && if valid_utf8(bytes@) {
                failure is Parse
            } else {
                failure is Utf8
            },
        },
{
    let text = match utf8_text(bytes) {
        Ok(text) => text,
        Err(e) => {
            return Err(RowsFailure::Utf8 { detail: e.to_string() });
        },
    };
    match parse_rows(text.as_str()) {
        Ok(rows) => Ok(rows),
        Err(e) => Err(RowsFailure::Parse { detail: e.to_string() }),
    }
}

/// The rows that the batches hold, as values: what reading back the JSON array
/// of their rows gives.
pub open spec fn rows_read_back(batches: Seq<Batch>) -> Option<Seq<serde_json::Value>> {
    decoded_rows(array_text(all_rows(batches)))
}

/// The step at which turning the batches into rows fails, where it fails: the
/// write where a batch is not writable; else the conversion to text where the
/// array is no text; else the reading back.
pub open spec fn failing_step(batches: Seq<Batch>, failure: RowsFailure) -> bool {
    if !all_writable(batches) {
        failure is Write
    } else if !valid_utf8(array_text(all_rows(batches))) {
        failure is Utf8
    } else {
        failure is Parse
    }
}

/// Turning the batches into rows succeeds: every batch is writable, and the
/// array of their rows can be read back.
pub open spec fn rows_owed(batches: Seq<Batch>) -> bool {
    all_writable(batches) && rows_read_back(batches) is Some
}

/// Turns batches into rows, batch after batch and row after row, by writing
/// them as one JSON array and reading that back. It succeeds exactly where rows
/// are owed, and the rows are then what the array of the rows of all batches
/// reads back as; else the failure names the step that failed.
pub fn rows_of(batches: &Vec<Batch>) -> (rows: Result<Vec<serde_json::Value>, RowsFailure>)
    ensures
        match rows {
            Ok(values) => rows_owed(batches@) && rows_read_back(batches@) == Some(values@),
            Err(failure) => !rows_owed(batches@) && failing_step(batches@, failure),
        },
{
    let bytes = match encode_batches(batches) {
        Ok(bytes) => bytes,
        Err(failure) => {
            return Err(failure);
        },
    };
    decode_rows(bytes)
}

/// The names of the columns of a sample: those of the first batch where there
/// is one, else those of the declared schema, and none where that is unknown.
pub open spec fn sampled_columns(batches: Seq<Batch>, declared: Option<Schema>) -> Seq<Seq<char>> {
    if batches.len() > 0 {
        names_of(batch_columns(batches[0]))
    } else {
        match declared {
            Some(schema) => names_of(schema_columns(schema)),
            None => Seq::<Seq<char>>::empty(),
        }
    }
}

/// A sample names as many columns as the schema that it goes by has fields.
pub proof fn lemma_one_name_per_field(batches: Seq<Batch>, declared: Option<Schema>)
    ensures
        batches.len() > 0 ==> sampled_columns(batches, declared).len() == batch_columns(
            batches[0],
        ).len(),
        batches.len() == 0 && declared is Some ==> sampled_columns(batches, declared).len()
            == schema_columns(declared->0).len(),
        batches.len() == 0 && declared is None ==> sampled_columns(batches, declared).len() == 0,
{
}

/// Tells whether the declared schema is needed for the names of the columns:
/// it is when no batch was fetched.
pub fn needs_declared_schema(batches: &Vec<Batch>) -> (needed: bool)
    ensures
        needed == (batches@.len() == 0),
{
    batches.len() == 0
}

/// Names the columns of a sample.
pub fn sample_columns(batches: &Vec<Batch>, declared: &Option<Schema>) -> (columns: Vec<String>)
    ensures
        columns@.map_values(|c: String| c@) == sampled_columns(batches@, *declared),
{
    if batches.len() > 0 {
        let schema = batch_schema(&batches[0]);
        column_names(&schema)
    } else {
        match declared {
            Some(schema) => column_names(schema),
            None => {
                let columns: Vec<String> = Vec::new();
                assert(columns@.map_values(|c: String| c@) =~= Seq::<Seq<char>>::empty());
                columns
            },
        }
    }
}

/// The number of rows that a sample reports for its table: the count where it
/// could be had, else zero.
pub open spec fn reported_total(row_count: Option<usize>) -> usize {
    match row_count {
        Some(n) => n,
        None => 0,
    }
}

/// Puts a sample together from the row count, the names of the columns and the
/// outcome of turning the batches into rows.
pub fn table_data_from(
    row_count: Option<usize>,
    columns: Vec<String>,
    rows: Result<Vec<serde_json::Value>, RowsFailure>,
) -> (result: Result<TableData, AppError>)
    ensures
        match rows {
            Ok(values) => result is Ok && result->Ok_0.total_rows == reported_total(row_count)
                && result->Ok_0.columns == columns && result->Ok_0.rows == values,
            Err(failure) => result is Err && result->Err_0@ == failure.error(),
        },
{
    match rows {
        Ok(values) => Ok(
            TableData {
                total_rows: match row_count {
                    Some(n) => n,
                    None => 0,
                },
                columns,
                rows: values,
            },
        ),
        Err(failure) => Err(failure.into_error()),
    }
}

/// What the storage engine answered when a table was read for a sample. The
/// steps are taken in the order of the variants, and the first that fails ends
/// the attempt; a row count that cannot be had does not.
pub enum DataProbe {
    /// The dataset could not be opened.
    DatasetUnavailable { detail: String },
    /// The dataset was opened, the table in it was not.
    TableUnavailable { detail: String },
    /// The read could not be started.
    QueryFailed { detail: String },
    /// The read broke off at one of its batches.
    BatchFailed { detail: String },
    /// The read ran to its end. The declared schema is asked for only where no
    /// batch came, and is absent where it could not be read.
    Fetched { row_count: Option<usize>, batches: Vec<Batch>, declared: Option<Schema> },
}

/// The error for an answer of the storage engine that ends the attempt.
pub open spec fn probe_error(probe: DataProbe) -> Option<AppErrorView> {
    match probe {
        DataProbe::DatasetUnavailable { detail } => Some(
            AppErrorView {
                category: ErrorCategory::OpenFailed,
                message: "Unable to open LanceDB dataset"@,
                detail: Some(detail@),
            },
        ),
        DataProbe::TableUnavailable { detail } => Some(
            AppErrorView {
                category: ErrorCategory::MetadataUnavailable,
                message: "Unable to open table"@,
                detail: Some(detail@),
            },
        ),
        DataProbe::QueryFailed { detail } => Some(
            AppErrorView {
                category: ErrorCategory::Unknown,
                message: "Query failed"@,
                detail: Some(detail@),
            },
        ),
        DataProbe::BatchFailed { detail } => Some(
            AppErrorView {
                category: ErrorCategory::Unknown,
                message: "Batch error"@,
                detail: Some(detail@),
            },
        ),
        DataProbe::Fetched { .. } => None,
    }
}

/// The message of the error with which turning the batches into rows fails,
/// where it fails: that of the step that fails.
pub open spec fn failing_message(batches: Seq<Batch>) -> Seq<char> {
    if !all_writable(batches) {
        "JSON write error"@
    } else if !valid_utf8(array_text(all_rows(batches))) {
        "UTF8 conversion error"@
    } else {
        "JSON parse error"@
    }
}

/// The error with which turning the batches into rows fails: of unknown
/// category, with the message of the step that fails and a detail.
pub open spec fn is_rows_error(batches: Seq<Batch>, error: AppErrorView) -> bool {
    &&& error.category == ErrorCategory::Unknown
    &&& error.message == failing_message(batches)
    &&& error.detail is Some
}

/// A sample of a table's rows, from what reading the table yielded: the error
/// of the first step that failed; else, where the batches can be turned into
/// rows, the table's row count, or zero where it is unknown, the names of the
/// columns, and the rows of all batches in the order in which they came; and
/// where they cannot, the error of the step at which that fails.
pub fn get_table_data(probe: DataProbe) -> (result: Result<TableData, AppError>)
    ensures
        match probe {
            DataProbe::Fetched { row_count, batches, declared } => match result {
                Ok(data) => {
                    &&& rows_owed(batches@)
                    &&& data.total_rows == reported_total(row_count)
                    &&& data@.columns == sampled_columns(batches@, declared)
                    &&& rows_read_back(batches@) == Some(data.rows@)
                },
                Err(error) => !rows_owed(batches@) && is_rows_error(batches@, error@),
            },
            _ => result is Err && Some(result->Err_0@) == probe_error(probe),
        },
{
    match probe {
        DataProbe::DatasetUnavailable { detail } => Err(
            AppError::new(
                ErrorCategory::OpenFailed,
                "Unable to open LanceDB dataset",
                Some(detail),
            ),
        ),
        DataProbe::TableUnavailable { detail } => Err(
            AppError::new(ErrorCategory::MetadataUnavailable, "Unable to open table", Some(detail)),
        ),
        DataProbe::QueryFailed { detail } => Err(
            AppError::new(ErrorCategory::Unknown, "Query failed", Some(detail)),
        ),
        DataProbe::BatchFailed { detail } => Err(
            AppError::new(ErrorCategory::Unknown, "Batch error", Some(detail)),
        ),
        DataProbe::Fetched { row_count, batches, declared } => {
            let columns = sample_columns(&batches, &declared);
            let rows = rows_of(&batches);
            table_data_from(row_count, columns, rows)
        },
    }
}

} // verus!
