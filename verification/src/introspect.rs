//! Table details from what opening a table yielded.

use crate::descriptor::{dimension_of, extract_dimension, is_vector_descriptor, is_vector_type};
use crate::models::{
    AppError, AppErrorView, ErrorCategory, FieldInfo, FieldInfoView, TableDetails,
    TableDetailsView,
};
use crate::schema::{columns_view, read_columns, schema_columns, Column};
use arrow::datatypes::Schema;
use vstd::prelude::*;

verus! {

/// What the storage engine answered when a table was opened for its metadata.
/// The steps are taken in the order of the variants, and the first that fails
/// ends the attempt; a row count that cannot be had does not.
pub enum TableProbe {
    /// The dataset could not be opened.
    DatasetUnavailable { detail: String },
    /// The dataset was opened, the table in it was not.
    TableUnavailable { detail: String },
    /// The table was opened, its schema could not be read.
    SchemaUnavailable { detail: String },
    /// The table was opened and its schema read.
    Ready { row_count: Option<usize>, schema: Schema },
}

/// The position of the first vector column at or after `start`.
pub open spec fn first_vector_from(columns: Seq<(Seq<char>, Seq<char>)>, start: int) -> Option<int>
    decreases columns.len() - start,
{
    if start < 0 || start >= columns.len() {
        None
    } else if is_vector_descriptor(columns[start].1) {
        Some(start)
    } else {
        first_vector_from(columns, start + 1)
    }
}

/// The position of the first vector column, in schema order.
pub open spec fn first_vector(columns: Seq<(Seq<char>, Seq<char>)>) -> Option<int> {
    first_vector_from(columns, 0)
}

/// The dimension of a table: that which the descriptor of its first vector
/// column encodes. Later vector columns have no say.
pub open spec fn vector_dimension_of(columns: Seq<(Seq<char>, Seq<char>)>) -> Option<usize> {
    match first_vector(columns) {
        Some(i) => dimension_of(columns[i].1),
        None => None,
    }
}

/// One record per column, in schema order. Every record carries the dimension of
/// the table, whichever column it describes.
pub open spec fn field_infos(columns: Seq<(Seq<char>, Seq<char>)>) -> Seq<FieldInfoView> {
    Seq::new(
        columns.len(),
        |i: int|
            FieldInfoView {
                name: columns[i].0,
                data_type: columns[i].1,
                is_vector: is_vector_descriptor(columns[i].1),
                dimension: vector_dimension_of(columns),
            },
    )
}

/// The row count as the details report it.
pub open spec fn reported_row_count(row_count: Option<usize>) -> Option<u64> {
    match row_count {
        Some(n) => Some(n as u64),
        None => None,
    }
}

/// The details of a table with the given columns.
pub open spec fn details_with(
    db_path: Seq<char>,
    table_name: Seq<char>,
    row_count: Option<usize>,
    columns: Seq<(Seq<char>, Seq<char>)>,
) -> TableDetailsView {
    TableDetailsView {
        db_path,
        table_name,
        row_count: reported_row_count(row_count),
        has_vector: first_vector(columns) is Some,
        vector_dimension: vector_dimension_of(columns),
        schema_fields: field_infos(columns),
    }
}

/// What `get_table_details` returns for each answer of the storage engine.
pub open spec fn details_of(db_path: Seq<char>, table_name: Seq<char>, probe: TableProbe) -> Result<
    TableDetailsView,
    AppErrorView,
> {
    match probe {
        TableProbe::DatasetUnavailable { detail } => Err(
            AppErrorView {
                category: ErrorCategory::OpenFailed,
                message: "Unable to open LanceDB dataset"@,
                detail: Some(detail@),
            },
        ),
        TableProbe::TableUnavailable { detail } => Err(
            AppErrorView {
                category: ErrorCategory::MetadataUnavailable,
                message: "Unable to open table"@,
                detail: Some(detail@),
            },
        ),
        TableProbe::SchemaUnavailable { detail } => Err(
            AppErrorView {
                category: ErrorCategory::MetadataUnavailable,
                message: "Unable to read schema"@,
                detail: Some(detail@),
            },
        ),
        TableProbe::Ready { row_count, schema } => Ok(
            details_with(db_path, table_name, row_count, schema_columns(schema)),
        ),
    }
}

/// The first vector column is a vector column, and none before it is one; where
/// there is none, no column is a vector column.
pub proof fn lemma_first_vector_from(columns: Seq<(Seq<char>, Seq<char>)>, start: int)
    requires
        0 <= start,
    ensures
        match first_vector_from(columns, start) {
            Some(i) => start <= i < columns.len() && is_vector_descriptor(columns[i].1)
                && forall|j: int| start <= j < i ==> !is_vector_descriptor(columns[j].1),
            None => forall|j: int|
                start <= j < columns.len() ==> !is_vector_descriptor(columns[j].1),
        },
    decreases columns.len() - start,
{
    if start < columns.len() && !is_vector_descriptor(columns[start].1) {
        lemma_first_vector_from(columns, start + 1);
    }
}

/// Columns that follow do not change which vector column is the first from
/// `start` on.
pub proof fn lemma_first_vector_from_extended(
    columns: Seq<(Seq<char>, Seq<char>)>,
    more: Seq<(Seq<char>, Seq<char>)>,
    start: int,
)
    requires
        0 <= start,
        first_vector_from(columns, start) is Some,
    ensures
        first_vector_from(columns + more, start) == first_vector_from(columns, start),
    decreases columns.len() - start,
{
    if start < columns.len() {
        assert((columns + more)[start] == columns[start]);
        if !is_vector_descriptor(columns[start].1) {
            lemma_first_vector_from_extended(columns, more, start + 1);
        }
    }
}

/// The first vector column wins: once a table has one, columns that follow
/// change neither that it has one nor its dimension.
pub proof fn lemma_first_vector_wins(
    columns: Seq<(Seq<char>, Seq<char>)>,
    more: Seq<(Seq<char>, Seq<char>)>,
)
    requires
        first_vector(columns) is Some,
    ensures
        first_vector(columns + more) == first_vector(columns),
        vector_dimension_of(columns + more) == vector_dimension_of(columns),
{
    lemma_first_vector_from_extended(columns, more, 0);
    lemma_first_vector_from(columns, 0);
    let i = first_vector(columns)->0;
    assert((columns + more)[i] == columns[i]);
}

/// The details of a table hang together, whatever its columns are.
pub proof fn lemma_details_well_formed(
    db_path: Seq<char>,
    table_name: Seq<char>,
    row_count: Option<usize>,
    columns: Seq<(Seq<char>, Seq<char>)>,
)
    ensures
        details_with(db_path, table_name, row_count, columns).well_formed(),
{
    let details = details_with(db_path, table_name, row_count, columns);
    lemma_first_vector_from(columns, 0);
    match first_vector(columns) {
        Some(i) => {
            assert(details.schema_fields[i].is_vector);
        },
        None => {
            assert forall|i: int| 0 <= i < details.schema_fields.len() implies !(
            #[trigger] details.schema_fields[i]).is_vector by {
                assert(!is_vector_descriptor(columns[i].1));
            }
        },
    }
}

/// Finds the first vector column and reads the dimension that it encodes.
pub fn find_vector(columns: &Vec<Column>) -> (found: (bool, Option<usize>))
    ensures
        found.0 == (first_vector(columns_view(columns@)) is Some),
        found.1 == vector_dimension_of(columns_view(columns@)),
{
    let ghost view = columns_view(columns@);
    let mut i: usize = 0;
    while i < columns.len()
        invariant
            i <= columns.len(),
            view == columns_view(columns@),
            first_vector(view) == first_vector_from(view, i as int),
        decreases columns.len() - i,
    {
        assert(view[i as int] == columns@[i as int]@);
        if is_vector_type(columns[i].data_type.as_str()) {
            return (true, extract_dimension(columns[i].data_type.as_str()));
        }
        i += 1;
    }
    (false, None)
}

/// Describes every column of a table, in schema order.
pub fn describe_columns(columns: &Vec<Column>) -> (described: (Vec<FieldInfo>, bool, Option<usize>))
    ensures
        described.0@.map_values(|f: FieldInfo| f@) == field_infos(columns_view(columns@)),
        described.1 == (first_vector(columns_view(columns@)) is Some),
        described.2 == vector_dimension_of(columns_view(columns@)),
{
    let ghost view = columns_view(columns@);
    let (has_vector, dimension) = find_vector(columns);
    let mut fields: Vec<FieldInfo> = Vec::new();
    let mut i: usize = 0;
    while i < columns.len()
        invariant
            i <= columns.len(),
            view == columns_view(columns@),
            dimension == vector_dimension_of(view),
            fields@.len() == i,
            forall|k: int| 0 <= k < i ==> (#[trigger] fields@[k])@ == field_infos(view)[k],
        decreases columns.len() - i,
    {
        assert(view[i as int] == columns@[i as int]@);
        let is_vector = is_vector_type(columns[i].data_type.as_str());
        fields.push(
            FieldInfo {
                name: columns[i].name.clone(),
                data_type: columns[i].data_type.clone(),
                is_vector,
                dimension,
            },
        );
        i += 1;
    }
    assert(fields@.map_values(|f: FieldInfo| f@) =~= field_infos(view));
    (fields, has_vector, dimension)
}

/// The details of a table, from what opening it yielded: an error for the first
/// step that failed, else the row count as far as it is known, the columns in
/// schema order, and the dimension of the first vector column.
pub fn get_table_details(db_path: &str, table_name: &str, probe: &TableProbe) -> (result: Result<
    TableDetails,
    AppError,
>)
    ensures
        match result {
            Ok(details) => details_of(db_path@, table_name@, *probe) == Ok::<
                TableDetailsView,
                AppErrorView,
            >(details@),
            Err(error) => details_of(db_path@, table_name@, *probe) == Err::<
                TableDetailsView,
                AppErrorView,
            >(error@),
        },
        result is Ok ==> result->Ok_0@.well_formed(),
{
    match probe {
        TableProbe::DatasetUnavailable { detail } => Err(
            AppError::new(
                ErrorCategory::OpenFailed,
                "Unable to open LanceDB dataset",
                Some(detail.clone()),
            ),
        ),
        TableProbe::TableUnavailable { detail } => Err(
            AppError::new(
                ErrorCategory::MetadataUnavailable,
                "Unable to open table",
                Some(detail.clone()),
            ),
        ),
        TableProbe::SchemaUnavailable { detail } => Err(
            AppError::new(
                ErrorCategory::MetadataUnavailable,
                "Unable to read schema",
                Some(detail.clone()),
            ),
        ),
        TableProbe::Ready { row_count, schema } => {
            let columns = read_columns(schema);
            let (fields, has_vector, vector_dimension) = describe_columns(&columns);
            proof {
                lemma_details_well_formed(
                    db_path@,
                    table_name@,
                    *row_count,
                    schema_columns(*schema),
                );
            }
            let row_count = match row_count {
                Some(n) => Some(*n as u64),
                None => None,
            };
            Ok(
                TableDetails {
                    db_path: db_path.to_owned(),
                    table_name: table_name.to_owned(),
                    row_count,
                    has_vector,
                    vector_dimension,
                    schema_fields: fields,
                },
            )
        },
    }
}

} // verus!
