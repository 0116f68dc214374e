//! The records that the viewer hands to its callers, with their mathematical views.

use vstd::prelude::*;

verus! {

/// One column of a table's schema.
#[derive(Debug, Clone)]
pub struct FieldInfo {
    pub name: String,
    pub data_type: String,
    pub is_vector: bool,
    pub dimension: Option<usize>,
}

pub ghost struct FieldInfoView {
    pub name: Seq<char>,
    pub data_type: Seq<char>,
    pub is_vector: bool,
    pub dimension: Option<usize>,
}

impl View for FieldInfo {
    type V = FieldInfoView;

    open spec fn view(&self) -> FieldInfoView {
        FieldInfoView {
            name: self.name@,
            data_type: self.data_type@,
            is_vector: self.is_vector,
            dimension: self.dimension,
        }
    }
}

/// What a scan reports of one discovered table.
#[derive(Debug, Clone)]
pub struct TableSummary {
    pub db_path: String,
    pub table_name: String,
    pub row_count: Option<u64>,
    pub has_vector: bool,
    pub vector_dimension: Option<usize>,
}

pub ghost struct TableSummaryView {
    pub db_path: Seq<char>,
    pub table_name: Seq<char>,
    pub row_count: Option<u64>,
    pub has_vector: bool,
    pub vector_dimension: Option<usize>,
}

impl View for TableSummary {
    type V = TableSummaryView;

    open spec fn view(&self) -> TableSummaryView {
        TableSummaryView {
            db_path: self.db_path@,
            table_name: self.table_name@,
            row_count: self.row_count,
            has_vector: self.has_vector,
            vector_dimension: self.vector_dimension,
        }
    }
}

impl TableSummaryView {
    /// The summary hangs together: a table has a dimension only where it has a
    /// vector.
    pub open spec fn well_formed(self) -> bool {
        !self.has_vector ==> self.vector_dimension is None
    }
}

/// A table's summary together with its columns, in schema order.
#[derive(Debug, Clone)]
pub struct TableDetails {
    pub db_path: String,
    pub table_name: String,
    pub row_count: Option<u64>,
    pub has_vector: bool,
    pub vector_dimension: Option<usize>,
    pub schema_fields: Vec<FieldInfo>,
}

pub ghost struct TableDetailsView {
    pub db_path: Seq<char>,
    pub table_name: Seq<char>,
    pub row_count: Option<u64>,
    pub has_vector: bool,
    pub vector_dimension: Option<usize>,
    pub schema_fields: Seq<FieldInfoView>,
}

impl View for TableDetails {
    type V = TableDetailsView;

    open spec fn view(&self) -> TableDetailsView {
        TableDetailsView {
            db_path: self.db_path@,
            table_name: self.table_name@,
            row_count: self.row_count,
            has_vector: self.has_vector,
            vector_dimension: self.vector_dimension,
            schema_fields: self.schema_fields@.map_values(|f: FieldInfo| f@),
        }
    }
}

impl TableDetailsView {
    /// The details hang together: the table has a vector exactly when one of its
    /// columns is a vector column, it has a dimension only where it has a
    /// vector, and every column reports the dimension of the table.
    pub open spec fn well_formed(self) -> bool {
        &&& self.has_vector <==> exists|i: int|
            0 <= i < self.schema_fields.len() && (#[trigger] self.schema_fields[i]).is_vector
        &&& !self.has_vector ==> self.vector_dimension is None
        &&& forall|i: int|
            0 <= i < self.schema_fields.len() ==> (#[trigger] self.schema_fields[i]).dimension
                == self.vector_dimension
    }

    /// The summary of these details: everything but the columns.
    pub open spec fn summary(self) -> TableSummaryView {
        TableSummaryView {
            db_path: self.db_path,
            table_name: self.table_name,
            row_count: self.row_count,
            has_vector: self.has_vector,
            vector_dimension: self.vector_dimension,
        }
    }
}

impl TableDetails {
    /// Drops the columns and keeps the rest.
    pub fn into_summary(self) -> (summary: TableSummary)
        ensures
            summary@ == self@.summary(),
            self@.well_formed() ==> summary@.well_formed(),
    {
        TableSummary {
            db_path: self.db_path,
            table_name: self.table_name,
            row_count: self.row_count,
            has_vector: self.has_vector,
            vector_dimension: self.vector_dimension,
        }
    }
}

/// The tables found by a scan and the warnings gathered on the way.
#[derive(Debug, Clone)]
pub struct ScanResult {
    pub tables: Vec<TableSummary>,
    pub warnings: Vec<String>,
}

pub ghost struct ScanResultView {
    pub tables: Seq<TableSummaryView>,
    pub warnings: Seq<Seq<char>>,
}

impl View for ScanResult {
    type V = ScanResultView;

    open spec fn view(&self) -> ScanResultView {
        ScanResultView {
            tables: self.tables@.map_values(|t: TableSummary| t@),
            warnings: self.warnings@.map_values(|w: String| w@),
        }
    }
}

/// Why an operation failed.
#[derive(Debug, Clone, Copy, PartialEq, Eq, Structural)]
pub enum ErrorCategory {
    InvalidPath,
    PermissionDenied,
    OpenFailed,
    MetadataUnavailable,
    Unknown,
}

/// A failure with its category, a fixed message and the underlying detail.
#[derive(Debug, Clone)]
pub struct AppError {
    pub category: ErrorCategory,
    pub message: String,
    pub detail: Option<String>,
}

pub ghost struct AppErrorView {
    pub category: ErrorCategory,
    pub message: Seq<char>,
    pub detail: Option<Seq<char>>,
}

/// The view of an optional string.
pub open spec fn opt_text(s: Option<String>) -> Option<Seq<char>> {
    match s {
        Some(t) => Some(t@),
        None => None,
    }
}

impl View for AppError {
    type V = AppErrorView;

    open spec fn view(&self) -> AppErrorView {
        AppErrorView {
            category: self.category,
            message: self.message@,
            detail: opt_text(self.detail),
        }
    }
}

impl AppError {
    pub fn new(category: ErrorCategory, message: &str, detail: Option<String>) -> (err: AppError)
        ensures
            err@ == (AppErrorView { category, message: message@, detail: opt_text(detail) }),
    {
        AppError { category, message: message.to_owned(), detail }
    }
}

/// A sample of a table's rows: the number of rows the table reports, the names
/// of the columns, and the rows as generic values.
#[derive(Debug, Clone)]
pub struct TableData {
    pub total_rows: usize,
    pub columns: Vec<String>,
    pub rows: Vec<serde_json::Value>,
}

pub ghost struct TableDataView {
    pub total_rows: usize,
    pub columns: Seq<Seq<char>>,
    pub rows: Seq<serde_json::Value>,
}

impl View for TableData {
    type V = TableDataView;

    open spec fn view(&self) -> TableDataView {
        TableDataView {
            total_rows: self.total_rows,
            columns: self.columns@.map_values(|c: String| c@),
            rows: self.rows@,
        }
    }
}

} // verus!
