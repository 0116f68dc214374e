//! The columns of a table schema, as the storage engine's schema type holds them.

use arrow::datatypes::Schema;
use vstd::prelude::*;

verus! {

/// `arrow::datatypes::Schema`, the declared schema of a table or of a batch. The
/// library reads it only through the functions of this module.
#[verifier::external_type_specification]
#[verifier::external_body]
pub struct ExSchema(Schema);

/// The columns of a schema in declared order: for each field its name and the
/// debug rendering of its data type.
pub uninterp spec fn schema_columns(schema: Schema) -> Seq<(Seq<char>, Seq<char>)>;

/// `Schema::fields` and the length of what it returns: the number of fields
/// that the schema declares, which is the number of its columns.
#[verifier::external_body]
fn schema_width(schema: &Schema) -> (n: usize)
    ensures
        n == schema_columns(*schema).len(),
{
    schema.fields().len()
}

/// `Schema::field` and `Field::name`: the name of the field at position `i`,
/// which is the name of the column there. `Schema::field` panics on a position
/// past the last field, which `requires` leaves out.
#[verifier::external_body]
fn schema_field_name(schema: &Schema, i: usize) -> (name: String)
    requires
        i < schema_columns(*schema).len(),
    ensures
        name@ == schema_columns(*schema)[i as int].0,
{
    schema.field(i).name().clone()
}

/// `Schema::field`, `Field::data_type` and the `Debug` rendering of the
/// `DataType`: the type descriptor of the field at position `i`, which is the
/// descriptor of the column there. The rendering depends on the data type
/// alone; what it looks like is the crate's matter and is not stated.
#[verifier::external_body]
fn schema_field_descriptor(schema: &Schema, i: usize) -> (text: String)
    requires
        i < schema_columns(*schema).len(),
    ensures
        text@ == schema_columns(*schema)[i as int].1,
{
    format!("{:?}", schema.field(i).data_type())
}

/// A column as the library holds it: its name and its type descriptor.
pub struct Column {
    pub name: String,
    pub data_type: String,
}

impl View for Column {
    type V = (Seq<char>, Seq<char>);

    open spec fn view(&self) -> (Seq<char>, Seq<char>) {
        (self.name@, self.data_type@)
    }
}

/// The views of a list of columns.
pub open spec fn columns_view(columns: Seq<Column>) -> Seq<(Seq<char>, Seq<char>)> {
    columns.map_values(|c: Column| c@)
}

/// The names of a list of columns.
pub open spec fn names_of(columns: Seq<(Seq<char>, Seq<char>)>) -> Seq<Seq<char>> {
    columns.map_values(|c: (Seq<char>, Seq<char>)| c.0)
}

/// Reads the columns of a schema, in declared order.
pub fn read_columns(schema: &Schema) -> (columns: Vec<Column>)
    ensures
        columns_view(columns@) == schema_columns(*schema),
{
    let n = schema_width(schema);
    let mut columns: Vec<Column> = Vec::new();
    let mut i: usize = 0;
    while i < n
        invariant
            n == schema_columns(*schema).len(),
            i <= n,
            columns@.len() == i,
            forall|k: int| 0 <= k < i ==> (#[trigger] columns@[k])@ == schema_columns(*schema)[k],
        decreases n - i,
    {
        let name = schema_field_name(schema, i);
        let data_type = schema_field_descriptor(schema, i);
        columns.push(Column { name, data_type });
        i += 1;
    }
    assert(columns_view(columns@) =~= schema_columns(*schema));
    columns
}

/// The names of the columns of a schema, in declared order.
pub fn column_names(schema: &Schema) -> (names: Vec<String>)
    ensures
        names@.map_values(|s: String| s@) == names_of(schema_columns(*schema)),
{
    let n = schema_width(schema);
    let mut names: Vec<String> = Vec::new();
    let mut i: usize = 0;
    while i < n
        invariant
            n == schema_columns(*schema).len(),
            i <= n,
            names@.len() == i,
            forall|k: int| 0 <= k < i ==> (#[trigger] names@[k])@ == schema_columns(*schema)[k].0,
        decreases n - i,
    {
        names.push(schema_field_name(schema, i));
        i += 1;
    }
    assert(names@.map_values(|s: String| s@) =~= names_of(schema_columns(*schema)));
    names
}

} // verus!
