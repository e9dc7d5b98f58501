//! Arrow columns: what the marshalling code takes from the `arrow` crates.
//!
//! Types, fields, schemas, columns and record batches are opaque here. Each has a
//! model ([`TypeView`], [`FieldView`], [`Cells`]): a column is its type and its cells,
//! one by one. The calls that make and read them are stated over those models.
use arrow_array::cast::AsArray;
use arrow_array::types::Int16Type;
use arrow_array::types::Int32Type;
use arrow_array::types::Int64Type;
use arrow_array::types::Int8Type;
use arrow_array::types::UInt16Type;
use arrow_array::types::UInt32Type;
use arrow_array::types::UInt64Type;
use arrow_array::types::UInt8Type;
use arrow_array::Array;
use arrow_array::ArrayRef;
use arrow_array::RecordBatch;
use arrow_schema::DataType;
use arrow_schema::Field;
use arrow_schema::Schema;
use std::sync::Arc;
use vstd::prelude::*;
use vstd::utf8::encode_utf8;

verus! {

/// An Arrow data type.
#[verifier::external_type_specification]
#[verifier::external_body]
pub struct ExDataType(arrow_schema::DataType);

/// A named, typed field of a schema or a struct.
#[verifier::external_type_specification]
#[verifier::external_body]
pub struct ExField(arrow_schema::Field);

/// The fields of a record batch.
#[verifier::external_type_specification]
#[verifier::external_body]
pub struct ExSchema(arrow_schema::Schema);

/// An Arrow array of any type.
#[verifier::external_body]
pub struct Column {
    pub array: ArrayRef,
}

/// Columns of one length under a schema.
#[verifier::external_body]
pub struct Batch {
    pub batch: RecordBatch,
}

/// A data type. Types that no code here tells apart are `Other`.
pub enum TypeView {
    UInt8,
    UInt16,
    UInt32,
    UInt64,
    Int8,
    Int16,
    Int32,
    Int64,
    Boolean,
    Utf8,
    LargeUtf8,
    Binary,
    LargeBinary,
    TimestampMicros,
    FixedSizeBinary(int),
    List(Box<FieldView>),
    LargeList(Box<FieldView>),
    Struct(Seq<FieldView>),
    Other,
}

/// A field: its name, type, whether it may be null, and its metadata.
pub struct FieldView {
    pub name: Seq<char>,
    pub ty: TypeView,
    pub nullable: bool,
    pub metadata: Map<Seq<char>, Seq<char>>,
}

/// The cells of a column; `None` is a null cell. A list or struct column has a value
/// in every slot, and marks which slots are valid.
pub enum Cells {
    UInt8(Seq<Option<u8>>),
    UInt16(Seq<Option<u16>>),
    UInt32(Seq<Option<u32>>),
    UInt64(Seq<Option<u64>>),
    Int8(Seq<Option<i8>>),
    Int16(Seq<Option<i16>>),
    Int32(Seq<Option<i32>>),
    Int64(Seq<Option<i64>>),
    Boolean(Seq<Option<bool>>),
    Utf8(Seq<Option<Seq<char>>>),
    LargeUtf8(Seq<Option<Seq<char>>>),
    Binary(Seq<Option<Seq<u8>>>),
    LargeBinary(Seq<Option<Seq<u8>>>),
    TimestampMicros(Seq<Option<i64>>),
    FixedSizeBinary(int, Seq<Option<Seq<u8>>>),
    List { item: FieldView, slots: Seq<Cells>, valid: Seq<bool> },
    LargeList { item: FieldView, slots: Seq<Cells>, valid: Seq<bool> },
    Struct { fields: Seq<FieldView>, children: Seq<Cells>, valid: Seq<bool> },
    Other { valid: Seq<bool> },
}

/// Which cells are not null.
pub open spec fn somes<T>(cells: Seq<Option<T>>) -> Seq<bool> {
    cells.map_values(|c: Option<T>| c is Some)
}

/// Which cells of a column are not null.
pub open spec fn validity(cells: Cells) -> Seq<bool> {
    match cells {
        Cells::UInt8(c) => somes(c),
        Cells::UInt16(c) => somes(c),
        Cells::UInt32(c) => somes(c),
        Cells::UInt64(c) => somes(c),
        Cells::Int8(c) => somes(c),
        Cells::Int16(c) => somes(c),
        Cells::Int32(c) => somes(c),
        Cells::Int64(c) => somes(c),
        Cells::Boolean(c) => somes(c),
        Cells::Utf8(c) => somes(c),
        Cells::LargeUtf8(c) => somes(c),
        Cells::Binary(c) => somes(c),
        Cells::LargeBinary(c) => somes(c),
        Cells::TimestampMicros(c) => somes(c),
        Cells::FixedSizeBinary(_, c) => somes(c),
        Cells::List { valid, .. } => valid,
        Cells::LargeList { valid, .. } => valid,
        Cells::Struct { valid, .. } => valid,
        Cells::Other { valid } => valid,
    }
}

/// The number of cells of a column.
pub open spec fn cell_count(cells: Cells) -> nat {
    validity(cells).len()
}

/// The type of a column.
pub open spec fn cells_type(cells: Cells) -> TypeView {
    match cells {
        Cells::UInt8(_) => TypeView::UInt8,
        Cells::UInt16(_) => TypeView::UInt16,
        Cells::UInt32(_) => TypeView::UInt32,
        Cells::UInt64(_) => TypeView::UInt64,
        Cells::Int8(_) => TypeView::Int8,
        Cells::Int16(_) => TypeView::Int16,
        Cells::Int32(_) => TypeView::Int32,
        Cells::Int64(_) => TypeView::Int64,
        Cells::Boolean(_) => TypeView::Boolean,
        Cells::Utf8(_) => TypeView::Utf8,
        Cells::LargeUtf8(_) => TypeView::LargeUtf8,
        Cells::Binary(_) => TypeView::Binary,
        Cells::LargeBinary(_) => TypeView::LargeBinary,
        Cells::TimestampMicros(_) => TypeView::TimestampMicros,
        Cells::FixedSizeBinary(n, _) => TypeView::FixedSizeBinary(n),
        Cells::List { item, .. } => TypeView::List(Box::new(item)),
        Cells::LargeList { item, .. } => TypeView::LargeList(Box::new(item)),
        Cells::Struct { fields, .. } => TypeView::Struct(fields),
        Cells::Other { .. } => TypeView::Other,
    }
}

/// Whether a type is told apart by the model, all the way down.
pub open spec fn is_known(ty: TypeView) -> bool
    decreases ty,
{
    match ty {
        TypeView::Other => false,
        TypeView::List(item) => is_known(item.ty),
        TypeView::LargeList(item) => is_known(item.ty),
        TypeView::Struct(fields) => forall|i: int|
            0 <= i < fields.len() ==> is_known(#[trigger] fields[i].ty),
        _ => true,
    }
}

/// The model of a data type.
pub uninterp spec fn type_view(ty: DataType) -> TypeView;

/// The model of a field.
pub uninterp spec fn field_view(field: Field) -> FieldView;

/// The models of a schema's fields.
pub uninterp spec fn schema_view(schema: Schema) -> Seq<FieldView>;

/// The cells of a column.
pub uninterp spec fn column_cells(column: Column) -> Cells;

/// The cells of a record batch's columns.
pub uninterp spec fn batch_cells(batch: Batch) -> Seq<Cells>;

/// The number of rows of a record batch.
pub uninterp spec fn batch_len(batch: Batch) -> nat;

/// The models of a list of fields.
pub open spec fn field_views(fields: Seq<Field>) -> Seq<FieldView> {
    fields.map_values(|f: Field| field_view(f))
}

/// The cells of a list of columns.
pub open spec fn columns_cells(columns: Seq<Column>) -> Seq<Cells> {
    columns.map_values(|c: Column| column_cells(c))
}

/// The item field that a list type has by default.
pub open spec fn list_item(ty: TypeView) -> FieldView {
    FieldView { name: "item"@, ty, nullable: true, metadata: Map::empty() }
}

/// The flat types that fields are made of.
#[derive(Debug, Clone, Copy, PartialEq, Eq, Structural)]
pub enum FlatType {
    UInt8,
    UInt16,
    UInt32,
    Int64,
    Boolean,
    Utf8,
    /// A timestamp in microseconds, without a time zone.
    TimestampMicros,
    /// Sixteen bytes.
    Bytes16,
}

/// The model of a flat type.
pub open spec fn flat_view(ty: FlatType) -> TypeView {
    match ty {
        FlatType::UInt8 => TypeView::UInt8,
        FlatType::UInt16 => TypeView::UInt16,
        FlatType::UInt32 => TypeView::UInt32,
        FlatType::Int64 => TypeView::Int64,
        FlatType::Boolean => TypeView::Boolean,
        FlatType::Utf8 => TypeView::Utf8,
        FlatType::TimestampMicros => TypeView::TimestampMicros,
        FlatType::Bytes16 => TypeView::FixedSizeBinary(16),
    }
}

/// The `arrow_schema::DataType` of a flat type.
#[verifier::external_body]
pub(crate) fn flat_type(ty: FlatType) -> (out: DataType)
    ensures
        type_view(out) == flat_view(ty),
{
    match ty {
        FlatType::UInt8 => DataType::UInt8,
        FlatType::UInt16 => DataType::UInt16,
        FlatType::UInt32 => DataType::UInt32,
        FlatType::Int64 => DataType::Int64,
        FlatType::Boolean => DataType::Boolean,
        FlatType::Utf8 => DataType::Utf8,
        FlatType::TimestampMicros => DataType::Timestamp(arrow_schema::TimeUnit::Microsecond, None),
        FlatType::Bytes16 => DataType::FixedSizeBinary(16),
    }
}

/// `DataType::List` of `Field::new_list_field`: a list whose items may be null.
#[verifier::external_body]
pub(crate) fn list_type(item: DataType) -> (out: DataType)
    ensures
        type_view(out) == TypeView::List(Box::new(list_item(type_view(item)))),
{
    DataType::List(Arc::new(Field::new_list_field(item, true)))
}

/// `DataType::Struct` of the given fields.
#[verifier::external_body]
pub(crate) fn struct_type(fields: Vec<Field>) -> (out: DataType)
    ensures
        type_view(out) == TypeView::Struct(field_views(fields@)),
{
    DataType::Struct(arrow_schema::Fields::from(fields))
}

/// `Field::new`: a field without metadata.
#[verifier::external_body]
pub(crate) fn new_field(name: &str, ty: DataType, nullable: bool) -> (field: Field)
    ensures
        field_view(field) == (FieldView {
            name: name@,
            ty: type_view(ty),
            nullable,
            metadata: Map::empty(),
        }),
{
    Field::new(name, ty, nullable)
}

/// The map that a list of pairs makes: of two pairs with one key, the later counts.
pub open spec fn pairs_map(pairs: Seq<(String, String)>) -> Map<Seq<char>, Seq<char>>
    decreases pairs.len(),
{
    if pairs.len() == 0 {
        Map::empty()
    } else {
        pairs_map(pairs.drop_last()).insert(pairs.last().0@, pairs.last().1@)
    }
}

/// `Field::with_metadata`: the field with its metadata replaced.
#[verifier::external_body]
pub(crate) fn with_metadata(field: Field, metadata: Vec<(String, String)>) -> (out: Field)
    ensures
        field_view(out) == (FieldView { metadata: pairs_map(metadata@), ..field_view(field) }),
{
    field.with_metadata(metadata.into_iter().collect())
}

/// `Schema::new`: a schema of the given fields.
#[verifier::external_body]
pub(crate) fn new_schema(fields: Vec<Field>) -> (schema: Schema)
    ensures
        schema_view(schema) == field_views(fields@),
{
    Schema::new(fields)
}

/// `UInt8Array::from`.
#[verifier::external_body]
pub(crate) fn u8_column(values: Vec<Option<u8>>) -> (column: Column)
    ensures
        column_cells(column) == Cells::UInt8(values@),
{
    Column { array: Arc::new(arrow_array::UInt8Array::from(values)) }
}

/// `UInt16Array::from`.
#[verifier::external_body]
pub(crate) fn u16_column(values: Vec<Option<u16>>) -> (column: Column)
    ensures
        column_cells(column) == Cells::UInt16(values@),
{
    Column { array: Arc::new(arrow_array::UInt16Array::from(values)) }
}

/// `UInt32Array::from`.
#[verifier::external_body]
pub(crate) fn u32_column(values: Vec<Option<u32>>) -> (column: Column)
    ensures
        column_cells(column) == Cells::UInt32(values@),
{
    Column { array: Arc::new(arrow_array::UInt32Array::from(values)) }
}

/// `Int64Array::from`.
#[verifier::external_body]
pub(crate) fn i64_column(values: Vec<Option<i64>>) -> (column: Column)
    ensures
        column_cells(column) == Cells::Int64(values@),
{
    Column { array: Arc::new(arrow_array::Int64Array::from(values)) }
}

/// `TimestampMicrosecondArray::from`, without a time zone.
#[verifier::external_body]
pub(crate) fn micros_column(values: Vec<Option<i64>>) -> (column: Column)
    ensures
        column_cells(column) == Cells::TimestampMicros(values@),
{
    Column { array: Arc::new(arrow_array::TimestampMicrosecondArray::from(values)) }
}

/// `BooleanArray::from`.
#[verifier::external_body]
pub(crate) fn bool_column(values: Vec<Option<bool>>) -> (column: Column)
    ensures
        column_cells(column) == Cells::Boolean(values@),
{
    Column { array: Arc::new(arrow_array::BooleanArray::from(values)) }
}

/// Optional strings, by their views.
pub open spec fn opt_texts(values: Seq<Option<String>>) -> Seq<Option<Seq<char>>> {
    values.map_values(|t: Option<String>| crate::decode::text_view(t))
}

/// The number of bytes of optional strings, taken together.
pub open spec fn text_bytes(values: Seq<Option<Seq<char>>>) -> nat
    decreases values.len(),
{
    if values.len() == 0 {
        0
    } else {
        text_bytes(values.drop_last()) + match values.last() {
            Some(t) => encode_utf8(t).len(),
            None => 0,
        }
    }
}

/// `StringArray::from`. Its offsets are 32-bit, so the strings together must not be
/// longer.
#[verifier::external_body]
pub(crate) fn text_column(values: Vec<Option<String>>) -> (column: Column)
    requires
        text_bytes(opt_texts(values@)) <= i32::MAX,
    ensures
        column_cells(column) == Cells::Utf8(opt_texts(values@)),
{
    Column { array: Arc::new(arrow_array::StringArray::from(values)) }
}

/// The cells of a column of sixteen-byte values.
pub open spec fn byte_cells(values: Seq<[u8; 16]>) -> Seq<Option<Seq<u8>>> {
    values.map_values(|v: [u8; 16]| Some(v@))
}

/// `FixedSizeBinaryArray::new` with a width of sixteen and no nulls.
#[verifier::external_body]
pub(crate) fn bytes16_column(values: Vec<[u8; 16]>) -> (column: Column)
    ensures
        column_cells(column) == Cells::FixedSizeBinary(16, byte_cells(values@)),
{
    let buffer = arrow_buffer::Buffer::from(values.as_flattened());
    Column { array: Arc::new(arrow_array::FixedSizeBinaryArray::new(16, buffer, None)) }
}

/// The number of items of optional lists, taken together.
pub open spec fn item_count<T>(values: Seq<Option<Seq<T>>>) -> nat
    decreases values.len(),
{
    if values.len() == 0 {
        0
    } else {
        item_count(values.drop_last()) + match values.last() {
            Some(items) => items.len(),
            None => 0,
        }
    }
}

/// Optional lists of numbers, by their views.
pub open spec fn opt_paths(values: Seq<Option<Vec<u32>>>) -> Seq<Option<Seq<u32>>> {
    values.map_values(|p: Option<Vec<u32>>| crate::mrt::path_view(p))
}

/// Every item present.
pub open spec fn all_some<T>(items: Seq<T>) -> Seq<Option<T>> {
    items.map_values(|x: T| Some(x))
}

/// The cells of a `LIST(UINTEGER)` column; a null list is an empty slot.
pub open spec fn u32_list_cells(values: Seq<Option<Seq<u32>>>) -> Cells {
    Cells::List {
        item: list_item(TypeView::UInt32),
        slots: values.map_values(
            |p: Option<Seq<u32>>|
                Cells::UInt32(
                    match p {
                        Some(items) => all_some(items),
                        None => Seq::empty(),
                    },
                ),
        ),
        valid: somes(values),
    }
}

/// `ListArray::from_iter_primitive` over 32-bit unsigned items, none of them null. Its
/// offsets are 32-bit, so there must not be more items.
#[verifier::external_body]
pub(crate) fn u32_list_column(values: Vec<Option<Vec<u32>>>) -> (column: Column)
    requires
        item_count(opt_paths(values@)) <= i32::MAX,
    ensures
        column_cells(column) == u32_list_cells(opt_paths(values@)),
{
    let rows = values.into_iter().map(|row| row.map(|items| items.into_iter().map(Some)));
    Column { array: Arc::new(arrow_array::ListArray::from_iter_primitive::<UInt32Type, _, _>(rows)) }
}

/// Optional lists of strings, by their views.
pub open spec fn opt_text_lists(values: Seq<Option<Vec<String>>>) -> Seq<Option<Seq<Seq<char>>>> {
    values.map_values(|t: Option<Vec<String>>| crate::mrt::texts_view(t))
}

/// The strings of optional lists, one list after the other.
pub open spec fn all_texts(values: Seq<Option<Seq<Seq<char>>>>) -> Seq<Option<Seq<char>>>
    decreases values.len(),
{
    if values.len() == 0 {
        Seq::empty()
    } else {
        all_texts(values.drop_last()) + match values.last() {
            Some(items) => all_some(items),
            None => Seq::empty(),
        }
    }
}

/// The cells of a `LIST(VARCHAR)` column; a null list is an empty slot.
pub open spec fn text_list_cells(values: Seq<Option<Seq<Seq<char>>>>) -> Cells {
    Cells::List {
        item: list_item(TypeView::Utf8),
        slots: values.map_values(
            |t: Option<Seq<Seq<char>>>|
                Cells::Utf8(
                    match t {
                        Some(items) => all_some(items),
                        None => Seq::empty(),
                    },
                ),
        ),
        valid: somes(values),
    }
}

/// `ListArray::from_nested_iter` over strings, none of them null. Its offsets are
/// 32-bit, so there must not be more strings, nor more bytes in them.
#[verifier::external_body]
pub(crate) fn text_list_column(values: Vec<Option<Vec<String>>>) -> (column: Column)
    requires
        item_count(opt_text_lists(values@)) <= i32::MAX,
        text_bytes(all_texts(opt_text_lists(values@))) <= i32::MAX,
    ensures
        column_cells(column) == text_list_cells(opt_text_lists(values@)),
{
    let rows = values.into_iter().map(|row| row.map(|items| items.into_iter().map(Some)));
    let array = arrow_array::ListArray::from_nested_iter::<arrow_array::builder::StringBuilder, _, _, _>(rows);
    Column { array: Arc::new(array) }
}

/// Whether columns can be the children of a struct with the given fields: each has its
/// field's type and the struct's length, and no nulls where its field allows none.
pub open spec fn children_fit(fields: Seq<FieldView>, children: Seq<Cells>, len: nat) -> bool {
    &&& fields.len() == children.len()
    &&& children.len() > 0
    &&& forall|i: int|
        #![trigger children[i]]
        0 <= i < children.len() ==> {
            &&& cells_type(children[i]) == fields[i].ty
            &&& is_known(fields[i].ty)
            &&& cell_count(children[i]) == len
            &&& !fields[i].nullable ==> !validity(children[i]).contains(false)
        }
}

/// `StructArray::new` with a null buffer.
#[verifier::external_body]
pub(crate) fn struct_column(
    fields: Vec<Field>,
    children: Vec<Column>,
    valid: Vec<bool>,
) -> (column: Column)
    requires
        children_fit(field_views(fields@), columns_cells(children@), valid@.len()),
    ensures
        column_cells(column) == (Cells::Struct {
            fields: field_views(fields@),
            children: columns_cells(children@),
            valid: valid@,
        }),
{
    let arrays = children.into_iter().map(|c| c.array).collect();
    let nulls = arrow_buffer::NullBuffer::from(valid);
    Column { array: Arc::new(arrow_array::StructArray::new(fields.into(), arrays, Some(nulls))) }
}

/// Whether columns can be a record batch under a schema: each has its field's type,
/// all have one length, there is at least one, and none has nulls where its field
/// allows none.
pub open spec fn batch_fits(schema: Seq<FieldView>, columns: Seq<Cells>) -> bool {
    &&& schema.len() == columns.len()
    &&& columns.len() > 0
    &&& forall|i: int|
        #![trigger columns[i]]
        0 <= i < columns.len() ==> {
            &&& cells_type(columns[i]) == schema[i].ty
            &&& cell_count(columns[i]) == cell_count(columns[0])
            &&& !schema[i].nullable ==> !validity(columns[i]).contains(false)
        }
}

/// Whether the types of all columns are told apart by the model.
pub open spec fn all_known(columns: Seq<Cells>) -> bool {
    forall|i: int| 0 <= i < columns.len() ==> is_known(cells_type(#[trigger] columns[i]))
}

/// `RecordBatch::try_new`: columns that fit the schema become a batch, others are
/// refused. The wording of the refusal is left open.
#[verifier::external_body]
pub(crate) fn new_batch(schema: &Arc<Schema>, columns: Vec<Column>) -> (out: Result<
    Batch,
    String,
>)
    ensures
        all_known(columns_cells(columns@)) ==> (out is Ok <==> batch_fits(
            schema_view(**schema),
            columns_cells(columns@),
        )),
        out is Ok ==> batch_cells(out->Ok_0) == columns_cells(columns@),
        out is Ok ==> columns@.len() > 0 && batch_len(out->Ok_0) == cell_count(
            column_cells(columns@[0]),
        ),
{
    let arrays = columns.into_iter().map(|c| c.array).collect();
    let made = RecordBatch::try_new(schema.clone(), arrays);
    made.map(|batch| Batch { batch }).map_err(|e| e.to_string())
}

/// `RecordBatch::num_rows`, which is the length of every column.
#[verifier::external_body]
pub(crate) fn row_count(batch: &Batch) -> (n: usize)
    ensures
        n == batch_len(*batch),
        forall|i: int|
            0 <= i < batch_cells(*batch).len() ==> cell_count(#[trigger] batch_cells(*batch)[i])
                == n,
{
    batch.batch.num_rows()
}

/// `RecordBatch::column`.
#[verifier::external_body]
pub(crate) fn column_at(batch: &Batch, i: usize) -> (column: Column)
    requires
        i < batch_cells(*batch).len(),
    ensures
        column_cells(column) == batch_cells(*batch)[i as int],
{
    Column { array: batch.batch.column(i).clone() }
}

/// `Array::len`.
#[verifier::external_body]
pub(crate) fn column_len(column: &Column) -> (n: usize)
    ensures
        n == cell_count(column_cells(*column)),
{
    column.array.len()
}

/// `Array::is_valid`.
#[verifier::external_body]
pub(crate) fn is_valid(column: &Column, i: usize) -> (yes: bool)
    requires
        i < cell_count(column_cells(*column)),
    ensures
        yes == validity(column_cells(*column))[i as int],
{
    column.array.is_valid(i)
}

/// The integer types.
#[derive(Debug, Clone, Copy, PartialEq, Eq, Structural)]
pub enum IntType {
    UInt8,
    UInt16,
    UInt32,
    UInt64,
    Int8,
    Int16,
    Int32,
    Int64,
}

/// The integer type of a column, if it has one.
pub open spec fn int_type_of(cells: Cells) -> Option<IntType> {
    match cells {
        Cells::UInt8(_) => Some(IntType::UInt8),
        Cells::UInt16(_) => Some(IntType::UInt16),
        Cells::UInt32(_) => Some(IntType::UInt32),
        Cells::UInt64(_) => Some(IntType::UInt64),
        Cells::Int8(_) => Some(IntType::Int8),
        Cells::Int16(_) => Some(IntType::Int16),
        Cells::Int32(_) => Some(IntType::Int32),
        Cells::Int64(_) => Some(IntType::Int64),
        _ => None,
    }
}

/// Cell `i` of an integer column; 0 for a null cell.
pub open spec fn int_at(cells: Cells, i: int) -> int {
    match cells {
        Cells::UInt8(c) => if c[i] is Some { c[i]->0 as int } else { 0 },
        Cells::UInt16(c) => if c[i] is Some { c[i]->0 as int } else { 0 },
        Cells::UInt32(c) => if c[i] is Some { c[i]->0 as int } else { 0 },
        Cells::UInt64(c) => if c[i] is Some { c[i]->0 as int } else { 0 },
        Cells::Int8(c) => if c[i] is Some { c[i]->0 as int } else { 0 },
        Cells::Int16(c) => if c[i] is Some { c[i]->0 as int } else { 0 },
        Cells::Int32(c) => if c[i] is Some { c[i]->0 as int } else { 0 },
        Cells::Int64(c) => if c[i] is Some { c[i]->0 as int } else { 0 },
        _ => 0,
    }
}

/// `Array::data_type`, as far as it is an integer type.
#[verifier::external_body]
pub(crate) fn int_type(column: &Column) -> (ty: Option<IntType>)
    ensures
        ty == int_type_of(column_cells(*column)),
{
    match column.array.data_type() {
        DataType::UInt8 => Some(IntType::UInt8),
        DataType::UInt16 => Some(IntType::UInt16),
        DataType::UInt32 => Some(IntType::UInt32),
        DataType::UInt64 => Some(IntType::UInt64),
        DataType::Int8 => Some(IntType::Int8),
        DataType::Int16 => Some(IntType::Int16),
        DataType::Int32 => Some(IntType::Int32),
        DataType::Int64 => Some(IntType::Int64),
        _ => None,
    }
}

/// `PrimitiveArray::value` of an unsigned integer column, widened.
#[verifier::external_body]
pub(crate) fn unsigned_at(column: &Column, ty: IntType, i: usize) -> (value: u64)
    requires
        int_type_of(column_cells(*column)) == Some(ty),
        ty == IntType::UInt8 || ty == IntType::UInt16 || ty == IntType::UInt32 || ty
            == IntType::UInt64,
        i < cell_count(column_cells(*column)),
        validity(column_cells(*column))[i as int],
    ensures
        value == int_at(column_cells(*column), i as int),
{
    match ty {
        IntType::UInt8 => column.array.as_primitive::<UInt8Type>().value(i).into(),
        IntType::UInt16 => column.array.as_primitive::<UInt16Type>().value(i).into(),
        IntType::UInt32 => column.array.as_primitive::<UInt32Type>().value(i).into(),
        _ => column.array.as_primitive::<UInt64Type>().value(i),
    }
}

/// `PrimitiveArray::value` of a signed integer column, widened.
#[verifier::external_body]
pub(crate) fn signed_at(column: &Column, ty: IntType, i: usize) -> (value: i64)
    requires
        int_type_of(column_cells(*column)) == Some(ty),
        ty == IntType::Int8 || ty == IntType::Int16 || ty == IntType::Int32 || ty
            == IntType::Int64,
        i < cell_count(column_cells(*column)),
        validity(column_cells(*column))[i as int],
    ensures
        value == int_at(column_cells(*column), i as int),
{
    match ty {
        IntType::Int8 => column.array.as_primitive::<Int8Type>().value(i).into(),
        IntType::Int16 => column.array.as_primitive::<Int16Type>().value(i).into(),
        IntType::Int32 => column.array.as_primitive::<Int32Type>().value(i).into(),
        _ => column.array.as_primitive::<Int64Type>().value(i),
    }
}

/// The cells of a string column of either offset width.
pub open spec fn text_cells(cells: Cells) -> Option<Seq<Option<Seq<char>>>> {
    match cells {
        Cells::Utf8(c) => Some(c),
        Cells::LargeUtf8(c) => Some(c),
        _ => None,
    }
}

/// `Array::data_type`, as far as it is a string type of either offset width.
#[verifier::external_body]
pub(crate) fn is_text(column: &Column) -> (yes: bool)
    ensures
        yes == (text_cells(column_cells(*column)) is Some),
{
    matches!(column.array.data_type(), DataType::Utf8 | DataType::LargeUtf8)
}

/// `GenericStringArray::value` of a string column of either offset width; `None` for
/// any other column.
#[verifier::external_body]
pub(crate) fn text_at(column: &Column, i: usize) -> (text: Option<&str>)
    requires
        i < cell_count(column_cells(*column)),
    ensures
        text is Some <==> text_cells(column_cells(*column)) is Some,
        text is Some && validity(column_cells(*column))[i as int] ==> text_cells(
            column_cells(*column),
        )->0[i as int] == Some(text->0@),
{
    match column.array.data_type() {
        DataType::Utf8 => Some(column.array.as_string::<i32>().value(i)),
        DataType::LargeUtf8 => Some(column.array.as_string::<i64>().value(i)),
        _ => None,
    }
}

/// The cells of a binary column of either offset width.
pub open spec fn binary_cells(cells: Cells) -> Option<Seq<Option<Seq<u8>>>> {
    match cells {
        Cells::Binary(c) => Some(c),
        Cells::LargeBinary(c) => Some(c),
        _ => None,
    }
}

/// `GenericBinaryArray::value` of a binary column of either offset width; `None` for
/// any other column.
#[verifier::external_body]
pub(crate) fn binary_at(column: &Column, i: usize) -> (bytes: Option<&[u8]>)
    requires
        i < cell_count(column_cells(*column)),
    ensures
        bytes is Some <==> binary_cells(column_cells(*column)) is Some,
        bytes is Some && validity(column_cells(*column))[i as int] ==> binary_cells(
            column_cells(*column),
        )->0[i as int] == Some(bytes->0@),
{
    match column.array.data_type() {
        DataType::Binary => Some(column.array.as_binary::<i32>().value(i)),
        DataType::LargeBinary => Some(column.array.as_binary::<i64>().value(i)),
        _ => None,
    }
}

/// The slots of a list column.
pub open spec fn list_slots(cells: Cells) -> Option<Seq<Cells>> {
    match cells {
        Cells::List { slots, .. } => Some(slots),
        _ => None,
    }
}

/// The slots of a list column with 64-bit offsets.
pub open spec fn large_list_slots(cells: Cells) -> Option<Seq<Cells>> {
    match cells {
        Cells::LargeList { slots, .. } => Some(slots),
        _ => None,
    }
}

/// `ListArray::value`: the items in slot `i` of a list column, valid or not; `None`
/// for any other column.
#[verifier::external_body]
pub(crate) fn list_at(column: &Column, i: usize) -> (items: Option<Column>)
    requires
        i < cell_count(column_cells(*column)),
    ensures
        items is Some <==> list_slots(column_cells(*column)) is Some,
        items is Some ==> column_cells(items->0) == list_slots(
            column_cells(*column),
        )->0[i as int],
{
    column.array.as_list_opt::<i32>().map(|list| Column { array: list.value(i) })
}

/// `LargeListArray::value`: the items in slot `i` of a list column with 64-bit offsets,
/// valid or not; `None` for any other column.
#[verifier::external_body]
pub(crate) fn large_list_at(column: &Column, i: usize) -> (items: Option<Column>)
    requires
        i < cell_count(column_cells(*column)),
    ensures
        items is Some <==> large_list_slots(column_cells(*column)) is Some,
        items is Some ==> column_cells(items->0) == large_list_slots(
            column_cells(*column),
        )->0[i as int],
{
    column.array.as_list_opt::<i64>().map(|list| Column { array: list.value(i) })
}

} // verus!
