//! Arrow marshalling: the DuckDB `INET` physical struct, the table output schemas,
//! row→batch builders, and the cell readers the scalar functions use.
//!
//! ## The `INET` columns
//!
//! `prefix`, `peer_ip`, and `next_hop` are emitted as DuckDB's internal `INET` layout —
//! an Arrow `STRUCT(ip_type: UInt8, address: FixedSizeBinary(16), mask: UInt16)` whose
//! `address` child carries the `arrow.opaque`/`hugeint` extension metadata so DuckDB
//! reads it as a `HUGEINT`. The resulting column is a zero-cost `::INET` cast away from
//! the native type. See [`crate::inet`] for the field encoding.
use crate::columns::all_known;
use crate::columns::all_some;
use crate::columns::all_texts;
use crate::columns::batch_fits;
use crate::columns::bool_column;
use crate::columns::bytes16_column;
use crate::columns::cell_count;
use crate::columns::column_cells;
use crate::columns::column_len;
use crate::columns::columns_cells;
use crate::columns::field_view;
use crate::columns::field_views;
use crate::columns::flat_type;
use crate::columns::int_at;
use crate::columns::int_type;
use crate::columns::int_type_of;
use crate::columns::is_known;
use crate::columns::is_valid;
use crate::columns::item_count;
use crate::columns::list_at;
use crate::columns::list_item;
use crate::columns::list_slots;
use crate::columns::list_type;
use crate::columns::micros_column;
use crate::columns::new_field;
use crate::columns::new_schema;
use crate::columns::opt_paths;
use crate::columns::opt_text_lists;
use crate::columns::opt_texts;
use crate::columns::pairs_map;
use crate::columns::schema_view;
use crate::columns::signed_at;
use crate::columns::somes;
use crate::columns::struct_column;
use crate::columns::struct_type;
use crate::columns::text_at;
use crate::columns::text_bytes;
use crate::columns::text_cells;
use crate::columns::text_column;
use crate::columns::text_list_cells;
use crate::columns::text_list_column;
use crate::columns::type_view;
use crate::columns::u16_column;
use crate::columns::u32_column;
use crate::columns::u32_list_cells;
use crate::columns::u32_list_column;
use crate::columns::u8_column;
use crate::columns::unsigned_at;
use crate::columns::validity;
use crate::columns::with_metadata;
use crate::columns::Cells;
use crate::columns::Column;
use crate::columns::FieldView;
use crate::columns::FlatType;
use crate::columns::IntType;
use crate::columns::TypeView;
use crate::decode::copy_text;
use crate::decode::failure_row;
use crate::decode::label_of;
use crate::decode::peer_views;
use crate::decode::row_views;
use crate::decode::text_view;
use crate::decode::MrtRow;
use crate::decode::PeerRow;
use crate::decode::PeerRowView;
use crate::decode::RowView;
use crate::inet::encode;
use crate::inet::encode_ip;
use crate::inet::inet_of;
use crate::inet::inet_of_host;
use crate::inet::InetVal;
use crate::inet::InetView;
use crate::inet::IpAddr;
use crate::mrt::path_view;
use crate::mrt::string_views;
use crate::mrt::texts_view;
use arrow_schema::DataType;
use arrow_schema::Field;
use arrow_schema::Schema;
use vstd::prelude::*;

verus! {

/// The metadata that makes DuckDB read a `FixedSizeBinary(16)` as a `HUGEINT`.
pub open spec fn hugeint_mark() -> Map<Seq<char>, Seq<char>> {
    Map::empty().insert("ARROW:extension:name"@, "arrow.opaque"@).insert(
        "ARROW:extension:metadata"@,
        "{\"type_name\":\"hugeint\",\"vendor_name\":\"DuckDB\"}"@,
    )
}

/// A field without metadata.
pub open spec fn plain_field(name: Seq<char>, ty: TypeView, nullable: bool) -> FieldView {
    FieldView { name, ty, nullable, metadata: Map::empty() }
}

/// The child fields of the `INET` struct.
pub open spec fn inet_fields() -> Seq<FieldView> {
    seq![
        plain_field("ip_type"@, TypeView::UInt8, false),
        FieldView {
            metadata: hugeint_mark(),
            ..plain_field("address"@, TypeView::FixedSizeBinary(16), false)
        },
        plain_field("mask"@, TypeView::UInt16, false),
    ]
}

/// The two field-metadata entries DuckDB needs to read a `FixedSizeBinary(16)` as a
/// `HUGEINT` (the `INET` `address` child).
pub fn hugeint_metadata() -> (metadata: Vec<(String, String)>)
    ensures
        pairs_map(metadata@) == hugeint_mark(),
        metadata@.len() == 2,
{
    let mut metadata: Vec<(String, String)> = Vec::new();
    assert(pairs_map(metadata@) == Map::<Seq<char>, Seq<char>>::empty());
    let ghost m0 = metadata@;
    metadata.push(("ARROW:extension:name".to_string(), "arrow.opaque".to_string()));
    assert(metadata@.drop_last() == m0);
    assert(pairs_map(metadata@) == pairs_map(m0).insert(
        "ARROW:extension:name"@,
        "arrow.opaque"@,
    ));
    let ghost m1 = metadata@;
    metadata.push(
        (
            "ARROW:extension:metadata".to_string(),
            "{\"type_name\":\"hugeint\",\"vendor_name\":\"DuckDB\"}".to_string(),
        ),
    );
    assert(metadata@.drop_last() == m1);
    metadata
}

/// The three child fields of the `INET` struct.
pub fn inet_child_fields() -> (fields: Vec<Field>)
    ensures
        field_views(fields@) == inet_fields(),
{
    let mut fields: Vec<Field> = Vec::new();
    fields.push(new_field("ip_type", flat_type(FlatType::UInt8), false));
    let address = new_field("address", flat_type(FlatType::Bytes16), false);
    fields.push(with_metadata(address, hugeint_metadata()));
    fields.push(new_field("mask", flat_type(FlatType::UInt16), false));
    assert(field_views(fields@) == inet_fields());
    fields
}

/// The Arrow `DataType` of an `INET` column.
pub fn inet_type() -> (ty: DataType)
    ensures
        type_view(ty) == TypeView::Struct(inet_fields()),
{
    struct_type(inet_child_fields())
}

/// A nullable `INET` field.
pub open spec fn inet_column(name: Seq<char>) -> FieldView {
    plain_field(name, TypeView::Struct(inet_fields()), true)
}

/// A nullable `INET` field named `name`.
pub fn inet_field(name: &str) -> (field: Field)
    ensures
        field_view(field) == inet_column(name@),
{
    new_field(name, inet_type(), true)
}

/// The type of a list of nullable items.
pub open spec fn list_of(item: TypeView) -> TypeView {
    TypeView::List(Box::new(list_item(item)))
}

/// `LIST(UINTEGER)` — the `as_path` column type (and the inner field name that a built
/// array has, so that its type matches the schema).
pub fn list_u32_type() -> (ty: DataType)
    ensures
        type_view(ty) == list_of(TypeView::UInt32),
{
    list_type(flat_type(FlatType::UInt32))
}

/// `LIST(VARCHAR)` — the `communities` column type.
pub fn list_str_type() -> (ty: DataType)
    ensures
        type_view(ty) == list_of(TypeView::Utf8),
{
    list_type(flat_type(FlatType::Utf8))
}

/// `TIMESTAMP` (microsecond, no timezone).
pub fn timestamp_type() -> (ty: DataType)
    ensures
        type_view(ty) == TypeView::TimestampMicros,
{
    flat_type(FlatType::TimestampMicros)
}

/// The fields of the `read_rib` output.
pub open spec fn rib_fields() -> Seq<FieldView> {
    seq![
        plain_field("timestamp"@, TypeView::TimestampMicros, true),
        plain_field("view_name"@, TypeView::Utf8, true),
        inet_column("peer_ip"@),
        plain_field("peer_asn"@, TypeView::UInt32, true),
        inet_column("prefix"@),
        plain_field("as_path"@, list_of(TypeView::UInt32), true),
        plain_field("origin_asn"@, TypeView::UInt32, true),
        inet_column("next_hop"@),
        plain_field("communities"@, list_of(TypeView::Utf8), true),
        plain_field("med"@, TypeView::UInt32, true),
        plain_field("local_pref"@, TypeView::UInt32, true),
        plain_field("atomic_aggregate"@, TypeView::Boolean, true),
        plain_field("aggregator_asn"@, TypeView::UInt32, true),
        plain_field("error"@, TypeView::Utf8, true),
    ]
}

/// The fields of the `read_updates` output.
pub open spec fn updates_fields() -> Seq<FieldView> {
    seq![
        plain_field("timestamp"@, TypeView::TimestampMicros, true),
        inet_column("peer_ip"@),
        plain_field("peer_asn"@, TypeView::UInt32, true),
        plain_field("message_type"@, TypeView::Utf8, true),
        inet_column("prefix"@),
        plain_field("as_path"@, list_of(TypeView::UInt32), true),
        plain_field("origin_asn"@, TypeView::UInt32, true),
        inet_column("next_hop"@),
        plain_field("communities"@, list_of(TypeView::Utf8), true),
        plain_field("old_state"@, TypeView::UInt16, true),
        plain_field("new_state"@, TypeView::UInt16, true),
        plain_field("error"@, TypeView::Utf8, true),
    ]
}

/// The fields of the `peers` output.
pub open spec fn peers_fields() -> Seq<FieldView> {
    seq![
        inet_column("peer_ip"@),
        plain_field("peer_asn"@, TypeView::UInt32, true),
        plain_field("collector"@, TypeView::Utf8, true),
    ]
}

/// The `read_rib` output schema (RIB entries + an `error` capture column).
pub fn rib_schema() -> (schema: Schema)
    ensures
        schema_view(schema) == rib_fields(),
{
    let mut fields: Vec<Field> = Vec::new();
    fields.push(new_field("timestamp", timestamp_type(), true));
    fields.push(new_field("view_name", flat_type(FlatType::Utf8), true));
    fields.push(inet_field("peer_ip"));
    fields.push(new_field("peer_asn", flat_type(FlatType::UInt32), true));
    fields.push(inet_field("prefix"));
    fields.push(new_field("as_path", list_u32_type(), true));
    fields.push(new_field("origin_asn", flat_type(FlatType::UInt32), true));
    fields.push(inet_field("next_hop"));
    fields.push(new_field("communities", list_str_type(), true));
    fields.push(new_field("med", flat_type(FlatType::UInt32), true));
    fields.push(new_field("local_pref", flat_type(FlatType::UInt32), true));
    fields.push(new_field("atomic_aggregate", flat_type(FlatType::Boolean), true));
    fields.push(new_field("aggregator_asn", flat_type(FlatType::UInt32), true));
    fields.push(new_field("error", flat_type(FlatType::Utf8), true));
    assert(field_views(fields@) == rib_fields());
    new_schema(fields)
}

/// The `read_updates` output schema (announce / withdraw / state_change + an `error`
/// capture column).
pub fn updates_schema() -> (schema: Schema)
    ensures
        schema_view(schema) == updates_fields(),
{
    let mut fields: Vec<Field> = Vec::new();
    fields.push(new_field("timestamp", timestamp_type(), true));
    fields.push(inet_field("peer_ip"));
    fields.push(new_field("peer_asn", flat_type(FlatType::UInt32), true));
    fields.push(new_field("message_type", flat_type(FlatType::Utf8), true));
    fields.push(inet_field("prefix"));
    fields.push(new_field("as_path", list_u32_type(), true));
    fields.push(new_field("origin_asn", flat_type(FlatType::UInt32), true));
    fields.push(inet_field("next_hop"));
    fields.push(new_field("communities", list_str_type(), true));
    fields.push(new_field("old_state", flat_type(FlatType::UInt16), true));
    fields.push(new_field("new_state", flat_type(FlatType::UInt16), true));
    fields.push(new_field("error", flat_type(FlatType::Utf8), true));
    assert(field_views(fields@) == updates_fields());
    new_schema(fields)
}

/// The `peers` output schema.
pub fn peers_schema() -> (schema: Schema)
    ensures
        schema_view(schema) == peers_fields(),
{
    let mut fields: Vec<Field> = Vec::new();
    fields.push(inet_field("peer_ip"));
    fields.push(new_field("peer_asn", flat_type(FlatType::UInt32), true));
    fields.push(new_field("collector", flat_type(FlatType::Utf8), true));
    assert(field_views(fields@) == peers_fields());
    new_schema(fields)
}

/// Optional `INET` values, by their views.
pub open spec fn inet_views(vals: Seq<Option<InetVal>>) -> Seq<Option<InetView>> {
    vals.map_values(
        |v: Option<InetVal>|
            match v {
                Some(v) => Some(v@),
                None => None,
            },
    )
}

/// What stands in an `INET` struct under a null: zeros.
pub open spec fn zero_inet() -> InetView {
    InetView { ip_type: 0, address_le: Seq::new(16, |i: int| 0u8), mask: 0 }
}

/// What stands in an `INET` struct for an optional value.
pub open spec fn inet_or_zero(v: Option<InetView>) -> InetView {
    match v {
        Some(v) => v,
        None => zero_inet(),
    }
}

/// The cells of an `INET` column: three child columns, and which rows are not null.
pub open spec fn inet_cells(vals: Seq<Option<InetView>>) -> Cells {
    Cells::Struct {
        fields: inet_fields(),
        children: seq![
            Cells::UInt8(vals.map_values(|v: Option<InetView>| Some(inet_or_zero(v).ip_type))),
            Cells::FixedSizeBinary(
                16,
                vals.map_values(|v: Option<InetView>| Some(inet_or_zero(v).address_le)),
            ),
            Cells::UInt16(vals.map_values(|v: Option<InetView>| Some(inet_or_zero(v).mask))),
        ],
        valid: somes(vals),
    }
}

/// Build the `INET` struct column from per-row optional values.
pub fn build_inet(vals: &Vec<Option<InetVal>>) -> (column: Column)
    ensures
        column_cells(column) == inet_cells(inet_views(vals@)),
{
    let mut ip_type: Vec<Option<u8>> = Vec::new();
    let mut address: Vec<[u8; 16]> = Vec::new();
    let mut mask: Vec<Option<u16>> = Vec::new();
    let mut valid: Vec<bool> = Vec::new();
    let ghost views = inet_views(vals@);
    let ghost types = views.map_values(|v: Option<InetView>| Some(inet_or_zero(v).ip_type));
    let ghost addresses = views.map_values(
        |v: Option<InetView>| Some(inet_or_zero(v).address_le),
    );
    let ghost masks = views.map_values(|v: Option<InetView>| Some(inet_or_zero(v).mask));
    for i in 0..vals.len()
        invariant
            views == inet_views(vals@),
            types == views.map_values(|v: Option<InetView>| Some(inet_or_zero(v).ip_type)),
            addresses == views.map_values(|v: Option<InetView>| Some(inet_or_zero(v).address_le)),
            masks == views.map_values(|v: Option<InetView>| Some(inet_or_zero(v).mask)),
            ip_type@.len() == i,
            address@.len() == i,
            mask@.len() == i,
            valid@.len() == i,
            forall|k: int| 0 <= k < i ==> #[trigger] ip_type@[k] == types[k],
            forall|k: int| 0 <= k < i ==> Some((#[trigger] address@[k])@) == addresses[k],
            forall|k: int| 0 <= k < i ==> #[trigger] mask@[k] == masks[k],
            forall|k: int| 0 <= k < i ==> #[trigger] valid@[k] == (views[k] is Some),
    {
        match &vals[i] {
            Some(v) => {
                ip_type.push(Some(v.ip_type));
                address.push(v.address_le);
                mask.push(Some(v.mask));
                valid.push(true);
            },
            None => {
                let zeros: [u8; 16] = [0; 16];
                assert(zeros@ == zero_inet().address_le);
                ip_type.push(Some(0));
                address.push(zeros);
                mask.push(Some(0));
                valid.push(false);
            },
        }
    }
    assert(ip_type@ == types);
    assert(crate::columns::byte_cells(address@) == addresses);
    assert(mask@ == masks);
    assert(valid@ == somes(views));
    let mut children: Vec<Column> = Vec::new();
    children.push(u8_column(ip_type));
    children.push(bytes16_column(address));
    children.push(u16_column(mask));
    let ghost cells = columns_cells(children@);
    assert(cells == inet_cells(views)->children);
    proof {
        lemma_no_nulls(cells[0]);
        lemma_no_nulls(cells[1]);
        lemma_no_nulls(cells[2]);
    }
    struct_column(inet_child_fields(), children, valid)
}

/// Columns in which every cell is present have no nulls.
proof fn lemma_no_nulls(cells: Cells)
    requires
        forall|i: int| 0 <= i < validity(cells).len() ==> #[trigger] validity(cells)[i],
    ensures
        !validity(cells).contains(false),
{
}

/// The columns of 32-bit numbers.
#[derive(Clone, Copy, PartialEq, Eq, Structural)]
pub enum NumberColumn {
    PeerAsn,
    OriginAsn,
    Med,
    LocalPref,
    AggregatorAsn,
}

/// A row's cell in a column of 32-bit numbers.
pub open spec fn number_cell(row: RowView, column: NumberColumn) -> Option<u32> {
    match column {
        NumberColumn::PeerAsn => row.peer_asn,
        NumberColumn::OriginAsn => row.origin_asn,
        NumberColumn::Med => row.med,
        NumberColumn::LocalPref => row.local_pref,
        NumberColumn::AggregatorAsn => row.aggregator_asn,
    }
}

/// The cells of a column of 32-bit numbers.
pub open spec fn number_cells(rows: Seq<RowView>, column: NumberColumn) -> Seq<Option<u32>> {
    rows.map_values(|r: RowView| number_cell(r, column))
}

fn numbers(rows: &[MrtRow], column: NumberColumn) -> (out: Vec<Option<u32>>)
    ensures
        out@ == number_cells(row_views(rows@), column),
{
    let mut out: Vec<Option<u32>> = Vec::new();
    let ghost cells = number_cells(row_views(rows@), column);
    for i in 0..rows.len()
        invariant
            cells == number_cells(row_views(rows@), column),
            out@.len() == i,
            forall|k: int| 0 <= k < i ==> #[trigger] out@[k] == cells[k],
    {
        let row = &rows[i];
        out.push(
            match column {
                NumberColumn::PeerAsn => row.peer_asn,
                NumberColumn::OriginAsn => row.origin_asn,
                NumberColumn::Med => row.med,
                NumberColumn::LocalPref => row.local_pref,
                NumberColumn::AggregatorAsn => row.aggregator_asn,
            },
        );
    }
    assert(out@ == cells);
    out
}

/// The columns of FSM states.
#[derive(Clone, Copy, PartialEq, Eq, Structural)]
pub enum StateColumn {
    OldState,
    NewState,
}

/// The cells of a column of FSM states.
pub open spec fn state_cells(rows: Seq<RowView>, column: StateColumn) -> Seq<Option<u16>> {
    rows.map_values(
        |r: RowView|
            match column {
                StateColumn::OldState => r.old_state,
                StateColumn::NewState => r.new_state,
            },
    )
}

fn states(rows: &[MrtRow], column: StateColumn) -> (out: Vec<Option<u16>>)
    ensures
        out@ == state_cells(row_views(rows@), column),
{
    let mut out: Vec<Option<u16>> = Vec::new();
    let ghost cells = state_cells(row_views(rows@), column);
    for i in 0..rows.len()
        invariant
            cells == state_cells(row_views(rows@), column),
            out@.len() == i,
            forall|k: int| 0 <= k < i ==> #[trigger] out@[k] == cells[k],
    {
        out.push(
            match column {
                StateColumn::OldState => rows[i].old_state,
                StateColumn::NewState => rows[i].new_state,
            },
        );
    }
    assert(out@ == cells);
    out
}

/// The columns of text.
#[derive(Clone, Copy, PartialEq, Eq, Structural)]
pub enum TextColumn {
    ViewName,
    MessageType,
    Error,
}

/// A row's cell in a column of text.
pub open spec fn text_cell(row: RowView, column: TextColumn) -> Option<Seq<char>> {
    match column {
        TextColumn::ViewName => row.view_name,
        TextColumn::MessageType => match row.msg_type {
            Some(kind) => Some(label_of(kind)),
            None => None,
        },
        TextColumn::Error => row.error,
    }
}

/// The cells of a column of text.
pub open spec fn row_texts(rows: Seq<RowView>, column: TextColumn) -> Seq<Option<Seq<char>>> {
    rows.map_values(|r: RowView| text_cell(r, column))
}

fn texts(rows: &[MrtRow], column: TextColumn) -> (out: Vec<Option<String>>)
    ensures
        opt_texts(out@) == row_texts(row_views(rows@), column),
{
    let mut out: Vec<Option<String>> = Vec::new();
    let ghost cells = row_texts(row_views(rows@), column);
    for i in 0..rows.len()
        invariant
            cells == row_texts(row_views(rows@), column),
            out@.len() == i,
            forall|k: int| 0 <= k < i ==> text_view(#[trigger] out@[k]) == cells[k],
    {
        let row = &rows[i];
        out.push(
            match column {
                TextColumn::ViewName => copy_text(&row.view_name),
                TextColumn::MessageType => match row.msg_type {
                    Some(kind) => Some(kind.as_str().to_string()),
                    None => None,
                },
                TextColumn::Error => copy_text(&row.error),
            },
        );
    }
    assert(opt_texts(out@) == cells);
    out
}

/// The columns of `INET` values.
#[derive(Clone, Copy, PartialEq, Eq, Structural)]
pub enum InetColumn {
    PeerIp,
    Prefix,
    NextHop,
}

/// The `INET` value of an optional host address.
pub open spec fn host_cell(ip: Option<IpAddr>) -> Option<InetView> {
    match ip {
        Some(ip) => Some(inet_of_host(ip)),
        None => None,
    }
}

/// The `INET` value of an optional prefix.
pub open spec fn prefix_cell(prefix: Option<(IpAddr, u16)>) -> Option<InetView> {
    match prefix {
        Some((ip, mask)) => Some(inet_of(ip, mask)),
        None => None,
    }
}

/// A row's cell in an `INET` column.
pub open spec fn inet_cell(row: RowView, column: InetColumn) -> Option<InetView> {
    match column {
        InetColumn::PeerIp => host_cell(row.peer_ip),
        InetColumn::Prefix => prefix_cell(row.prefix),
        InetColumn::NextHop => host_cell(row.next_hop),
    }
}

/// The values of an `INET` column.
pub open spec fn row_inets(rows: Seq<RowView>, column: InetColumn) -> Seq<Option<InetView>> {
    rows.map_values(|r: RowView| inet_cell(r, column))
}

fn encode_host(ip: Option<IpAddr>) -> (out: Option<InetVal>)
    ensures
        out is Some <==> ip is Some,
        out is Some ==> Some(out->0@) == host_cell(ip),
{
    match ip {
        Some(ip) => Some(encode_ip(ip)),
        None => None,
    }
}

/// A row's prefix as an `INET` value.
fn row_prefix(row: &MrtRow) -> (out: Option<InetVal>)
    ensures
        out is Some <==> row.prefix is Some,
        out is Some ==> Some(out->0@) == prefix_cell(row.prefix),
{
    match row.prefix {
        Some((ip, mask)) => Some(encode(ip, mask)),
        None => None,
    }
}

fn inets(rows: &[MrtRow], column: InetColumn) -> (out: Vec<Option<InetVal>>)
    ensures
        inet_views(out@) == row_inets(row_views(rows@), column),
{
    let mut out: Vec<Option<InetVal>> = Vec::new();
    let ghost cells = row_inets(row_views(rows@), column);
    for i in 0..rows.len()
        invariant
            cells == row_inets(row_views(rows@), column),
            out@.len() == i,
            forall|k: int| 0 <= k < i ==> inet_views(out@)[k] == #[trigger] cells[k],
    {
        let row = &rows[i];
        let cell = match column {
            InetColumn::PeerIp => encode_host(row.peer_ip),
            InetColumn::Prefix => row_prefix(row),
            InetColumn::NextHop => encode_host(row.next_hop),
        };
        let ghost before = out@;
        out.push(cell);
        assert forall|k: int| 0 <= k < i + 1 implies inet_views(out@)[k] == #[trigger] cells[k] by {
            if k < i {
                assert(inet_views(before)[k] == cells[k]);
            }
        }
    }
    assert(inet_views(out@) == cells);
    out
}

/// A row's cell in the `timestamp` column. An error row has none: its time is not
/// known, and it is left at 0.
pub open spec fn time_cell(row: RowView) -> Option<i64> {
    if row.error is Some && row.timestamp_us == 0 {
        None
    } else {
        Some(row.timestamp_us)
    }
}

/// A row's cell in the `timestamp` column.
fn row_ts(row: &MrtRow) -> (out: Option<i64>)
    ensures
        out == time_cell(row@),
{
    if row.error.is_some() && row.timestamp_us == 0 {
        None
    } else {
        Some(row.timestamp_us)
    }
}

/// The cells of the `timestamp` column.
pub open spec fn time_cells(rows: Seq<RowView>) -> Seq<Option<i64>> {
    rows.map_values(|r: RowView| time_cell(r))
}

fn times(rows: &[MrtRow]) -> (out: Vec<Option<i64>>)
    ensures
        out@ == time_cells(row_views(rows@)),
{
    let mut out: Vec<Option<i64>> = Vec::new();
    let ghost cells = time_cells(row_views(rows@));
    for i in 0..rows.len()
        invariant
            cells == time_cells(row_views(rows@)),
            out@.len() == i,
            forall|k: int| 0 <= k < i ==> #[trigger] out@[k] == cells[k],
    {
        out.push(row_ts(&rows[i]));
    }
    assert(out@ == cells);
    out
}

/// A row's cell in the `atomic_aggregate` column. An error row has none.
pub open spec fn atomic_cell(row: RowView) -> Option<bool> {
    if row.error is Some {
        None
    } else {
        Some(row.atomic_aggregate)
    }
}

/// The cells of the `atomic_aggregate` column.
pub open spec fn atomic_cells(rows: Seq<RowView>) -> Seq<Option<bool>> {
    rows.map_values(|r: RowView| atomic_cell(r))
}

fn atomics(rows: &[MrtRow]) -> (out: Vec<Option<bool>>)
    ensures
        out@ == atomic_cells(row_views(rows@)),
{
    let mut out: Vec<Option<bool>> = Vec::new();
    let ghost cells = atomic_cells(row_views(rows@));
    for i in 0..rows.len()
        invariant
            cells == atomic_cells(row_views(rows@)),
            out@.len() == i,
            forall|k: int| 0 <= k < i ==> #[trigger] out@[k] == cells[k],
    {
        let row = &rows[i];
        out.push(
            if row.error.is_some() {
                None
            } else {
                Some(row.atomic_aggregate)
            },
        );
    }
    assert(out@ == cells);
    out
}

/// The values of the `as_path` column.
pub open spec fn row_paths(rows: Seq<RowView>) -> Seq<Option<Seq<u32>>> {
    rows.map_values(|r: RowView| r.as_path)
}

fn paths(rows: &[MrtRow]) -> (out: Vec<Option<Vec<u32>>>)
    ensures
        opt_paths(out@) == row_paths(row_views(rows@)),
{
    let mut out: Vec<Option<Vec<u32>>> = Vec::new();
    let ghost cells = row_paths(row_views(rows@));
    for i in 0..rows.len()
        invariant
            cells == row_paths(row_views(rows@)),
            out@.len() == i,
            forall|k: int| 0 <= k < i ==> path_view(#[trigger] out@[k]) == cells[k],
    {
        let path = match &rows[i].as_path {
            Some(path) => {
                let mut copy: Vec<u32> = Vec::new();
                copy.extend_from_slice(path.as_slice());
                assert(copy@ == path@);
                Some(copy)
            },
            None => None,
        };
        out.push(path);
    }
    assert(opt_paths(out@) == cells);
    out
}

/// The values of the `communities` column.
pub open spec fn row_communities(rows: Seq<RowView>) -> Seq<Option<Seq<Seq<char>>>> {
    rows.map_values(|r: RowView| r.communities)
}

/// A copy of a list of strings.
fn copy_texts(texts: &Vec<String>) -> (out: Vec<String>)
    ensures
        string_views(out@) == string_views(texts@),
{
    let mut out: Vec<String> = Vec::new();
    for i in 0..texts.len()
        invariant
            out@.len() == i,
            forall|k: int| 0 <= k < i ==> (#[trigger] out@[k])@ == texts@[k]@,
    {
        out.push(texts[i].clone());
    }
    assert(string_views(out@) == string_views(texts@));
    out
}

fn communities(rows: &[MrtRow]) -> (out: Vec<Option<Vec<String>>>)
    ensures
        opt_text_lists(out@) == row_communities(row_views(rows@)),
{
    let mut out: Vec<Option<Vec<String>>> = Vec::new();
    let ghost cells = row_communities(row_views(rows@));
    for i in 0..rows.len()
        invariant
            cells == row_communities(row_views(rows@)),
            out@.len() == i,
            forall|k: int| 0 <= k < i ==> texts_view(#[trigger] out@[k]) == cells[k],
    {
        let list = match &rows[i].communities {
            Some(list) => Some(copy_texts(list)),
            None => None,
        };
        out.push(list);
    }
    assert(opt_text_lists(out@) == cells);
    out
}

/// Whether rows fit one batch: Arrow's list and string columns have 32-bit offsets.
pub open spec fn fits_batch(rows: Seq<RowView>) -> bool {
    &&& text_bytes(row_texts(rows, TextColumn::ViewName)) <= i32::MAX
    &&& text_bytes(row_texts(rows, TextColumn::MessageType)) <= i32::MAX
    &&& text_bytes(row_texts(rows, TextColumn::Error)) <= i32::MAX
    &&& item_count(row_paths(rows)) <= i32::MAX
    &&& item_count(row_communities(rows)) <= i32::MAX
    &&& text_bytes(all_texts(row_communities(rows))) <= i32::MAX
}

/// The `read_rib` columns for `rows`, in schema order.
pub open spec fn rib_cells(rows: Seq<RowView>) -> Seq<Cells> {
    seq![
        Cells::TimestampMicros(time_cells(rows)),
        Cells::Utf8(row_texts(rows, TextColumn::ViewName)),
        inet_cells(row_inets(rows, InetColumn::PeerIp)),
        Cells::UInt32(number_cells(rows, NumberColumn::PeerAsn)),
        inet_cells(row_inets(rows, InetColumn::Prefix)),
        u32_list_cells(row_paths(rows)),
        Cells::UInt32(number_cells(rows, NumberColumn::OriginAsn)),
        inet_cells(row_inets(rows, InetColumn::NextHop)),
        text_list_cells(row_communities(rows)),
        Cells::UInt32(number_cells(rows, NumberColumn::Med)),
        Cells::UInt32(number_cells(rows, NumberColumn::LocalPref)),
        Cells::Boolean(atomic_cells(rows)),
        Cells::UInt32(number_cells(rows, NumberColumn::AggregatorAsn)),
        Cells::Utf8(row_texts(rows, TextColumn::Error)),
    ]
}

/// The `read_updates` columns for `rows`, in schema order.
pub open spec fn updates_cells(rows: Seq<RowView>) -> Seq<Cells> {
    seq![
        Cells::TimestampMicros(time_cells(rows)),
        inet_cells(row_inets(rows, InetColumn::PeerIp)),
        Cells::UInt32(number_cells(rows, NumberColumn::PeerAsn)),
        Cells::Utf8(row_texts(rows, TextColumn::MessageType)),
        inet_cells(row_inets(rows, InetColumn::Prefix)),
        u32_list_cells(row_paths(rows)),
        Cells::UInt32(number_cells(rows, NumberColumn::OriginAsn)),
        inet_cells(row_inets(rows, InetColumn::NextHop)),
        text_list_cells(row_communities(rows)),
        Cells::UInt16(state_cells(rows, StateColumn::OldState)),
        Cells::UInt16(state_cells(rows, StateColumn::NewState)),
        Cells::Utf8(row_texts(rows, TextColumn::Error)),
    ]
}

/// Build the `read_rib` columns for `rows`, in schema order.
pub fn rib_columns(rows: &[MrtRow]) -> (columns: Vec<Column>)
    requires
        fits_batch(row_views(rows@)),
    ensures
        columns_cells(columns@) == rib_cells(row_views(rows@)),
{
    let mut columns: Vec<Column> = Vec::new();
    columns.push(micros_column(times(rows)));
    columns.push(text_column(texts(rows, TextColumn::ViewName)));
    columns.push(build_inet(&inets(rows, InetColumn::PeerIp)));
    columns.push(u32_column(numbers(rows, NumberColumn::PeerAsn)));
    columns.push(build_inet(&inets(rows, InetColumn::Prefix)));
    columns.push(u32_list_column(paths(rows)));
    columns.push(u32_column(numbers(rows, NumberColumn::OriginAsn)));
    columns.push(build_inet(&inets(rows, InetColumn::NextHop)));
    columns.push(text_list_column(communities(rows)));
    columns.push(u32_column(numbers(rows, NumberColumn::Med)));
    columns.push(u32_column(numbers(rows, NumberColumn::LocalPref)));
    columns.push(bool_column(atomics(rows)));
    columns.push(u32_column(numbers(rows, NumberColumn::AggregatorAsn)));
    columns.push(text_column(texts(rows, TextColumn::Error)));
    assert(columns_cells(columns@) == rib_cells(row_views(rows@)));
    columns
}

/// Build the `read_updates` columns for `rows`, in schema order.
pub fn updates_columns(rows: &[MrtRow]) -> (columns: Vec<Column>)
    requires
        fits_batch(row_views(rows@)),
    ensures
        columns_cells(columns@) == updates_cells(row_views(rows@)),
{
    let mut columns: Vec<Column> = Vec::new();
    columns.push(micros_column(times(rows)));
    columns.push(build_inet(&inets(rows, InetColumn::PeerIp)));
    columns.push(u32_column(numbers(rows, NumberColumn::PeerAsn)));
    columns.push(text_column(texts(rows, TextColumn::MessageType)));
    columns.push(build_inet(&inets(rows, InetColumn::Prefix)));
    columns.push(u32_list_column(paths(rows)));
    columns.push(u32_column(numbers(rows, NumberColumn::OriginAsn)));
    columns.push(build_inet(&inets(rows, InetColumn::NextHop)));
    columns.push(text_list_column(communities(rows)));
    columns.push(u16_column(states(rows, StateColumn::OldState)));
    columns.push(u16_column(states(rows, StateColumn::NewState)));
    columns.push(text_column(texts(rows, TextColumn::Error)));
    assert(columns_cells(columns@) == updates_cells(row_views(rows@)));
    columns
}

/// The collector names of peer rows.
pub open spec fn collectors(rows: Seq<PeerRowView>) -> Seq<Option<Seq<char>>> {
    rows.map_values(|r: PeerRowView| r.collector)
}

/// The `peers` columns for `rows`, in schema order.
pub open spec fn peers_cells(rows: Seq<PeerRowView>) -> Seq<Cells> {
    seq![
        inet_cells(rows.map_values(|r: PeerRowView| Some(inet_of_host(r.peer_ip)))),
        Cells::UInt32(rows.map_values(|r: PeerRowView| Some(r.peer_asn))),
        Cells::Utf8(collectors(rows)),
    ]
}

/// Build the `peers` columns (peer_ip INET, peer_asn, collector) for `rows`.
pub fn peers_columns(rows: &[PeerRow]) -> (columns: Vec<Column>)
    requires
        text_bytes(collectors(peer_views(rows@))) <= i32::MAX,
    ensures
        columns_cells(columns@) == peers_cells(peer_views(rows@)),
{
    let mut peer_ip: Vec<Option<InetVal>> = Vec::new();
    let mut peer_asn: Vec<Option<u32>> = Vec::new();
    let mut collector: Vec<Option<String>> = Vec::new();
    let ghost views = peer_views(rows@);
    for i in 0..rows.len()
        invariant
            views == peer_views(rows@),
            peer_ip@.len() == i,
            peer_asn@.len() == i,
            collector@.len() == i,
            forall|k: int|
                0 <= k < i ==> (#[trigger] peer_ip@[k]) is Some && peer_ip@[k]->0@ == inet_of_host(
                    views[k].peer_ip,
                ),
            forall|k: int| 0 <= k < i ==> #[trigger] peer_asn@[k] == Some(views[k].peer_asn),
            forall|k: int| 0 <= k < i ==> text_view(#[trigger] collector@[k]) == views[k].collector,
    {
        peer_ip.push(Some(encode_ip(rows[i].peer_ip)));
        peer_asn.push(Some(rows[i].peer_asn));
        collector.push(copy_text(&rows[i].collector));
    }
    assert(inet_views(peer_ip@) == views.map_values(
        |r: PeerRowView| Some(inet_of_host(r.peer_ip)),
    ));
    assert(peer_asn@ == views.map_values(|r: PeerRowView| Some(r.peer_asn)));
    assert(opt_texts(collector@) == collectors(views));
    let mut columns: Vec<Column> = Vec::new();
    columns.push(build_inet(&peer_ip));
    columns.push(u32_column(peer_asn));
    columns.push(text_column(collector));
    assert(columns_cells(columns@) == peers_cells(views));
    columns
}

/// The most that a 32-bit offset can count.
pub const OFFSET_MAX: u64 = 0x7fff_ffff;

/// `n`, or one more than the limit if it is beyond it.
spec fn capped(n: nat) -> nat {
    if n <= OFFSET_MAX {
        n
    } else {
        (OFFSET_MAX + 1) as nat
    }
}

/// Count `n` more.
fn count_on(total: u64, n: usize, Ghost(seen): Ghost<nat>) -> (out: u64)
    requires
        total == capped(seen),
    ensures
        out == capped(seen + n as nat),
{
    if total > OFFSET_MAX || n as u64 > OFFSET_MAX - total {
        OFFSET_MAX + 1
    } else {
        total + n as u64
    }
}

/// Count the bytes of one more optional string.
fn count_text(total: u64, text: Option<&str>, Ghost(seen): Ghost<Seq<Option<Seq<char>>>>) -> (out:
    u64)
    requires
        total == capped(text_bytes(seen)),
    ensures
        out == capped(
            text_bytes(
                seen.push(
                    match text {
                        Some(t) => Some(t@),
                        None => None,
                    },
                ),
            ),
        ),
{
    let ghost cell = match text {
        Some(t) => Some(t@),
        None => None,
    };
    assert(seen.push(cell).drop_last() == seen);
    assert(seen.push(cell).last() == cell);
    match text {
        Some(t) => {
            let n: usize = t.as_bytes().len();
            count_on(total, n, Ghost(text_bytes(seen)))
        },
        None => total,
    }
}

/// Count the bytes of one more list of strings.
fn count_texts(total: u64, list: &Vec<String>, Ghost(seen): Ghost<Seq<Option<Seq<char>>>>) -> (out:
    u64)
    requires
        total == capped(text_bytes(seen)),
    ensures
        out == capped(text_bytes(seen + all_some(string_views(list@)))),
{
    let mut out: u64 = total;
    let ghost texts = all_some(string_views(list@));
    assert(seen + texts.take(0) == seen);
    for j in 0..list.len()
        invariant
            texts == all_some(string_views(list@)),
            out == capped(text_bytes(seen + texts.take(j as int))),
    {
        assert(seen + texts.take(j as int + 1) == (seen + texts.take(j as int)).push(
            texts[j as int],
        ));
        out = count_text(out, Some(list[j].as_str()), Ghost(seen + texts.take(j as int)));
    }
    assert(texts.take(texts.len() as int) == texts);
    out
}

/// An optional string as an optional string slice.
fn as_text(text: &Option<String>) -> (out: Option<&str>)
    ensures
        out is Some <==> *text is Some,
        out is Some ==> Some(out->0@) == text_view(*text),
{
    match text {
        Some(t) => Some(t.as_str()),
        None => None,
    }
}

/// Whether the strings of a column together are within the limit.
fn texts_fit(rows: &[MrtRow], column: TextColumn) -> (yes: bool)
    ensures
        yes == (text_bytes(row_texts(row_views(rows@), column)) <= i32::MAX),
{
    let mut total: u64 = 0;
    let ghost cells = row_texts(row_views(rows@), column);
    assert(cells.take(0) == Seq::<Option<Seq<char>>>::empty());
    for i in 0..rows.len()
        invariant
            cells == row_texts(row_views(rows@), column),
            total == capped(text_bytes(cells.take(i as int))),
    {
        let row = &rows[i];
        assert(cells.take(i as int + 1) == cells.take(i as int).push(cells[i as int]));
        let text = match column {
            TextColumn::ViewName => as_text(&row.view_name),
            TextColumn::MessageType => match row.msg_type {
                Some(kind) => Some(kind.as_str()),
                None => None,
            },
            TextColumn::Error => as_text(&row.error),
        };
        total = count_text(total, text, Ghost(cells.take(i as int)));
    }
    assert(cells.take(cells.len() as int) == cells);
    total <= OFFSET_MAX
}

/// Whether the items of the `as_path` column are within the limit.
fn paths_fit(rows: &[MrtRow]) -> (yes: bool)
    ensures
        yes == (item_count(row_paths(row_views(rows@))) <= i32::MAX),
{
    let mut total: u64 = 0;
    let ghost cells = row_paths(row_views(rows@));
    assert(cells.take(0) == Seq::<Option<Seq<u32>>>::empty());
    for i in 0..rows.len()
        invariant
            cells == row_paths(row_views(rows@)),
            total == capped(item_count(cells.take(i as int))),
    {
        assert(cells.take(i as int + 1).drop_last() == cells.take(i as int));
        if let Some(path) = &rows[i].as_path {
            total = count_on(total, path.len(), Ghost(item_count(cells.take(i as int))));
        }
    }
    assert(cells.take(cells.len() as int) == cells);
    total <= OFFSET_MAX
}

/// Whether the items of the `communities` column, and their bytes, are within the
/// limit.
fn communities_fit(rows: &[MrtRow]) -> (yes: bool)
    ensures
        yes == (item_count(row_communities(row_views(rows@))) <= i32::MAX && text_bytes(
            all_texts(row_communities(row_views(rows@))),
        ) <= i32::MAX),
{
    let mut items: u64 = 0;
    let mut bytes: u64 = 0;
    let ghost cells = row_communities(row_views(rows@));
    assert(cells.take(0) == Seq::<Option<Seq<Seq<char>>>>::empty());
    for i in 0..rows.len()
        invariant
            cells == row_communities(row_views(rows@)),
            items == capped(item_count(cells.take(i as int))),
            bytes == capped(text_bytes(all_texts(cells.take(i as int)))),
    {
        assert(cells.take(i as int + 1).drop_last() == cells.take(i as int));
        let ghost seen = all_texts(cells.take(i as int));
        if let Some(list) = &rows[i].communities {
            items = count_on(items, list.len(), Ghost(item_count(cells.take(i as int))));
            bytes = count_texts(bytes, list, Ghost(seen));
        } else {
            assert(seen + Seq::<Option<Seq<char>>>::empty() == seen);
        }
    }
    assert(cells.take(cells.len() as int) == cells);
    items <= OFFSET_MAX && bytes <= OFFSET_MAX
}

/// Whether `rows` fit one batch.
pub fn rows_fit(rows: &[MrtRow]) -> (yes: bool)
    ensures
        yes == fits_batch(row_views(rows@)),
{
    texts_fit(rows, TextColumn::ViewName) && texts_fit(rows, TextColumn::MessageType) && texts_fit(
        rows,
        TextColumn::Error,
    ) && paths_fit(rows) && communities_fit(rows)
}

/// Whether peer rows fit one batch.
pub fn peers_fit(rows: &[PeerRow]) -> (yes: bool)
    ensures
        yes == (text_bytes(collectors(peer_views(rows@))) <= i32::MAX),
{
    let mut total: u64 = 0;
    let ghost cells = collectors(peer_views(rows@));
    assert(cells.take(0) == Seq::<Option<Seq<char>>>::empty());
    for i in 0..rows.len()
        invariant
            cells == collectors(peer_views(rows@)),
            total == capped(text_bytes(cells.take(i as int))),
    {
        assert(cells.take(i as int + 1) == cells.take(i as int).push(cells[i as int]));
        total = count_text(total, as_text(&rows[i].collector), Ghost(cells.take(i as int)));
    }
    assert(cells.take(cells.len() as int) == cells);
    total <= OFFSET_MAX
}

/// The nested types are types that a batch check can tell apart.
proof fn lemma_inet_known()
    ensures
        is_known(TypeView::Struct(inet_fields())),
        is_known(list_of(TypeView::UInt32)),
        is_known(list_of(TypeView::Utf8)),
{
    reveal_with_fuel(is_known, 2);
    assert forall|i: int| 0 <= i < inet_fields().len() implies is_known(
        #[trigger] inet_fields()[i].ty,
    ) by {}
}

/// The columns built for `read_rib` always match the `read_rib` schema.
pub proof fn rib_columns_match_schema(rows: Seq<RowView>)
    ensures
        batch_fits(rib_fields(), rib_cells(rows)),
        all_known(rib_cells(rows)),
{
    lemma_inet_known();
}

/// The columns built for `read_updates` always match the `read_updates` schema.
pub proof fn updates_columns_match_schema(rows: Seq<RowView>)
    ensures
        batch_fits(updates_fields(), updates_cells(rows)),
        all_known(updates_cells(rows)),
{
    lemma_inet_known();
}

/// The columns built for `peers` always match the `peers` schema.
pub proof fn peers_columns_match_schema(rows: Seq<PeerRowView>)
    ensures
        batch_fits(peers_fields(), peers_cells(rows)),
        all_known(peers_cells(rows)),
{
    lemma_inet_known();
}

/// An error row is null in every column of `read_rib` and `read_updates` but `error`, which
/// holds its message.
pub proof fn error_rows_are_null(rows: Seq<RowView>, i: int, message: Seq<char>)
    requires
        0 <= i < rows.len(),
        rows[i] == failure_row(message),
    ensures
        forall|k: int| 0 <= k < 13 ==> !validity(#[trigger] rib_cells(rows)[k])[i],
        forall|k: int| 0 <= k < 11 ==> !validity(#[trigger] updates_cells(rows)[k])[i],
        str_cell(rib_cells(rows)[13], i) == Some(message),
        str_cell(updates_cells(rows)[11], i) == Some(message),
{
}

/// An integer, wrapped to 32 bits.
pub open spec fn wrapped(n: i128) -> u32 {
    (n as int % 0x1_0000_0000) as u32
}

/// An integer, wrapped to 32 bits.
fn wrap_u32(n: i128) -> (out: u32)
    ensures
        out == wrapped(n),
{
    if n >= 0 {
        (n % 0x1_0000_0000) as u32
    } else {
        let below: i128 = -(n + 1);
        let rest: i128 = below % 0x1_0000_0000;
        proof {
            vstd::arithmetic::div_mod::lemma_fundamental_div_mod_converse(
                n as int,
                0x1_0000_0000,
                -(below as int / 0x1_0000_0000) - 1,
                0xffff_ffff - rest,
            );
        }
        (0xffff_ffff - rest) as u32
    }
}

/// The integers of a column, nulls as 0. Only the widths that a list of ASNs comes in are
/// read; any other column gives an empty list.
pub open spec fn integers(cells: Cells) -> Seq<i128> {
    match int_type_of(cells) {
        Some(IntType::UInt32) | Some(IntType::Int64) | Some(IntType::Int32) | Some(
            IntType::UInt64,
        ) => Seq::new(cell_count(cells), |j: int| int_at(cells, j) as i128),
        _ => Seq::empty(),
    }
}

/// Cell `i` of a list column as integers; `None` for a null list or a column that is no
/// list.
pub open spec fn list_cell(cells: Cells, i: int) -> Option<Seq<i128>> {
    match list_slots(cells) {
        Some(slots) => if validity(cells)[i] {
            Some(integers(slots[i]))
        } else {
            None
        },
        None => None,
    }
}

/// Cell `i` of a list column as integers wrapped to 32 bits; `None` for a null list or a
/// column that is no list.
pub open spec fn list_u32_cell(cells: Cells, i: int) -> Option<Seq<u32>> {
    match list_cell(cells, i) {
        Some(path) => Some(path.map_values(|n: i128| wrapped(n))),
        None => None,
    }
}

/// Cell `i` of an integer column of any width; `None` for a null cell or a column that is no
/// integer column.
pub open spec fn integer_cell(cells: Cells, i: int) -> Option<i128> {
    if validity(cells)[i] && int_type_of(cells) is Some {
        Some(int_at(cells, i) as i128)
    } else {
        None
    }
}

/// Cell `i` of an integer column of any width, wrapped to 32 bits; `None` for a null cell or a
/// column that is no integer column.
pub open spec fn u32_cell(cells: Cells, i: int) -> Option<u32> {
    match integer_cell(cells, i) {
        Some(n) => Some(wrapped(n)),
        None => None,
    }
}

/// Cell `i` of a string column; `None` for a null cell or a column that is no string
/// column.
pub open spec fn str_cell(cells: Cells, i: int) -> Option<Seq<char>> {
    match text_cells(cells) {
        Some(c) => c[i],
        None => None,
    }
}

/// Cell `i` of an integer column.
fn int_cell(column: &Column, ty: IntType, i: usize) -> (out: i128)
    requires
        int_type_of(column_cells(*column)) == Some(ty),
        i < cell_count(column_cells(*column)),
        validity(column_cells(*column))[i as int],
    ensures
        out == int_at(column_cells(*column), i as int) as i128,
{
    match ty {
        IntType::UInt8 | IntType::UInt16 | IntType::UInt32 | IntType::UInt64 => unsigned_at(
            column,
            ty,
            i,
        ) as i128,
        _ => signed_at(column, ty, i) as i128,
    }
}

/// The integers of an array (any common width), NULLs → 0.
fn int_array(values: &Column) -> (out: Vec<i128>)
    ensures
        out@ == integers(column_cells(*values)),
{
    let mut out: Vec<i128> = Vec::new();
    let ty = match int_type(values) {
        Some(IntType::UInt32) => IntType::UInt32,
        Some(IntType::Int64) => IntType::Int64,
        Some(IntType::Int32) => IntType::Int32,
        Some(IntType::UInt64) => IntType::UInt64,
        _ => return out,
    };
    let ghost cells = column_cells(*values);
    let n: usize = column_len(values);
    for i in 0..n
        invariant
            cells == column_cells(*values),
            n == cell_count(cells),
            int_type_of(cells) == Some(ty),
            out@.len() == i,
            forall|k: int| 0 <= k < i ==> #[trigger] out@[k] == int_at(cells, k) as i128,
    {
        if is_valid(values, i) {
            out.push(int_cell(values, ty, i));
        } else {
            assert(int_at(cells, i as int) == 0);
            out.push(0);
        }
    }
    assert(out@ == integers(cells));
    out
}

/// Read row `i` of a list column as integers. Accepts the common integer element widths
/// DuckDB may hand over. `None` for a NULL list.
pub fn list_ints_at(array: &Column, i: usize) -> (out: Option<Vec<i128>>)
    requires
        list_slots(column_cells(*array)) is Some ==> i < cell_count(column_cells(*array)),
    ensures
        match out {
            Some(path) => list_cell(column_cells(*array), i as int) == Some(path@),
            None => list_cell(column_cells(*array), i as int) is None,
        },
{
    if i >= column_len(array) {
        return None;
    }
    match list_at(array, i) {
        Some(values) => if is_valid(array, i) {
            Some(int_array(&values))
        } else {
            None
        },
        None => None,
    }
}

/// Read row `i` of a `LIST(UINTEGER)` column as a `Vec<u32>`. Accepts the common integer
/// element widths DuckDB may hand over; a number that is no `u32` wraps. `None` for a NULL
/// list.
pub fn list_u32_at(array: &Column, i: usize) -> (out: Option<Vec<u32>>)
    requires
        list_slots(column_cells(*array)) is Some ==> i < cell_count(column_cells(*array)),
    ensures
        path_view(out) == list_u32_cell(column_cells(*array), i as int),
{
    let path = match list_ints_at(array, i) {
        Some(path) => path,
        None => return None,
    };
    let mut out: Vec<u32> = Vec::new();
    for k in 0..path.len()
        invariant
            out@.len() == k,
            forall|j: int| 0 <= j < k ==> #[trigger] out@[j] == wrapped(path@[j]),
    {
        out.push(wrap_u32(path[k]));
    }
    assert(out@ == path@.map_values(|n: i128| wrapped(n)));
    Some(out)
}

/// Read row `i` of an integer column of any width.
pub fn integer_at(array: &Column, i: usize) -> (out: Option<i128>)
    requires
        i < cell_count(column_cells(*array)),
    ensures
        out == integer_cell(column_cells(*array), i as int),
{
    if !is_valid(array, i) {
        return None;
    }
    match int_type(array) {
        Some(ty) => Some(int_cell(array, ty, i)),
        None => None,
    }
}

/// Read row `i` of an integer column as a `u32`, accepting any common width; a number that is
/// no `u32` wraps.
pub fn u32_at(array: &Column, i: usize) -> (out: Option<u32>)
    requires
        i < cell_count(column_cells(*array)),
    ensures
        out == u32_cell(column_cells(*array), i as int),
{
    match integer_at(array, i) {
        Some(n) => Some(wrap_u32(n)),
        None => None,
    }
}

/// Read row `i` of a VARCHAR column as a `&str`. `None` for a NULL cell.
pub fn str_at(array: &Column, i: usize) -> (out: Option<&str>)
    requires
        text_cells(column_cells(*array)) is Some ==> i < cell_count(column_cells(*array)),
    ensures
        out is Some <==> str_cell(column_cells(*array), i as int) is Some,
        out is Some ==> Some(out->0@) == str_cell(column_cells(*array), i as int),
{
    if i >= column_len(array) {
        return None;
    }
    match text_at(array, i) {
        Some(text) => if is_valid(array, i) {
            Some(text)
        } else {
            None
        },
        None => None,
    }
}

} // verus!
