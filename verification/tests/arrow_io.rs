use std::sync::Arc;

use arrow_array::cast::AsArray;
use arrow_array::types::TimestampMicrosecondType;
use arrow_array::types::UInt16Type;
use arrow_array::types::UInt32Type;
use arrow_array::types::UInt8Type;
use arrow_array::Array;
use arrow_array::ArrayRef;
use arrow_array::Int16Array;
use arrow_array::Int32Array;
use arrow_array::Int64Array;
use arrow_array::Int8Array;
use arrow_array::LargeStringArray;
use arrow_array::ListArray;
use arrow_array::RecordBatch;
use arrow_array::StringArray;
use arrow_array::UInt16Array;
use arrow_array::UInt32Array;
use arrow_array::UInt64Array;
use arrow_array::UInt8Array;
use arrow_buffer::NullBuffer;
use arrow_buffer::OffsetBuffer;
use arrow_schema::DataType;
use arrow_schema::Field;
use arrow_schema::Schema;
use bgp::arrow_io::build_inet;
use bgp::arrow_io::inet_field;
use bgp::arrow_io::inet_type;
use bgp::arrow_io::list_str_type;
use bgp::arrow_io::integer_at;
use bgp::arrow_io::list_ints_at;
use bgp::arrow_io::list_u32_at;
use bgp::arrow_io::list_u32_type;
use bgp::arrow_io::peers_columns;
use bgp::arrow_io::peers_schema;
use bgp::arrow_io::rib_columns;
use bgp::arrow_io::rib_schema;
use bgp::arrow_io::rows_fit;
use bgp::arrow_io::str_at;
use bgp::arrow_io::timestamp_type;
use bgp::arrow_io::u32_at;
use bgp::arrow_io::updates_columns;
use bgp::arrow_io::updates_schema;
use bgp::columns::Column;
use bgp::decode::MrtRow;
use bgp::decode::MsgType;
use bgp::decode::PeerRow;
use bgp::inet::encode;
use bgp::inet::IpAddr;

fn column(array: impl Array + 'static) -> Column {
    Column { array: Arc::new(array) }
}

fn batch(schema: Schema, columns: Vec<Column>) -> RecordBatch {
    let arrays = columns.into_iter().map(|c| c.array).collect();
    RecordBatch::try_new(Arc::new(schema), arrays).unwrap()
}

fn list(items: ArrayRef, offsets: Vec<i32>, valid: Option<Vec<bool>>) -> Column {
    let field = Arc::new(Field::new_list_field(items.data_type().clone(), true));
    let offsets = OffsetBuffer::new(offsets.into());
    column(ListArray::new(field, offsets, items, valid.map(NullBuffer::from)))
}

fn full_row() -> MrtRow {
    MrtRow {
        timestamp_us: 1_500_000,
        msg_type: Some(MsgType::Announce),
        view_name: Some("view".to_string()),
        peer_ip: Some(IpAddr::V4(0xc000_0201)),
        peer_asn: Some(65001),
        prefix: Some((IpAddr::V4(0xcb00_7100), 24)),
        as_path: Some(vec![65001, 64500]),
        origin_asn: Some(64500),
        next_hop: Some(IpAddr::V6(1)),
        communities: Some(vec!["65001:100".to_string(), "NO_EXPORT".to_string()]),
        med: Some(5),
        local_pref: Some(100),
        atomic_aggregate: true,
        aggregator_asn: Some(7),
        old_state: Some(1),
        new_state: Some(6),
        error: None,
    }
}

#[test]
fn inet_struct_layout() {
    let DataType::Struct(fields) = inet_type() else {
        panic!("inet must be a struct");
    };
    assert_eq!(fields.len(), 3);
    assert_eq!(fields[0].name(), "ip_type");
    assert_eq!(fields[1].name(), "address");
    assert_eq!(fields[1].data_type(), &DataType::FixedSizeBinary(16));
    assert!(fields[1]
        .metadata()
        .get("ARROW:extension:name")
        .is_some_and(|v| v == "arrow.opaque"));
    assert_eq!(
        fields[1].metadata().get("ARROW:extension:metadata").map(String::as_str),
        Some("{\"type_name\":\"hugeint\",\"vendor_name\":\"DuckDB\"}")
    );
    assert_eq!(fields[2].name(), "mask");
    assert!(inet_field("x").is_nullable());
}

#[test]
fn types_are_those_of_duckdb() {
    assert_eq!(timestamp_type(), DataType::Timestamp(arrow_schema::TimeUnit::Microsecond, None));
    let item = |ty| DataType::List(Arc::new(Field::new_list_field(ty, true)));
    assert_eq!(list_u32_type(), item(DataType::UInt32));
    assert_eq!(list_str_type(), item(DataType::Utf8));
    let names = |s: Schema| s.fields().iter().map(|f| f.name().clone()).collect::<Vec<_>>();
    assert_eq!(
        names(rib_schema()),
        ["timestamp", "view_name", "peer_ip", "peer_asn", "prefix", "as_path", "origin_asn",
            "next_hop", "communities", "med", "local_pref", "atomic_aggregate", "aggregator_asn",
            "error"]
    );
    assert_eq!(
        names(updates_schema()),
        ["timestamp", "peer_ip", "peer_asn", "message_type", "prefix", "as_path", "origin_asn",
            "next_hop", "communities", "old_state", "new_state", "error"]
    );
    assert_eq!(names(peers_schema()), ["peer_ip", "peer_asn", "collector"]);
}

#[test]
fn build_inet_has_nulls() {
    let v = vec![Some(encode(IpAddr::V4(0xcb00_7105), 24)), None];
    let arr = build_inet(&v).array;
    assert_eq!(arr.len(), 2);
    assert!(arr.is_valid(0));
    assert!(!arr.is_valid(1));
    let s = arr.as_struct();
    assert_eq!(s.column(0).as_primitive::<UInt8Type>().value(0), 1);
    assert_eq!(&s.column(1).as_fixed_size_binary().value(0)[..4], [5, 0x71, 0, 0xcb]);
    assert_eq!(s.column(2).as_primitive::<UInt16Type>().value(0), 24);
    assert_eq!(s.column(1).as_fixed_size_binary().value(1), [0; 16]);
}

#[test]
fn read_u32_list() {
    let values = Arc::new(UInt32Array::from(vec![7018u32, 174, 13335])) as ArrayRef;
    let list = list(values, vec![0, 3], None);
    assert_eq!(list_u32_at(&list, 0), Some(vec![7018, 174, 13335]));
}

#[test]
fn read_list_widths_and_nulls() {
    let i64s = Arc::new(Int64Array::from(vec![Some(1), None, Some(-1), Some(1 << 32)])) as ArrayRef;
    let l = list(i64s, vec![0, 2, 2, 4], Some(vec![true, false, true]));
    assert_eq!(list_u32_at(&l, 0), Some(vec![1, 0]));
    assert_eq!(list_u32_at(&l, 1), None);
    // Numbers that are no UINTEGER wrap.
    assert_eq!(list_u32_at(&l, 2), Some(vec![u32::MAX, 0]));
    assert_eq!(list_ints_at(&l, 2), Some(vec![-1, 1 << 32]));
    let i32s = list(Arc::new(Int32Array::from(vec![-2])), vec![0, 1], None);
    assert_eq!(list_u32_at(&i32s, 0), Some(vec![u32::MAX - 1]));
    assert_eq!(list_ints_at(&i32s, 0), Some(vec![-2]));
    let u64s = list(Arc::new(UInt64Array::from(vec![u64::MAX])), vec![0, 1], None);
    assert_eq!(list_u32_at(&u64s, 0), Some(vec![u32::MAX]));
    assert_eq!(list_ints_at(&u64s, 0), Some(vec![u64::MAX.into()]));
    // A width that lists do not come in.
    let i16s = list(Arc::new(Int16Array::from(vec![3])), vec![0, 1], None);
    assert_eq!(list_u32_at(&i16s, 0), Some(vec![]));
    // No list at all.
    assert_eq!(list_u32_at(&column(Int64Array::from(vec![1])), 0), None);
}

#[test]
fn read_u32_scalar_widths() {
    let a = column(Int64Array::from(vec![Some(65001i64), None]));
    assert_eq!(u32_at(&a, 0), Some(65001));
    assert_eq!(u32_at(&a, 1), None);
    assert_eq!(u32_at(&column(Int8Array::from(vec![7])), 0), Some(7));
    assert_eq!(u32_at(&column(Int16Array::from(vec![700])), 0), Some(700));
    assert_eq!(u32_at(&column(Int32Array::from(vec![70_000])), 0), Some(70_000));
    for minus in [column(Int8Array::from(vec![-1])), column(Int16Array::from(vec![-1]))] {
        assert_eq!(u32_at(&minus, 0), Some(u32::MAX));
    }
    assert_eq!(u32_at(&column(Int32Array::from(vec![-1])), 0), Some(u32::MAX));
    assert_eq!(u32_at(&column(Int64Array::from(vec![i64::MIN])), 0), Some(0));
    assert_eq!(integer_at(&column(Int32Array::from(vec![-1])), 0), Some(-1));
    assert_eq!(u32_at(&column(UInt8Array::from(vec![200])), 0), Some(200));
    assert_eq!(u32_at(&column(UInt16Array::from(vec![60000])), 0), Some(60000));
    assert_eq!(u32_at(&column(UInt32Array::from(vec![4_000_000_000])), 0), Some(4_000_000_000));
    let wide = column(UInt64Array::from(vec![u64::from(u32::MAX), (1 << 32) + 9]));
    assert_eq!(u32_at(&wide, 0), Some(u32::MAX));
    assert_eq!(u32_at(&wide, 1), Some(9));
    assert_eq!(integer_at(&wide, 1), Some((1 << 32) + 9));
    assert_eq!(u32_at(&column(StringArray::from(vec!["7"])), 0), None);
}

#[test]
fn read_str_cell() {
    let a = column(StringArray::from(vec![Some("65001:100"), None]));
    assert_eq!(str_at(&a, 0), Some("65001:100"));
    assert_eq!(str_at(&a, 1), None);
    let b = column(LargeStringArray::from(vec![Some("x"), None]));
    assert_eq!(str_at(&b, 0), Some("x"));
    assert_eq!(str_at(&b, 1), None);
    assert_eq!(str_at(&column(Int64Array::from(vec![1])), 0), None);
}

#[test]
fn rib_rows_become_columns() {
    let rows = vec![full_row(), MrtRow::error_row("boom".to_string())];
    assert!(rows_fit(&rows));
    let b = batch(rib_schema(), rib_columns(&rows));
    assert_eq!(b.num_rows(), 2);
    assert_eq!(b.column(0).as_primitive::<TimestampMicrosecondType>().value(0), 1_500_000);
    assert!(b.column(0).is_null(1));
    assert_eq!(b.column(1).as_string::<i32>().value(0), "view");
    let peer = b.column(2).as_struct();
    assert_eq!(peer.column(2).as_primitive::<UInt16Type>().value(0), 32);
    assert_eq!(b.column(3).as_primitive::<UInt32Type>().value(0), 65001);
    let prefix = b.column(4).as_struct();
    assert_eq!(prefix.column(2).as_primitive::<UInt16Type>().value(0), 24);
    let path = b.column(5).as_list::<i32>().value(0);
    assert_eq!(path.as_primitive::<UInt32Type>().values().to_vec(), [65001, 64500]);
    assert_eq!(b.column(6).as_primitive::<UInt32Type>().value(0), 64500);
    let hop = b.column(7).as_struct();
    assert_eq!(hop.column(2).as_primitive::<UInt16Type>().value(0), 128);
    let comms = b.column(8).as_list::<i32>().value(0);
    assert_eq!(comms.as_string::<i32>().value(0), "65001:100");
    assert_eq!(comms.as_string::<i32>().value(1), "NO_EXPORT");
    assert_eq!(b.column(9).as_primitive::<UInt32Type>().value(0), 5);
    assert_eq!(b.column(10).as_primitive::<UInt32Type>().value(0), 100);
    assert!(b.column(11).as_boolean().value(0));
    assert_eq!(b.column(12).as_primitive::<UInt32Type>().value(0), 7);
    assert!(b.column(13).is_null(0));
    assert_eq!(b.column(13).as_string::<i32>().value(1), "boom");
    // All else is null in an error row.
    for i in 0..13 {
        assert!(b.column(i).is_null(1), "column {i}");
    }
}

#[test]
fn update_rows_become_columns() {
    let mut withdrawn = full_row();
    withdrawn.msg_type = Some(MsgType::Withdraw);
    let rows = vec![full_row(), withdrawn, MrtRow::error_row("boom".to_string())];
    let b = batch(updates_schema(), updates_columns(&rows));
    let kinds = b.column(3).as_string::<i32>();
    assert_eq!((kinds.value(0), kinds.value(1)), ("announce", "withdraw"));
    assert!(kinds.is_null(2));
    assert_eq!(b.column(9).as_primitive::<UInt16Type>().value(0), 1);
    assert_eq!(b.column(10).as_primitive::<UInt16Type>().value(0), 6);
    assert_eq!(b.column(11).as_string::<i32>().value(2), "boom");
    // An error row with a time keeps it.
    let timed = MrtRow { timestamp_us: 9, ..MrtRow::error_row("x".to_string()) };
    let b = batch(updates_schema(), updates_columns(&[timed]));
    assert_eq!(b.column(0).as_primitive::<TimestampMicrosecondType>().value(0), 9);
}

#[test]
fn no_rows_make_an_empty_batch() {
    assert_eq!(batch(rib_schema(), rib_columns(&[])).num_rows(), 0);
    assert_eq!(batch(updates_schema(), updates_columns(&[])).num_rows(), 0);
    assert_eq!(batch(peers_schema(), peers_columns(&[])).num_rows(), 0);
}

#[test]
fn peer_rows_become_columns() {
    let rows = [
        PeerRow { peer_ip: IpAddr::V4(9), peer_asn: 1, collector: Some("rrc00".to_string()) },
        PeerRow { peer_ip: IpAddr::V6(9), peer_asn: 2, collector: None },
    ];
    let b = batch(peers_schema(), peers_columns(&rows));
    let ips = b.column(0).as_struct();
    assert_eq!(ips.column(0).as_primitive::<UInt8Type>().values().to_vec(), [1, 2]);
    assert_eq!(b.column(1).as_primitive::<UInt32Type>().values().to_vec(), [1, 2]);
    assert_eq!(b.column(2).as_string::<i32>().value(0), "rrc00");
    assert!(b.column(2).is_null(1));
}
