use std::sync::Arc;

use arrow_array::cast::AsArray;
use arrow_array::types::Int64Type;
use arrow_array::types::UInt32Type;
use arrow_array::Array;
use arrow_array::ArrayRef;
use arrow_array::Int64Array;
use arrow_array::ListArray;
use arrow_array::RecordBatch;
use arrow_array::RecordBatchOptions;
use arrow_array::StringArray;
use arrow_schema::DataType;
use arrow_schema::Field;
use arrow_schema::Schema;
use bgp::columns::Batch;
use bgp::error::Blame;
use bgp::scalar::community::CommunityParse;
use bgp::scalar::community::IsLargeCommunity;
use bgp::scalar::path::AsPathPrepends;
use bgp::scalar::path::OriginAsn;
use bgp::scalar::path::PathContains;
use bgp::scalar::path::PathLength;
use bgp::scalar::version::BgpVersion;

fn bound(ty: DataType) -> Arc<Schema> {
    Arc::new(Schema::new(vec![Field::new("result", ty, true)]))
}

fn batch(columns: Vec<ArrayRef>) -> Batch {
    let fields: Vec<Field> = columns
        .iter()
        .enumerate()
        .map(|(i, c)| Field::new(format!("c{i}"), c.data_type().clone(), true))
        .collect();
    Batch { batch: RecordBatch::try_new(Arc::new(Schema::new(fields)), columns).unwrap() }
}

/// `[7018, 174, 174, 13335]`, NULL, `[]`.
fn paths() -> ArrayRef {
    Arc::new(ListArray::from_iter_primitive::<Int64Type, _, _>(vec![
        Some(vec![Some(7018), Some(174), Some(174), Some(13335)]),
        None,
        Some(vec![]),
    ]))
}

fn communities() -> ArrayRef {
    Arc::new(StringArray::from(vec![
        Some("65001:100"),
        Some("65001:1:2"),
        Some("NO_EXPORT"),
        None,
    ]))
}

fn options<T: Copy>(len: usize, valid: impl Fn(usize) -> bool, get: impl Fn(usize) -> T) -> Vec<Option<T>> {
    (0..len).map(|i| if valid(i) { Some(get(i)) } else { None }).collect()
}

#[test]
fn path_length_of_each_row() {
    let out = PathLength.process(&bound(PathLength.on_bind()), &batch(vec![paths()])).unwrap();
    let col = out.batch.column(0).as_primitive::<Int64Type>();
    assert_eq!(options(3, |i| col.is_valid(i), |i| col.value(i)), [Some(4), None, Some(0)]);
}

#[test]
fn origin_of_each_row() {
    let out = OriginAsn.process(&bound(OriginAsn.on_bind()), &batch(vec![paths()])).unwrap();
    let col = out.batch.column(0).as_primitive::<UInt32Type>();
    assert_eq!(options(3, |i| col.is_valid(i), |i| col.value(i)), [Some(13335), None, None]);
}

#[test]
fn prepends_of_each_row() {
    let out = AsPathPrepends
        .process(&bound(AsPathPrepends.on_bind()), &batch(vec![paths()]))
        .unwrap();
    let col = out.batch.column(0).as_primitive::<Int64Type>();
    assert_eq!(options(3, |i| col.is_valid(i), |i| col.value(i)), [Some(1), None, Some(0)]);
}

#[test]
fn contains_of_each_row() {
    let asns = Arc::new(Int64Array::from(vec![Some(174), Some(174), None])) as ArrayRef;
    let out = PathContains
        .process(&bound(PathContains.on_bind()), &batch(vec![paths(), asns]))
        .unwrap();
    let col = out.batch.column(0).as_boolean();
    assert_eq!(options(3, |i| col.is_valid(i), |i| col.value(i)), [Some(true), None, None]);
}

#[test]
fn numbers_that_are_no_asn_stay_apart_on_the_path() {
    let wide = (1i64 << 32) + 174;
    let column = || -> ArrayRef {
        Arc::new(ListArray::from_iter_primitive::<Int64Type, _, _>(vec![
            Some(vec![Some(7018), Some(174), Some(13335)]),
            Some(vec![Some(174), Some(wide)]),
            Some(vec![Some(wide), Some(174)]),
        ]))
    };
    let contains = |asns: Vec<i64>| {
        let asns = Arc::new(Int64Array::from(asns)) as ArrayRef;
        let out = PathContains
            .process(&bound(PathContains.on_bind()), &batch(vec![column(), asns]))
            .unwrap();
        let col = out.batch.column(0).as_boolean();
        (0..3).map(|i| col.value(i)).collect::<Vec<_>>()
    };
    assert_eq!(contains(vec![wide, wide, -1]), [false, true, false]);
    assert_eq!(contains(vec![174, 174, 0]), [true, true, false]);
    let out = OriginAsn.process(&bound(OriginAsn.on_bind()), &batch(vec![column()])).unwrap();
    let col = out.batch.column(0).as_primitive::<UInt32Type>();
    assert_eq!(options(3, |i| col.is_valid(i), |i| col.value(i)), [Some(13335), Some(174), Some(174)]);
    let out = AsPathPrepends
        .process(&bound(AsPathPrepends.on_bind()), &batch(vec![column()]))
        .unwrap();
    assert_eq!(out.batch.column(0).as_primitive::<Int64Type>().values().to_vec(), [0, 0, 0]);
}

#[test]
fn standard_community_of_each_row() {
    let out = CommunityParse
        .process(&bound(CommunityParse.on_bind()), &batch(vec![communities()]))
        .unwrap();
    let col = out.batch.column(0).as_struct();
    assert!(col.is_valid(0) && col.is_null(1) && col.is_null(2) && col.is_null(3));
    assert_eq!(col.column_by_name("asn").unwrap().as_primitive::<UInt32Type>().value(0), 65001);
    assert_eq!(col.column_by_name("value").unwrap().as_primitive::<UInt32Type>().value(0), 100);
    assert_eq!(col.column(0).as_primitive::<UInt32Type>().value(3), 0);
}

#[test]
fn large_community_of_each_row() {
    let out = IsLargeCommunity
        .process(&bound(IsLargeCommunity.on_bind()), &batch(vec![communities()]))
        .unwrap();
    let col = out.batch.column(0).as_boolean();
    assert_eq!(
        options(4, |i| col.is_valid(i), |i| col.value(i)),
        [Some(false), Some(true), Some(false), None]
    );
}

#[test]
fn version_in_each_row() {
    let rows = RecordBatch::try_new_with_options(
        Arc::new(Schema::empty()),
        vec![],
        &RecordBatchOptions::new().with_row_count(Some(2)),
    )
    .unwrap();
    let out = BgpVersion.process(&bound(BgpVersion.on_bind()), &Batch { batch: rows }).unwrap();
    let col = out.batch.column(0).as_string::<i32>();
    assert_eq!((col.len(), col.value(0), col.value(1)), (2, "0.1.0", "0.1.0"));
    assert_eq!(bgp::version(), "0.1.0");
    assert_eq!(BgpVersion.argument_specs().len(), 0);
}

#[test]
fn a_result_of_another_type_is_refused() {
    let err = PathLength.process(&bound(DataType::Utf8), &batch(vec![paths()])).err().unwrap();
    assert_eq!(err.blame, Blame::Runtime);
}

#[test]
fn scalars_describe_themselves() {
    assert_eq!(PathLength.name(), "path_length");
    assert_eq!(OriginAsn.name(), "origin_asn");
    assert_eq!(AsPathPrepends.name(), "as_path_prepends");
    assert_eq!(PathContains.name(), "path_contains");
    assert_eq!(CommunityParse.name(), "community_parse");
    assert_eq!(IsLargeCommunity.name(), "is_large_community");
    assert_eq!(BgpVersion.name(), "bgp_version");
    let m = PathLength.metadata();
    assert_eq!(m.description, "Number of AS hops in an AS path");
    assert_eq!(m.return_type, Some(DataType::Int64));
    assert_eq!(m.examples[0].sql, "SELECT bgp.main.path_length([7018, 174, 13335]);");
    assert_eq!(m.tags.len(), 4);
    assert_eq!(m.tags[0], ("vgi.title".to_string(), "AS Path Length".to_string()));
    let as_path = &PathLength.argument_specs()[0];
    let wide = DataType::List(Arc::new(Field::new_list_field(DataType::Int64, true)));
    assert_eq!(as_path.data_type, Some(wide));
    assert_eq!(PathContains.argument_specs()[1].name, "asn");
    assert_eq!(PathContains.argument_specs()[1].position, 1);
    let m = BgpVersion.metadata();
    assert_eq!(m.tags.len(), 5);
    assert_eq!(m.tags[4].0, "vgi.executable_examples");
    assert!(m.tags[4].1.starts_with("[\n  {\n    \"description\": \"Return the worker version"));
}
