use std::sync::Arc;

use arrow_array::Array;
use arrow_array::ArrayRef;
use arrow_array::BinaryArray;
use arrow_array::Int64Array;
use arrow_array::LargeBinaryArray;
use arrow_array::LargeListArray;
use arrow_array::ListArray;
use arrow_array::StringArray;
use arrow_buffer::NullBuffer;
use arrow_buffer::OffsetBuffer;
use arrow_schema::Field;
use bgp::cloud::classify;
use bgp::cloud::Location;
use bgp::columns::Column;
use bgp::options::cloud_arg_specs;
use bgp::options::cloud_overrides;
use bgp::options::common_arg_specs;
use bgp::options::source;
use bgp::options::source_paths;
use bgp::options::strict;
use bgp::options::NamedArgs;
use bgp::options::Src;
use bgp::reader::Source;
use bgp::sources::local_question;
use bgp::sources::question;
use bgp::sources::resolve_local;
use bgp::sources::resolve_locations;
use bgp::sources::resolve_sources;
use bgp::sources::Answer;
use bgp::sources::Question;

fn column(array: impl Array + 'static) -> Column {
    Column { array: Arc::new(array) }
}

fn list(items: ArrayRef, valid: bool) -> Column {
    let field = Arc::new(Field::new_list_field(items.data_type().clone(), true));
    let offsets = OffsetBuffer::new(vec![0, items.len() as i32].into());
    column(ListArray::new(field, offsets, items, Some(NullBuffer::from(vec![valid]))))
}

fn failure(arg: Option<&Column>) -> String {
    source(arg).unwrap_err().message
}

fn named() -> NamedArgs {
    NamedArgs {
        strict: None,
        endpoint: None,
        region: None,
        url_style: None,
        use_ssl: None,
        use_ssl_text: None,
    }
}

fn paths(all: &[&str]) -> Src {
    Src::Paths(all.iter().map(|p| p.to_string()).collect())
}

fn answer() -> Answer {
    Answer { exists: false, matches: Ok(Vec::new()), listed: Vec::new() }
}

fn pairs(options: &[(&str, &str)]) -> Vec<(String, String)> {
    options
        .iter()
        .map(|(k, v)| (k.to_string(), v.to_string()))
        .collect()
}

#[test]
fn src_is_a_path_a_blob_or_a_list() {
    let path = column(StringArray::from(vec!["a.mrt"]));
    assert_eq!(source(Some(&path)).unwrap(), paths(&["a.mrt"]));
    let blob = column(BinaryArray::from(vec![&[1u8, 2, 3][..]]));
    assert_eq!(source(Some(&blob)).unwrap(), Src::Bytes(vec![1, 2, 3]));
    let large = column(LargeBinaryArray::from(vec![&[4u8][..]]));
    assert_eq!(source(Some(&large)).unwrap(), Src::Bytes(vec![4]));
    let texts = Arc::new(StringArray::from(vec![Some("a"), None, Some("b")])) as ArrayRef;
    assert_eq!(source(Some(&list(texts.clone(), true))).unwrap(), paths(&["a", "b"]));
    let field = Arc::new(Field::new_list_field(texts.data_type().clone(), true));
    let offsets = OffsetBuffer::new(vec![0i64, 3].into());
    let large = column(LargeListArray::new(field, offsets, texts, None));
    assert_eq!(source(Some(&large)).unwrap(), paths(&["a", "b"]));
    assert_eq!(source_paths(Some(&path)), ["a.mrt"]);
    assert_eq!(source_paths(Some(&blob)), Vec::<String>::new());
    assert_eq!(source_paths(None), Vec::<String>::new());
}

#[test]
fn bad_src_arguments() {
    assert_eq!(failure(None), "a source path, list of paths, or BLOB of MRT bytes is required");
    let other = "src must be a VARCHAR path, a LIST(VARCHAR), or a BLOB of MRT bytes";
    assert_eq!(failure(Some(&column(Int64Array::from(vec![1])))), other);
    assert_eq!(failure(Some(&column(StringArray::from(vec![None::<&str>])))), other);
    assert_eq!(failure(Some(&column(BinaryArray::from(vec![None::<&[u8]>])))), other);
    let numbers = Arc::new(Int64Array::from(vec![1])) as ArrayRef;
    assert_eq!(failure(Some(&list(numbers, true))), "path list elements must be VARCHAR");
    let none = Arc::new(Int64Array::from(Vec::<i64>::new())) as ArrayRef;
    assert_eq!(failure(Some(&list(none, true))), "path list elements must be VARCHAR");
    let empty = Arc::new(StringArray::from(Vec::<&str>::new())) as ArrayRef;
    assert_eq!(failure(Some(&list(empty, true))), "src path list is empty");
    let nulls = Arc::new(StringArray::from(vec![None::<&str>])) as ArrayRef;
    assert_eq!(failure(Some(&list(nulls, true))), "src path list is empty");
}

#[test]
fn strict_defaults_to_false() {
    assert!(!strict(&named()));
    assert!(!strict(&NamedArgs { strict: Some(false), ..named() }));
    assert!(strict(&NamedArgs { strict: Some(true), ..named() }));
}

#[test]
fn overrides_from_named_arguments() {
    assert_eq!(cloud_overrides(&named()), vec![]);
    let args = NamedArgs {
        endpoint: Some("minio:9000".to_string()),
        region: Some("eu".to_string()),
        url_style: Some("Path".to_string()),
        use_ssl_text: Some("off".to_string()),
        ..named()
    };
    assert_eq!(
        cloud_overrides(&args),
        pairs(&[
            ("aws_endpoint", "http://minio:9000"),
            ("aws_region", "eu"),
            ("aws_virtual_hosted_style_request", "false"),
            ("aws_allow_http", "true"),
        ])
    );
    // The boolean counts before the text.
    let args = NamedArgs { use_ssl: Some(true), ..args };
    let options = cloud_overrides(&args);
    assert_eq!(options[0].1, "https://minio:9000");
    assert_eq!(options.len(), 3);
    let vhost = NamedArgs { url_style: Some("vhost".to_string()), ..named() };
    assert_eq!(cloud_overrides(&vhost), vec![]);
}

#[test]
fn argument_specs_are_named() {
    let names = |specs: Vec<bgp::options::ArgSpec>| -> Vec<String> {
        assert!(specs.iter().all(|s| s.is_const && s.position == -1 && !s.doc.is_empty()));
        specs.into_iter().map(|s| s.name).collect()
    };
    assert_eq!(names(cloud_arg_specs()), ["endpoint", "region", "url_style", "use_ssl"]);
    assert_eq!(names(common_arg_specs()), ["strict", "endpoint", "region", "url_style", "use_ssl"]);
}

#[test]
fn local_paths_are_resolved() {
    assert!(matches!(local_question("a/*.mrt"), Question::Expand(p) if p == "a/*.mrt"));
    assert!(matches!(local_question("a.mrt"), Question::Check(p) if p == "a.mrt"));
    let files = |all: &[&str]| all.iter().map(|f| f.to_string()).collect::<Vec<_>>();
    assert_eq!(resolve_local("a.mrt", true, Ok(vec![])).unwrap(), ["a.mrt"]);
    assert_eq!(
        resolve_local("a.mrt", false, Ok(files(&["a.mrt"]))).unwrap_err().message,
        "File not found: a.mrt"
    );
    assert_eq!(
        resolve_local("*.mrt", false, Ok(files(&["b", "\u{e9}", "a/z", "a", "B"]))).unwrap(),
        ["B", "a", "a/z", "b", "\u{e9}"]
    );
    assert_eq!(resolve_local("*.mrt", false, Ok(vec![])).unwrap(), Vec::<String>::new());
    assert_eq!(
        resolve_local("a[", true, Err("oops".to_string())).unwrap_err().message,
        "bad glob 'a[': oops"
    );
}

#[test]
fn questions_are_asked_as_needed() {
    assert!(matches!(question("s3://b/k.mrt"), Ok(Question::Nothing)));
    assert!(matches!(question("https://h/k*.mrt"), Ok(Question::Nothing)));
    assert!(matches!(question("x/?.mrt"), Ok(Question::Expand(_))));
    assert!(matches!(question("x.mrt"), Ok(Question::Check(_))));
    match question("s3://b/d/k?.mrt") {
        Ok(Question::List { url, prefix }) => {
            assert_eq!(url.as_str(), "s3://b/d/k%3F.mrt");
            assert_eq!(prefix, "d/");
        }
        _ => panic!("expected a listing"),
    }
    assert!(question("gs://b/k").is_err());
    assert!(question("s3://b/***").is_err());
}

#[test]
fn locations_follow_the_answer() {
    let text = |l: &Location| match l {
        Location::Local(p) => p.clone(),
        Location::Remote(u) => u.to_string(),
    };
    let found = resolve_locations("x.mrt", Answer { exists: true, ..answer() }).unwrap();
    assert_eq!(found.iter().map(text).collect::<Vec<_>>(), ["x.mrt"]);
    assert!(resolve_locations("x.mrt", answer()).is_err());
    let matches = Ok(vec!["b".to_string(), "a".to_string()]);
    let found = resolve_locations("*", Answer { matches, ..answer() }).unwrap();
    assert_eq!(found.iter().map(text).collect::<Vec<_>>(), ["a", "b"]);
    let found = resolve_locations("s3://b/k", answer()).unwrap();
    assert_eq!(found.iter().map(text).collect::<Vec<_>>(), ["s3://b/k"]);
    let listed = vec!["d/k2".to_string(), "d/x".to_string(), "d/k1".to_string()];
    let found = resolve_locations("s3://b/d/k*", Answer { listed, ..answer() }).unwrap();
    assert_eq!(found.iter().map(text).collect::<Vec<_>>(), ["s3://b/d/k1", "s3://b/d/k2"]);
    assert!(resolve_locations("gs://b/k", answer()).is_err());
}

#[test]
fn sources_keep_the_order_of_the_paths() {
    let location = |p: &str| classify(p).unwrap();
    let resolved = vec![
        vec![location("b"), location("a")],
        vec![],
        vec![location("s3://b/k?")],
    ];
    assert_eq!(
        resolve_sources(paths(&["*", "n*", "s3://b/k?"]), resolved),
        [
            Source::Local("b".to_string()),
            Source::Local("a".to_string()),
            Source::Remote("s3://b/k%3F".to_string()),
        ]
    );
    assert_eq!(resolve_sources(Src::Bytes(vec![7]), vec![]), [Source::Bytes(vec![7])]);
    assert_eq!(Source::Bytes(vec![7]).label(), "<blob>");
    assert_eq!(Source::Local("a".to_string()).label(), "a");
    assert_eq!(Source::Remote("https://h".to_string()).label(), "https://h");
}
