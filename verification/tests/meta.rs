use std::sync::Arc;

use arrow_array::StringArray;
use bgp::catalog::catalog_metadata;
use bgp::columns::Column;
use bgp::meta::agent_test_tasks_json;
use bgp::meta::keywords_json;
use bgp::meta::object_tags;
use bgp::meta::RIB_MRT_HEX;
use bgp::meta::UPD_MRT_HEX;
use bgp::options::NamedArgs;
use bgp::sources::Question;
use bgp::table::bind_question;
use bgp::table::peers::Peers;
use bgp::table::read_rib::ReadRib;
use bgp::table::read_updates::ReadUpdates;

#[test]
fn keywords_become_a_json_array() {
    assert_eq!(keywords_json("a, b c ,, \t,d"), r#"["a","b c","d"]"#);
    assert_eq!(keywords_json(""), "[]");
    assert_eq!(keywords_json(" , "), "[]");
    assert_eq!(keywords_json(r#"a"b,c\d"#), r#"["a\"b","c\\d"]"#);
}

#[test]
fn tasks_become_json_objects() {
    assert_eq!(agent_test_tasks_json(&[]), "[]");
    assert_eq!(
        agent_test_tasks_json(&[("n", "say \"hi\"\nnow", "SELECT '\\'"), ("m", "p", "s")]),
        "[{\"name\":\"n\",\"prompt\":\"say \\\"hi\\\"\\nnow\",\"reference_sql\":\"SELECT '\\\\'\"},\
         {\"name\":\"m\",\"prompt\":\"p\",\"reference_sql\":\"s\"}]"
    );
}

#[test]
fn control_characters_are_escaped() {
    assert_eq!(keywords_json("a\tb,c\nd,e\u{1}\u{1f}f\u{7f}"), "[\"a\\tb\",\"c\\nd\",\"e\\u0001\\u001ff\u{7f}\"]");
    assert_eq!(
        agent_test_tasks_json(&[("n\r", "\u{8}", "\u{c}\t")]),
        "[{\"name\":\"n\\r\",\"prompt\":\"\\u0008\",\"reference_sql\":\"\\u000c\\t\"}]"
    );
}

#[test]
fn four_standard_tags() {
    let tags = object_tags("t", "l", "m", "k1,k2");
    let expected = [
        ("vgi.title", "t"),
        ("vgi.doc_llm", "l"),
        ("vgi.doc_md", "m"),
        ("vgi.keywords", r#"["k1","k2"]"#),
    ];
    assert_eq!(tags, expected.map(|(k, v)| (k.to_string(), v.to_string())));
}

#[test]
fn catalog_describes_the_worker() {
    let model = catalog_metadata("routes");
    assert_eq!(model.name, "routes");
    assert_eq!(model.source_url.as_deref(), Some("https://github.com/Query-farm/vgi-bgp"));
    assert_eq!(model.implementation_version.as_deref(), Some(bgp::version()));
    let keys: Vec<_> = model.tags.iter().map(|(k, _)| k.as_str()).collect();
    assert_eq!(
        keys,
        ["vgi.title", "vgi.keywords", "vgi.doc_llm", "vgi.doc_md", "vgi.agent_test_tasks",
            "vgi.example_queries", "vgi.author", "vgi.copyright", "vgi.license",
            "vgi.support_contact", "vgi.support_policy_url"]
    );
    let queries = &model.tags[5].1;
    assert_eq!(queries.matches(RIB_MRT_HEX).count(), 2);
    assert_eq!(queries.matches(UPD_MRT_HEX).count(), 1);
    assert_eq!(queries.lines().count(), 10);
    assert!(queries.ends_with(&format!("SELECT * FROM bgp.main.peers(from_hex('{RIB_MRT_HEX}'));")));
    assert_eq!(model.tags[4].1.matches("\"name\":").count(), 6);
    assert_eq!(model.schemas.len(), 1);
    let schema = &model.schemas[0];
    assert_eq!(schema.name, "main");
    let keys: Vec<_> = schema.tags.iter().map(|(k, _)| k.as_str()).collect();
    assert_eq!(
        keys,
        ["vgi.title", "vgi.keywords", "domain", "category", "topic", "vgi.doc_llm", "vgi.doc_md",
            "vgi.example_queries"]
    );
    assert_eq!(schema.tags[7].1.lines().count(), 10);
}

#[test]
fn tables_describe_themselves() {
    assert_eq!(ReadRib.name(), "read_rib");
    assert_eq!(ReadUpdates.name(), "read_updates");
    assert_eq!(Peers.name(), "peers");
    let names = |specs: Vec<bgp::options::ArgSpec>| -> Vec<String> {
        specs.into_iter().map(|s| s.name).collect()
    };
    let all = ["src", "strict", "endpoint", "region", "url_style", "use_ssl"];
    assert_eq!(names(ReadRib.argument_specs()), all);
    assert_eq!(names(ReadUpdates.argument_specs()), all);
    // `peers` has no `strict` option.
    assert_eq!(names(Peers.argument_specs()), ["src", "endpoint", "region", "url_style", "use_ssl"]);
    assert_eq!(ReadRib.metadata().tags[4].0, "vgi.result_columns_md");
    assert!(ReadRib.metadata().examples.is_empty());
    let example = &ReadUpdates.metadata().examples[0];
    assert!(example.sql.contains(UPD_MRT_HEX) && example.sql.ends_with("GROUP BY 1;"));
    assert_eq!(ReadRib.on_bind().fields().len(), 14);
    assert_eq!(ReadUpdates.on_bind().fields().len(), 12);
    assert_eq!(Peers.on_bind().fields().len(), 3);
}

#[test]
fn tables_ask_for_their_secrets() {
    let src = Column { array: Arc::new(StringArray::from(vec!["s3://b/k"])) };
    assert_eq!(ReadRib.secret_lookups(Some(&src))[0].scope.as_deref(), Some("s3://b/k"));
    assert_eq!(ReadUpdates.secret_lookups(Some(&src)).len(), 1);
    assert_eq!(Peers.secret_lookups(Some(&src)).len(), 1);
    assert_eq!(Peers.secret_lookups(None).len(), 0);
}

#[test]
fn local_paths_are_checked_at_bind() {
    assert!(bind_question("s3://b/k*").is_none());
    assert!(bind_question("https://h/k").is_none());
    assert!(matches!(bind_question("a.mrt"), Some(Question::Check(_))));
    assert!(matches!(bind_question("*.mrt"), Some(Question::Expand(_))));
}

#[test]
fn producers_take_their_arguments() {
    let args = NamedArgs {
        strict: Some(true),
        endpoint: None,
        region: None,
        url_style: None,
        use_ssl: None,
        use_ssl_text: None,
    };
    let torn = || vec![bgp::reader::Source::Bytes(vec![1, 2, 3])];
    let mut p = ReadRib.producer(Arc::new(ReadRib.on_bind()), &args, torn());
    assert!(p.pull_batch().is_err());
    let lenient = NamedArgs { strict: None, ..args };
    let mut p = ReadUpdates.producer(Arc::new(ReadUpdates.on_bind()), &lenient, torn());
    match p.pull_batch() {
        Ok(bgp::reader::BatchPull::Batch(b)) => assert_eq!(b.batch.num_rows(), 1),
        _ => panic!("expected an error row"),
    }
}
