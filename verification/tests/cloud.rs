use std::collections::HashMap;

use bgp::cloud::build_store;
use bgp::cloud::classify;
use bgp::cloud::glob_matches;
use bgp::cloud::glob_prefix;
use bgp::cloud::guard_host;
use bgp::cloud::host_to_guard;
use bgp::cloud::is_internal_ip;
use bgp::cloud::is_remote;
use bgp::cloud::list_glob;
use bgp::cloud::list_request;
use bgp::cloud::normalize_endpoint;
use bgp::cloud::parse_bool;
use bgp::cloud::remote_key;
use bgp::cloud::s3_options;
use bgp::cloud::secret_lookup;
use bgp::cloud::secret_lookups;
use bgp::cloud::Listing;
use bgp::cloud::Location;
use bgp::inet::IpAddr;
use url::Url;
use vgi::secrets::Secrets;

/// An address from its text: dotted, colon-separated, or IPv4-mapped.
fn ip(text: &str) -> IpAddr {
    let v4 = |t: &str| -> u32 {
        t.split('.')
            .fold(0, |bits, o| bits << 8 | o.parse::<u32>().unwrap())
    };
    if let Some(mapped) = text.strip_prefix("::ffff:") {
        IpAddr::V6(0xffff_0000_0000 + u128::from(v4(mapped)))
    } else if text.contains(':') {
        let (head, tail) = text.split_once("::").unwrap_or((text, ""));
        let words = |s: &str| -> Vec<u128> {
            s.split(':')
                .filter(|w| !w.is_empty())
                .map(|w| u128::from_str_radix(w, 16).unwrap())
                .collect()
        };
        let (mut all, tail) = (words(head), words(tail));
        all.resize(8 - tail.len(), 0);
        all.extend(tail);
        IpAddr::V6(all.iter().fold(0, |bits, w| bits << 16 | w))
    } else {
        IpAddr::V4(v4(text))
    }
}

fn remote(path: &str) -> Url {
    match classify(path) {
        Ok(Location::Remote(url)) => url,
        _ => panic!("expected remote"),
    }
}

fn secrets(named: &[(&str, &[(&str, &str)])]) -> Secrets {
    let mut by_name = HashMap::new();
    for (name, fields) in named {
        let map: HashMap<String, String> = fields
            .iter()
            .map(|(k, v)| (k.to_string(), v.to_string()))
            .collect();
        by_name.insert(name.to_string(), map);
    }
    Secrets { by_name }
}

fn pairs(options: &[(&str, &str)]) -> Vec<(String, String)> {
    options
        .iter()
        .map(|(k, v)| (k.to_string(), v.to_string()))
        .collect()
}

#[test]
fn classify_locals_and_remotes() {
    assert!(matches!(classify("data/x.mrt").unwrap(), Location::Local(_)));
    assert!(matches!(classify("/abs/x.mrt").unwrap(), Location::Local(_)));
    assert!(matches!(classify("s3://bucket/x.mrt").unwrap(), Location::Remote(_)));
    assert!(matches!(classify("HTTPS://host/x.mrt").unwrap(), Location::Remote(_)));
    assert!(classify("gs://bucket/x.mrt").is_err());
    assert!(classify("az://c/x.mrt").is_err());
}

#[test]
fn classify_reports_its_errors() {
    let message = |p: &str| classify(p).err().expect("an error").message;
    assert_eq!(
        message("GS://bucket/x.mrt"),
        "unsupported URL scheme 'gs://' for 'GS://bucket/x.mrt' (supported: s3://, http://, \
         https://; local paths have no scheme)"
    );
    assert_eq!(message("http://"), "bad URL 'http://': empty host");
    // What stands before `://` is no scheme: a local path.
    assert!(matches!(classify("a b://x").unwrap(), Location::Local(_)));
    assert!(matches!(classify("://x").unwrap(), Location::Local(_)));
}

#[test]
fn internal_ip_classification() {
    for text in [
        "127.0.0.1",
        "169.254.169.254",
        "10.1.2.3",
        "192.168.0.1",
        "172.16.5.5",
        "100.64.0.1",
        "::1",
        "fe80::1",
        "fc00::1",
        "::ffff:127.0.0.1",
    ] {
        assert!(is_internal_ip(ip(text)), "{text} should be internal");
    }
    for text in ["8.8.8.8", "1.1.1.1", "2606:2800:220:1::1"] {
        assert!(!is_internal_ip(ip(text)), "{text} should be public");
    }
}

#[test]
fn internal_ip_edges() {
    for text in ["0.0.0.0", "0.1.2.3", "255.255.255.255", "172.31.255.255", "100.127.0.0", "::",
        "fdff::1", "febf::1", "::ffff:10.0.0.1"]
    {
        assert!(is_internal_ip(ip(text)), "{text} should be internal");
    }
    for text in ["172.15.0.1", "172.32.0.1", "100.63.0.1", "100.128.0.1", "192.167.0.1",
        "169.253.0.1", "126.0.0.1", "128.0.0.1", "255.255.255.254", "fe00::1", "fec0::1",
        "::2", "::ffff:8.8.8.8"]
    {
        assert!(!is_internal_ip(ip(text)), "{text} should be public");
    }
}

#[test]
fn build_store_blocks_internal_http() {
    let sec = Secrets::default();
    let url = Url::parse("http://169.254.169.254/latest/meta-data/").unwrap();
    assert_eq!(host_to_guard(&url).as_deref(), Some("169.254.169.254"));
    let err = build_store(&url, &sec, &vec![], false, &vec![]).unwrap_err();
    assert!(err.message.contains("internal host"), "got: {}", err.message);
    assert!(build_store(&url, &sec, &vec![], true, &vec![]).is_ok());
    // A name that resolves to an internal address.
    let addresses = vec![ip("169.254.169.254")];
    let named = remote("http://metadata.example/latest/");
    assert!(build_store(&named, &sec, &vec![], false, &addresses).is_err());
    assert!(build_store(&named, &sec, &vec![], false, &vec![ip("8.8.8.8")]).is_ok());
    // An object store's own endpoint is not guarded.
    assert!(build_store(&remote("s3://b/k"), &sec, &vec![], false, &addresses).is_ok());
}

#[test]
fn internal_literals_need_no_resolving() {
    let sec = Secrets::default();
    for url in ["http://[::1]/x", "HTTPS://127.0.0.1/", "http://[::ffff:10.0.0.1]/",
        "http://2130706433/x", "http://0x7f.1/"]
    {
        let err = build_store(&remote(url), &sec, &vec![], false, &vec![]).unwrap_err();
        assert!(err.message.contains("internal host"), "{url}: {}", err.message);
        assert!(build_store(&remote(url), &sec, &vec![], true, &vec![]).is_ok());
    }
    for url in ["http://8.8.8.8/", "http://[2606:2800:220:1::1]/", "https://h.example/"] {
        assert!(build_store(&remote(url), &sec, &vec![], false, &vec![]).is_ok(), "{url}");
    }
}

#[test]
fn any_internal_address_is_refused() {
    let addresses = vec![ip("8.8.8.8"), ip("10.0.0.1")];
    let err = guard_host("both.example", false, &addresses).unwrap_err();
    assert_eq!(
        err.message,
        "refusing to read from internal host 'both.example' (loopback / link-local / private / \
         cloud-metadata); set BGP_ALLOW_INTERNAL_HOSTS=1 to override"
    );
    assert!(guard_host("both.example", true, &addresses).is_ok());
    assert!(guard_host("none.example", false, &vec![]).is_ok());
}

#[test]
fn is_remote_quick_check() {
    assert!(is_remote("s3://b/k"));
    assert!(is_remote("http://h/k"));
    assert!(!is_remote("data/x.mrt"));
    assert!(!is_remote("gs://b/k"));
}

#[test]
fn secret_lookup_requests_s3_for_s3_paths() {
    let l = secret_lookup("s3://bucket/dumps/rib.mrt").expect("s3 path requests a secret");
    assert_eq!(l.secret_type, "s3");
    assert_eq!(l.scope.as_deref(), Some("s3://bucket/dumps/rib.mrt"));
    assert!(secret_lookup("https://host/f.mrt").is_none());
    assert!(secret_lookup("data/f.mrt").is_none());
}

#[test]
fn only_s3_paths_ask_for_a_secret() {
    assert!(secret_lookup("S3A://bucket/k").is_some());
    for path in ["HTTP://host/f", "https://u:p@host:8/f?q#h", "http://", "s3://b d/k", "gs://b/k", "f"] {
        assert!(secret_lookup(path).is_none(), "{path}");
    }
    for path in ["HTTP://host/f", "https:////host\\x", "http://u@h:80"] {
        let url = remote(path);
        assert!(url.scheme().starts_with("http") && host_to_guard(&url).is_some(), "{path}");
    }
}

#[test]
fn secret_lookups_are_distinct() {
    let paths: Vec<String> = ["s3://a/x", "data/f", "S3://a/x", "s3://a/y", "https://h/z"]
        .iter()
        .map(|p| p.to_string())
        .collect();
    let scopes: Vec<_> = secret_lookups(&paths).into_iter().map(|l| l.scope.unwrap()).collect();
    assert_eq!(scopes, ["s3://a/x", "s3://a/y"]);
}

#[test]
fn s3_key_preserves_glob_metachars_through_url() {
    let u = remote("s3://bucket/dumps/rib?.mrt");
    assert!(u.query().is_none());
    assert_eq!(remote_key(&u), "dumps/rib?.mrt");
}

#[test]
fn s3_keys_survive_the_url() {
    for key in ["a", "x/y z.mrt", "100%", "a%20b", "q?x#y", "<{`}>\"", "\u{e9}\u{4e2d}/[a-z]*", "a\\b|^"] {
        let u = remote(&format!("s3://bucket/{key}"));
        assert_eq!(u.scheme(), "s3");
        assert_eq!(u.host_str(), Some("bucket"));
        assert!(u.query().is_none() && u.fragment().is_none());
        assert_eq!(remote_key(&u), key);
    }
    // Whatever the bucket, as long as the URL is accepted.
    for bucket in ["user@host", "host:9000", "b%62\u{e9}", "[::1]", ""] {
        let u = remote(&format!("S3A://{bucket}/a?/b#"));
        assert!(u.scheme() == "s3a" && u.as_str().ends_with(u.path()));
        assert_eq!(remote_key(&u), "a?/b#");
    }
    // A dot segment is resolved away by the URL.
    assert_eq!(remote_key(&remote("s3://bucket/a/../b")), "b");
}

#[test]
fn glob_prefix_splits_at_last_slash_before_wildcard() {
    assert_eq!(glob_prefix("dumps/rib*.mrt"), "dumps/");
    assert_eq!(glob_prefix("*.mrt"), "");
    assert_eq!(glob_prefix("plain/key.mrt"), "plain/key.mrt");
}

#[test]
fn glob_prefix_edges() {
    assert_eq!(glob_prefix("a/b/c[0-9]/d*"), "a/b/");
    assert_eq!(glob_prefix("a/?"), "a/");
    assert_eq!(glob_prefix(""), "");
    assert_eq!(glob_prefix("a*/b/c"), "");
}

#[test]
fn glob_matches_duckdb_s3_semantics() {
    let p = |s: &str| glob::Pattern::new(s).unwrap();
    assert!(glob_matches(&p("dumps/*.mrt"), "dumps/a.mrt"));
    assert!(!glob_matches(&p("dumps/*.mrt"), "dumps/sub/a.mrt"));
    assert!(glob_matches(&p("dumps/**/*.mrt"), "dumps/sub/deep/a.mrt"));
}

#[test]
fn listing_asks_for_the_prefix() {
    match list_request(&remote("s3://bucket/dumps/rib*.mrt")) {
        Ok(Listing::Prefix(p)) => assert_eq!(p, "dumps/"),
        _ => panic!("expected a listing"),
    }
    assert!(matches!(list_request(&remote("https://h/a*b")), Ok(Listing::AsIs)));
    let bad = remote("s3://bucket/dumps/***");
    let err = list_request(&bad).err().expect("an error");
    assert!(err.message.starts_with("bad glob 's3://bucket/dumps/***': "), "{}", err.message);
    assert!(list_glob(&bad, &vec![]).unwrap_err().message.starts_with("bad glob "));
}

#[test]
fn listed_objects_are_selected_and_sorted() {
    let url = remote("s3://bucket/dumps/*.mrt");
    let listed: Vec<String> = ["dumps/b.mrt", "dumps/a%3F.mrt", "dumps/sub/c.mrt", "dumps/d.txt",
        "dumps/a.mrt"]
        .iter()
        .map(|s| s.to_string())
        .collect();
    let urls: Vec<String> = list_glob(&url, &listed).unwrap().iter().map(|u| u.to_string()).collect();
    assert_eq!(
        urls,
        ["s3://bucket/dumps/a%3F.mrt", "s3://bucket/dumps/a.mrt", "s3://bucket/dumps/b.mrt"]
    );
    let http = remote("https://h/a*b");
    assert_eq!(list_glob(&http, &listed).unwrap(), vec![http]);
}

#[test]
fn parse_bool_forms() {
    assert_eq!(parse_bool("true"), Some(true));
    assert_eq!(parse_bool("FALSE"), Some(false));
    assert_eq!(parse_bool("maybe"), None);
    for yes in ["1", " yes ", "On"] {
        assert_eq!(parse_bool(yes), Some(true));
    }
    for no in ["0", "NO", "off\n"] {
        assert_eq!(parse_bool(no), Some(false));
    }
    assert_eq!(parse_bool(""), None);
}

#[test]
fn endpoint_scheme_is_inferred_from_use_ssl() {
    assert_eq!(normalize_endpoint("minio:9000", Some(false)), "http://minio:9000");
    assert_eq!(normalize_endpoint("minio:9000", Some(true)), "https://minio:9000");
    assert_eq!(normalize_endpoint("minio:9000", None), "https://minio:9000");
}

#[test]
fn endpoints_are_normalized_once() {
    let once = normalize_endpoint("minio:9000", Some(false));
    assert_eq!(normalize_endpoint(&once, None), once);
}

#[test]
fn secret_fields_become_options() {
    let all = secrets(&[(
        "a",
        &[
            ("type", "s3"),
            ("key_id", "id"),
            ("secret", "key"),
            ("session_token", "tok"),
            ("region", "eu"),
            ("endpoint", "minio:9000"),
            ("url_style", "PATH"),
            ("use_ssl", "no"),
        ],
    )]);
    assert_eq!(
        s3_options(&all, &remote("s3://b/k")),
        pairs(&[
            ("aws_access_key_id", "id"),
            ("aws_secret_access_key", "key"),
            ("aws_session_token", "tok"),
            ("aws_region", "eu"),
            ("aws_endpoint", "http://minio:9000"),
            ("aws_virtual_hosted_style_request", "false"),
            ("aws_allow_http", "true"),
        ])
    );
    let few = secrets(&[("a", &[("type", "s3"), ("region", ""), ("url_style", "vhost")])]);
    assert_eq!(s3_options(&few, &remote("s3://b/k")), vec![]);
    assert_eq!(s3_options(&Secrets::default(), &remote("s3://b/k")), vec![]);
}

#[test]
fn the_longest_scope_wins() {
    let both = secrets(&[
        ("wide", &[("type", "s3"), ("scope", "s3://b\ns3://c"), ("region", "wide")]),
        ("deep", &[("type", "s3"), ("scope", "s3://b/deep/"), ("region", "deep")]),
        ("any", &[("type", "s3"), ("region", "any")]),
        ("other", &[("type", "gcs"), ("scope", "s3://b/deep/er"), ("region", "other")]),
    ]);
    let region = |path: &str| s3_options(&both, &remote(path))[0].1.clone();
    assert_eq!(region("s3://b/deep/er/x"), "deep");
    assert_eq!(region("s3://b/x"), "wide");
    assert_eq!(region("s3://c/x"), "wide");
    assert_eq!(region("s3://d/x"), "any");
}

#[test]
fn overrides_come_last() {
    let sec = secrets(&[("a", &[("type", "s3"), ("region", "eu")])]);
    let overrides = pairs(&[("aws_region", "us")]);
    let options = build_store(&remote("s3://b/k"), &sec, &overrides, false, &vec![]).unwrap();
    assert_eq!(options, pairs(&[("aws_region", "eu"), ("aws_region", "us")]));
    // No secret is used for http(s).
    let options = build_store(&remote("https://h/k"), &sec, &overrides, false, &vec![]).unwrap();
    assert_eq!(options, overrides);
}
