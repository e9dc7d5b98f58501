use bgp::community::community_parse;
use bgp::community::is_large_community;

#[test]
fn standard() {
    assert_eq!(community_parse("65001:100"), Some((65001, 100)));
    assert_eq!(community_parse(" 174:21000 "), Some((174, 21000)));
}

#[test]
fn not_standard() {
    assert_eq!(community_parse("65001:1:2"), None); // large
    assert_eq!(community_parse("NO_EXPORT"), None); // well-known
    assert_eq!(community_parse("65001"), None); // single
    assert_eq!(community_parse("a:b"), None); // non-numeric
}

#[test]
fn large() {
    assert!(is_large_community("65001:1:2"));
    assert!(is_large_community("4200000000:1:1"));
    assert!(!is_large_community("65001:100")); // standard
    assert!(!is_large_community("NO_EXPORT"));
    assert!(!is_large_community("1:2:x"));
}

#[test]
fn community_edges() {
    assert_eq!(community_parse("4294967295:0"), Some((4294967295, 0)));
    assert_eq!(community_parse("4294967296:0"), None);
    assert_eq!(community_parse("+5:007"), Some((5, 7)));
    assert_eq!(community_parse("-5:7"), None);
    assert_eq!(community_parse("5: 7"), None);
    assert_eq!(community_parse("\u{2003}5:7\u{a0}"), Some((5, 7)));
    assert_eq!(community_parse(":7"), None);
    assert_eq!(community_parse("+:7"), None);
    assert_eq!(community_parse(""), None);
    assert!(!is_large_community("1:2:3:4"));
    assert!(!is_large_community("1::3"));
    assert!(is_large_community(" 1:2:3\n"));
}

#[test]
fn canonical_strings_are_read_back() {
    for (a, b) in [(0u32, 0u32), (1, 65535), (4294967295, 4294967295)] {
        assert_eq!(community_parse(&format!("{a}:{b}")), Some((a, b)));
        assert!(!is_large_community(&format!("{a}:{b}")));
        assert!(is_large_community(&format!("{a}:{b}:{a}")));
        assert_eq!(community_parse(&format!("{a}:{b}:{a}")), None);
    }
}
