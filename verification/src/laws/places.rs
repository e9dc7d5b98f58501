//! Laws of paths: where one leads, what may be read from there, and which objects it names.
use crate::cloud::any_internal;
use crate::cloud::bucket_of;
use crate::cloud::guarded_host;
use crate::cloud::internal_host;
use crate::cloud::is_expansion;
use crate::cloud::is_glob;
use crate::cloud::is_http;
use crate::cloud::is_internal;
use crate::cloud::is_internal_literal;
use crate::cloud::is_wild;
use crate::cloud::key_of_url;
use crate::cloud::key_rules;
use crate::cloud::lemma_literal_plain;
use crate::cloud::list_prefix;
use crate::cloud::list_prefix_is_literal;
use crate::cloud::listed_url;
use crate::cloud::listing_of;
use crate::cloud::located;
use crate::cloud::lookup_at;
use crate::cloud::lookup_of;
use crate::cloud::lookups_of;
use crate::cloud::matching_urls;
use crate::cloud::parse_all;
use crate::cloud::place_of;
use crate::cloud::remote_path;
use crate::cloud::scheme_split;
use crate::cloud::LocationView;
use crate::cloud::Place;
use crate::error::bad_value;
use crate::error::Blame;
use crate::error::Error;
use crate::error::ErrorText;
use crate::inet::IpAddr;
use crate::laws::texts::the_first_occurrence_is_found;
use crate::percent::escaped_key;
use crate::percent::percent_decoded;
use crate::text::ascii_lower;
use crate::text::occurs_at;
use crate::urls::in_order;
use crate::urls::parsed_url;
use crate::urls::pattern_matches;
use crate::urls::url_address;
use crate::urls::url_host;
use crate::urls::url_path;
use crate::urls::url_scheme;
use crate::urls::url_text;
use crate::urls::url_texts;
use crate::urls::MatchRules;
use glob::Pattern;
use url::Url;
use vstd::prelude::*;

verus! {

/// The text `scheme://rest`.
pub open spec fn with_scheme(scheme: Seq<char>, rest: Seq<char>) -> Seq<char> {
    scheme + "://"@ + rest
}

/// Whether a text holds no `c`.
pub open spec fn holds_no(s: Seq<char>, c: char) -> bool {
    forall|i: int| 0 <= i < s.len() ==> #[trigger] s[i] != c
}

/// What stands before the first `://` is the scheme.
proof fn lemma_scheme(scheme: Seq<char>, rest: Seq<char>)
    requires
        holds_no(scheme, ':'),
    ensures
        scheme_split(with_scheme(scheme, rest)) == Some((scheme, rest)),
{
    reveal_strlit("://");
    let path = with_scheme(scheme, rest);
    let n = scheme.len() as int;
    assert(path.subrange(n, n + 3) == "://"@);
    assert forall|k: int| 0 <= k < n implies !#[trigger] occurs_at(path, "://"@, k) by {
        the_first_occurrence_is_found(path, "://"@, k);
        if occurs_at(path, "://"@, k) {
            assert(path[k + 0] == "://"@[0]);
            assert(path[k] == scheme[k]);
        }
    }
    the_first_occurrence_is_found(path, "://"@, n);
    assert(path.take(n) == scheme);
    assert(path.skip(n + 3) == rest);
}

/// A path without `://` is a local file.
pub proof fn plain_paths_are_local(path: Seq<char>)
    requires
        forall|i: int| !#[trigger] occurs_at(path, "://"@, i),
    ensures
        located(path) == Ok::<LocationView, ErrorText>(LocationView::Local(path)),
        !remote_path(path),
        lookup_of(path) is None,
{
    the_first_occurrence_is_found(path, "://"@, 0);
    if let Some(i) = crate::text::index_of(path, "://"@) {
        the_first_occurrence_is_found(path, "://"@, i);
        assert(occurs_at(path, "://"@, i));
    }
}

/// An `http` or `https` path, in any case, leads to the URL that it is, if it is one.
pub proof fn web_paths_are_their_urls(scheme: Seq<char>, rest: Seq<char>)
    requires
        holds_no(scheme, ':'),
        ascii_lower(scheme) == "http"@ || ascii_lower(scheme) == "https"@,
    ensures
        ({
            let path = with_scheme(scheme, rest);
            &&& remote_path(path)
            &&& parsed_url(path) matches Ok(url) ==> located(path) == Ok::<LocationView, ErrorText>(
                LocationView::Remote(url),
            )
            &&& parsed_url(path) matches Err(reason) ==> located(path) == Err::<
                LocationView,
                ErrorText,
            >(
                ErrorText {
                    blame: Blame::Value,
                    message: "bad URL '"@ + path + "': "@ + reason,
                },
            )
        }),
{
    lemma_scheme(scheme, rest);
    reveal_strlit("http");
    reveal_strlit("https");
    reveal_strlit("s3");
    reveal_strlit("s3a");
}

/// An `s3` or `s3a` path, in any case, leads to the object with its key in its bucket: the bucket
/// is what stands before the first `/`, the key what stands behind it, escaped.
pub proof fn store_paths_are_objects(scheme: Seq<char>, bucket: Seq<char>, key: Seq<char>)
    requires
        holds_no(scheme, ':'),
        holds_no(bucket, '/'),
        ascii_lower(scheme) == "s3"@ || ascii_lower(scheme) == "s3a"@,
    ensures
        place_of(with_scheme(scheme, bucket + "/"@ + key)) == Place::Remote(
            ascii_lower(scheme) + "://"@ + bucket + "/"@ + escaped_key(key),
        ),
        place_of(with_scheme(scheme, bucket)) == Place::Remote(
            ascii_lower(scheme) + "://"@ + bucket + "/"@ + escaped_key(Seq::empty()),
        ),
        remote_path(with_scheme(scheme, bucket + "/"@ + key)),
        remote_path(with_scheme(scheme, bucket)),
{
    let rest = bucket + "/"@ + key;
    lemma_scheme(scheme, rest);
    lemma_scheme(scheme, bucket);
    reveal_strlit("/");
    let n = bucket.len() as int;
    assert forall|k: int| 0 <= k < n implies !#[trigger] occurs_at(rest, "/"@, k) by {
        the_first_occurrence_is_found(rest, "/"@, k);
        if occurs_at(rest, "/"@, k) {
            assert(rest[k + 0] == "/"@[0]);
            assert(rest[k] == bucket[k]);
        }
    }
    assert(rest.subrange(n, n + 1) == "/"@);
    the_first_occurrence_is_found(rest, "/"@, n);
    assert(rest.take(n) == bucket);
    assert(rest.skip(n + 1) == key);
    if let Some(i) = crate::text::index_of(bucket, "/"@) {
        the_first_occurrence_is_found(bucket, "/"@, i);
        assert(bucket[i + 0] == "/"@[0]);
        assert(bucket[i] == '/');
    }
}

/// Whether a text can be the name of a scheme: letters, digits, `+`, `-` and `.`.
pub open spec fn is_scheme_name(s: Seq<char>) -> bool {
    s.len() > 0 && forall|i: int|
        0 <= i < s.len() ==> 'a' <= #[trigger] s[i] <= 'z' || 'A' <= s[i] <= 'Z' || '0' <= s[i]
            <= '9' || s[i] == '+' || s[i] == '-' || s[i] == '.'
}

/// A path of any other scheme leads nowhere, and the error says so; it is no local file.
pub proof fn other_schemes_are_refused(scheme: Seq<char>, rest: Seq<char>)
    requires
        is_scheme_name(scheme),
        ascii_lower(scheme) != "s3"@,
        ascii_lower(scheme) != "s3a"@,
        ascii_lower(scheme) != "http"@,
        ascii_lower(scheme) != "https"@,
    ensures
        ({
            let path = with_scheme(scheme, rest);
            &&& !remote_path(path)
            &&& located(path) == Err::<LocationView, ErrorText>(
                ErrorText {
                    blame: Blame::Value,
                    message: "unsupported URL scheme '"@ + ascii_lower(scheme) + "://' for '"@ + path
                        + "' (supported: s3://, http://, https://; local paths have no scheme)"@,
                },
            )
        }),
{
    assert(holds_no(scheme, ':'));
    lemma_scheme(scheme, rest);
    let low = ascii_lower(scheme);
    assert forall|i: int| 0 <= i < low.len() implies crate::cloud::is_scheme_char(
        #[trigger] low[i],
    ) by {
        let c = scheme[i];
        assert('a' <= c <= 'z' || 'A' <= c <= 'Z' || '0' <= c <= '9' || c == '+' || c == '-' || c
            == '.');
    }
}

/// Text before `://` that cannot be a scheme is part of a file name.
pub proof fn odd_schemes_are_local(scheme: Seq<char>, rest: Seq<char>, i: int)
    requires
        holds_no(scheme, ':'),
        scheme.len() == 0 || 0 <= i < scheme.len() && !is_scheme_name(seq![scheme[i]]),
    ensures
        located(with_scheme(scheme, rest)) == Ok::<LocationView, ErrorText>(
            LocationView::Local(with_scheme(scheme, rest)),
        ),
{
    lemma_scheme(scheme, rest);
    let low = ascii_lower(scheme);
    reveal_strlit("http");
    reveal_strlit("https");
    reveal_strlit("s3");
    reveal_strlit("s3a");
    if scheme.len() > 0 {
        let c = scheme[i];
        assert(seq![c][0] == c);
        assert(!('a' <= c <= 'z' || 'A' <= c <= 'Z' || '0' <= c <= '9' || c == '+' || c == '-' || c
            == '.'));
        assert(low[i] == c);
        assert(!crate::cloud::is_scheme_char(low[i]));
        assert("http"@ == seq!['h', 't', 't', 'p']);
        assert("https"@ == seq!['h', 't', 't', 'p', 's']);
        assert("s3"@ == seq!['s', '3']);
        assert("s3a"@ == seq!['s', '3', 'a']);
        assert(i == 0 || i == 1 || i == 2 || i == 3 || i == 4 || low.len() > 5);
    }
}

/// An object of a store asks for the `s3` secret of its URL; a web page and a local file ask for
/// none.
pub proof fn stores_ask_for_their_secret(url: Url, path: Seq<char>, e: ErrorText)
    ensures
        url_scheme(url) == "s3"@ || url_scheme(url) == "s3a"@ ==> {
            let lookup = lookup_at(Ok(LocationView::Remote(url)));
            &&& lookup is Some
            &&& lookup->0.secret_type == "s3"@
            &&& lookup->0.scope == Some(url_text(url))
            &&& lookup->0.name is None
        },
        url_scheme(url) != "s3"@ && url_scheme(url) != "s3a"@ ==> lookup_at(
            Ok(LocationView::Remote(url)),
        ) is None,
        lookup_at(Ok(LocationView::Local(path))) is None,
        lookup_at(Err(e)) is None,
        lookup_of(path) == lookup_at(located(path)),
{
}

/// Secrets are asked for in the order of the paths: one more path adds at most its own, at the
/// end.
pub proof fn secrets_are_asked_for_in_order(paths: Seq<Seq<char>>, path: Seq<char>)
    ensures
        ({
            let before = lookups_of(paths);
            let after = lookups_of(paths.push(path));
            &&& before.len() <= after.len() <= before.len() + 1
            &&& after.take(before.len() as int) == before
            &&& lookup_of(path) is None ==> after == before
            &&& lookup_of(path) matches Some(l) ==> after.contains(l)
        }),
{
    let before = lookups_of(paths);
    let after = lookups_of(paths.push(path));
    assert(paths.push(path).drop_last() == paths);
    assert(after.take(before.len() as int) == before);
    if lookup_of(path) is Some && after.len() > before.len() {
        assert(after[before.len() as int] == lookup_of(path)->0);
    }
}

/// Every secret that is asked for is the one of some path.
pub proof fn no_secret_is_asked_for_in_vain(paths: Seq<Seq<char>>, k: int)
    requires
        0 <= k < lookups_of(paths).len(),
    ensures
        exists|i: int| 0 <= i < paths.len() && lookup_of(#[trigger] paths[i]) == Some(
            lookups_of(paths)[k],
        ),
    decreases paths.len(),
{
    let init = paths.drop_last();
    let before = lookups_of(init);
    if k < before.len() {
        no_secret_is_asked_for_in_vain(init, k);
        let i = choose|i: int| 0 <= i < init.len() && lookup_of(#[trigger] init[i]) == Some(before[k]);
        assert(paths[i] == init[i]);
    } else {
        assert(lookup_of(paths[paths.len() - 1]) == Some(lookups_of(paths)[k]));
    }
}

/// The IPv4 networks that a read must not be aimed at: this host (0/8), private (10/8, 172.16/12,
/// 192.168/16), shared (100.64/10), loopback (127/8), link-local with the metadata service
/// (169.254/16), and broadcast. No other address is refused.
pub proof fn internal_networks_v4(bits: u32)
    ensures
        is_internal(IpAddr::V4(bits)) <==> {
            ||| bits <= 0x00ff_ffff
            ||| 0x0a00_0000 <= bits <= 0x0aff_ffff
            ||| 0x6440_0000 <= bits <= 0x647f_ffff
            ||| 0x7f00_0000 <= bits <= 0x7fff_ffff
            ||| 0xa9fe_0000 <= bits <= 0xa9fe_ffff
            ||| 0xac10_0000 <= bits <= 0xac1f_ffff
            ||| 0xc0a8_0000 <= bits <= 0xc0a8_ffff
            ||| bits == 0xffff_ffff
        },
{
}

/// The IPv6 networks that a read must not be aimed at: unspecified, loopback, unique local
/// (fc00::/7), link-local (fe80::/10), and the mapped forms of internal IPv4 addresses.
pub proof fn internal_networks_v6(bits: u128)
    ensures
        is_internal(IpAddr::V6(bits)) <==> {
            ||| bits <= 1
            ||| 0xfc00_0000_0000_0000_0000_0000_0000_0000 <= bits
                <= 0xfdff_ffff_ffff_ffff_ffff_ffff_ffff_ffff
            ||| 0xfe80_0000_0000_0000_0000_0000_0000_0000 <= bits
                <= 0xfebf_ffff_ffff_ffff_ffff_ffff_ffff_ffff
            ||| 0xffff_0000_0000 <= bits <= 0xffff_ffff_ffff && is_internal(
                IpAddr::V4((bits - 0xffff_0000_0000) as u32),
            )
        },
{
    if 0xffff_0000_0000 <= bits <= 0xffff_ffff_ffff {
        assert(bits as int / 0x1_0000_0000 == 0xffff);
        assert(bits as int % 0x1_0000_0000 == bits - 0xffff_0000_0000);
    }
}

/// The host of a web URL is guarded, that of a store is not; one internal address among many is
/// enough, and the refusal names the host.
pub proof fn web_hosts_are_guarded(url: Url, addresses: Seq<IpAddr>, i: int, host: Seq<char>)
    ensures
        url_scheme(url) == "http"@ || url_scheme(url) == "https"@ ==> guarded_host(url) == url_host(
            url,
        ),
        url_scheme(url) != "http"@ && url_scheme(url) != "https"@ ==> guarded_host(url) is None,
        0 <= i < addresses.len() && is_internal(addresses[i]) ==> any_internal(addresses),
        (forall|k: int| 0 <= k < addresses.len() ==> !is_internal(#[trigger] addresses[k]))
            ==> !any_internal(addresses),
        url_address(url) matches Some(ip) ==> (is_internal_literal(url) <==> is_internal(ip)),
        url_address(url) is None ==> !is_internal_literal(url),
        internal_host(host) == "refusing to read from internal host '"@ + host
            + "' (loopback / link-local / private / cloud-metadata); set BGP_ALLOW_INTERNAL_HOSTS=1 to override"@,
{
}

/// A key is a glob exactly if it holds `*`, `?` or `[`.
pub proof fn globs_hold_a_wildcard(key: Seq<char>)
    ensures
        is_glob(key) <==> exists|i: int|
            0 <= i < key.len() && (#[trigger] key[i] == '*' || key[i] == '?' || key[i] == '['),
{
    lemma_literal_plain(key);
    if is_glob(key) {
        assert(is_wild(key[crate::cloud::literal_len(key) as int]));
    }
}

/// What is listed for a glob is everything under its last directory without a wildcard: the
/// prefix is a beginning of the key, holds no wildcard and ends in `/` or is empty, and every `/`
/// behind it stands behind a wildcard. What is no glob is listed by its own name.
pub proof fn listings_cover_their_glob(key: Seq<char>)
    ensures
        ({
            let p = list_prefix(key);
            &&& p.len() <= key.len()
            &&& p == key.take(p.len() as int)
            &&& holds_no(p, '*') && holds_no(p, '?') && holds_no(p, '[')
            &&& is_glob(key) && p.len() > 0 ==> p.last() == '/'
            &&& is_glob(key) ==> forall|i: int|
                p.len() <= i < key.len() && #[trigger] key[i] == '/' ==> exists|j: int|
                    p.len() <= j < i && (#[trigger] key[j] == '*' || key[j] == '?' || key[j] == '[')
            &&& !is_glob(key) ==> p == key
        }),
{
    list_prefix_is_literal(key);
    lemma_literal_plain(key);
    let p = list_prefix(key);
    let n = crate::cloud::literal_len(key) as int;
    assert forall|i: int| 0 <= i < p.len() implies #[trigger] p[i] != '*' && p[i] != '?' && p[i]
        != '[' by {
        assert(!is_wild(p[i]));
    }
    if is_glob(key) {
        assert forall|i: int| p.len() <= i < key.len() && #[trigger] key[i] == '/' implies exists|
            j: int,
        |
            p.len() <= j < i && (#[trigger] key[j] == '*' || key[j] == '?' || key[j] == '[') by {
            assert(i >= n);
            assert(is_wild(key[n]));
            assert(p.len() <= n) by {
                if p.len() > n {
                    assert(p[n] == key[n]);
                }
            }
        }
    }
}

/// Keys are matched without regard to case, and a wildcard does not cross a `/`; a leading dot is
/// like any other character.
pub proof fn keys_are_matched_by_segment()
    ensures
        key_rules() == (MatchRules {
            case_sensitive: false,
            literal_separator: true,
            literal_leading_dot: false,
        }),
{
}

/// The key of a URL is its path without the leading `/`, decoded.
pub proof fn keys_are_decoded_paths(url: Url, path: Seq<char>)
    ensures
        url_path(url) == seq!['/'] + path ==> key_of_url(url) == percent_decoded(path),
        url_path(url).len() == 0 ==> key_of_url(url) == percent_decoded(Seq::empty()),
{
    if url_path(url) == seq!['/'] + path {
        assert(url_path(url).skip(1) == path);
    }
    if url_path(url).len() == 0 {
        assert(url_path(url) == Seq::<char>::empty());
    }
}

/// Web servers are not listed. A store is listed by the prefix of the key, if the key is a
/// pattern; if not, the error says why.
pub proof fn only_stores_are_listed(url: Url, key: Seq<char>, pattern: Result<Pattern, Seq<char>>)
    ensures
        url_scheme(url) == "http"@ || url_scheme(url) == "https"@ ==> listing_of(url, key, pattern)
            == Ok::<Option<Seq<char>>, ErrorText>(None) && is_http(url),
        url_scheme(url) != "http"@ && url_scheme(url) != "https"@ ==> !is_http(url),
        !is_http(url) && pattern is Ok ==> listing_of(url, key, pattern) == Ok::<
            Option<Seq<char>>,
            ErrorText,
        >(Some(list_prefix(key))),
        !is_http(url) && pattern is Err ==> listing_of(url, key, pattern) == Err::<
            Option<Seq<char>>,
            ErrorText,
        >(
            ErrorText {
                blame: Blame::Value,
                message: "bad glob '"@ + url_text(url) + "': "@ + pattern->Err_0,
            },
        ),
{
}

/// The URL of a listed object has the scheme and the bucket of the glob, and the object's key.
pub proof fn listed_objects_stay_in_their_bucket(url: Url, literal: Seq<char>)
    requires
        url_host(url) is Some,
        holds_no(url_host(url)->0, '/'),
    ensures
        listed_url(url, literal) == url_scheme(url) + "://"@ + url_host(url)->0 + "/"@
            + escaped_key(literal),
        bucket_of(url) == url_host(url)->0,
{
    let bucket = url_host(url)->0;
    let rest = bucket + "/"@ + literal;
    reveal_strlit("/");
    let n = bucket.len() as int;
    assert forall|k: int| 0 <= k < n implies !#[trigger] occurs_at(rest, "/"@, k) by {
        the_first_occurrence_is_found(rest, "/"@, k);
        if occurs_at(rest, "/"@, k) {
            assert(rest[k + 0] == "/"@[0]);
            assert(rest[k] == bucket[k]);
        }
    }
    assert(rest.subrange(n, n + 1) == "/"@);
    the_first_occurrence_is_found(rest, "/"@, n);
    assert(rest.take(n) == bucket);
    assert(rest.skip(n + 1) == literal);
}

/// The objects that are selected are those whose decoded keys match, each under its own URL and in
/// the order of the list.
pub proof fn matching_objects_are_selected(url: Url, pattern: Pattern, listed: Seq<Seq<char>>)
    ensures
        forall|i: int|
            0 <= i < listed.len() && pattern_matches(
                pattern,
                percent_decoded(#[trigger] listed[i]),
                key_rules(),
            ) ==> matching_urls(url, pattern, listed).contains(
                listed_url(url, percent_decoded(listed[i])),
            ),
        forall|k: int|
            0 <= k < matching_urls(url, pattern, listed).len() ==> selects(
                url,
                pattern,
                listed,
                #[trigger] matching_urls(url, pattern, listed)[k],
            ),
        matching_urls(url, pattern, listed).len() <= listed.len(),
    decreases listed.len(),
{
    if listed.len() > 0 {
        let init = listed.drop_last();
        let before = matching_urls(url, pattern, init);
        let all = matching_urls(url, pattern, listed);
        matching_objects_are_selected(url, pattern, init);
        assert forall|i: int|
            0 <= i < listed.len() && pattern_matches(
                pattern,
                percent_decoded(#[trigger] listed[i]),
                key_rules(),
            ) implies all.contains(listed_url(url, percent_decoded(listed[i]))) by {
            let text = listed_url(url, percent_decoded(listed[i]));
            if i < init.len() {
                assert(init[i] == listed[i]);
                let k = choose|k: int| 0 <= k < before.len() && before[k] == text;
                assert(all[k] == text);
            } else {
                assert(all[before.len() as int] == text);
            }
        }
        assert forall|k: int| 0 <= k < all.len() implies selects(
            url,
            pattern,
            listed,
            #[trigger] all[k],
        ) by {
            if k < before.len() {
                assert(all[k] == before[k]);
                let i = choose|i: int|
                    0 <= i < init.len() && pattern_matches(
                        pattern,
                        percent_decoded(#[trigger] init[i]),
                        key_rules(),
                    ) && before[k] == listed_url(url, percent_decoded(init[i]));
                assert(listed[i] == init[i]);
            } else {
                assert(pattern_matches(
                    pattern,
                    percent_decoded(listed[listed.len() - 1]),
                    key_rules(),
                ));
            }
        }
    }
}

/// Objects are selected one by one: what is listed first is selected first, and each is selected
/// or not on its own.
pub proof fn objects_are_selected_one_by_one(
    url: Url,
    pattern: Pattern,
    a: Seq<Seq<char>>,
    b: Seq<Seq<char>>,
    object: Seq<char>,
)
    ensures
        matching_urls(url, pattern, a + b) == matching_urls(url, pattern, a) + matching_urls(
            url,
            pattern,
            b,
        ),
        pattern_matches(pattern, percent_decoded(object), key_rules()) ==> matching_urls(
            url,
            pattern,
            seq![object],
        ) == seq![listed_url(url, percent_decoded(object))],
        !pattern_matches(pattern, percent_decoded(object), key_rules()) ==> matching_urls(
            url,
            pattern,
            seq![object],
        ).len() == 0,
    decreases b.len(),
{
    let one = seq![object];
    assert(one.drop_last() == Seq::<Seq<char>>::empty());
    assert(matching_urls(url, pattern, one.drop_last()) == Seq::<Seq<char>>::empty());
    if pattern_matches(pattern, percent_decoded(object), key_rules()) {
        assert(matching_urls(url, pattern, one) == seq![
            listed_url(url, percent_decoded(object)),
        ]);
    }
    if b.len() == 0 {
        assert(a + b == a);
        assert(matching_urls(url, pattern, a) + matching_urls(url, pattern, b) == matching_urls(
            url,
            pattern,
            a,
        ));
    } else {
        objects_are_selected_one_by_one(url, pattern, a, b.drop_last(), object);
        assert((a + b).drop_last() == a + b.drop_last());
        assert((a + b).last() == b.last());
        assert(matching_urls(url, pattern, a + b) == matching_urls(url, pattern, a)
            + matching_urls(url, pattern, b));
    }
}

/// Whether `text` is the URL of a listed object whose key matches.
pub open spec fn selects(
    url: Url,
    pattern: Pattern,
    listed: Seq<Seq<char>>,
    text: Seq<char>,
) -> bool {
    exists|i: int|
        0 <= i < listed.len() && pattern_matches(
            pattern,
            percent_decoded(#[trigger] listed[i]),
            key_rules(),
        ) && text == listed_url(url, percent_decoded(listed[i]))
}

/// Texts are parsed one by one and in order; if one is no URL, the first such is reported.
pub proof fn urls_are_parsed_in_order(texts: Seq<Seq<char>>)
    ensures
        parse_all(texts).1 is None ==> parse_all(texts).0.len() == texts.len() && forall|i: int|
            0 <= i < texts.len() ==> parsed_url(#[trigger] texts[i]) == Ok::<Url, Seq<char>>(
                parse_all(texts).0[i],
            ),
        parse_all(texts).1 matches Some(reason) ==> exists|i: int|
            0 <= i < texts.len() && parsed_url(#[trigger] texts[i]) == Err::<Url, Seq<char>>(reason)
                && forall|j: int| 0 <= j < i ==> parsed_url(#[trigger] texts[j]) is Ok,
    decreases texts.len(),
{
    if texts.len() > 0 {
        let init = texts.drop_last();
        let last = texts.len() - 1;
        urls_are_parsed_in_order(init);
        assert(texts.last() == texts[last]);
        if parse_all(init).1 is None {
            assert forall|j: int| 0 <= j < last implies parsed_url(#[trigger] texts[j]) == Ok::<
                Url,
                Seq<char>,
            >(parse_all(init).0[j]) by {
                assert(init[j] == texts[j]);
            }
        } else {
            let reason = parse_all(init).1->0;
            let i = choose|i: int|
                0 <= i < init.len() && parsed_url(#[trigger] init[i]) == Err::<Url, Seq<char>>(
                    reason,
                ) && forall|j: int| 0 <= j < i ==> parsed_url(#[trigger] init[j]) is Ok;
            assert(texts[i] == init[i]);
            assert forall|j: int| 0 <= j < i implies parsed_url(#[trigger] texts[j]) is Ok by {
                assert(init[j] == texts[j]);
            }
        }
    }
}

/// Expanding a glob gives the URLs of the listed objects that match, all of them and no others,
/// sorted by their text. A web URL is its own expansion.
pub proof fn globs_expand_to_matching_objects(
    out: Result<Vec<Url>, Error>,
    url: Url,
    pattern: Pattern,
    listed: Seq<Seq<char>>,
)
    requires
        is_expansion(out, url, Ok(pattern), listed),
        out is Ok,
    ensures
        is_http(url) ==> out->Ok_0@.len() == 1 && out->Ok_0@[0] == url,
        !is_http(url) ==> in_order(url_texts(out->Ok_0@)),
        !is_http(url) ==> out->Ok_0@.len() == matching_urls(url, pattern, listed).len(),
        !is_http(url) ==> forall|i: int|
            0 <= i < listed.len() && pattern_matches(
                pattern,
                percent_decoded(#[trigger] listed[i]),
                key_rules(),
            ) ==> exists|u: Url| #[trigger]
                out->Ok_0@.contains(u) && parsed_url(listed_url(url, percent_decoded(listed[i])))
                    == Ok::<Url, Seq<char>>(u),
        !is_http(url) ==> forall|k: int|
            0 <= k < out->Ok_0@.len() ==> is_selected(
                url,
                pattern,
                listed,
                #[trigger] out->Ok_0@[k],
            ),
{
    if !is_http(url) {
        broadcast use vstd::seq_lib::group_to_multiset_ensures;

        let texts = matching_urls(url, pattern, listed);
        let urls = parse_all(texts).0;
        let found = out->Ok_0@;
        matching_objects_are_selected(url, pattern, listed);
        urls_are_parsed_in_order(texts);
        assert forall|i: int|
            0 <= i < listed.len() && pattern_matches(
                pattern,
                percent_decoded(#[trigger] listed[i]),
                key_rules(),
            ) implies exists|u: Url| #[trigger]
            found.contains(u) && parsed_url(listed_url(url, percent_decoded(listed[i]))) == Ok::<
                Url,
                Seq<char>,
            >(u) by {
            let text = listed_url(url, percent_decoded(listed[i]));
            assert(texts.contains(text));
            let k = choose|k: int| 0 <= k < texts.len() && texts[k] == text;
            assert(urls.contains(urls[k]));
            assert(urls.to_multiset().count(urls[k]) > 0);
            assert(found.contains(urls[k]));
        }
        assert forall|k: int| 0 <= k < found.len() implies is_selected(
            url,
            pattern,
            listed,
            #[trigger] found[k],
        ) by {
            assert(found.contains(found[k]));
            assert(found.to_multiset().count(found[k]) > 0);
            assert(urls.contains(found[k]));
            let j = choose|j: int| 0 <= j < urls.len() && urls[j] == found[k];
            assert(selects(url, pattern, listed, texts[j]));
        }
        assert(found.to_multiset().len() == found.len());
        assert(urls.to_multiset().len() == urls.len());
    }
}

/// A glob whose key is no pattern, and one that names an object whose URL cannot be parsed, are
/// errors of the argument that say why.
pub proof fn bad_globs_are_refused(
    out: Result<Vec<Url>, Error>,
    url: Url,
    pattern: Result<Pattern, Seq<char>>,
    listed: Seq<Seq<char>>,
)
    requires
        is_expansion(out, url, pattern, listed),
        !is_http(url),
    ensures
        pattern matches Err(reason) ==> out is Err && out->Err_0.blame == Blame::Value
            && out->Err_0.message@ == "bad glob '"@ + url_text(url) + "': "@ + reason,
        pattern matches Ok(pattern) ==> (parse_all(matching_urls(url, pattern, listed)).1 matches Some(
            reason,
        ) ==> out is Err && out->Err_0.blame == Blame::Value && out->Err_0.message@
            == "rebuild s3 url under '"@ + url_text(url) + "': "@ + reason),
        pattern matches Ok(pattern) ==> (parse_all(matching_urls(url, pattern, listed)).1 is None
            ==> out is Ok),
{
}

/// Whether a URL is that of a listed object whose key matches.
pub open spec fn is_selected(
    url: Url,
    pattern: Pattern,
    listed: Seq<Seq<char>>,
    found: Url,
) -> bool {
    exists|text: Seq<char>| #[trigger]
        selects(url, pattern, listed, text) && parsed_url(text) == Ok::<Url, Seq<char>>(found)
}

/// An error of an argument is blamed on the argument, in its own words.
pub proof fn bad_values_are_blamed_on_the_argument(message: Seq<char>)
    ensures
        bad_value(message).blame == Blame::Value,
        bad_value(message).message == message,
{
}

} // verus!
