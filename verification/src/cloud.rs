//! Cloud object-store access for `s3://` and `http(s)://` MRT sources: the decisions.
//!
//! This module classifies a path as local vs remote, maps a DuckDB `s3` secret onto
//! object-store S3 options, guards against reading from internal hosts, and selects the
//! objects that a glob names. Talking to the network is left to the caller.
//!
//! Scope: `s3://` (AWS S3, plus R2 / MinIO / GCS-HMAC via a `TYPE s3` secret with
//! `ENDPOINT`/`URL_STYLE`) and `http(s)://` reads. Native `gs://` / `az://` are
//! deliberately unsupported (a clear error, not a silent local-file fallback).
use crate::decode::text_view;
use crate::error::bad_value;
use crate::error::Error;
use crate::error::ErrorText;
use crate::inet::IpAddr;
use crate::keys::is_whole_key;
use crate::keys::whole_keys_give_whole_paths;
use crate::mrt::string_views;
use crate::percent::decode_text;
use crate::percent::escape_key;
use crate::percent::escaped_key;
use crate::percent::percent_decoded;
use crate::percent::unescaped;
use crate::secrets::fields_of;
use crate::secrets::find_secret;
use crate::secrets::is_pick;
use crate::secrets::secrets_view;
use crate::secrets::FieldMap;
use crate::secrets::FieldsView;
use crate::secrets::SecretFields;
use crate::text::ascii_lower;
use crate::text::chars_of;
use crate::text::find;
use crate::text::holds;
use crate::text::index_of;
use crate::text::is_word;
use crate::text::joined;
use crate::text::lower;
use crate::text::same_ignoring_case;
use crate::text::same_text;
use crate::text::string_between;
use crate::text::string_of;
use crate::text::trim;
use crate::text::trimmed;
use crate::urls::address_of;
use crate::urls::copy_url;
use crate::urls::dotted;
use crate::urls::ends_in_path;
use crate::urls::host_of;
use crate::urls::in_order;
use crate::urls::is_bucket;
use crate::urls::is_delimiter;
use crate::urls::is_plain_bucket;
use crate::urls::is_store_scheme;
use crate::urls::is_web_scheme;
use crate::urls::match_pattern;
use crate::urls::object_url;
use crate::urls::parse_pattern;
use crate::urls::parse_url;
use crate::urls::scheme_url;
use crate::urls::parsed_pattern;
use crate::urls::parsed_url;
use crate::urls::path_of;
use crate::urls::pattern_matches;
use crate::urls::scheme_of;
use crate::urls::sort_urls;
use crate::urls::text_of;
use crate::urls::url_address;
use crate::urls::url_host;
use crate::urls::url_path;
use crate::urls::url_scheme;
use crate::urls::url_text;
use crate::urls::url_texts;
use crate::urls::MatchRules;
use glob::Pattern;
use url::Url;
use vgi::secrets::Secrets;
use vstd::prelude::*;
use vstd::utf8::encode_utf8;

verus! {

/// A resolved path: either a local filesystem path or a remote object URL.
pub enum Location {
    Local(String),
    Remote(Url),
}

/// A [`Location`], with its path as a sequence.
pub enum LocationView {
    Local(Seq<char>),
    Remote(Url),
}

impl View for Location {
    type V = LocationView;

    open spec fn view(&self) -> LocationView {
        match *self {
            Location::Local(path) => LocationView::Local(path@),
            Location::Remote(url) => LocationView::Remote(url),
        }
    }
}

/// A result of [`classify`], by its view.
pub open spec fn location_view(out: Result<Location, Error>) -> Result<LocationView, ErrorText> {
    match out {
        Ok(location) => Ok(location@),
        Err(e) => Err(e@),
    }
}

/// What stands before and behind the first `://` of a path.
pub open spec fn scheme_split(path: Seq<char>) -> Option<(Seq<char>, Seq<char>)> {
    match index_of(path, "://"@) {
        Some(i) => Some((path.take(i), path.skip(i + 3))),
        None => None,
    }
}

/// Whether `c` can stand in a URL scheme.
pub open spec fn is_scheme_char(c: char) -> bool {
    'a' <= c <= 'z' || 'A' <= c <= 'Z' || '0' <= c <= '9' || c == '+' || c == '-' || c == '.'
}

/// Whether a text has the shape of a URL scheme.
pub open spec fn is_scheme(text: Seq<char>) -> bool {
    text.len() > 0 && forall|i: int| 0 <= i < text.len() ==> is_scheme_char(#[trigger] text[i])
}

/// What stands before and behind the first `/`: the bucket, and the key.
pub open spec fn bucket_split(rest: Seq<char>) -> (Seq<char>, Seq<char>) {
    match index_of(rest, "/"@) {
        Some(i) => (rest.take(i), rest.skip(i + 1)),
        None => (rest, Seq::empty()),
    }
}

/// The URL of an object: `scheme://bucket/key`, the key escaped.
pub open spec fn s3_url(scheme: Seq<char>, rest: Seq<char>) -> Seq<char> {
    object_url(scheme, bucket_split(rest).0, escaped_key(bucket_split(rest).1))
}

/// Where a path leads, before any URL is parsed.
pub enum Place {
    /// To a local file.
    Local,
    /// To the object with this URL.
    Remote(Seq<char>),
    /// Nowhere: the scheme, in lower case, is not supported.
    Unsupported(Seq<char>),
}

/// Where a path leads: `s3` and `s3a` paths to an object whose key is escaped, `http` and
/// `https` paths to the URL they are, other schemes nowhere, and everything without a
/// scheme to a local file.
pub open spec fn place_of(path: Seq<char>) -> Place {
    match scheme_split(path) {
        Some((scheme, rest)) => {
            let name = ascii_lower(scheme);
            if name == "s3"@ || name == "s3a"@ {
                Place::Remote(s3_url(name, rest))
            } else if name == "http"@ || name == "https"@ {
                Place::Remote(path)
            } else if is_scheme(name) {
                Place::Unsupported(name)
            } else {
                Place::Local
            }
        },
        None => Place::Local,
    }
}

/// The message for a path whose URL cannot be parsed.
pub open spec fn bad_url(path: Seq<char>, reason: Seq<char>) -> Seq<char> {
    "bad URL '"@ + path + "': "@ + reason
}

/// The message for a scheme that is not supported.
pub open spec fn unsupported_scheme(scheme: Seq<char>, path: Seq<char>) -> Seq<char> {
    "unsupported URL scheme '"@ + scheme + "://' for '"@ + path
        + "' (supported: s3://, http://, https://; local paths have no scheme)"@
}

/// The location of a path whose URL was parsed.
pub open spec fn parsed_location(
    path: Seq<char>,
    parsed: Result<Url, Seq<char>>,
) -> Result<LocationView, ErrorText> {
    match parsed {
        Ok(url) => Ok(LocationView::Remote(url)),
        Err(reason) => Err(bad_value(bad_url(path, reason))),
    }
}

/// The location of a path.
pub open spec fn located(path: Seq<char>) -> Result<LocationView, ErrorText> {
    match place_of(path) {
        Place::Local => Ok(LocationView::Local(path)),
        Place::Remote(text) => parsed_location(path, parsed_url(text)),
        Place::Unsupported(scheme) => Err(bad_value(unsupported_scheme(scheme, path))),
    }
}

/// Where a path leads, in executable form.
pub enum Route {
    Local,
    Remote(String),
    Unsupported(String),
}

/// A [`Route`], by its view.
pub open spec fn route_view(route: Route) -> Place {
    match route {
        Route::Local => Place::Local,
        Route::Remote(text) => Place::Remote(text@),
        Route::Unsupported(scheme) => Place::Unsupported(scheme@),
    }
}

/// Build an `s3://bucket/key` URL string with the key's URL-delimiter chars
/// percent-encoded so that parsing preserves the whole key (incl. a `?` glob).
pub fn encode_s3_url(scheme: &str, rest: &str) -> (out: String)
    ensures
        out@ == s3_url(scheme@, rest@),
{
    let chars = chars_of(rest);
    proof {
        reveal_strlit("/");
    }
    let n: usize = chars.len();
    let (bucket, key) = match find(&chars, &chars_of("/")) {
        Some(i) => {
            assert(chars@.subrange(0, i as int) == chars@.take(i as int));
            assert(chars@.subrange(i + 1, chars@.len() as int) == chars@.skip(i + 1));
            (string_between(&chars, 0, i), string_between(&chars, i + 1, n))
        },
        None => (string_of(chars.as_slice()), String::new()),
    };
    let escaped = escape_key(key.as_str());
    let mut out = joined(scheme, "://");
    out.append(bucket.as_str());
    out.append("/");
    out.append(escaped.as_str());
    out
}

/// Decide where a path leads.
pub fn route(path: &str) -> (route: Route)
    ensures
        route_view(route) == place_of(path@),
{
    let chars = chars_of(path);
    proof {
        reveal_strlit("://");
    }
    match find(&chars, &chars_of("://")) {
        Some(i) => {
            let scheme = string_between(&chars, 0, i);
            assert(scheme@ == chars@.take(i as int));
            let name = lower(&chars_of(scheme.as_str()));
            let name_text = string_of(name.as_slice());
            if is_word(&name, "s3") || is_word(&name, "s3a") {
                let n: usize = chars.len();
                let rest = string_between(&chars, i + 3, n);
                assert(rest@ == chars@.skip(i + 3));
                Route::Remote(encode_s3_url(name_text.as_str(), rest.as_str()))
            } else if is_word(&name, "http") || is_word(&name, "https") {
                Route::Remote(string_of(chars.as_slice()))
            } else if looks_like_scheme(&name) {
                Route::Unsupported(name_text)
            } else {
                Route::Local
            }
        },
        None => Route::Local,
    }
}

/// Whether a text has the shape of a URL scheme.
fn looks_like_scheme(chars: &Vec<char>) -> (yes: bool)
    ensures
        yes == is_scheme(chars@),
{
    if chars.len() == 0 {
        return false;
    }
    for i in 0..chars.len()
        invariant
            forall|k: int| 0 <= k < i ==> is_scheme_char(#[trigger] chars@[k]),
    {
        let c = chars[i];
        if !(('a' <= c && c <= 'z') || ('A' <= c && c <= 'Z') || ('0' <= c && c <= '9') || c == '+'
            || c == '-' || c == '.') {
            assert(!is_scheme_char(chars@[i as int]));
            return false;
        }
    }
    true
}

/// The location of a path, once its URL was parsed.
pub fn locate_parsed(path: &str, parsed: Result<Url, String>) -> (out: Result<Location, Error>)
    ensures
        location_view(out) == parsed_location(
            path@,
            match parsed {
                Ok(url) => Ok(url),
                Err(reason) => Err(reason@),
            },
        ),
{
    match parsed {
        Ok(url) => Ok(Location::Remote(url)),
        Err(reason) => {
            let mut message = joined("bad URL '", path);
            message.append("': ");
            message.append(reason.as_str());
            Err(Error::value_error(message))
        },
    }
}

/// Whether a path is that of an object whose key survives its URL: `scheme://bucket/key`
/// with an `s3` scheme in any case.
pub open spec fn is_object_path(
    path: Seq<char>,
    scheme: Seq<char>,
    bucket: Seq<char>,
    key: Seq<char>,
) -> bool {
    &&& path == object_url(scheme, bucket, key)
    &&& is_store_scheme(ascii_lower(scheme))
    &&& is_bucket(bucket)
    &&& is_whole_key(key)
}

/// Whether a URL leads to the object with a key, and to nothing else: it has no query and no
/// fragment.
pub open spec fn leads_to(url: Url, scheme: Seq<char>, key: Seq<char>) -> bool {
    &&& url_scheme(url) == scheme
    &&& unescaped(encode_utf8(without_slash(url_path(url)))) == encode_utf8(key)
    &&& ends_in_path(url)
}

/// The scheme of a path, in lower case.
pub open spec fn path_scheme(path: Seq<char>) -> Option<Seq<char>> {
    match scheme_split(path) {
        Some((scheme, _)) => Some(ascii_lower(scheme)),
        None => None,
    }
}

/// Whether a URL has the scheme of a path; the host of an `http(s)` URL is guarded.
pub open spec fn keeps_scheme(url: Url, path: Seq<char>) -> bool {
    &&& path_scheme(path) == Some(url_scheme(url))
    &&& is_web_scheme(url_scheme(url)) ==> guarded_host(url) is Some
}

/// Classify a `path` argument as a local file path or a remote object URL. A URL keeps the
/// scheme of its path, and that of an `http(s)` path has a host.
///
/// The key of an `s3` path comes through whole, whatever it holds, as far as it has no dot
/// segments and no space at its end (see [`crate::keys`]), and the URL has nothing behind it.
/// With a plain bucket name, the URL is always accepted. An `http(s)` path whose host is a
/// dotted IPv4 address leads to that address.
pub fn classify(path: &str) -> (out: Result<Location, Error>)
    ensures
        location_view(out) == located(path@),
        remote_path(path@) && out is Ok ==> out->Ok_0 is Remote && keeps_scheme(
            out->Ok_0->Remote_0,
            path@,
        ),
        forall|scheme: Seq<char>, bucket: Seq<char>, key: Seq<char>|
            #![trigger object_url(scheme, bucket, key)]
            is_object_path(path@, scheme, bucket, key) && out is Ok ==> out->Ok_0 is Remote
                && leads_to(out->Ok_0->Remote_0, ascii_lower(scheme), key),
        forall|scheme: Seq<char>, bucket: Seq<char>, key: Seq<char>|
            #![trigger object_url(scheme, bucket, key)]
            is_object_path(path@, scheme, bucket, key) && is_plain_bucket(bucket, escaped_key(key))
                ==> out is Ok && url_host(out->Ok_0->Remote_0) == Some(bucket) && url_text(
                out->Ok_0->Remote_0,
            ) == ascii_lower(scheme) + "://"@ + bucket + url_path(out->Ok_0->Remote_0),
        forall|scheme: Seq<char>, bits: u32, rest: Seq<char>|
            path@ == #[trigger] object_url(scheme, dotted(bits), rest) && is_web_scheme(
                ascii_lower(scheme),
            ) && out is Ok ==> out->Ok_0 is Remote && url_address(out->Ok_0->Remote_0) == Some(
                IpAddr::V4(bits),
            ),
{
    proof {
        assert forall|scheme: Seq<char>, bits: u32, rest: Seq<char>|
            path@ == #[trigger] object_url(scheme, dotted(bits), rest) && is_web_scheme(
                ascii_lower(scheme),
            ) implies place_of(path@) == Place::Remote(path@) by {
            reveal_strlit("http");
            reveal_strlit("https");
            reveal_strlit("s3");
            reveal_strlit("s3a");
            let behind = dotted(bits) + "/"@ + rest;
            assert(path@ == scheme + "://"@ + behind);
            lemma_scheme_split(path@, scheme, behind);
        }
        assert forall|scheme: Seq<char>, bucket: Seq<char>, key: Seq<char>|
            #![trigger object_url(scheme, bucket, key)]
            is_object_path(path@, scheme, bucket, key) implies place_of(path@) == Place::Remote(
            object_url(ascii_lower(scheme), bucket, escaped_key(key)),
        ) by {
            lemma_object_path(path@, scheme, bucket, key);
        }
    }
    match route(path) {
        Route::Local => Ok(Location::Local(path.to_string())),
        Route::Remote(url) => {
            let parsed = parse_url(url.as_str());
            proof {
                if remote_path(path@) {
                    lemma_remote_text(path@);
                }
                assert forall|scheme: Seq<char>, bucket: Seq<char>, key: Seq<char>|
                    #![trigger object_url(scheme, bucket, key)]
                    is_object_path(path@, scheme, bucket, key) && parsed is Ok implies leads_to(
                    parsed->Ok_0,
                    ascii_lower(scheme),
                    key,
                ) by {
                    assert(url@ == object_url(ascii_lower(scheme), bucket, escaped_key(key)));
                    let p = crate::percent::path_text(escaped_key(key));
                    reveal_strlit("/");
                    assert(("/"@ + p).skip(1) == p);
                    let behind = bucket + "/"@ + key;
                    assert(path@ == scheme + "://"@ + behind);
                    lemma_scheme_split(path@, scheme, behind);
                    whole_keys_give_whole_paths(key);
                    crate::percent::key_survives(key);
                }
                assert forall|scheme: Seq<char>, bucket: Seq<char>, key: Seq<char>|
                    #![trigger object_url(scheme, bucket, key)]
                    is_object_path(path@, scheme, bucket, key) && is_plain_bucket(
                        bucket,
                        escaped_key(key),
                    ) implies parsed is Ok && url_host(parsed->Ok_0) == Some(bucket) && url_text(
                    parsed->Ok_0,
                ) == ascii_lower(scheme) + "://"@ + bucket + url_path(parsed->Ok_0) by {
                    whole_keys_give_whole_paths(key);
                    assert(url@ == object_url(ascii_lower(scheme), bucket, escaped_key(key)));
                }
            }
            locate_parsed(path, parsed)
        },
        Route::Unsupported(scheme) => {
            let mut message = joined("unsupported URL scheme '", scheme.as_str());
            message.append("://' for '");
            message.append(path);
            message.append(
                "' (supported: s3://, http://, https://; local paths have no scheme)",
            );
            Err(Error::value_error(message))
        },
    }
}

/// The URL text of a remote path has the scheme of the path.
proof fn lemma_remote_text(path: Seq<char>)
    requires
        remote_path(path),
    ensures
        place_of(path) is Remote,
        exists|scheme: Seq<char>, rest: Seq<char>|
            place_of(path)->Remote_0 == #[trigger] scheme_url(scheme, rest) && path_scheme(path)
                == Some(ascii_lower(scheme)),
{
    reveal_strlit("://");
    reveal_strlit("s3");
    reveal_strlit("s3a");
    let i = index_of(path, "://"@)->0;
    lemma_index_occurs(path, "://"@, 0);
    let scheme = path.take(i);
    let rest = path.skip(i + 3);
    let name = ascii_lower(scheme);
    if is_store_scheme(name) {
        let behind = bucket_split(rest).0 + "/"@ + escaped_key(bucket_split(rest).1);
        assert(s3_url(name, rest) == scheme_url(name, behind));
        assert(ascii_lower(name) == name);
    } else {
        assert(path.subrange(i, i + 3) == "://"@);
        assert(path == scheme_url(scheme, rest));
    }
}

/// What is found occurs.
proof fn lemma_index_occurs(s: Seq<char>, pat: Seq<char>, from: int)
    requires
        0 <= from,
        crate::text::index_from(s, pat, from) is Some,
    ensures
        from <= crate::text::index_from(s, pat, from)->0,
        crate::text::occurs_at(s, pat, crate::text::index_from(s, pat, from)->0),
    decreases s.len() - from,
{
    if !crate::text::occurs_at(s, pat, from) {
        lemma_index_occurs(s, pat, from + 1);
    }
}

/// A remote scheme is what stands before the first `://`.
proof fn lemma_scheme_split(path: Seq<char>, scheme: Seq<char>, rest: Seq<char>)
    requires
        path == scheme + "://"@ + rest,
        is_remote_scheme(ascii_lower(scheme)),
    ensures
        scheme_split(path) == Some((scheme, rest)),
{
    reveal_strlit("://");
    reveal_strlit("s3");
    reveal_strlit("s3a");
    reveal_strlit("http");
    reveal_strlit("https");
    let low = ascii_lower(scheme);
    let n = scheme.len() as int;
    assert(low.len() == n);
    assert("s3"@ == seq!['s', '3']);
    assert("s3a"@ == seq!['s', '3', 'a']);
    assert("http"@ == seq!['h', 't', 't', 'p']);
    assert("https"@ == seq!['h', 't', 't', 'p', 's']);
    assert forall|j: int| 0 <= j < n implies !#[trigger] crate::text::occurs_at(
        path,
        "://"@,
        j,
    ) by {
        if crate::text::occurs_at(path, "://"@, j) {
            assert(path.subrange(j, j + 3)[0] == ':');
            assert(path[j] == scheme[j]);
            assert(low[j] == ':');
            assert(j == 0 || j == 1 || j == 2 || j == 3 || j == 4);
        }
    }
    assert(path.subrange(n, n + 3) == "://"@);
    lemma_first_index(path, "://"@, 0, n);
    assert(path.take(n) == scheme);
    assert(path.skip(n + 3) == rest);
}

/// The path of an object leads to that object.
proof fn lemma_object_path(
    path: Seq<char>,
    scheme: Seq<char>,
    bucket: Seq<char>,
    key: Seq<char>,
)
    requires
        is_object_path(path, scheme, bucket, key),
    ensures
        place_of(path) == Place::Remote(
            object_url(ascii_lower(scheme), bucket, escaped_key(key)),
        ),
{
    reveal_strlit("://");
    reveal_strlit("/");
    reveal_strlit("s3");
    reveal_strlit("s3a");
    let rest = bucket + "/"@ + key;
    assert(path == scheme + "://"@ + rest);
    lemma_scheme_split(path, scheme, rest);
    let m = bucket.len() as int;
    assert forall|j: int| 0 <= j < m implies !#[trigger] crate::text::occurs_at(
        rest,
        "/"@,
        j,
    ) by {
        if crate::text::occurs_at(rest, "/"@, j) {
            assert(rest.subrange(j, j + 1)[0] == '/');
            assert(rest[j] == bucket[j]);
            assert(is_delimiter(bucket[j]));
        }
    }
    assert(rest.subrange(m, m + 1) == "/"@);
    lemma_first_index(rest, "/"@, 0, m);
    assert(rest.take(m) == bucket);
    assert(rest.skip(m + 1) == key);
}

/// The first occurrence is where nothing occurs before it.
proof fn lemma_first_index(s: Seq<char>, pat: Seq<char>, from: int, at: int)
    requires
        0 <= from <= at,
        crate::text::occurs_at(s, pat, at),
        forall|j: int| from <= j < at ==> !#[trigger] crate::text::occurs_at(s, pat, j),
    ensures
        crate::text::index_from(s, pat, from) == Some(at),
    decreases at - from,
{
    if from < at {
        assert(!crate::text::occurs_at(s, pat, from));
        lemma_first_index(s, pat, from + 1, at);
    }
}

/// A path without its leading `/`.
pub open spec fn without_slash(path: Seq<char>) -> Seq<char> {
    if path.len() > 0 && path[0] == '/' {
        path.skip(1)
    } else {
        path
    }
}

/// The decoded object key of a URL.
pub open spec fn key_of_url(url: Url) -> Seq<char> {
    percent_decoded(without_slash(url_path(url)))
}

/// The decoded object key of a remote URL — the literal key with glob metacharacters
/// intact.
pub fn remote_key(url: &Url) -> (key: String)
    ensures
        key@ == key_of_url(*url),
        forall|k: Seq<char>|
            unescaped(encode_utf8(without_slash(url_path(*url)))) == #[trigger] encode_utf8(k)
                ==> key@ == k,
{
    let path = chars_of(path_of(url));
    let from: usize = if path.len() > 0 && path[0] == '/' {
        1
    } else {
        0
    };
    let p = string_between(&path, from, path.len());
    assert(p@ == without_slash(url_path(*url)));
    decode_text(p.as_str())
}

/// Whether a scheme is routed to the object store.
pub open spec fn is_remote_scheme(name: Seq<char>) -> bool {
    name == "s3"@ || name == "s3a"@ || name == "http"@ || name == "https"@
}

/// Whether a path is a remote URL.
pub open spec fn remote_path(path: Seq<char>) -> bool {
    match scheme_split(path) {
        Some((scheme, _)) => is_remote_scheme(ascii_lower(scheme)),
        None => false,
    }
}

/// True if the path is (or parses to) a remote URL — a quick check that parses nothing.
pub fn is_remote(path: &str) -> (remote: bool)
    ensures
        remote == remote_path(path@),
{
    let chars = chars_of(path);
    proof {
        reveal_strlit("://");
    }
    match find(&chars, &chars_of("://")) {
        Some(i) => {
            let scheme = string_between(&chars, 0, i);
            assert(scheme@ == chars@.take(i as int));
            let name = lower(&chars_of(scheme.as_str()));
            is_word(&name, "s3") || is_word(&name, "s3a") || is_word(&name, "http") || is_word(
                &name,
                "https",
            )
        },
        None => false,
    }
}

/// The quick check agrees with the classification: a path is remote exactly if it is
/// classified as a remote URL, or is the bad URL of a remote scheme.
pub proof fn is_remote_agrees_with_classify(path: Seq<char>)
    ensures
        remote_path(path) <==> place_of(path) is Remote,
        located(path) matches Ok(LocationView::Remote(_)) ==> remote_path(path),
        located(path) matches Ok(LocationView::Local(_)) ==> !remote_path(path),
{
}

/// The DuckDB secret type that a URL needs.
pub open spec fn secret_type_of(url: Url) -> Option<Seq<char>> {
    if url_scheme(url) == "s3"@ || url_scheme(url) == "s3a"@ {
        Some("s3"@)
    } else {
        None
    }
}

/// The DuckDB secret type to request for a remote URL, or `None` when the scheme needs no
/// credentials (`http(s)://`).
pub fn secret_type_for(url: &Url) -> (ty: Option<&'static str>)
    ensures
        ty is Some <==> secret_type_of(*url) is Some,
        ty is Some ==> secret_type_of(*url) == Some(ty->0@),
{
    let scheme = scheme_of(url);
    if same_text(scheme, "s3") || same_text(scheme, "s3a") {
        Some("s3")
    } else {
        None
    }
}

/// A secret to ask the engine for.
#[derive(Debug, PartialEq, Eq)]
pub struct SecretLookup {
    pub secret_type: String,
    pub scope: Option<String>,
    pub name: Option<String>,
}

/// A [`SecretLookup`], with its texts as sequences.
pub struct LookupView {
    pub secret_type: Seq<char>,
    pub scope: Option<Seq<char>>,
    pub name: Option<Seq<char>>,
}

impl View for SecretLookup {
    type V = LookupView;

    open spec fn view(&self) -> LookupView {
        LookupView {
            secret_type: self.secret_type@,
            scope: text_view(self.scope),
            name: text_view(self.name),
        }
    }
}

/// The secret that a location needs: an `s3` secret scoped to the URL.
pub open spec fn lookup_at(location: Result<LocationView, ErrorText>) -> Option<LookupView> {
    match location {
        Ok(LocationView::Remote(url)) => match secret_type_of(url) {
            Some(ty) => Some(
                LookupView { secret_type: ty, scope: Some(url_text(url)), name: None },
            ),
            None => None,
        },
        _ => None,
    }
}

/// The secret that a path needs.
pub open spec fn lookup_of(path: Seq<char>) -> Option<LookupView> {
    lookup_at(located(path))
}

/// Whether a path is an `s3` path.
pub open spec fn is_store_path(path: Seq<char>) -> bool {
    path_scheme(path) is Some && is_store_scheme(path_scheme(path)->0)
}

/// The secret that a location needs.
pub fn location_lookup(location: &Result<Location, Error>) -> (lookup: Option<SecretLookup>)
    ensures
        lookup is Some <==> lookup_at(location_view(*location)) is Some,
        lookup is Some ==> lookup_at(location_view(*location)) == Some(lookup->0@),
{
    match location {
        Ok(Location::Remote(url)) => match secret_type_for(url) {
            Some(ty) => Some(
                SecretLookup {
                    secret_type: ty.to_string(),
                    scope: Some(text_of(url).to_string()),
                    name: None,
                },
            ),
            None => None,
        },
        _ => None,
    }
}

/// The DuckDB secret to request for a `path`: an `s3`-type secret scoped to the URL for
/// `s3://` paths, or `None` for local / `http(s)://` paths.
pub fn secret_lookup(path: &str) -> (lookup: Option<SecretLookup>)
    ensures
        lookup is Some <==> lookup_of(path@) is Some,
        lookup is Some ==> lookup_of(path@) == Some(lookup->0@),
        lookup is Some <==> is_store_path(path@) && located(path@) is Ok,
{
    proof {
        reveal_strlit("s3");
        reveal_strlit("s3a");
        reveal_strlit("http");
        reveal_strlit("https");
    }
    location_lookup(&classify(path))
}

/// The secrets that some paths need, each once, in the order of the paths.
pub open spec fn lookups_of(paths: Seq<Seq<char>>) -> Seq<LookupView>
    decreases paths.len(),
{
    if paths.len() == 0 {
        Seq::empty()
    } else {
        let before = lookups_of(paths.drop_last());
        match lookup_of(paths.last()) {
            Some(l) => if before.contains(l) {
                before
            } else {
                before.push(l)
            },
            None => before,
        }
    }
}

/// The views of a list of secret lookups.
pub open spec fn lookup_views(lookups: Seq<SecretLookup>) -> Seq<LookupView> {
    lookups.map_values(|l: SecretLookup| l@)
}

/// Whether two optional strings are equal.
pub(crate) fn same_option(a: &Option<String>, b: &Option<String>) -> (same: bool)
    ensures
        same == (text_view(*a) == text_view(*b)),
{
    match (a, b) {
        (Some(x), Some(y)) => same_text(x.as_str(), y.as_str()),
        (None, None) => true,
        _ => false,
    }
}

/// The secret lookups to request for a set of `paths` — one per distinct (type, scope). Only
/// `s3` paths ask for one.
pub fn secret_lookups(paths: &Vec<String>) -> (out: Vec<SecretLookup>)
    ensures
        lookup_views(out@) == lookups_of(string_views(paths@)),
        forall|i: int|
            0 <= i < paths@.len() ==> (lookup_of((#[trigger] paths@[i])@) is Some <==> is_store_path(
                paths@[i]@,
            ) && located(paths@[i]@) is Ok),
{
    let mut out: Vec<SecretLookup> = Vec::new();
    let ghost texts = string_views(paths@);
    assert(texts.take(0) == Seq::<Seq<char>>::empty());
    assert(lookup_views(out@) == Seq::<LookupView>::empty());
    for i in 0..paths.len()
        invariant
            texts == string_views(paths@),
            lookup_views(out@) == lookups_of(texts.take(i as int)),
            forall|k: int| 0 <= k < out@.len() ==> (#[trigger] out@[k])@.name is None,
            forall|k: int|
                0 <= k < i ==> (lookup_of((#[trigger] paths@[k])@) is Some <==> is_store_path(
                    paths@[k]@,
                ) && located(paths@[k]@) is Ok),
    {
        assert(texts.take(i as int + 1).drop_last() == texts.take(i as int));
        assert(texts.take(i as int + 1).last() == paths@[i as int]@);
        if let Some(l) = secret_lookup(paths[i].as_str()) {
            let mut known = false;
            for j in 0..out.len()
                invariant
                    known == exists|k: int| 0 <= k < j && (#[trigger] out@[k])@ == l@,
                    l@.name is None,
                    forall|k: int| 0 <= k < out@.len() ==> (#[trigger] out@[k])@.name is None,
            {
                if same_text(out[j].secret_type.as_str(), l.secret_type.as_str()) && same_option(
                    &out[j].scope,
                    &l.scope,
                ) {
                    assert(out@[j as int]@ == l@);
                    known = true;
                }
            }
            assert(known == lookup_views(out@).contains(l@)) by {
                if known {
                    let k = choose|k: int| 0 <= k < out@.len() && (#[trigger] out@[k])@ == l@;
                    assert(lookup_views(out@)[k] == l@);
                }
                if lookup_views(out@).contains(l@) {
                    let k = choose|k: int|
                        0 <= k < lookup_views(out@).len() && lookup_views(out@)[k] == l@;
                    assert(out@[k]@ == l@);
                }
            }
            if !known {
                let ghost before = out@;
                out.push(l);
                assert(lookup_views(out@) == lookup_views(before).push(l@));
            }
        }
    }
    assert(texts.take(texts.len() as int) == texts);
    out
}

/// No secret is asked for twice, and every path gets the one it needs.
pub proof fn lookups_are_distinct(paths: Seq<Seq<char>>)
    ensures
        lookups_of(paths).no_duplicates(),
        forall|i: int|
            0 <= i < paths.len() && lookup_of(#[trigger] paths[i]) is Some ==> lookups_of(
                paths,
            ).contains(lookup_of(paths[i])->0),
    decreases paths.len(),
{
    if paths.len() > 0 {
        let init = paths.drop_last();
        lookups_are_distinct(init);
        let before = lookups_of(init);
        let all = lookups_of(paths);
        assert forall|i: int|
            0 <= i < paths.len() && lookup_of(#[trigger] paths[i]) is Some implies all.contains(
            lookup_of(paths[i])->0,
        ) by {
            if i < init.len() {
                let l = lookup_of(init[i])->0;
                assert(before.contains(l));
                let k = choose|k: int| 0 <= k < before.len() && before[k] == l;
                assert(all[k] == l);
            } else if all.len() > before.len() {
                assert(all[before.len() as int] == lookup_of(paths.last())->0);
            }
        }
    }
}

/// The first octet of an IPv4 address.
pub open spec fn octet0(bits: u32) -> int {
    bits as int / 0x100_0000
}

/// The second octet of an IPv4 address.
pub open spec fn octet1(bits: u32) -> int {
    (bits as int / 0x1_0000) % 0x100
}

/// Whether an IPv4 address is loopback, private, link-local, shared (RFC 6598),
/// broadcast, or in "this network" (`0.0.0.0/8`).
pub open spec fn is_internal_v4(bits: u32) -> bool {
    let a = octet0(bits);
    let b = octet1(bits);
    ||| a == 127
    ||| a == 10
    ||| a == 172 && 16 <= b <= 31
    ||| a == 192 && b == 168
    ||| a == 169 && b == 254
    ||| a == 0
    ||| a == 100 && 64 <= b <= 127
    ||| bits == 0xffff_ffff
}

/// The first sixteen bits of an IPv6 address.
pub open spec fn segment0(bits: u128) -> int {
    bits as int / 0x1_0000_0000_0000_0000_0000_0000_0000
}

/// The IPv4 address that an IPv4-mapped IPv6 address (`::ffff:a.b.c.d`) stands for.
pub open spec fn mapped_v4(bits: u128) -> Option<u32> {
    if bits as int / 0x1_0000_0000 == 0xffff {
        Some((bits as int % 0x1_0000_0000) as u32)
    } else {
        None
    }
}

/// Whether an address is on a network that a server-side read must not be aimed at.
pub open spec fn is_internal(ip: IpAddr) -> bool {
    match ip {
        IpAddr::V4(bits) => is_internal_v4(bits),
        IpAddr::V6(bits) => {
            ||| bits == 1
            ||| bits == 0
            ||| 0xfc00 <= segment0(bits) <= 0xfdff
            ||| 0xfe80 <= segment0(bits) <= 0xfebf
            ||| mapped_v4(bits) is Some && is_internal_v4(mapped_v4(bits)->0)
        },
    }
}

/// Whether `ip` is on a network the worker should not be tricked into reaching
/// server-side: loopback, link-local (incl. the `169.254.169.254` cloud-metadata address),
/// private/ULA, or unspecified.
pub fn is_internal_ip(ip: IpAddr) -> (internal: bool)
    ensures
        internal == is_internal(ip),
{
    match ip {
        IpAddr::V4(bits) => is_internal_ip_v4(bits),
        IpAddr::V6(bits) => {
            let first: u128 = bits / 0x1_0000_0000_0000_0000_0000_0000_0000;
            if bits == 1 || bits == 0 || (0xfc00 <= first && first <= 0xfdff) || (0xfe80 <= first
                && first <= 0xfebf) {
                return true;
            }
            if bits / 0x1_0000_0000 == 0xffff {
                is_internal_ip_v4((bits % 0x1_0000_0000) as u32)
            } else {
                false
            }
        },
    }
}

fn is_internal_ip_v4(bits: u32) -> (internal: bool)
    ensures
        internal == is_internal_v4(bits),
{
    let a: u32 = bits / 0x100_0000;
    let b: u32 = (bits / 0x1_0000) % 0x100;
    a == 127 || a == 10 || (a == 172 && 16 <= b && b <= 31) || (a == 192 && b == 168) || (a == 169
        && b == 254) || a == 0 || (a == 100 && 64 <= b && b <= 127) || bits == 0xffff_ffff
}

/// An IPv4 address is as internal in its IPv6 clothes as without them.
pub proof fn mapped_addresses_are_guarded(v4: u32)
    ensures
        is_internal(IpAddr::V6((0xffff_0000_0000 + v4) as u128)) <==> is_internal(IpAddr::V4(v4)),
{
    let bits = (0xffff_0000_0000 + v4) as u128;
    assert(bits as int / 0x1_0000_0000 == 0xffff);
    assert(bits as int % 0x1_0000_0000 == v4);
    assert(segment0(bits) == 0);
}

/// Whether any of some addresses is internal.
pub open spec fn any_internal(addresses: Seq<IpAddr>) -> bool {
    exists|i: int| 0 <= i < addresses.len() && is_internal(#[trigger] addresses[i])
}

/// The message for a host that must not be read from.
pub open spec fn internal_host(host: Seq<char>) -> Seq<char> {
    "refusing to read from internal host '"@ + host
        + "' (loopback / link-local / private / cloud-metadata); set BGP_ALLOW_INTERNAL_HOSTS=1 to override"@
}

/// Reject a remote `host` that resolves to an internal address: `addresses` are those it
/// stands for. Prevents an `http(s)://` read from being aimed at cloud metadata, loopback,
/// or RFC-1918 services. `allow_internal` overrides.
pub fn guard_host(host: &str, allow_internal: bool, addresses: &Vec<IpAddr>) -> (out: Result<
    (),
    Error,
>)
    ensures
        out is Err <==> !allow_internal && any_internal(addresses@),
        out is Err ==> out->Err_0@ == bad_value(internal_host(host@)),
{
    if allow_internal {
        return Ok(());
    }
    for i in 0..addresses.len()
        invariant
            forall|k: int| 0 <= k < i ==> !is_internal(#[trigger] addresses@[k]),
            !allow_internal,
    {
        if is_internal_ip(addresses[i]) {
            let mut message = joined("refusing to read from internal host '", host);
            message.append(
                "' (loopback / link-local / private / cloud-metadata); set BGP_ALLOW_INTERNAL_HOSTS=1 to override",
            );
            return Err(Error::value_error(message));
        }
    }
    Ok(())
}

/// What a text means as a switch.
pub open spec fn switch_of(text: Seq<char>) -> Option<bool> {
    let word = ascii_lower(trimmed(text));
    if word == "true"@ || word == "1"@ || word == "yes"@ || word == "on"@ {
        Some(true)
    } else if word == "false"@ || word == "0"@ || word == "no"@ || word == "off"@ {
        Some(false)
    } else {
        None
    }
}

/// Read a switch: `true`/`1`/`yes`/`on` and `false`/`0`/`no`/`off`, in any case.
pub fn parse_bool(s: &str) -> (out: Option<bool>)
    ensures
        out == switch_of(s@),
{
    let word = lower(&trim(&chars_of(s)));
    if is_word(&word, "true") || is_word(&word, "1") || is_word(&word, "yes") || is_word(
        &word,
        "on",
    ) {
        Some(true)
    } else if is_word(&word, "false") || is_word(&word, "0") || is_word(&word, "no") || is_word(
        &word,
        "off",
    ) {
        Some(false)
    } else {
        None
    }
}

/// The URL of an endpoint.
pub open spec fn endpoint_url(ep: Seq<char>, use_ssl: Option<bool>) -> Seq<char> {
    if index_of(ep, "://"@) is Some {
        ep
    } else if use_ssl == Some(false) {
        "http"@ + "://"@ + ep
    } else {
        "https"@ + "://"@ + ep
    }
}

/// DuckDB stores an `s3` endpoint as a bare `host[:port]`; object stores want a URL.
/// Prepend a scheme (honoring `use_ssl`) when one is absent.
pub fn normalize_endpoint(ep: &str, use_ssl: Option<bool>) -> (out: String)
    ensures
        out@ == endpoint_url(ep@, use_ssl),
{
    if holds(ep, "://") {
        ep.to_string()
    } else {
        let scheme = match use_ssl {
            Some(false) => "http",
            _ => "https",
        };
        let mut out = joined(scheme, "://");
        out.append(ep);
        out
    }
}

/// A normalized endpoint is left alone when it is normalized again.
pub proof fn endpoints_are_normalized_once(
    ep: Seq<char>,
    use_ssl: Option<bool>,
    again: Option<bool>,
)
    ensures
        endpoint_url(endpoint_url(ep, use_ssl), again) == endpoint_url(ep, use_ssl),
{
    let url = endpoint_url(ep, use_ssl);
    if index_of(ep, "://"@) is None {
        let scheme = if use_ssl == Some(false) {
            "http"@
        } else {
            "https"@
        };
        let n = scheme.len() as int;
        assert(url == scheme + "://"@ + ep);
        assert(url.subrange(n, n + "://"@.len()) == "://"@);
        assert(crate::text::occurs_at(url, "://"@, n));
        lemma_occurrence_found(url, "://"@, 0, n);
    }
}

/// What occurs is found.
proof fn lemma_occurrence_found(s: Seq<char>, pat: Seq<char>, from: int, at: int)
    requires
        0 <= from <= at,
        crate::text::occurs_at(s, pat, at),
    ensures
        crate::text::index_from(s, pat, from) is Some,
    decreases at - from,
{
    if !crate::text::occurs_at(s, pat, from) {
        lemma_occurrence_found(s, pat, from + 1, at);
    }
}

/// An option of an object store: a key and a value.
pub type OptionView = (Seq<char>, Seq<char>);

/// A list of options, by its views.
pub open spec fn option_views(options: Seq<(String, String)>) -> Seq<OptionView> {
    options.map_values(|o: (String, String)| (o.0@, o.1@))
}

/// The option `key`, where there is a value.
pub open spec fn option_of(key: Seq<char>, value: Option<Seq<char>>) -> Seq<OptionView> {
    match value {
        Some(v) => seq![(key, v)],
        None => Seq::empty(),
    }
}

/// A value that is not empty.
pub open spec fn unless_empty(value: Option<Seq<char>>) -> Option<Seq<char>> {
    match value {
        Some(v) => if v.len() == 0 {
            None
        } else {
            value
        },
        None => None,
    }
}

/// The endpoint as a URL.
pub open spec fn endpoint_value(ep: Option<Seq<char>>, use_ssl: Option<bool>) -> Option<Seq<char>> {
    match ep {
        Some(ep) => Some(endpoint_url(ep, use_ssl)),
        None => None,
    }
}

/// `false` for virtual-hosted addressing where path-style addressing is asked for.
pub open spec fn path_style(style: Option<Seq<char>>) -> Option<Seq<char>> {
    match style {
        Some(s) => if ascii_lower(s) == ascii_lower("path"@) {
            Some("false"@)
        } else {
            None
        },
        None => None,
    }
}

/// `true` for plain HTTP where TLS is switched off.
pub open spec fn plain_http(use_ssl: Option<bool>) -> Option<Seq<char>> {
    if use_ssl == Some(false) {
        Some("true"@)
    } else {
        None
    }
}

/// Whether a secret asks for TLS.
pub open spec fn secret_ssl(fields: FieldsView) -> Option<bool> {
    match fields.use_ssl {
        Some(v) => switch_of(v),
        None => None,
    }
}

/// The object-store options of an `s3` secret. Empty fields count as absent.
pub open spec fn secret_options(fields: FieldsView) -> Seq<OptionView> {
    option_of("aws_access_key_id"@, unless_empty(fields.key_id)) + option_of(
        "aws_secret_access_key"@,
        unless_empty(fields.secret),
    ) + option_of("aws_session_token"@, unless_empty(fields.session_token)) + option_of(
        "aws_region"@,
        unless_empty(fields.region),
    ) + option_of(
        "aws_endpoint"@,
        endpoint_value(unless_empty(fields.endpoint), secret_ssl(fields)),
    ) + option_of("aws_virtual_hosted_style_request"@, path_style(unless_empty(fields.url_style)))
        + option_of("aws_allow_http"@, plain_http(secret_ssl(fields)))
}

/// The object-store options of the secret that was found, if one was.
pub open spec fn found_options(fields: Option<SecretFields>) -> Seq<OptionView> {
    match fields {
        Some(f) => secret_options(f@),
        None => Seq::empty(),
    }
}

/// Add the option `key`, where there is a value.
pub(crate) fn add_option(options: &mut Vec<(String, String)>, key: &str, value: Option<String>)
    ensures
        option_views(final(options)@) == option_views(old(options)@) + option_of(
            key@,
            text_view(value),
        ),
{
    let ghost before = options@;
    match value {
        Some(v) => {
            options.push((key.to_string(), v));
            assert(option_views(options@) == option_views(before).push((key@, v@)));
            assert(option_views(options@) == option_views(before) + seq![(key@, v@)]);
        },
        None => {
            assert(option_views(before) + Seq::<OptionView>::empty() == option_views(before));
        },
    }
}

/// A copy of a value that is not empty.
fn nonempty(value: &Option<String>) -> (out: Option<String>)
    ensures
        text_view(out) == unless_empty(text_view(*value)),
{
    match value {
        Some(v) => if v.as_str().unicode_len() == 0 {
            None
        } else {
            Some(v.clone())
        },
        None => None,
    }
}

/// The endpoint as a URL.
pub(crate) fn endpoint_option(ep: Option<String>, use_ssl: Option<bool>) -> (out: Option<String>)
    ensures
        text_view(out) == endpoint_value(text_view(ep), use_ssl),
{
    match ep {
        Some(ep) => Some(normalize_endpoint(ep.as_str(), use_ssl)),
        None => None,
    }
}

/// `false` for virtual-hosted addressing where path-style addressing is asked for.
pub(crate) fn style_option(style: Option<String>) -> (out: Option<String>)
    ensures
        text_view(out) == path_style(text_view(style)),
{
    match style {
        Some(s) => if same_ignoring_case(s.as_str(), "path") {
            Some("false".to_string())
        } else {
            None
        },
        None => None,
    }
}

/// `true` for plain HTTP where TLS is switched off.
pub(crate) fn http_option(use_ssl: Option<bool>) -> (out: Option<String>)
    ensures
        text_view(out) == plain_http(use_ssl),
{
    match use_ssl {
        Some(false) => Some("true".to_string()),
        _ => None,
    }
}

/// Map the fields of a DuckDB `s3` secret onto object-store S3 config keys: those of the
/// secret that was found for a URL's scope, if one was.
pub fn field_options(fields: &Option<SecretFields>) -> (options: Vec<(String, String)>)
    ensures
        option_views(options@) == found_options(*fields),
{
    let mut options: Vec<(String, String)> = Vec::new();
    assert(option_views(options@) == Seq::<OptionView>::empty());
    let f = match fields {
        Some(f) => f,
        None => return options,
    };
    let use_ssl = match &f.use_ssl {
        Some(v) => parse_bool(v.as_str()),
        None => None,
    };
    add_option(&mut options, "aws_access_key_id", nonempty(&f.key_id));
    assert(option_views(options@) == option_of("aws_access_key_id"@, unless_empty(f@.key_id)));
    add_option(&mut options, "aws_secret_access_key", nonempty(&f.secret));
    add_option(&mut options, "aws_session_token", nonempty(&f.session_token));
    add_option(&mut options, "aws_region", nonempty(&f.region));
    add_option(&mut options, "aws_endpoint", endpoint_option(nonempty(&f.endpoint), use_ssl));
    add_option(
        &mut options,
        "aws_virtual_hosted_style_request",
        style_option(nonempty(&f.url_style)),
    );
    add_option(&mut options, "aws_allow_http", http_option(use_ssl));
    options
}

/// Whether `options` are those of a secret that `url` may be read with; none, where there is
/// no such secret.
pub open spec fn are_secret_options(
    options: Seq<OptionView>,
    secrets: Map<Seq<char>, FieldMap>,
    url: Url,
) -> bool {
    ||| exists|fields: FieldMap| #[trigger]
        is_pick(secrets, url_text(url), "s3"@, fields) && options == secret_options(
            fields_of(fields),
        )
    ||| options.len() == 0 && forall|fields: FieldMap|
        !#[trigger] is_pick(secrets, url_text(url), "s3"@, fields)
}

/// Map the DuckDB `s3` secret matching `url`'s scope onto object-store S3 config keys.
/// Selecting by scope+type means a call spanning several buckets uses the right secret per
/// URL.
pub fn s3_options(secrets: &Secrets, url: &Url) -> (options: Vec<(String, String)>)
    ensures
        are_secret_options(option_views(options@), secrets_view(*secrets), *url),
{
    let found = find_secret(secrets, text_of(url), "s3");
    field_options(&found)
}

/// Whether the host of a URL is guarded: that of an `http(s)` URL is.
pub open spec fn guarded_host(url: Url) -> Option<Seq<char>> {
    if is_web_scheme(url_scheme(url)) {
        url_host(url)
    } else {
        None
    }
}

/// Whether the host of a URL is itself an internal address.
pub open spec fn is_internal_literal(url: Url) -> bool {
    url_address(url) is Some && is_internal(url_address(url)->0)
}

/// The host that has to be resolved before a store for `url` may be built.
pub fn host_to_guard(url: &Url) -> (host: Option<String>)
    ensures
        text_view(host) == guarded_host(*url),
{
    let scheme = scheme_of(url);
    if same_text(scheme, "http") || same_text(scheme, "https") {
        match host_of(url) {
            Some(host) => Some(host.to_string()),
            None => None,
        }
    } else {
        None
    }
}

/// The options of the object store for a URL: those of its secret, where it takes one,
/// then the overrides, which win.
pub open spec fn are_store_options(
    options: Seq<OptionView>,
    url: Url,
    secrets: Map<Seq<char>, FieldMap>,
    overrides: Seq<OptionView>,
) -> bool {
    if secret_type_of(url) is Some {
        exists|found: Seq<OptionView>| #[trigger]
            are_secret_options(found, secrets, url) && options == found + overrides
    } else {
        options == overrides
    }
}

/// `options`, then the overrides.
pub fn with_overrides(
    options: Vec<(String, String)>,
    overrides: &Vec<(String, String)>,
) -> (out: Vec<(String, String)>)
    ensures
        option_views(out@) == option_views(options@) + option_views(overrides@),
{
    let mut out = options;
    let ghost first = option_views(options@);
    let ghost wanted = option_views(overrides@);
    assert(first + wanted.take(0) == first);
    for i in 0..overrides.len()
        invariant
            wanted == option_views(overrides@),
            option_views(out@) == first + wanted.take(i as int),
    {
        let ghost before = out@;
        out.push((overrides[i].0.clone(), overrides[i].1.clone()));
        assert(option_views(out@) == option_views(before).push(wanted[i as int]));
        assert(first + wanted.take(i as int + 1) == (first + wanted.take(i as int)).push(
            wanted[i as int],
        ));
    }
    assert(wanted.take(wanted.len() as int) == wanted);
    out
}

/// Decide on the object store for `url`: refuse an `http(s)` host that stands for an
/// internal address, else map the resolved DuckDB `s3` secret onto S3 config keys.
/// `overrides` (named args) come last and win over the secret. `addresses` are those that
/// the URL's host resolves to; a host that is itself an address needs none.
pub fn build_store(
    url: &Url,
    secrets: &Secrets,
    overrides: &Vec<(String, String)>,
    allow_internal: bool,
    addresses: &Vec<IpAddr>,
) -> (out: Result<Vec<(String, String)>, Error>)
    ensures
        out is Err <==> guarded_host(*url) is Some && !allow_internal && (any_internal(addresses@)
            || is_internal_literal(*url)),
        out is Err ==> out->Err_0@ == bad_value(internal_host(guarded_host(*url)->0)),
        out is Ok ==> are_store_options(
            option_views(out->Ok_0@),
            *url,
            secrets_view(*secrets),
            option_views(overrides@),
        ),
{
    if let Some(host) = host_to_guard(url) {
        match guard_host(host.as_str(), allow_internal, addresses) {
            Ok(_) => {},
            Err(e) => return Err(e),
        }
        let mut literal: Vec<IpAddr> = Vec::new();
        if let Some(ip) = address_of(url) {
            literal.push(ip);
            assert(literal@[0] == ip);
        }
        match guard_host(host.as_str(), allow_internal, &literal) {
            Ok(_) => {},
            Err(e) => return Err(e),
        }
    }
    let options = match secret_type_for(url) {
        Some(_) => s3_options(secrets, url),
        None => Vec::new(),
    };
    let out = with_overrides(options, overrides);
    assert(are_store_options(
        option_views(out@),
        *url,
        secrets_view(*secrets),
        option_views(overrides@),
    )) by {
        if secret_type_of(*url) is None {
            assert(option_views(out@) == option_views(overrides@));
        } else {
            assert(are_secret_options(option_views(options@), secrets_view(*secrets), *url));
        }
    }
    Ok(out)
}

/// The value that a list of options gives a key: the last one counts.
pub open spec fn effective(options: Seq<OptionView>, key: Seq<char>) -> Option<Seq<char>>
    decreases options.len(),
{
    if options.len() == 0 {
        None
    } else if options.last().0 == key {
        Some(options.last().1)
    } else {
        effective(options.drop_last(), key)
    }
}

/// Named overrides win over the secret: a key that an override sets has the override's
/// value, any other key has the secret's.
pub proof fn overrides_win(secret: Seq<OptionView>, overrides: Seq<OptionView>, key: Seq<char>)
    ensures
        effective(secret + overrides, key) == match effective(overrides, key) {
            Some(v) => Some(v),
            None => effective(secret, key),
        },
    decreases overrides.len(),
{
    let all = secret + overrides;
    if overrides.len() == 0 {
        assert(all == secret);
    } else {
        assert(all.last() == overrides.last());
        assert(all.drop_last() == secret + overrides.drop_last());
        overrides_win(secret, overrides.drop_last(), key);
    }
}

/// Whether a character is a glob metacharacter.
pub open spec fn is_wild(c: char) -> bool {
    c == '*' || c == '?' || c == '['
}

/// The number of leading characters of `key` before its first glob metacharacter.
pub open spec fn literal_len(key: Seq<char>) -> nat
    decreases key.len(),
{
    if key.len() == 0 || is_wild(key[0]) {
        0
    } else {
        1 + literal_len(key.skip(1))
    }
}

/// Whether a text holds a glob metacharacter.
pub open spec fn is_glob(key: Seq<char>) -> bool {
    literal_len(key) < key.len()
}

/// The beginning of `s` up to and including its last `/`.
pub open spec fn up_to_slash(s: Seq<char>) -> Seq<char>
    decreases s.len(),
{
    if s.len() == 0 || s.last() == '/' {
        s
    } else {
        up_to_slash(s.drop_last())
    }
}

/// The list prefix for a glob key.
pub open spec fn list_prefix(key: Seq<char>) -> Seq<char> {
    if is_glob(key) {
        up_to_slash(key.take(literal_len(key) as int))
    } else {
        key
    }
}

fn literal_count(chars: &Vec<char>) -> (n: usize)
    ensures
        n == literal_len(chars@),
        n <= chars@.len(),
{
    let mut i: usize = 0;
    assert(chars@.skip(0) == chars@);
    while i < chars.len() && !(chars[i] == '*' || chars[i] == '?' || chars[i] == '[')
        invariant
            i <= chars@.len(),
            literal_len(chars@) == i + literal_len(chars@.skip(i as int)),
        decreases chars@.len() - i,
    {
        assert(chars@.skip(i as int).skip(1) == chars@.skip(i as int + 1));
        i = i + 1;
    }
    i
}

/// Whether a text holds a glob metacharacter (`*`, `?`, `[`).
pub fn has_wildcard(text: &str) -> (yes: bool)
    ensures
        yes == is_glob(text@),
{
    let chars = chars_of(text);
    literal_count(&chars) < chars.len()
}

/// The list prefix for a glob key: everything up to and including the last `/` before the
/// first wildcard.
pub fn glob_prefix(key: &str) -> (prefix: String)
    ensures
        prefix@ == list_prefix(key@),
{
    let chars = chars_of(key);
    let n: usize = literal_count(&chars);
    if n == chars.len() {
        return key.to_string();
    }
    let mut to: usize = n;
    assert(chars@.subrange(0, n as int) == chars@.take(n as int));
    while to > 0 && chars[to - 1] != '/'
        invariant
            to <= n <= chars@.len(),
            up_to_slash(chars@.take(to as int)) == up_to_slash(chars@.take(n as int)),
        decreases to,
    {
        assert(chars@.take(to as int).drop_last() == chars@.take(to as int - 1));
        to = to - 1;
    }
    assert(chars@.subrange(0, to as int) == chars@.take(to as int));
    string_between(&chars, 0, to)
}

pub(crate) proof fn lemma_literal_plain(key: Seq<char>)
    ensures
        literal_len(key) <= key.len(),
        forall|i: int| 0 <= i < literal_len(key) ==> !is_wild(#[trigger] key[i]),
        is_glob(key) ==> is_wild(key[literal_len(key) as int]),
    decreases key.len(),
{
    if key.len() > 0 && !is_wild(key[0]) {
        let rest = key.skip(1);
        lemma_literal_plain(rest);
        assert forall|i: int| 0 <= i < literal_len(key) implies !is_wild(#[trigger] key[i]) by {
            if i > 0 {
                assert(key[i] == rest[i - 1]);
            }
        }
        if is_glob(key) {
            assert(key[literal_len(key) as int] == rest[literal_len(rest) as int]);
        }
    }
}

proof fn lemma_up_to_slash(s: Seq<char>)
    ensures
        up_to_slash(s).len() <= s.len(),
        up_to_slash(s) == s.take(up_to_slash(s).len() as int),
        up_to_slash(s).len() > 0 ==> up_to_slash(s).last() == '/',
        forall|i: int| up_to_slash(s).len() <= i < s.len() ==> #[trigger] s[i] != '/',
    decreases s.len(),
{
    if s.len() == 0 || s.last() == '/' {
        assert(s == s.take(s.len() as int));
    } else {
        let init = s.drop_last();
        lemma_up_to_slash(init);
        let n = up_to_slash(s).len() as int;
        assert(init.take(n) == s.take(n));
        assert forall|i: int| n <= i < s.len() implies #[trigger] s[i] != '/' by {
            if i < init.len() {
                assert(s[i] == init[i]);
            }
        }
    }
}

/// A list prefix is the longest beginning of its key that holds no wildcard and ends in
/// `/` (or is empty); a key without wildcards is its own prefix.
pub proof fn list_prefix_is_literal(key: Seq<char>)
    ensures
        list_prefix(key).len() <= key.len(),
        list_prefix(key) == key.take(list_prefix(key).len() as int),
        forall|i: int| 0 <= i < list_prefix(key).len() ==> !is_wild(#[trigger] list_prefix(key)[i]),
        is_glob(key) && list_prefix(key).len() > 0 ==> list_prefix(key).last() == '/',
        is_glob(key) ==> forall|i: int|
            list_prefix(key).len() <= i < literal_len(key) ==> #[trigger] key[i] != '/',
        !is_glob(key) ==> list_prefix(key) == key,
{
    lemma_literal_plain(key);
    let n = literal_len(key) as int;
    let s = key.take(n);
    lemma_up_to_slash(s);
    let p = list_prefix(key);
    if is_glob(key) {
        assert(s.take(p.len() as int) == key.take(p.len() as int));
        assert forall|i: int| 0 <= i < p.len() implies !is_wild(#[trigger] p[i]) by {
            assert(p[i] == key[i]);
        }
        assert forall|i: int| p.len() <= i < n implies #[trigger] key[i] != '/' by {
            assert(key[i] == s[i]);
        }
    } else {
        assert(key.take(key.len() as int) == key);
    }
}

/// How object keys are matched: `*`, `?`, `[...]` stay within one key segment; only `**`
/// crosses `/`. The case of ASCII letters is ignored.
pub open spec fn key_rules() -> MatchRules {
    MatchRules { case_sensitive: false, literal_separator: true, literal_leading_dot: false }
}

/// Does `key` match the glob `pattern` under DuckDB's S3 semantics? `*`, `?`, `[...]` stay
/// within one key segment; only `**` crosses `/`. The case of ASCII letters is ignored.
pub fn glob_matches(pattern: &Pattern, key: &str) -> (yes: bool)
    ensures
        yes == pattern_matches(*pattern, key@, key_rules()),
{
    match_pattern(
        pattern,
        key,
        MatchRules { case_sensitive: false, literal_separator: true, literal_leading_dot: false },
    )
}

/// What has to be listed to expand a glob URL.
pub enum Listing {
    /// Nothing: the URL is taken as it is.
    AsIs,
    /// The objects whose keys start with this prefix.
    Prefix(String),
}

/// A result of [`list_request`], by its view.
pub open spec fn listing_view(out: Result<Listing, Error>) -> Result<Option<Seq<char>>, ErrorText> {
    match out {
        Ok(Listing::AsIs) => Ok(None),
        Ok(Listing::Prefix(p)) => Ok(Some(p@)),
        Err(e) => Err(e@),
    }
}

/// Whether a URL is an `http(s)` URL, for which there is no listing.
pub open spec fn is_http(url: Url) -> bool {
    url_scheme(url) == "http"@ || url_scheme(url) == "https"@
}

/// The message for a key that is no glob pattern.
pub open spec fn bad_glob(spec: Seq<char>, reason: Seq<char>) -> Seq<char> {
    "bad glob '"@ + spec + "': "@ + reason
}

/// What has to be listed to expand a glob URL whose key parsed to `pattern`.
pub open spec fn listing_of(
    url: Url,
    key: Seq<char>,
    pattern: Result<Pattern, Seq<char>>,
) -> Result<Option<Seq<char>>, ErrorText> {
    if is_http(url) {
        Ok(None)
    } else {
        match pattern {
            Ok(_) => Ok(Some(list_prefix(key))),
            Err(reason) => Err(bad_value(bad_glob(url_text(url), reason))),
        }
    }
}

/// The message for a key that is no glob pattern.
pub(crate) fn glob_error(spec: &str, reason: &str) -> (e: Error)
    ensures
        e@ == bad_value(bad_glob(spec@, reason@)),
{
    let mut message = joined("bad glob '", spec);
    message.append("': ");
    message.append(reason);
    Error::value_error(message)
}

/// Whether a URL is an `http(s)` URL.
fn http_url(url: &Url) -> (yes: bool)
    ensures
        yes == is_http(*url),
{
    let scheme = scheme_of(url);
    same_text(scheme, "http") || same_text(scheme, "https")
}

/// Decide what has to be listed to expand a remote glob URL. For `http(s)://` there is no
/// listing, so the URL is taken as it is.
pub fn list_request(url: &Url) -> (out: Result<Listing, Error>)
    ensures
        listing_view(out) == listing_of(*url, key_of_url(*url), parsed_pattern(key_of_url(*url))),
{
    if http_url(url) {
        return Ok(Listing::AsIs);
    }
    let key = remote_key(url);
    match parse_pattern(key.as_str()) {
        Ok(_) => Ok(Listing::Prefix(glob_prefix(key.as_str()))),
        Err(reason) => Err(glob_error(text_of(url), reason.as_str())),
    }
}

/// The URL of a listed object.
pub open spec fn listed_url(url: Url, literal: Seq<char>) -> Seq<char> {
    s3_url(url_scheme(url), bucket_of(url) + "/"@ + literal)
}

/// The bucket of a URL: its host.
pub open spec fn bucket_of(url: Url) -> Seq<char> {
    match url_host(url) {
        Some(host) => host,
        None => Seq::empty(),
    }
}

/// The URLs of the listed objects whose keys match, in the order of the list.
pub open spec fn matching_urls(
    url: Url,
    pattern: Pattern,
    listed: Seq<Seq<char>>,
) -> Seq<Seq<char>>
    decreases listed.len(),
{
    if listed.len() == 0 {
        Seq::empty()
    } else {
        let before = matching_urls(url, pattern, listed.drop_last());
        let literal = percent_decoded(listed.last());
        if pattern_matches(pattern, literal, key_rules()) {
            before.push(listed_url(url, literal))
        } else {
            before
        }
    }
}

/// The URLs that parse, in order, up to the first text that does not; and why that one
/// does not.
pub open spec fn parse_all(texts: Seq<Seq<char>>) -> (Seq<Url>, Option<Seq<char>>)
    decreases texts.len(),
{
    if texts.len() == 0 {
        (Seq::empty(), None)
    } else {
        let (urls, failure) = parse_all(texts.drop_last());
        if failure is Some {
            (urls, failure)
        } else {
            match parsed_url(texts.last()) {
                Ok(url) => (urls.push(url), None),
                Err(reason) => (urls, Some(reason)),
            }
        }
    }
}

/// The message for a listed object whose URL cannot be parsed.
pub open spec fn bad_listing(url: Seq<char>, reason: Seq<char>) -> Seq<char> {
    "rebuild s3 url under '"@ + url + "': "@ + reason
}

/// Whether `out` is the expansion of a glob URL whose key parsed to `pattern`, over the
/// keys of the objects that were listed: the URLs of those that match, sorted.
pub open spec fn is_expansion(
    out: Result<Vec<Url>, Error>,
    url: Url,
    pattern: Result<Pattern, Seq<char>>,
    listed: Seq<Seq<char>>,
) -> bool {
    if is_http(url) {
        out is Ok && out->Ok_0@ == seq![url]
    } else {
        match pattern {
            Err(reason) => out is Err && out->Err_0@ == bad_value(bad_glob(url_text(url), reason)),
            Ok(pattern) => {
                let (urls, failure) = parse_all(matching_urls(url, pattern, listed));
                match failure {
                    Some(reason) => out is Err && out->Err_0@ == bad_value(
                        bad_listing(url_text(url), reason),
                    ),
                    None => {
                        &&& out is Ok
                        &&& out->Ok_0@.to_multiset() == urls.to_multiset()
                        &&& in_order(url_texts(out->Ok_0@))
                    },
                }
            },
        }
    }
}

/// Once parsing failed, it stays failed.
proof fn lemma_failure_stays(texts: Seq<Seq<char>>, k: int)
    requires
        0 <= k <= texts.len(),
        parse_all(texts.take(k)).1 is Some,
    ensures
        parse_all(texts).1 == parse_all(texts.take(k)).1,
    decreases texts.len() - k,
{
    if k < texts.len() {
        assert(texts.take(k + 1).drop_last() == texts.take(k));
        lemma_failure_stays(texts, k + 1);
    } else {
        assert(texts.take(k) == texts);
    }
}

/// A longer list only adds matches at the end.
proof fn lemma_matches_extend(url: Url, pattern: Pattern, listed: Seq<Seq<char>>, k: int)
    requires
        0 <= k <= listed.len(),
    ensures
        ({
            let some = matching_urls(url, pattern, listed.take(k));
            let all = matching_urls(url, pattern, listed);
            some.len() <= all.len() && all.take(some.len() as int) == some
        }),
    decreases listed.len() - k,
{
    let some = matching_urls(url, pattern, listed.take(k));
    let all = matching_urls(url, pattern, listed);
    if k < listed.len() {
        lemma_matches_extend(url, pattern, listed, k + 1);
        let more = matching_urls(url, pattern, listed.take(k + 1));
        assert(listed.take(k + 1).drop_last() == listed.take(k));
        assert(more.take(some.len() as int) == some);
        assert(all.take(more.len() as int).take(some.len() as int) == all.take(some.len() as int));
    } else {
        assert(listed.take(k) == listed);
        assert(all.take(all.len() as int) == all);
    }
}

/// Select the objects that a glob pattern names among those that were listed under `url`:
/// their URLs, sorted.
pub fn select_objects(url: &Url, pattern: &Pattern, listed: &Vec<String>) -> (out: Result<
    Vec<Url>,
    Error,
>)
    requires
        !is_http(*url),
    ensures
        is_expansion(out, *url, Ok(*pattern), string_views(listed@)),
{
    let scheme = scheme_of(url);
    let bucket = match host_of(url) {
        Some(host) => host.to_string(),
        None => String::new(),
    };
    let prefix = joined(bucket.as_str(), "/");
    let ghost names = string_views(listed@);
    let ghost all = matching_urls(*url, *pattern, names);
    let mut urls: Vec<Url> = Vec::new();
    assert(names.take(0) == Seq::<Seq<char>>::empty());
    for i in 0..listed.len()
        invariant
            names == string_views(listed@),
            all == matching_urls(*url, *pattern, names),
            scheme@ == url_scheme(*url),
            prefix@ == bucket_of(*url) + "/"@,
            !is_http(*url),
            parse_all(matching_urls(*url, *pattern, names.take(i as int))) == (
                urls@,
                None::<Seq<char>>,
            ),
    {
        let literal = decode_text(listed[i].as_str());
        let ghost some = matching_urls(*url, *pattern, names.take(i as int));
        assert(names.take(i as int + 1).drop_last() == names.take(i as int));
        if glob_matches(pattern, literal.as_str()) {
            let rest = joined(prefix.as_str(), literal.as_str());
            let text = encode_s3_url(scheme, rest.as_str());
            assert(some.push(text@).drop_last() == some);
            match parse_url(text.as_str()) {
                Ok(parsed) => {
                    urls.push(parsed);
                },
                Err(reason) => {
                    proof {
                        lemma_matches_extend(*url, *pattern, names, i as int + 1);
                        let more = some.push(text@);
                        assert(matching_urls(*url, *pattern, names.take(i as int + 1)) == more);
                        assert(all.take(more.len() as int) == more);
                        lemma_failure_stays(all, more.len() as int);
                    }
                    let mut message = joined("rebuild s3 url under '", text_of(url));
                    message.append("': ");
                    message.append(reason.as_str());
                    return Err(Error::value_error(message));
                },
            }
        }
    }
    assert(names.take(names.len() as int) == names);
    sort_urls(&mut urls);
    Ok(urls)
}

/// Expand a remote glob URL into the matching object URLs (sorted): `listed` are the keys
/// of the objects that [`list_request`] asked for. For `http(s)://` there is no listing, so
/// the URL is returned as-is.
pub fn list_glob(url: &Url, listed: &Vec<String>) -> (out: Result<Vec<Url>, Error>)
    ensures
        is_expansion(out, *url, parsed_pattern(key_of_url(*url)), string_views(listed@)),
{
    if http_url(url) {
        let mut urls: Vec<Url> = Vec::new();
        urls.push(copy_url(url));
        assert(urls@ == seq![*url]);
        return Ok(urls);
    }
    let key = remote_key(url);
    match parse_pattern(key.as_str()) {
        Ok(pattern) => select_objects(url, &pattern, listed),
        Err(reason) => Err(glob_error(text_of(url), reason.as_str())),
    }
}

} // verus!
