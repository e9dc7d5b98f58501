//! URLs, glob patterns and order: what the source resolution takes from outside.
use crate::community::digits;
use crate::inet::IpAddr;
use crate::percent::path_text;
use crate::text::ascii_lower;
use crate::text::split_on;
use glob::Pattern;
use url::Host;
use url::Url;
use vstd::prelude::*;

verus! {

/// A parsed URL.
#[verifier::external_type_specification]
#[verifier::external_body]
pub struct ExUrl(url::Url);

/// A parsed glob pattern.
#[verifier::external_type_specification]
#[verifier::external_body]
pub struct ExPattern(glob::Pattern);

/// What parsing a URL gives: the URL, or why the text is none.
pub uninterp spec fn parsed_url(text: Seq<char>) -> Result<Url, Seq<char>>;

/// The serialization of a URL.
pub uninterp spec fn url_text(url: Url) -> Seq<char>;

/// The scheme of a URL, in lower case.
pub uninterp spec fn url_scheme(url: Url) -> Seq<char>;

/// The host of a URL, where it has one.
pub uninterp spec fn url_host(url: Url) -> Option<Seq<char>>;

/// The path of a URL, percent-encoded.
pub uninterp spec fn url_path(url: Url) -> Seq<char>;

/// The text `scheme://bucket/path`.
pub open spec fn object_url(scheme: Seq<char>, bucket: Seq<char>, path: Seq<char>) -> Seq<char> {
    scheme + "://"@ + bucket + "/"@ + path
}

/// The text `scheme://rest`.
pub open spec fn scheme_url(scheme: Seq<char>, rest: Seq<char>) -> Seq<char> {
    scheme + "://"@ + rest
}

/// Whether `c` is a letter, a digit, `.`, `-` or `_`.
pub open spec fn is_name_char(c: char) -> bool {
    'a' <= c <= 'z' || 'A' <= c <= 'Z' || '0' <= c <= '9' || c == '.' || c == '-' || c == '_'
}

/// Whether a path segment means "here" or "one up" in a URL.
pub open spec fn is_dot_segment(segment: Seq<char>) -> bool {
    let s = ascii_lower(segment);
    s == "."@ || s == ".."@ || s == "%2e"@ || s == ".%2e"@ || s == "%2e."@ || s == "%2e%2e"@
}

/// Whether a path has a segment that a URL parser resolves away.
pub open spec fn has_dot_segment(path: Seq<char>) -> bool {
    exists|i: int|
        0 <= i < split_on(path, '/').len() && is_dot_segment(#[trigger] split_on(path, '/')[i])
}

/// Whether `c` ends a bucket, or what stands behind it, in a URL.
pub open spec fn is_delimiter(c: char) -> bool {
    c == '/' || c == '?' || c == '#' || c == '\\'
}

/// Whether a scheme is one of an object store.
pub open spec fn is_store_scheme(scheme: Seq<char>) -> bool {
    scheme == "s3"@ || scheme == "s3a"@
}

/// Whether a scheme is one of the web.
pub open spec fn is_web_scheme(scheme: Seq<char>) -> bool {
    scheme == "http"@ || scheme == "https"@
}

/// Whether a path of printable ASCII characters comes through a URL parser whole: it holds
/// no `?` or `#`, does not end in a space and has no dot segments.
pub open spec fn is_whole_path(path: Seq<char>) -> bool {
    &&& forall|i: int|
        0 <= i < path.len() ==> ' ' <= #[trigger] path[i] <= '~' && path[i] != '?' && path[i] != '#'
    &&& path.len() > 0 ==> path.last() != ' '
    &&& !has_dot_segment(path)
}

/// Whether a text can stand for a bucket in a URL: it holds no delimiter.
pub open spec fn is_bucket(bucket: Seq<char>) -> bool {
    forall|i: int| 0 <= i < bucket.len() ==> !is_delimiter(#[trigger] bucket[i])
}

/// Whether `scheme://bucket/path` is the URL of an object.
pub open spec fn is_object(scheme: Seq<char>, bucket: Seq<char>, path: Seq<char>) -> bool {
    &&& is_store_scheme(scheme)
    &&& is_bucket(bucket)
    &&& is_whole_path(path)
}

/// Whether a bucket is a plain name, so short that it and a path fit a URL.
pub open spec fn is_plain_bucket(bucket: Seq<char>, path: Seq<char>) -> bool {
    &&& bucket.len() > 0
    &&& forall|i: int| 0 <= i < bucket.len() ==> is_name_char(#[trigger] bucket[i])
    &&& 3 * (bucket.len() + path.len()) + 16 <= u32::MAX
}

/// Whether nothing stands behind the path of a URL: no query and no fragment.
pub open spec fn ends_in_path(url: Url) -> bool {
    &&& url_path(url).len() <= url_text(url).len()
    &&& url_text(url).skip(url_text(url).len() - url_path(url).len()) == url_path(url)
}

/// The dotted form of an IPv4 address.
pub open spec fn dotted(bits: u32) -> Seq<char> {
    digits((bits / 0x100_0000) as nat) + "."@ + digits((bits / 0x1_0000 % 0x100) as nat) + "."@
        + digits((bits / 0x100 % 0x100) as nat) + "."@ + digits((bits % 0x100) as nat)
}

/// `Url::parse`, which depends on the text alone. Where a URL is accepted, its scheme is the
/// one in the text, in lower case, and an `http(s)` URL has a host. Where the URL of an object
/// is accepted, it keeps its path, of which only some characters are percent-encoded, and has
/// nothing behind that; one with a plain bucket is accepted, and keeps the bucket too.
/// Where an `http(s)` URL whose host is a dotted IPv4 address is accepted, that address is
/// its host.
#[verifier::external_body]
pub(crate) fn parse_url(text: &str) -> (out: Result<Url, String>)
    ensures
        match out {
            Ok(url) => parsed_url(text@) == Ok::<Url, Seq<char>>(url),
            Err(message) => parsed_url(text@) == Err::<Url, Seq<char>>(message@),
        },
        forall|scheme: Seq<char>, rest: Seq<char>|
            text@ == #[trigger] scheme_url(scheme, rest) && (is_store_scheme(ascii_lower(scheme))
                || is_web_scheme(ascii_lower(scheme))) && out is Ok ==> url_scheme(out->Ok_0)
                == ascii_lower(scheme) && (is_web_scheme(ascii_lower(scheme)) ==> url_host(
                out->Ok_0,
            ) is Some),
        forall|scheme: Seq<char>, bucket: Seq<char>, path: Seq<char>|
            text@ == #[trigger] object_url(scheme, bucket, path) && is_object(scheme, bucket, path)
                && out is Ok ==> url_path(out->Ok_0) == "/"@ + path_text(path) && ends_in_path(
                out->Ok_0,
            ),
        forall|scheme: Seq<char>, bucket: Seq<char>, path: Seq<char>|
            text@ == #[trigger] object_url(scheme, bucket, path) && is_object(scheme, bucket, path)
                && is_plain_bucket(bucket, path) ==> out is Ok && url_host(out->Ok_0) == Some(
                bucket,
            ) && url_text(out->Ok_0) == scheme + "://"@ + bucket + url_path(out->Ok_0),
        forall|scheme: Seq<char>, bits: u32, path: Seq<char>|
            text@ == #[trigger] object_url(scheme, dotted(bits), path) && is_web_scheme(
                ascii_lower(scheme),
            ) && out is Ok ==> url_address(out->Ok_0) == Some(IpAddr::V4(bits)),
{
    Url::parse(text).map_err(|e| e.to_string())
}

/// `Url::as_str`.
#[verifier::external_body]
pub(crate) fn text_of(url: &Url) -> (text: &str)
    ensures
        text@ == url_text(*url),
{
    url.as_str()
}

/// `Url::scheme`.
#[verifier::external_body]
pub(crate) fn scheme_of(url: &Url) -> (scheme: &str)
    ensures
        scheme@ == url_scheme(*url),
{
    url.scheme()
}

/// `Url::host_str`.
#[verifier::external_body]
pub(crate) fn host_of(url: &Url) -> (host: Option<&str>)
    ensures
        host is Some <==> url_host(*url) is Some,
        host is Some ==> url_host(*url) == Some(host->0@),
{
    url.host_str()
}

/// The IP address that the host of a URL is, where it is one.
pub uninterp spec fn url_address(url: Url) -> Option<IpAddr>;

/// `Url::host`, as far as it is an IP address: dotted, in brackets, or in any other form that
/// the URL parser reads as one.
#[verifier::external_body]
pub(crate) fn address_of(url: &Url) -> (address: Option<IpAddr>)
    ensures
        address == url_address(*url),
        address is Some ==> url_host(*url) is Some,
{
    match url.host() {
        Some(Host::Ipv4(v)) => Some(IpAddr::V4(v.into())),
        Some(Host::Ipv6(v)) => Some(IpAddr::V6(v.into())),
        Some(Host::Domain(_)) | None => None,
    }
}

/// `Url::path`.
#[verifier::external_body]
pub(crate) fn path_of(url: &Url) -> (path: &str)
    ensures
        path@ == url_path(*url),
{
    url.path()
}

/// `Url::clone`.
#[verifier::external_body]
pub(crate) fn copy_url(url: &Url) -> (copy: Url)
    ensures
        copy == *url,
{
    url.clone()
}

/// What parsing a glob pattern gives: the pattern, or why the text is none.
pub uninterp spec fn parsed_pattern(text: Seq<char>) -> Result<Pattern, Seq<char>>;

/// `glob::Pattern::new`, which depends on the text alone.
#[verifier::external_body]
pub(crate) fn parse_pattern(text: &str) -> (out: Result<Pattern, String>)
    ensures
        match out {
            Ok(pattern) => parsed_pattern(text@) == Ok::<Pattern, Seq<char>>(pattern),
            Err(message) => parsed_pattern(text@) == Err::<Pattern, Seq<char>>(message@),
        },
{
    Pattern::new(text).map_err(|e| e.to_string())
}

/// How a pattern is matched.
#[derive(Debug, Clone, Copy, PartialEq, Eq, Structural)]
pub struct MatchRules {
    /// Whether upper and lower case differ.
    pub case_sensitive: bool,
    /// Whether only a literal `/` (or `**`) matches a `/`.
    pub literal_separator: bool,
    /// Whether only a literal `.` matches a leading `.`.
    pub literal_leading_dot: bool,
}

/// Whether a text matches a pattern.
pub uninterp spec fn pattern_matches(pattern: Pattern, text: Seq<char>, rules: MatchRules) -> bool;

/// `glob::Pattern::matches_with`, which depends on its arguments alone.
#[verifier::external_body]
pub(crate) fn match_pattern(pattern: &Pattern, text: &str, rules: MatchRules) -> (yes: bool)
    ensures
        yes == pattern_matches(*pattern, text@, rules),
{
    let options = glob::MatchOptions {
        case_sensitive: rules.case_sensitive,
        require_literal_separator: rules.literal_separator,
        require_literal_leading_dot: rules.literal_leading_dot,
    };
    pattern.matches_with(text, options)
}

/// The order of strings: by their first different character, a prefix first.
pub open spec fn text_le(a: Seq<char>, b: Seq<char>) -> bool
    decreases a.len(),
{
    if a.len() == 0 {
        true
    } else if b.len() == 0 {
        false
    } else if a[0] == b[0] {
        text_le(a.skip(1), b.skip(1))
    } else {
        a[0] < b[0]
    }
}

/// Whether texts are in order.
pub open spec fn in_order(texts: Seq<Seq<char>>) -> bool {
    forall|i: int, j: int|
        0 <= i < j < texts.len() ==> text_le(#[trigger] texts[i], #[trigger] texts[j])
}

/// `Vec::sort` on strings: the same strings, in order.
#[verifier::external_body]
pub(crate) fn sort_texts(texts: &mut Vec<String>)
    ensures
        final(texts)@.to_multiset() == old(texts)@.to_multiset(),
        in_order(crate::mrt::string_views(final(texts)@)),
{
    texts.sort();
}

/// The serializations of a list of URLs.
pub open spec fn url_texts(urls: Seq<Url>) -> Seq<Seq<char>> {
    urls.map_values(|u: Url| url_text(u))
}

/// `slice::sort_by` on URLs by their serializations: the same URLs, in that order.
#[verifier::external_body]
pub(crate) fn sort_urls(urls: &mut Vec<Url>)
    ensures
        final(urls)@.to_multiset() == old(urls)@.to_multiset(),
        in_order(url_texts(final(urls)@)),
{
    urls.sort_by(|a, b| a.as_str().cmp(b.as_str()));
}

} // verus!
