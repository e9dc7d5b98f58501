//! From the `src` argument to the sources of a scan.
//!
//! A path may be a local glob, a local file, a remote glob or a remote object. What has to
//! be looked up outside to resolve it is a [`Question`]; the [`Answer`] to it, whatever it
//! is, decides the locations. The sources of a scan are those of its paths, in order.
use crate::cloud::bad_glob;
use crate::cloud::classify;
use crate::cloud::glob_error;
use crate::cloud::has_wildcard;
use crate::cloud::is_expansion;
use crate::cloud::is_glob;
use crate::cloud::key_of_url;
use crate::cloud::list_glob;
use crate::cloud::list_request;
use crate::cloud::listing_of;
use crate::cloud::located;
use crate::cloud::remote_key;
use crate::cloud::Listing;
use crate::cloud::Location;
use crate::cloud::LocationView;
use crate::error::bad_value;
use crate::error::Error;
use crate::error::ErrorText;
use crate::mrt::string_views;
use crate::options::Src;
use crate::reader::source_views;
use crate::reader::Source;
use crate::scan::SourceView;
use crate::text::joined;
use crate::urls::in_order;
use crate::urls::parsed_pattern;
use crate::urls::sort_texts;
use crate::urls::text_of;
use crate::urls::url_text;
use url::Url;
use vstd::prelude::*;

verus! {

/// What has to be looked up to resolve a path.
pub enum Question {
    /// Nothing.
    Nothing,
    /// Which local files does this glob match?
    Expand(String),
    /// Does this local file exist?
    Check(String),
    /// Which objects under this URL have keys with this prefix?
    List { url: Url, prefix: String },
}

/// A [`Question`], with its texts as sequences.
pub enum QuestionView {
    Nothing,
    Expand(Seq<char>),
    Check(Seq<char>),
    List { url: Url, prefix: Seq<char> },
}

impl View for Question {
    type V = QuestionView;

    open spec fn view(&self) -> QuestionView {
        match *self {
            Question::Nothing => QuestionView::Nothing,
            Question::Expand(spec) => QuestionView::Expand(spec@),
            Question::Check(spec) => QuestionView::Check(spec@),
            Question::List { url, prefix } => QuestionView::List { url, prefix: prefix@ },
        }
    }
}

/// A result of [`question`], by its view.
pub open spec fn question_view(out: Result<Question, Error>) -> Result<QuestionView, ErrorText> {
    match out {
        Ok(q) => Ok(q@),
        Err(e) => Err(e@),
    }
}

/// What has to be looked up to resolve a local path.
pub open spec fn local_question_of(spec: Seq<char>) -> QuestionView {
    if is_glob(spec) {
        QuestionView::Expand(spec)
    } else {
        QuestionView::Check(spec)
    }
}

/// What has to be looked up to resolve a location.
pub open spec fn question_at(
    location: Result<LocationView, ErrorText>,
) -> Result<QuestionView, ErrorText> {
    match location {
        Err(e) => Err(e),
        Ok(LocationView::Local(path)) => Ok(local_question_of(path)),
        Ok(LocationView::Remote(url)) => {
            let key = key_of_url(url);
            if is_glob(key) {
                match listing_of(url, key, parsed_pattern(key)) {
                    Ok(Some(prefix)) => Ok(QuestionView::List { url, prefix }),
                    Ok(None) => Ok(QuestionView::Nothing),
                    Err(e) => Err(e),
                }
            } else {
                Ok(QuestionView::Nothing)
            }
        },
    }
}

/// What has to be looked up to resolve a local path: a glob is expanded, a literal path
/// must exist.
pub fn local_question(spec: &str) -> (q: Question)
    ensures
        q@ == local_question_of(spec@),
{
    if has_wildcard(spec) {
        Question::Expand(spec.to_string())
    } else {
        Question::Check(spec.to_string())
    }
}

/// What has to be looked up to resolve a path.
pub fn question(path: &str) -> (out: Result<Question, Error>)
    ensures
        question_view(out) == question_at(located(path@)),
{
    match classify(path) {
        Err(e) => Err(e),
        Ok(Location::Local(p)) => Ok(local_question(p.as_str())),
        Ok(Location::Remote(url)) => {
            let key = remote_key(&url);
            if has_wildcard(key.as_str()) {
                match list_request(&url) {
                    Ok(Listing::Prefix(prefix)) => Ok(Question::List { url, prefix }),
                    Ok(Listing::AsIs) => Ok(Question::Nothing),
                    Err(e) => Err(e),
                }
            } else {
                Ok(Question::Nothing)
            }
        },
    }
}

/// The answer to a [`Question`]. Only the field that the question asks for is read.
pub struct Answer {
    /// To [`Question::Check`]: whether the file exists.
    pub exists: bool,
    /// To [`Question::Expand`]: the files that match, or why the glob is none.
    pub matches: Result<Vec<String>, String>,
    /// To [`Question::List`]: the locations of the objects.
    pub listed: Vec<String>,
}

/// The message for a local file that does not exist.
pub open spec fn not_found(spec: Seq<char>) -> Seq<char> {
    "File not found: "@ + spec
}

/// Whether `out` is what a local path resolves to: the sorted matches of a glob, or a
/// literal path that exists.
pub open spec fn is_local_resolution(
    out: Result<Vec<String>, Error>,
    spec: Seq<char>,
    exists: bool,
    matches: Result<Vec<String>, String>,
) -> bool {
    if is_glob(spec) {
        match matches {
            Ok(files) => {
                &&& out is Ok
                &&& out->Ok_0@.to_multiset() == files@.to_multiset()
                &&& in_order(string_views(out->Ok_0@))
            },
            Err(reason) => out is Err && out->Err_0@ == bad_value(bad_glob(spec, reason@)),
        }
    } else if exists {
        out is Ok && string_views(out->Ok_0@) == seq![spec]
    } else {
        out is Err && out->Err_0@ == bad_value(not_found(spec))
    }
}

/// Expand a local path spec (glob → sorted matches; literal → must exist), given what the
/// file system says.
pub fn resolve_local(spec: &str, exists: bool, matches: Result<Vec<String>, String>) -> (out:
    Result<Vec<String>, Error>)
    ensures
        is_local_resolution(out, spec@, exists, matches),
{
    if has_wildcard(spec) {
        match matches {
            Ok(files) => {
                let mut out = files;
                sort_texts(&mut out);
                Ok(out)
            },
            Err(reason) => Err(glob_error(spec, reason.as_str())),
        }
    } else if exists {
        let mut out: Vec<String> = Vec::new();
        out.push(spec.to_string());
        assert(string_views(out@) == seq![spec@]);
        Ok(out)
    } else {
        Err(Error::value_error(joined("File not found: ", spec)))
    }
}

/// The views of a list of locations.
pub open spec fn location_views(locations: Seq<Location>) -> Seq<LocationView> {
    locations.map_values(|l: Location| l@)
}

/// Local paths as locations.
pub open spec fn local_views(paths: Seq<String>) -> Seq<LocationView> {
    paths.map_values(|p: String| LocationView::Local(p@))
}

/// URLs as locations.
pub open spec fn remote_views(urls: Seq<Url>) -> Seq<LocationView> {
    urls.map_values(|u: Url| LocationView::Remote(u))
}

/// Whether `out` are the locations that `found` stands for, or its error.
pub open spec fn carries_local(
    out: Result<Vec<Location>, Error>,
    found: Result<Vec<String>, Error>,
) -> bool {
    match found {
        Ok(paths) => out is Ok && location_views(out->Ok_0@) == local_views(paths@),
        Err(e) => out is Err && out->Err_0@ == e@,
    }
}

/// Whether `out` are the locations that `found` stands for, or its error.
pub open spec fn carries_remote(
    out: Result<Vec<Location>, Error>,
    found: Result<Vec<Url>, Error>,
) -> bool {
    match found {
        Ok(urls) => out is Ok && location_views(out->Ok_0@) == remote_views(urls@),
        Err(e) => out is Err && out->Err_0@ == e@,
    }
}

/// Whether `out` is what a path at `location` resolves to, given an answer.
pub open spec fn is_resolution(
    out: Result<Vec<Location>, Error>,
    location: Result<LocationView, ErrorText>,
    answer: Answer,
) -> bool {
    match location {
        Err(e) => out is Err && out->Err_0@ == e,
        Ok(LocationView::Local(path)) => exists|found: Result<Vec<String>, Error>| #[trigger]
            carries_local(out, found) && is_local_resolution(
                found,
                path,
                answer.exists,
                answer.matches,
            ),
        Ok(LocationView::Remote(url)) => {
            let key = key_of_url(url);
            if is_glob(key) {
                exists|found: Result<Vec<Url>, Error>| #[trigger]
                    is_expansion(found, url, parsed_pattern(key), string_views(answer.listed@))
                        && carries_remote(out, found)
            } else {
                out is Ok && location_views(out->Ok_0@) == seq![LocationView::Remote(url)]
            }
        },
    }
}

fn as_local(paths: Vec<String>) -> (out: Vec<Location>)
    ensures
        location_views(out@) == local_views(paths@),
{
    let mut out: Vec<Location> = Vec::new();
    let ghost wanted = local_views(paths@);
    for path in it: paths
        invariant
            it.seq() == paths@,
            wanted == local_views(paths@),
            location_views(out@) == wanted.take(it.index()),
    {
        let ghost before = out@;
        let ghost v = LocationView::Local(path@);
        out.push(Location::Local(path));
        assert(location_views(out@) == location_views(before).push(v));
        assert(wanted.take(it.index() + 1) == wanted.take(it.index()).push(v));
    }
    assert(wanted.take(wanted.len() as int) == wanted);
    out
}

fn as_remote(urls: Vec<Url>) -> (out: Vec<Location>)
    ensures
        location_views(out@) == remote_views(urls@),
{
    let mut out: Vec<Location> = Vec::new();
    let ghost wanted = remote_views(urls@);
    for url in it: urls
        invariant
            it.seq() == urls@,
            wanted == remote_views(urls@),
            location_views(out@) == wanted.take(it.index()),
    {
        let ghost before = out@;
        let ghost v = LocationView::Remote(url);
        out.push(Location::Remote(url));
        assert(location_views(out@) == location_views(before).push(v));
        assert(wanted.take(it.index() + 1) == wanted.take(it.index()).push(v));
    }
    assert(wanted.take(wanted.len() as int) == wanted);
    out
}

/// Resolve one path spec to concrete locations (local glob / literal, or remote glob
/// listing / single object), given the answer to its [`question`].
pub fn resolve_locations(spec: &str, answer: Answer) -> (out: Result<Vec<Location>, Error>)
    ensures
        is_resolution(out, located(spec@), answer),
{
    match classify(spec) {
        Err(e) => Err(e),
        Ok(Location::Local(path)) => {
            let found = resolve_local(path.as_str(), answer.exists, answer.matches);
            let ghost witness = found;
            let out = match found {
                Ok(paths) => Ok(as_local(paths)),
                Err(e) => Err(e),
            };
            assert(is_local_resolution(witness, path@, answer.exists, answer.matches));
            assert(carries_local(out, witness));
            out
        },
        Ok(Location::Remote(url)) => {
            let key = remote_key(&url);
            if has_wildcard(key.as_str()) {
                let found = list_glob(&url, &answer.listed);
                let ghost witness = found;
                let out = match found {
                    Ok(urls) => Ok(as_remote(urls)),
                    Err(e) => Err(e),
                };
                assert(is_expansion(
                    witness,
                    url,
                    parsed_pattern(key@),
                    string_views(answer.listed@),
                ));
                assert(carries_remote(out, witness));
                out
            } else {
                let mut out: Vec<Location> = Vec::new();
                out.push(Location::Remote(url));
                assert(location_views(out@) == seq![LocationView::Remote(url)]);
                Ok(out)
            }
        },
    }
}

/// The source at a location.
pub open spec fn source_at(location: LocationView) -> SourceView {
    match location {
        LocationView::Local(path) => SourceView::Local(path),
        LocationView::Remote(url) => SourceView::Remote(url_text(url)),
    }
}

/// The sources of lists of locations, one list after the other.
pub open spec fn sources_at(resolved: Seq<Vec<Location>>) -> Seq<SourceView>
    decreases resolved.len(),
{
    if resolved.len() == 0 {
        Seq::empty()
    } else {
        sources_at(resolved.drop_last()) + location_views(resolved.last()@).map_values(
            |l: LocationView| source_at(l),
        )
    }
}

/// The sources of a `src` argument, given the locations of each of its paths.
pub open spec fn sources_of(src: Src, resolved: Seq<Vec<Location>>) -> Seq<SourceView> {
    match src {
        Src::Bytes(bytes) => seq![SourceView::Bytes(bytes@)],
        Src::Paths(_) => sources_at(resolved),
    }
}

/// Turn a [`Src`] into concrete [`Source`]s: `resolved` are the locations of each of its
/// paths, in order.
pub fn resolve_sources(src: Src, resolved: Vec<Vec<Location>>) -> (sources: Vec<Source>)
    ensures
        source_views(sources@) == sources_of(src, resolved@),
{
    let mut sources: Vec<Source> = Vec::new();
    match src {
        Src::Bytes(bytes) => {
            sources.push(Source::Bytes(bytes));
            assert(source_views(sources@) == seq![SourceView::Bytes(bytes@)]);
        },
        Src::Paths(_) => {
            assert(source_views(sources@) == Seq::<SourceView>::empty());
            assert(resolved@.take(0) == Seq::<Vec<Location>>::empty());
            for i in 0..resolved.len()
                invariant
                    source_views(sources@) == sources_at(resolved@.take(i as int)),
            {
                let ghost seen = source_views(sources@);
                let locations = &resolved[i];
                let ghost wanted = location_views(locations@).map_values(
                    |l: LocationView| source_at(l),
                );
                assert(seen + wanted.take(0) == seen);
                for j in 0..locations.len()
                    invariant
                        wanted == location_views(locations@).map_values(
                            |l: LocationView| source_at(l),
                        ),
                        source_views(sources@) == seen + wanted.take(j as int),
                {
                    let ghost before = sources@;
                    sources.push(
                        match &locations[j] {
                            Location::Local(path) => Source::Local(path.clone()),
                            Location::Remote(url) => Source::Remote(text_of(url).to_string()),
                        },
                    );
                    assert(source_views(sources@) == source_views(before).push(wanted[j as int]));
                    assert(seen + wanted.take(j as int + 1) == (seen + wanted.take(j as int)).push(
                        wanted[j as int],
                    ));
                }
                assert(wanted.take(wanted.len() as int) == wanted);
                assert(resolved@.take(i as int + 1).drop_last() == resolved@.take(i as int));
            }
            assert(resolved@.take(resolved@.len() as int) == resolved@);
        },
    }
    sources
}

} // verus!
