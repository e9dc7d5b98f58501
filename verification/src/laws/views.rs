//! Laws of views: what the contracts say of a value is said of its fields.
use crate::cloud::location_view;
use crate::cloud::lookup_views;
use crate::cloud::option_views;
use crate::cloud::Location;
use crate::cloud::LocationView;
use crate::cloud::SecretLookup;
use crate::decode::next_view;
use crate::decode::peer_views;
use crate::decode::row_views;
use crate::decode::text_view;
use crate::decode::MrtRow;
use crate::decode::Next;
use crate::decode::PeerRow;
use crate::error::Error;
use crate::inet::InetVal;
use crate::meta::example_views;
use crate::meta::tag_views;
use crate::meta::FunctionExample;
use crate::meta::FunctionMetadata;
use crate::mrt::path_view;
use crate::mrt::string_views;
use crate::mrt::texts_view;
use crate::mrt::ParserError;
use crate::options::arg_views;
use crate::options::source_view;
use crate::options::ArgSpec;
use crate::options::Src;
use crate::options::SrcView;
use crate::reader::source_views;
use crate::reader::Source;
use crate::scan::SourceView;
use crate::secrets::SecretFields;
use crate::sources::location_views;
use crate::sources::question_view;
use crate::sources::Question;
use crate::sources::QuestionView;
use crate::stream::fault_view;
use crate::stream::Fault;
use bgpkit_parser::MrtRecord;
use vstd::prelude::*;

verus! {

/// A row is seen by its own fields.
pub proof fn rows_are_seen_by_their_fields(row: MrtRow)
    ensures
        row@.timestamp_us == row.timestamp_us,
        row@.msg_type == row.msg_type,
        row@.view_name == text_view(row.view_name),
        row@.peer_ip == row.peer_ip,
        row@.peer_asn == row.peer_asn,
        row@.prefix == row.prefix,
        row@.as_path == path_view(row.as_path),
        row@.origin_asn == row.origin_asn,
        row@.next_hop == row.next_hop,
        row@.communities == texts_view(row.communities),
        row@.med == row.med,
        row@.local_pref == row.local_pref,
        row@.atomic_aggregate == row.atomic_aggregate,
        row@.aggregator_asn == row.aggregator_asn,
        row@.old_state == row.old_state,
        row@.new_state == row.new_state,
        row@.error == text_view(row.error),
{
}

/// A peer is seen by its own fields.
pub proof fn peers_are_seen_by_their_fields(row: PeerRow)
    ensures
        row@.peer_ip == row.peer_ip,
        row@.peer_asn == row.peer_asn,
        row@.collector == text_view(row.collector),
{
}

/// An encoded address is seen by its own fields.
pub proof fn inet_values_are_seen_by_their_fields(v: InetVal)
    ensures
        v@.ip_type == v.ip_type,
        v@.address_le == v.address_le@,
        v@.mask == v.mask,
{
}

/// Optional values are seen by what they hold.
pub proof fn options_are_seen_by_their_values(text: String, path: Vec<u32>, texts: Vec<String>)
    ensures
        text_view(Some(text)) == Some(text@),
        text_view(None) is None,
        path_view(Some(path)) == Some(path@),
        path_view(None) is None,
        texts_view(Some(texts)) == Some(string_views(texts@)),
        texts_view(None) is None,
{
}

/// Lists are seen item by item, in order.
pub proof fn lists_are_seen_in_order(
    rows: Seq<MrtRow>,
    peers: Seq<PeerRow>,
    texts: Seq<String>,
    sources: Seq<Source>,
    locations: Seq<Location>,
    i: int,
)
    ensures
        row_views(rows).len() == rows.len(),
        0 <= i < rows.len() ==> row_views(rows)[i] == rows[i]@,
        peer_views(peers).len() == peers.len(),
        0 <= i < peers.len() ==> peer_views(peers)[i] == peers[i]@,
        string_views(texts).len() == texts.len(),
        0 <= i < texts.len() ==> string_views(texts)[i] == texts[i]@,
        source_views(sources).len() == sources.len(),
        0 <= i < sources.len() ==> source_views(sources)[i] == sources[i]@,
        location_views(locations).len() == locations.len(),
        0 <= i < locations.len() ==> location_views(locations)[i] == locations[i]@,
{
}

/// So are lists of pairs and of descriptions.
pub proof fn descriptions_are_seen_in_order(
    pairs: Seq<(String, String)>,
    lookups: Seq<SecretLookup>,
    args: Seq<ArgSpec>,
    examples: Seq<FunctionExample>,
    i: int,
)
    ensures
        option_views(pairs).len() == pairs.len(),
        0 <= i < pairs.len() ==> option_views(pairs)[i] == (pairs[i].0@, pairs[i].1@),
        tag_views(pairs).len() == pairs.len(),
        0 <= i < pairs.len() ==> tag_views(pairs)[i] == (pairs[i].0@, pairs[i].1@),
        lookup_views(lookups).len() == lookups.len(),
        0 <= i < lookups.len() ==> lookup_views(lookups)[i] == lookups[i]@,
        arg_views(args).len() == args.len(),
        0 <= i < args.len() ==> arg_views(args)[i] == args[i]@,
        example_views(examples).len() == examples.len(),
        0 <= i < examples.len() ==> example_views(examples)[i] == (
            examples[i].sql@,
            examples[i].description@,
        ),
{
}

/// A source is what it was given as.
pub proof fn sources_are_seen_by_kind(text: String, bytes: Vec<u8>, paths: Vec<String>)
    ensures
        Source::Local(text)@ == SourceView::Local(text@),
        Source::Remote(text)@ == SourceView::Remote(text@),
        Source::Bytes(bytes)@ == SourceView::Bytes(bytes@),
        Src::Paths(paths)@ == SrcView::Paths(string_views(paths@)),
        Src::Bytes(bytes)@ == SrcView::Bytes(bytes@),
        Location::Local(text)@ == LocationView::Local(text@),
        Question::Nothing@ == QuestionView::Nothing,
        Question::Expand(text)@ == QuestionView::Expand(text@),
        Question::Check(text)@ == QuestionView::Check(text@),
{
}

/// An error is seen by its own words, and so is a fault.
pub proof fn errors_are_seen_by_their_words(e: Error, p: ParserError, f: Fault)
    ensures
        e@.blame == e.blame,
        e@.message == e.message@,
        p@.kind == p.kind,
        p@.message == p.message@,
        f@.unexpected_eof == f.unexpected_eof,
        f@.message == f.message@,
        fault_view(Some(f)) == Some(f@),
        fault_view(None) is None,
{
}

/// A result is seen as the success or the failure that it is.
pub proof fn results_are_seen_as_they_are(
    record: MrtRecord,
    p: ParserError,
    location: Location,
    src: Src,
    question: Question,
    e: Error,
)
    ensures
        next_view(Ok(Some(record))) == Next::Record(record),
        next_view(Ok(None)) is End,
        next_view(Err(p)) == Next::Failure(p@),
        location_view(Ok(location)) is Ok && location_view(Ok(location))->Ok_0 == location@,
        location_view(Err(e)) is Err && location_view(Err(e))->Err_0 == e@,
        source_view(Ok(src)) is Ok && source_view(Ok(src))->Ok_0 == src@,
        source_view(Err(e)) is Err && source_view(Err(e))->Err_0 == e@,
        question_view(Ok(question)) is Ok && question_view(Ok(question))->Ok_0 == question@,
        question_view(Err(e)) is Err && question_view(Err(e))->Err_0 == e@,
{
}

/// Descriptions and secrets are seen by their own fields.
pub proof fn descriptions_are_seen_by_their_fields(
    m: FunctionMetadata,
    a: ArgSpec,
    l: SecretLookup,
    f: SecretFields,
)
    ensures
        m@.description == m.description@,
        m@.examples == example_views(m.examples@),
        m@.tags == tag_views(m.tags@),
        m@.return_type is Some <==> m.return_type is Some,
        a@.name == a.name@,
        a@.position == a.position,
        a@.arrow_type == a.arrow_type@,
        a@.doc == a.doc@,
        a@.is_const == a.is_const,
        a@.data_type is Some <==> a.data_type is Some,
        l@.secret_type == l.secret_type@,
        l@.scope == text_view(l.scope),
        l@.name == text_view(l.name),
        f@.key_id == text_view(f.key_id),
        f@.secret == text_view(f.secret),
        f@.session_token == text_view(f.session_token),
        f@.region == text_view(f.region),
        f@.endpoint == text_view(f.endpoint),
        f@.url_style == text_view(f.url_style),
        f@.use_ssl == text_view(f.use_ssl),
{
}

} // verus!
