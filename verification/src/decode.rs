//! MRT stream decode: turn the sequential `TABLE_DUMP_V2` / `BGP4MP` record stream
//! into flat [`MrtRow`] / [`PeerRow`] rows.
//!
//! Records are self-delimiting, so a stream is read one record after the other
//! with [`next_record`], and a [`Decoder`] turns each into rows. A record that was
//! read in full but could not be parsed leaves the stream on the next record
//! ([`is_recoverable`]); any other failure ends it.
use crate::inet::IpAddr;
use crate::mrt::community_strings;
use crate::mrt::elem_communities;
use crate::mrt::elem_origin;
use crate::mrt::elem_path;
use crate::mrt::elem_route;
use crate::mrt::enumerates;
use crate::mrt::flat_path;
use crate::mrt::indexed_peers;
use crate::mrt::new_elementor;
use crate::mrt::outcome_view;
use crate::mrt::parse_record;
use crate::mrt::parsed_record;
use crate::mrt::path_view;
use crate::mrt::peer_table;
use crate::mrt::record_body;
use crate::mrt::record_elems;
use crate::mrt::record_parts;
use crate::mrt::record_peers;
use crate::mrt::record_to_elems;
use crate::mrt::record_view;
use crate::mrt::respects_frame;
use crate::mrt::route_parts;
use crate::mrt::set_peer_table;
use crate::mrt::single_origin;
use crate::mrt::texts_view;
use crate::mrt::ErrorKind;
use crate::mrt::ErrorView;
use crate::mrt::IndexedPeer;
use crate::mrt::Message;
use crate::mrt::MessageView;
use crate::mrt::ParserError;
use crate::mrt::RouteParts;
use crate::stream::fault_view;
use crate::stream::ByteRead;
use crate::stream::Fault;
use crate::stream::FaultView;
use crate::text::joined;
use crate::time::micros;
use crate::time::ts_to_micros;
use bgpkit_parser::BgpElem;
use bgpkit_parser::Elementor;
use bgpkit_parser::MrtRecord;
use vstd::prelude::*;

verus! {

/// The kind of a decoded route/state row.
#[derive(Debug, Clone, Copy, PartialEq, Eq, Structural)]
pub enum MsgType {
    /// A prefix announcement (and every `read_rib` entry).
    Announce,
    /// A prefix withdrawal.
    Withdraw,
    /// A BGP FSM state change (`BGP4MP_STATE_CHANGE`).
    StateChange,
}

/// The label of a row kind in the `message_type` column.
pub open spec fn label_of(kind: MsgType) -> Seq<char> {
    match kind {
        MsgType::Announce => "announce"@,
        MsgType::Withdraw => "withdraw"@,
        MsgType::StateChange => "state_change"@,
    }
}

impl MsgType {
    /// The canonical lowercase label used in the `message_type` column.
    pub fn as_str(self) -> (label: &'static str)
        ensures
            label@ == label_of(self),
    {
        match self {
            MsgType::Announce => "announce",
            MsgType::Withdraw => "withdraw",
            MsgType::StateChange => "state_change",
        }
    }
}

/// One decoded route or state-change row. A field is `None` when the underlying
/// MRT record does not carry it (e.g. a withdrawal has no `as_path`/`next_hop`; a
/// state change has no prefix). An error row carries the failure message with every
/// other field left at its empty default.
#[derive(Debug, Clone, PartialEq)]
pub struct MrtRow {
    /// Record timestamp in microseconds since the Unix epoch.
    pub timestamp_us: i64,
    /// `announce` / `withdraw` / `state_change` (`None` only on an error row).
    pub msg_type: Option<MsgType>,
    /// RIB view name (TABLE_DUMP_V2 `PEER_INDEX_TABLE`), else `None`.
    pub view_name: Option<String>,
    /// The peer that reported the route.
    pub peer_ip: Option<IpAddr>,
    /// The peer's ASN.
    pub peer_asn: Option<u32>,
    /// The route prefix as `(address, prefix_len)`.
    pub prefix: Option<(IpAddr, u16)>,
    /// The AS path in path order (origin last).
    pub as_path: Option<Vec<u32>>,
    /// The origin AS (last AS in the path).
    pub origin_asn: Option<u32>,
    /// The route's next hop.
    pub next_hop: Option<IpAddr>,
    /// Communities, each as a canonical string (standard `a:b`, large `a:b:c`, or a
    /// well-known mnemonic).
    pub communities: Option<Vec<String>>,
    /// MULTI_EXIT_DISC.
    pub med: Option<u32>,
    /// LOCAL_PREF.
    pub local_pref: Option<u32>,
    /// ATOMIC_AGGREGATE attribute present.
    pub atomic_aggregate: bool,
    /// AGGREGATOR ASN.
    pub aggregator_asn: Option<u32>,
    /// Previous FSM state (state-change rows only).
    pub old_state: Option<u16>,
    /// New FSM state (state-change rows only).
    pub new_state: Option<u16>,
    /// Per-record decode error, else `None`.
    pub error: Option<String>,
}

/// An [`MrtRow`], with its text and lists as sequences.
pub struct RowView {
    pub timestamp_us: i64,
    pub msg_type: Option<MsgType>,
    pub view_name: Option<Seq<char>>,
    pub peer_ip: Option<IpAddr>,
    pub peer_asn: Option<u32>,
    pub prefix: Option<(IpAddr, u16)>,
    pub as_path: Option<Seq<u32>>,
    pub origin_asn: Option<u32>,
    pub next_hop: Option<IpAddr>,
    pub communities: Option<Seq<Seq<char>>>,
    pub med: Option<u32>,
    pub local_pref: Option<u32>,
    pub atomic_aggregate: bool,
    pub aggregator_asn: Option<u32>,
    pub old_state: Option<u16>,
    pub new_state: Option<u16>,
    pub error: Option<Seq<char>>,
}

/// An optional string, by its view.
pub open spec fn text_view(text: Option<String>) -> Option<Seq<char>> {
    match text {
        Some(t) => Some(t@),
        None => None,
    }
}

impl View for MrtRow {
    type V = RowView;

    open spec fn view(&self) -> RowView {
        RowView {
            timestamp_us: self.timestamp_us,
            msg_type: self.msg_type,
            view_name: text_view(self.view_name),
            peer_ip: self.peer_ip,
            peer_asn: self.peer_asn,
            prefix: self.prefix,
            as_path: path_view(self.as_path),
            origin_asn: self.origin_asn,
            next_hop: self.next_hop,
            communities: texts_view(self.communities),
            med: self.med,
            local_pref: self.local_pref,
            atomic_aggregate: self.atomic_aggregate,
            aggregator_asn: self.aggregator_asn,
            old_state: self.old_state,
            new_state: self.new_state,
            error: text_view(self.error),
        }
    }
}

/// The views of a list of rows.
pub open spec fn row_views(rows: Seq<MrtRow>) -> Seq<RowView> {
    rows.map_values(|r: MrtRow| r@)
}

/// The row in which every field is empty.
pub open spec fn blank_row() -> RowView {
    RowView {
        timestamp_us: 0,
        msg_type: None,
        view_name: None,
        peer_ip: None,
        peer_asn: None,
        prefix: None,
        as_path: None,
        origin_asn: None,
        next_hop: None,
        communities: None,
        med: None,
        local_pref: None,
        atomic_aggregate: false,
        aggregator_asn: None,
        old_state: None,
        new_state: None,
        error: None,
    }
}

/// The row that reports a failure: every field empty except `error`.
pub open spec fn failure_row(message: Seq<char>) -> RowView {
    RowView { error: Some(message), ..blank_row() }
}

impl Default for MrtRow {
    fn default() -> (row: MrtRow)
        ensures
            row@ == blank_row(),
    {
        MrtRow {
            timestamp_us: 0,
            msg_type: None,
            view_name: None,
            peer_ip: None,
            peer_asn: None,
            prefix: None,
            as_path: None,
            origin_asn: None,
            next_hop: None,
            communities: None,
            med: None,
            local_pref: None,
            atomic_aggregate: false,
            aggregator_asn: None,
            old_state: None,
            new_state: None,
            error: None,
        }
    }
}

impl MrtRow {
    /// An error row: every field empty except `error`.
    pub fn error_row(msg: String) -> (row: MrtRow)
        ensures
            row@ == failure_row(msg@),
    {
        let mut row = MrtRow::default();
        row.error = Some(msg);
        row
    }
}

/// One peer row for `bgp.peers`.
#[derive(Debug, Clone, PartialEq, Eq)]
pub struct PeerRow {
    /// The peer's IP address.
    pub peer_ip: IpAddr,
    /// The peer's ASN.
    pub peer_asn: u32,
    /// The collector / RIB view name, when known.
    pub collector: Option<String>,
}

/// A [`PeerRow`], with its text as a sequence.
pub struct PeerRowView {
    pub peer_ip: IpAddr,
    pub peer_asn: u32,
    pub collector: Option<Seq<char>>,
}

impl View for PeerRow {
    type V = PeerRowView;

    open spec fn view(&self) -> PeerRowView {
        PeerRowView {
            peer_ip: self.peer_ip,
            peer_asn: self.peer_asn,
            collector: text_view(self.collector),
        }
    }
}

/// The views of a list of peer rows.
pub open spec fn peer_views(rows: Seq<PeerRow>) -> Seq<PeerRowView> {
    rows.map_values(|r: PeerRow| r@)
}

/// A copy of an optional string.
pub(crate) fn copy_text(text: &Option<String>) -> (out: Option<String>)
    ensures
        text_view(out) == text_view(*text),
{
    match text {
        Some(t) => Some(t.clone()),
        None => None,
    }
}

/// Whether a parse error is *recoverable*: the record body was fully consumed
/// before the failure, so the stream is still aligned on the next record and
/// decoding can continue. After any other error the stream is not aligned, and the
/// caller must stop.
pub fn is_recoverable(err: &ParserError) -> (yes: bool)
    ensures
        yes == (err.kind == ErrorKind::Malformed),
{
    err.kind == ErrorKind::Malformed
}

/// Whether a parse error signals a *clean* end of stream (no more records).
pub fn is_clean_eof(err: &ParserError) -> (yes: bool)
    ensures
        yes == (err.kind == ErrorKind::EndOfStream),
{
    err.kind == ErrorKind::EndOfStream
}

/// What comes next in a stream.
pub enum Next {
    /// A record.
    Record(MrtRecord),
    /// The clean end of the stream.
    End,
    /// A failure.
    Failure(ErrorView),
}

/// How an I/O failure reads as a parse error.
pub open spec fn io_message(message: Seq<char>) -> Seq<char> {
    "Error: "@ + message
}

/// A parse error of a stream's leading bytes, seen by a reader that meets `fault`
/// where those bytes run out: an error that came from running out is replaced by the
/// fault. A source that ends where more was due, right between two records, still
/// ends cleanly.
pub open spec fn with_fault(err: ErrorView, fault: Option<FaultView>) -> ErrorView {
    match fault {
        None => err,
        Some(f) => match err.kind {
            ErrorKind::Malformed | ErrorKind::Oversized => err,
            ErrorKind::EndOfStream => if f.unexpected_eof {
                err
            } else {
                ErrorView { kind: ErrorKind::Io, message: io_message(f.message) }
            },
            ErrorKind::Eof => ErrorView {
                kind: if f.unexpected_eof {
                    ErrorKind::Eof
                } else {
                    ErrorKind::Io
                },
                message: io_message(f.message),
            },
            ErrorKind::Io => ErrorView { kind: ErrorKind::Io, message: io_message(f.message) },
        },
    }
}

/// What a parser's outcome on the leading bytes means for the stream.
pub open spec fn settled(
    outcome: Result<MrtRecord, ErrorView>,
    fault: Option<FaultView>,
) -> Next {
    match outcome {
        Ok(record) => Next::Record(record),
        Err(err) => {
            let e = with_fault(err, fault);
            if e.kind == ErrorKind::EndOfStream {
                Next::End
            } else {
                Next::Failure(e)
            }
        },
    }
}

/// What comes next in a stream of `bytes` with `fault` behind them.
pub open spec fn next_of(bytes: Seq<u8>, fault: Option<FaultView>) -> Next {
    settled(parsed_record(bytes).outcome, fault)
}

/// How many bytes reading the next record uses up.
pub open spec fn used(bytes: Seq<u8>) -> int {
    bytes.len() - parsed_record(bytes).left
}

/// A result of [`next_record`], by its view.
pub open spec fn next_view(out: Result<Option<MrtRecord>, ParserError>) -> Next {
    match out {
        Ok(Some(record)) => Next::Record(record),
        Ok(None) => Next::End,
        Err(e) => Next::Failure(e@),
    }
}

/// Decide what the parser's outcome on a stream's leading bytes means, given the
/// fault behind those bytes.
pub fn settle(outcome: Result<MrtRecord, ParserError>, fault: &Option<Fault>) -> (out: Result<
    Option<MrtRecord>,
    ParserError,
>)
    ensures
        next_view(out) == settled(outcome_view(outcome), fault_view(*fault)),
{
    match outcome {
        Ok(record) => Ok(Some(record)),
        Err(err) => {
            let e = match fault {
                None => err,
                Some(f) => match err.kind {
                    ErrorKind::Malformed | ErrorKind::Oversized => err,
                    ErrorKind::EndOfStream => if f.unexpected_eof {
                        err
                    } else {
                        ParserError {
                            kind: ErrorKind::Io,
                            message: joined("Error: ", f.message.as_str()),
                        }
                    },
                    ErrorKind::Eof => ParserError {
                        kind: if f.unexpected_eof {
                            ErrorKind::Eof
                        } else {
                            ErrorKind::Io
                        },
                        message: joined("Error: ", f.message.as_str()),
                    },
                    ErrorKind::Io => ParserError {
                        kind: ErrorKind::Io,
                        message: joined("Error: ", f.message.as_str()),
                    },
                },
            };
            if is_clean_eof(&e) {
                Ok(None)
            } else {
                Err(e)
            }
        },
    }
}

/// Parse the next MRT record from `reader`, returning:
/// - `Ok(Some(record))` — a record,
/// - `Ok(None)` — a clean end of stream,
/// - `Err(error)` — a failure (use [`is_recoverable`] to decide whether to skip the
///   bad record and continue, or stop).
///
/// After a record, and after a recoverable failure, the reader stands right behind the
/// record.
pub fn next_record<R: ByteRead>(reader: &mut R) -> (out: Result<Option<MrtRecord>, ParserError>)
    requires
        old(reader).valid(),
    ensures
        final(reader).valid(),
        next_view(out) == next_of(old(reader).unread(), old(reader).fault()),
        0 <= used(old(reader).unread()) <= old(reader).unread().len(),
        final(reader).unread() == old(reader).unread().skip(used(old(reader).unread())),
        final(reader).fault() == old(reader).fault(),
        final(reader).position() == old(reader).position() + used(old(reader).unread()),
        respects_frame(
            parsed_record(old(reader).unread()).outcome,
            parsed_record(old(reader).unread()).left,
            old(reader).unread(),
        ),
{
    let rest = reader.rest();
    let total: usize = rest.len();
    let (outcome, left) = parse_record(rest);
    let n: usize = total - left;
    let out = settle(outcome, reader.pending_fault());
    reader.consume(n);
    out
}

/// What a decoder has learned from the records before: the peers that RIB entries
/// refer to, and the RIB view name.
pub struct DecoderView {
    pub table: Option<Map<u16, IndexedPeer>>,
    pub view_name: Option<Seq<char>>,
}

/// A decoder that has seen no record.
pub open spec fn fresh_decoder() -> DecoderView {
    DecoderView { table: None, view_name: None }
}

/// The row of one route.
pub open spec fn route_view(
    parts: RouteParts,
    as_path: Option<Seq<u32>>,
    origin: Option<u32>,
    communities: Option<Seq<Seq<char>>>,
    view_name: Option<Seq<char>>,
) -> RowView {
    RowView {
        timestamp_us: micros(parts.timestamp_bits),
        msg_type: Some(
            if parts.withdrawn {
                MsgType::Withdraw
            } else {
                MsgType::Announce
            },
        ),
        view_name,
        peer_ip: Some(parts.peer_ip),
        peer_asn: Some(parts.peer_asn),
        prefix: Some((parts.prefix, parts.prefix_len as u16)),
        as_path,
        origin_asn: origin,
        next_hop: parts.next_hop,
        communities,
        med: parts.med,
        local_pref: parts.local_pref,
        atomic_aggregate: parts.atomic,
        aggregator_asn: parts.aggregator_asn,
        old_state: None,
        new_state: None,
        error: None,
    }
}

/// The row of one parsed route.
pub open spec fn elem_row(elem: BgpElem, view_name: Option<Seq<char>>) -> RowView {
    route_view(
        elem_route(elem),
        elem_path(elem),
        elem_origin(elem),
        elem_communities(elem),
        view_name,
    )
}

/// The row of one BGP4MP state change.
pub open spec fn state_row(
    timestamp: u32,
    microseconds: Option<u32>,
    peer_ip: IpAddr,
    peer_asn: u32,
    old_state: u16,
    new_state: u16,
    view_name: Option<Seq<char>>,
) -> RowView {
    RowView {
        timestamp_us: (timestamp * 1_000_000 + match microseconds {
            Some(us) => us as int,
            None => 0,
        }) as i64,
        msg_type: Some(MsgType::StateChange),
        view_name,
        peer_ip: Some(peer_ip),
        peer_asn: Some(peer_asn),
        old_state: Some(old_state),
        new_state: Some(new_state),
        ..blank_row()
    }
}

/// The rows of one record, read by a decoder in state `d`. A `PEER_INDEX_TABLE` has
/// none, a state change has one, any other record has one per route.
pub open spec fn rows_of(d: DecoderView, record: MrtRecord) -> Seq<RowView> {
    let view = record_view(record);
    match view.message {
        MessageView::PeerIndexTable { .. } => Seq::empty(),
        MessageView::StateChange { peer_ip, peer_asn, old_state, new_state } => seq![
            state_row(
                view.timestamp,
                view.microseconds,
                peer_ip,
                peer_asn,
                old_state,
                new_state,
                d.view_name,
            ),
        ],
        _ => record_elems(d.table, record).map_values(|e: BgpElem| elem_row(e, d.view_name)),
    }
}

/// What holds of every decoded row: it has a kind and no error; where it has both an
/// AS path and an origin AS, the origin is the path's last AS; a withdrawal has no
/// path, origin, next hop or communities; a state change, and nothing else, has FSM
/// states, and no prefix.
pub open spec fn coherent(row: RowView) -> bool {
    &&& row.msg_type is Some
    &&& row.error is None
    &&& row.as_path is Some && row.origin_asn is Some ==> row.as_path->0.len() > 0
        && row.as_path->0.last() == row.origin_asn->0
    &&& row.msg_type == Some(MsgType::Withdraw) ==> row.as_path is None && row.origin_asn is None
        && row.next_hop is None && row.communities is None
    &&& row.prefix is None <==> row.msg_type == Some(MsgType::StateChange)
    &&& row.old_state is Some <==> row.msg_type == Some(MsgType::StateChange)
    &&& row.new_state is Some <==> row.msg_type == Some(MsgType::StateChange)
}

/// Whether a row names who reported it: in a row of RIB entries it is a peer of the
/// decoder's table, in a row of a BGP4MP record the peer that sent it.
pub open spec fn names_its_peer(row: RowView, d: DecoderView, record: MrtRecord) -> bool {
    &&& row.peer_ip is Some && row.peer_asn is Some
    &&& record_body(record) is Rib ==> d.table is Some && exists|id: u16| #[trigger]
        d.table->0.dom().contains(id) && Some(d.table->0[id].peer_ip) == row.peer_ip && Some(
            d.table->0[id].peer_asn,
        ) == row.peer_asn
    &&& match record_view(record).message {
        MessageView::StateChange { peer_ip, peer_asn, .. } => row.peer_ip == Some(peer_ip)
            && row.peer_asn == Some(peer_asn),
        MessageView::Message { peer_ip, peer_asn } => row.peer_ip == Some(peer_ip)
            && row.peer_asn == Some(peer_asn),
        _ => true,
    }
}

/// The view name that a `PEER_INDEX_TABLE` gives: an empty one counts as none.
pub open spec fn named_view(name: Seq<char>) -> Option<Seq<char>> {
    if name.len() == 0 {
        None
    } else {
        Some(name)
    }
}

/// What a decoder in state `d` has learned once it has also read `record`: a
/// `PEER_INDEX_TABLE` replaces the peers and the view name, no other record changes
/// anything.
pub open spec fn after_record(d: DecoderView, record: MrtRecord) -> DecoderView {
    match record_view(record).message {
        MessageView::PeerIndexTable { view_name } => DecoderView {
            table: Some(record_peers(record)),
            view_name: named_view(view_name),
        },
        _ => d,
    }
}

/// The collector name that peer rows carry once `record` has been read.
pub open spec fn collector_after(
    collector: Option<Seq<char>>,
    record: MrtRecord,
) -> Option<Seq<char>> {
    match record_view(record).message {
        MessageView::PeerIndexTable { view_name } => named_view(view_name),
        _ => collector,
    }
}

/// A peer, as it is told apart from others.
pub type PeerKey = (IpAddr, u32);

/// The peers that one record names.
pub open spec fn peers_of(record: MrtRecord) -> Set<PeerKey> {
    match record_view(record).message {
        MessageView::PeerIndexTable { .. } => Set::new(
            |k: PeerKey|
                exists|id: u16| #[trigger]
                    record_peers(record).dom().contains(id) && record_peers(record)[id].peer_ip
                        == k.0 && record_peers(record)[id].peer_asn == k.1,
        ),
        MessageView::StateChange { peer_ip, peer_asn, .. } => set![(peer_ip, peer_asn)],
        MessageView::Message { peer_ip, peer_asn } => set![(peer_ip, peer_asn)],
        MessageView::Other => Set::empty(),
    }
}

/// The key of a peer row.
pub open spec fn key_of(row: PeerRowView) -> PeerKey {
    (row.peer_ip, row.peer_asn)
}

/// Whether `rows` list the peers of one record under the name `collector`: a
/// `PEER_INDEX_TABLE` gives one row per entry, in some order; a BGP4MP record gives
/// the one peer that produced it.
pub open spec fn lists_peers(
    rows: Seq<PeerRowView>,
    record: MrtRecord,
    collector: Option<Seq<char>>,
) -> bool {
    match record_view(record).message {
        MessageView::PeerIndexTable { .. } => exists|list: Seq<(u16, IndexedPeer)>| #[trigger]
            enumerates(list, record_peers(record)) && rows == list.map_values(
                |p: (u16, IndexedPeer)|
                    PeerRowView { peer_ip: p.1.peer_ip, peer_asn: p.1.peer_asn, collector },
            ),
        MessageView::StateChange { peer_ip, peer_asn, .. } => rows == seq![
            PeerRowView { peer_ip, peer_asn, collector },
        ],
        MessageView::Message { peer_ip, peer_asn } => rows == seq![
            PeerRowView { peer_ip, peer_asn, collector },
        ],
        MessageView::Other => rows == Seq::<PeerRowView>::empty(),
    }
}

/// Map one route's parts to an [`MrtRow`].
pub fn route_row(
    parts: RouteParts,
    as_path: Option<Vec<u32>>,
    origin_asn: Option<u32>,
    communities: Option<Vec<String>>,
    view_name: Option<String>,
) -> (row: MrtRow)
    ensures
        row@ == route_view(
            parts,
            path_view(as_path),
            origin_asn,
            texts_view(communities),
            text_view(view_name),
        ),
{
    let msg_type = if parts.withdrawn {
        MsgType::Withdraw
    } else {
        MsgType::Announce
    };
    MrtRow {
        timestamp_us: ts_to_micros(parts.timestamp_bits),
        msg_type: Some(msg_type),
        view_name,
        peer_ip: Some(parts.peer_ip),
        peer_asn: Some(parts.peer_asn),
        prefix: Some((parts.prefix, parts.prefix_len as u16)),
        as_path,
        origin_asn,
        next_hop: parts.next_hop,
        communities,
        med: parts.med,
        local_pref: parts.local_pref,
        atomic_aggregate: parts.atomic,
        aggregator_asn: parts.aggregator_asn,
        old_state: None,
        new_state: None,
        error: None,
    }
}

/// Map one parsed route to an [`MrtRow`].
pub fn row_from_elem(elem: BgpElem, view_name: Option<String>) -> (row: MrtRow)
    ensures
        row@ == elem_row(elem, text_view(view_name)),
{
    let as_path = flat_path(&elem);
    let communities = community_strings(&elem);
    let origin_asn = single_origin(&elem);
    route_row(route_parts(&elem), as_path, origin_asn, communities, view_name)
}

/// The row of one BGP4MP state change. The time is the header's, in microseconds.
pub fn state_change_row(
    timestamp: u32,
    microseconds: Option<u32>,
    peer_ip: IpAddr,
    peer_asn: u32,
    old_state: u16,
    new_state: u16,
    view_name: Option<String>,
) -> (row: MrtRow)
    ensures
        row@ == state_row(
            timestamp,
            microseconds,
            peer_ip,
            peer_asn,
            old_state,
            new_state,
            text_view(view_name),
        ),
{
    let us: u32 = match microseconds {
        Some(us) => us,
        None => 0,
    };
    let mut row = MrtRow::default();
    row.timestamp_us = timestamp as i64 * 1_000_000 + us as i64;
    row.msg_type = Some(MsgType::StateChange);
    row.view_name = view_name;
    row.peer_ip = Some(peer_ip);
    row.peer_asn = Some(peer_asn);
    row.old_state = Some(old_state);
    row.new_state = Some(new_state);
    row
}

/// A view name, unless it is empty.
fn nonempty(name: String) -> (out: Option<String>)
    ensures
        text_view(out) == named_view(name@),
{
    if name.as_str().unicode_len() == 0 {
        None
    } else {
        Some(name)
    }
}

/// Stateful decoder over one MRT stream. Holds the [`Elementor`] (which carries the
/// TABLE_DUMP_V2 peer-index table needed to resolve RIB peer references) plus the
/// current RIB view name, so records must be fed **in order**.
pub struct Decoder {
    elementor: Elementor,
    view_name: Option<String>,
}

impl View for Decoder {
    type V = DecoderView;

    closed spec fn view(&self) -> DecoderView {
        DecoderView { table: peer_table(self.elementor), view_name: text_view(self.view_name) }
    }
}

impl Decoder {
    /// A fresh decoder for one stream.
    pub fn new() -> (decoder: Decoder)
        ensures
            decoder@ == fresh_decoder(),
    {
        Decoder { elementor: new_elementor(), view_name: None }
    }

    /// The current RIB view name (set once a `PEER_INDEX_TABLE` is seen).
    pub fn view_name(&self) -> (name: Option<&str>)
        ensures
            name is Some <==> self@.view_name is Some,
            name is Some ==> name->0@ == self@.view_name->0,
    {
        match &self.view_name {
            Some(name) => Some(name.as_str()),
            None => None,
        }
    }

    /// Decode one parsed record into route / state-change rows. A
    /// `PEER_INDEX_TABLE` produces no rows (it primes the peer table for later RIB
    /// entries and captures the view name).
    pub fn record_rows(&mut self, record: MrtRecord) -> (rows: Vec<MrtRow>)
        ensures
            row_views(rows@) == rows_of(old(self)@, record),
            forall|i: int|
                0 <= i < rows@.len() ==> coherent(#[trigger] rows@[i]@) && names_its_peer(
                    rows@[i]@,
                    old(self)@,
                    record,
                ),
            final(self)@ == after_record(old(self)@, record),
    {
        let parts = record_parts(&record);
        match parts.message {
            Message::PeerIndexTable { view_name } => {
                self.view_name = nonempty(view_name);
                set_peer_table(&mut self.elementor, record);
                let rows: Vec<MrtRow> = Vec::new();
                assert(row_views(rows@) == Seq::<RowView>::empty());
                rows
            },
            Message::StateChange { peer_ip, peer_asn, old_state, new_state } => {
                let row = state_change_row(
                    parts.timestamp,
                    parts.microseconds,
                    peer_ip,
                    peer_asn,
                    old_state,
                    new_state,
                    copy_text(&self.view_name),
                );
                let mut rows: Vec<MrtRow> = Vec::new();
                rows.push(row);
                assert(row_views(rows@) == seq![row@]);
                rows
            },
            _ => {
                let ghost d = self@;
                let elems = record_to_elems(&mut self.elementor, record);
                let mut rows: Vec<MrtRow> = Vec::new();
                let ghost expected = elems@.map_values(|e: BgpElem| elem_row(e, d.view_name));
                for elem in it: elems
                    invariant
                        it.seq() == elems@,
                        expected == elems@.map_values(|e: BgpElem| elem_row(e, d.view_name)),
                        row_views(rows@) == expected.take(it.index()),
                        text_view(self.view_name) == d.view_name,
                        forall|i: int|
                            0 <= i < elems@.len() ==> coherent(
                                elem_row(#[trigger] elems@[i], d.view_name),
                            ) && names_its_peer(elem_row(elems@[i], d.view_name), d, record),
                        forall|i: int|
                            0 <= i < rows@.len() ==> coherent(#[trigger] rows@[i]@)
                                && names_its_peer(rows@[i]@, d, record),
                {
                    let ghost before = rows@;
                    rows.push(row_from_elem(elem, copy_text(&self.view_name)));
                    assert(row_views(rows@) == row_views(before).push(rows@.last()@));
                    assert(expected.take(it.index() + 1) == expected.take(it.index()).push(
                        expected[it.index()],
                    ));
                }
                assert(expected.take(expected.len() as int) == expected);
                rows
            },
        }
    }

    /// Decode one parsed record into peer rows. A `PEER_INDEX_TABLE` yields one row
    /// per indexed peer; a `BGP4MP` message/state-change yields the single peer that
    /// produced it (the caller dedups). Other records yield none.
    pub fn peer_rows(&mut self, record: MrtRecord) -> (rows: Vec<PeerRow>)
        ensures
            lists_peers(
                peer_views(rows@),
                record,
                collector_after(old(self)@.view_name, record),
            ),
            final(self)@ == (DecoderView {
                view_name: collector_after(old(self)@.view_name, record),
                ..old(self)@
            }),
    {
        let parts = record_parts(&record);
        match parts.message {
            Message::PeerIndexTable { view_name } => {
                self.view_name = nonempty(view_name);
                let list = indexed_peers(&record);
                let mut rows: Vec<PeerRow> = Vec::new();
                let ghost name = text_view(self.view_name);
                let ghost expected = list@.map_values(
                    |p: (u16, IndexedPeer)|
                        PeerRowView {
                            peer_ip: p.1.peer_ip,
                            peer_asn: p.1.peer_asn,
                            collector: name,
                        },
                );
                for i in 0..list.len()
                    invariant
                        text_view(self.view_name) == name,
                        expected == list@.map_values(
                            |p: (u16, IndexedPeer)|
                                PeerRowView {
                                    peer_ip: p.1.peer_ip,
                                    peer_asn: p.1.peer_asn,
                                    collector: name,
                                },
                        ),
                        peer_views(rows@) == expected.take(i as int),
                {
                    let ghost before = rows@;
                    rows.push(
                        PeerRow {
                            peer_ip: list[i].1.peer_ip,
                            peer_asn: list[i].1.peer_asn,
                            collector: copy_text(&self.view_name),
                        },
                    );
                    assert(peer_views(rows@) == peer_views(before).push(rows@.last()@));
                    assert(expected.take(i as int + 1) == expected.take(i as int).push(
                        expected[i as int],
                    ));
                }
                assert(expected.take(expected.len() as int) == expected);
                assert(enumerates(list@, record_peers(record)));
                rows
            },
            Message::StateChange { peer_ip, peer_asn, .. } => {
                let mut rows: Vec<PeerRow> = Vec::new();
                rows.push(PeerRow { peer_ip, peer_asn, collector: copy_text(&self.view_name) });
                assert(peer_views(rows@) == seq![rows@[0]@]);
                rows
            },
            Message::Message { peer_ip, peer_asn } => {
                let mut rows: Vec<PeerRow> = Vec::new();
                rows.push(PeerRow { peer_ip, peer_asn, collector: copy_text(&self.view_name) });
                assert(peer_views(rows@) == seq![rows@[0]@]);
                rows
            },
            Message::Other => {
                let rows: Vec<PeerRow> = Vec::new();
                assert(peer_views(rows@) == Seq::<PeerRowView>::empty());
                rows
            },
        }
    }
}

} // verus!
