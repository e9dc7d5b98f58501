//! The MRT parser underneath: what the decoder takes from `bgpkit-parser`.
//!
//! Records, route elements and the peer-index table are opaque here. What the
//! decoder reads of them is handed out as plain values ([`RecordParts`],
//! [`RouteParts`]), each by one call.
use crate::inet::IpAddr;
use bgpkit_parser::models::Bgp4MpEnum;
use bgpkit_parser::models::ElemType;
use bgpkit_parser::models::MrtMessage;
use bgpkit_parser::models::NextHopAddress as Address;
use bgpkit_parser::models::Peer;
use bgpkit_parser::models::TableDumpV2Message as Table;
use bgpkit_parser::BgpElem;
use bgpkit_parser::Elementor;
use bgpkit_parser::MrtRecord;
use std::io::ErrorKind::UnexpectedEof;
use vstd::prelude::*;

verus! {

/// One parsed MRT record.
#[verifier::external_type_specification]
#[verifier::external_body]
pub struct ExMrtRecord(bgpkit_parser::MrtRecord);

/// The peer-index table that resolves the peer references of RIB entries.
#[verifier::external_type_specification]
#[verifier::external_body]
pub struct ExElementor(bgpkit_parser::Elementor);

/// One route of a record.
#[verifier::external_type_specification]
#[verifier::external_body]
pub struct ExBgpElem(bgpkit_parser::BgpElem);

/// What a parse error says of the stream.
#[derive(Debug, Clone, Copy, PartialEq, Eq, Structural)]
pub enum ErrorKind {
    /// The stream failed, or ended inside a record body.
    Io,
    /// The stream ended inside a record header.
    Eof,
    /// The stream ended between records.
    EndOfStream,
    /// The header declares a body over the parser's limit, which was not read.
    Oversized,
    /// The record was read in full and could not be parsed.
    Malformed,
}

/// A failure to parse a record.
#[derive(Debug)]
pub struct ParserError {
    pub kind: ErrorKind,
    /// The failure in words.
    pub message: String,
}

/// A parse failure, with its message as a sequence of characters.
pub struct ErrorView {
    pub kind: ErrorKind,
    pub message: Seq<char>,
}

impl View for ParserError {
    type V = ErrorView;

    open spec fn view(&self) -> ErrorView {
        ErrorView { kind: self.kind, message: self.message@ }
    }
}

/// What parsing one record off the front of some bytes gives: the record or the
/// failure, and how many bytes are left behind it.
pub struct Parsed {
    pub outcome: Result<MrtRecord, ErrorView>,
    pub left: nat,
}

/// What `parse_mrt_record` makes of `bytes`.
pub uninterp spec fn parsed_record(bytes: Seq<u8>) -> Parsed;

/// The number in `n` bytes from `at` on, most significant first.
pub open spec fn be_number(bytes: Seq<u8>, at: int, n: nat) -> nat
    decreases n,
{
    if n == 0 {
        0
    } else {
        be_number(bytes, at, (n - 1) as nat) * 256 + bytes[at + n - 1] as nat
    }
}

/// The length of the MRT common header.
pub const HEADER_LEN: usize = 12;

/// The largest record body that is read.
pub const BODY_MAX: usize = 0x100_0000;

/// The type of a `BGP4MP_ET` record, whose header goes on with four bytes of microseconds.
pub const TYPE_BGP4MP_ET: u16 = 17;

/// The type of a legacy `TABLE_DUMP` record.
pub const TYPE_TABLE_DUMP: u16 = 12;

/// The type that a record's header declares.
pub open spec fn declared_type(bytes: Seq<u8>) -> nat {
    be_number(bytes, 4, 2)
}

/// How many bytes behind its common header a record's header declares.
pub open spec fn declared_len(bytes: Seq<u8>) -> nat {
    be_number(bytes, 8, 4)
}

/// The length of a record's header.
pub open spec fn header_len(bytes: Seq<u8>) -> nat {
    if declared_type(bytes) == TYPE_BGP4MP_ET && declared_len(bytes) >= 4 {
        16
    } else {
        12
    }
}

/// How far a record at the front of some bytes reaches.
pub enum Frame {
    /// There are no bytes.
    Nothing,
    /// The bytes end inside the header.
    TornHeader,
    /// The header, of this length, declares a body over the limit.
    Oversized(nat),
    /// The bytes end inside the body.
    TornBody,
    /// The record takes this many bytes.
    Whole(nat),
}

/// How far the record at the front of `bytes` reaches: records are self-delimiting.
pub open spec fn frame(bytes: Seq<u8>) -> Frame {
    if bytes.len() == 0 {
        Frame::Nothing
    } else if bytes.len() < HEADER_LEN || bytes.len() < header_len(bytes) {
        Frame::TornHeader
    } else if HEADER_LEN + declared_len(bytes) > header_len(bytes) + BODY_MAX {
        Frame::Oversized(header_len(bytes))
    } else if bytes.len() < HEADER_LEN + declared_len(bytes) {
        Frame::TornBody
    } else {
        Frame::Whole(HEADER_LEN as nat + declared_len(bytes))
    }
}

/// Whether an outcome, with `left` bytes left behind it, is that of a record read in full
/// that took `n` bytes.
pub open spec fn took(
    outcome: Result<MrtRecord, ErrorView>,
    left: nat,
    bytes: Seq<u8>,
    n: nat,
) -> bool {
    &&& outcome is Err ==> outcome->Err_0.kind == ErrorKind::Malformed
    &&& n + left == bytes.len()
}

/// Whether an outcome, with `left` bytes left behind it, is a failure of a kind.
pub open spec fn failed_with(
    outcome: Result<MrtRecord, ErrorView>,
    left: nat,
    kind: ErrorKind,
    remain: nat,
) -> bool {
    outcome is Err && outcome->Err_0.kind == kind && left == remain
}

/// Whether an outcome, with `left` bytes left behind it, respects the framing of `bytes`. A
/// record that is whole is read in full, parsed or not, and what is left starts right
/// behind it. A legacy `TABLE_DUMP` record may turn out to be four bytes longer than it
/// declares.
pub open spec fn respects_frame(
    outcome: Result<MrtRecord, ErrorView>,
    left: nat,
    bytes: Seq<u8>,
) -> bool {
    match frame(bytes) {
        Frame::Nothing => failed_with(outcome, left, ErrorKind::EndOfStream, 0),
        Frame::TornHeader => failed_with(outcome, left, ErrorKind::Eof, 0),
        Frame::Oversized(n) => failed_with(
            outcome,
            left,
            ErrorKind::Oversized,
            (bytes.len() - n) as nat,
        ),
        Frame::TornBody => failed_with(outcome, left, ErrorKind::Io, 0),
        Frame::Whole(n) => {
            ||| took(outcome, left, bytes, n)
            ||| declared_type(bytes) == TYPE_TABLE_DUMP && {
                ||| took(outcome, left, bytes, n + 4)
                ||| bytes.len() < n + 4 && failed_with(outcome, left, ErrorKind::Io, 0)
            }
        },
    }
}

/// A result of the parser, by its view.
pub open spec fn outcome_view(
    outcome: Result<MrtRecord, ParserError>,
) -> Result<MrtRecord, ErrorView> {
    match outcome {
        Ok(record) => Ok(record),
        Err(e) => Err(e@),
    }
}

/// `bgpkit_parser::parser::mrt::parse_mrt_record` over a byte slice. The outcome and the
/// bytes it leaves depend on `bytes` alone, and respect the framing that the header
/// declares. An `IoError` other than an unexpected end comes from inside a body that was
/// read in full, and counts as a malformed record.
#[verifier::external_body]
pub(crate) fn parse_record(bytes: &[u8]) -> (out: (Result<MrtRecord, ParserError>, usize))
    ensures
        outcome_view(out.0) == parsed_record(bytes@).outcome,
        out.1 == parsed_record(bytes@).left,
        respects_frame(outcome_view(out.0), out.1 as nat, bytes@),
{
    let mut rest = bytes;
    let parsed = bgpkit_parser::parser::mrt::parse_mrt_record(&mut rest);
    let outcome = parsed.map_err(|e| ParserError {
        message: e.error.to_string(),
        kind: match e.error {
            bgpkit_parser::ParserError::IoError(e) if e.kind() == UnexpectedEof => ErrorKind::Io,
            bgpkit_parser::ParserError::EofError(_) => ErrorKind::Eof,
            bgpkit_parser::ParserError::EofExpected => ErrorKind::EndOfStream,
            bgpkit_parser::ParserError::OversizedRecord { .. } => ErrorKind::Oversized,
            _ => ErrorKind::Malformed,
        },
    });
    (outcome, rest.len())
}

/// What a record reports, as far as the decoder tells records apart.
#[derive(Debug)]
pub enum Message {
    /// A TABLE_DUMP_V2 `PEER_INDEX_TABLE`, with its view name.
    PeerIndexTable { view_name: String },
    /// A BGP4MP state change of one peer.
    StateChange { peer_ip: IpAddr, peer_asn: u32, old_state: u16, new_state: u16 },
    /// A BGP4MP message of one peer.
    Message { peer_ip: IpAddr, peer_asn: u32 },
    /// Any other record.
    Other,
}

/// What the decoder reads of a record itself.
#[derive(Debug)]
pub struct RecordParts {
    /// The header's timestamp, in seconds.
    pub timestamp: u32,
    /// The header's microseconds, where it has them.
    pub microseconds: Option<u32>,
    pub message: Message,
}

/// A [`Message`], with its text as a sequence of characters.
pub enum MessageView {
    PeerIndexTable { view_name: Seq<char> },
    StateChange { peer_ip: IpAddr, peer_asn: u32, old_state: u16, new_state: u16 },
    Message { peer_ip: IpAddr, peer_asn: u32 },
    Other,
}

/// [`RecordParts`], with their text as a sequence of characters.
pub struct RecordView {
    pub timestamp: u32,
    pub microseconds: Option<u32>,
    pub message: MessageView,
}

impl View for Message {
    type V = MessageView;

    open spec fn view(&self) -> MessageView {
        match *self {
            Message::PeerIndexTable { view_name } => MessageView::PeerIndexTable {
                view_name: view_name@,
            },
            Message::StateChange { peer_ip, peer_asn, old_state, new_state } => {
                MessageView::StateChange { peer_ip, peer_asn, old_state, new_state }
            },
            Message::Message { peer_ip, peer_asn } => MessageView::Message { peer_ip, peer_asn },
            Message::Other => MessageView::Other,
        }
    }
}

impl View for RecordParts {
    type V = RecordView;

    open spec fn view(&self) -> RecordView {
        RecordView {
            timestamp: self.timestamp,
            microseconds: self.microseconds,
            message: self.message@,
        }
    }
}

/// What a record is, without its peer.
#[derive(Debug)]
pub enum Body {
    PeerIndexTable { view_name: String },
    /// TABLE_DUMP_V2 RIB entries of one prefix, which refer to the peer-index table.
    Rib,
    StateChange { old_state: u16, new_state: u16 },
    Message,
    Other,
}

/// A [`Body`], with its text as a sequence of characters.
pub enum BodyView {
    PeerIndexTable { view_name: Seq<char> },
    Rib,
    StateChange { old_state: u16, new_state: u16 },
    Message,
    Other,
}

impl View for Body {
    type V = BodyView;

    open spec fn view(&self) -> BodyView {
        match *self {
            Body::PeerIndexTable { view_name } => BodyView::PeerIndexTable { view_name: view_name@ },
            Body::Rib => BodyView::Rib,
            Body::StateChange { old_state, new_state } => BodyView::StateChange {
                old_state,
                new_state,
            },
            Body::Message => BodyView::Message,
            Body::Other => BodyView::Other,
        }
    }
}

/// What a record is, without its peer.
pub uninterp spec fn record_body(record: MrtRecord) -> BodyView;

/// Tell by its public fields what a [`MrtRecord`] is.
#[verifier::external_body]
fn body_of(record: &MrtRecord) -> (body: Body)
    ensures
        body@ == record_body(*record),
{
    match &record.message {
        MrtMessage::TableDumpV2Message(Table::PeerIndexTable(t)) => {
            Body::PeerIndexTable { view_name: t.view_name.clone() }
        },
        MrtMessage::TableDumpV2Message(Table::RibAfi(_)) => Body::Rib,
        MrtMessage::Bgp4Mp(Bgp4MpEnum::StateChange(c)) => {
            Body::StateChange { old_state: c.old_state.into(), new_state: c.new_state.into() }
        },
        MrtMessage::Bgp4Mp(Bgp4MpEnum::Message(_)) => Body::Message,
        _ => Body::Other,
    }
}

/// The timestamp of a record's header: seconds, and microseconds where it has them.
pub uninterp spec fn record_time(record: MrtRecord) -> (u32, Option<u32>);

/// Hand out the timestamp in the header of a [`MrtRecord`].
#[verifier::external_body]
fn time_of(record: &MrtRecord) -> (time: (u32, Option<u32>))
    ensures
        time == record_time(*record),
{
    (record.common_header.timestamp, record.common_header.microsecond_timestamp)
}

/// The peer of a BGP4MP record.
pub uninterp spec fn record_peer(record: MrtRecord) -> Option<(IpAddr, u32)>;

/// Hand out the peer in the public fields of a BGP4MP [`MrtRecord`], and of no other.
#[verifier::external_body]
fn peer_of(record: &MrtRecord) -> (peer: Option<(IpAddr, u32)>)
    ensures
        peer == record_peer(*record),
        peer is Some <==> record_body(*record) is StateChange || record_body(*record) is Message,
{
    let ip = |a| match Address::from(a) {
        Address::Ipv4(v) => IpAddr::V4(v.into()),
        Address::Ipv6(v) | Address::Ipv6LinkLocal(v, _) => IpAddr::V6(v.into()),
        Address::VpnIpv6(_, v) | Address::VpnIpv6LinkLocal(_, v, _, _) => IpAddr::V6(v.into()),
    };
    match &record.message {
        MrtMessage::Bgp4Mp(Bgp4MpEnum::StateChange(c)) => Some((ip(c.peer_ip), c.peer_asn.into())),
        MrtMessage::Bgp4Mp(Bgp4MpEnum::Message(m)) => Some((ip(m.peer_ip), m.peer_asn.into())),
        _ => None,
    }
}

/// What a record reports.
pub open spec fn message_of(body: BodyView, peer: Option<(IpAddr, u32)>) -> MessageView {
    match (body, peer) {
        (BodyView::PeerIndexTable { view_name }, _) => MessageView::PeerIndexTable { view_name },
        (BodyView::StateChange { old_state, new_state }, Some((peer_ip, peer_asn))) => {
            MessageView::StateChange { peer_ip, peer_asn, old_state, new_state }
        },
        (BodyView::Message, Some((peer_ip, peer_asn))) => MessageView::Message {
            peer_ip,
            peer_asn,
        },
        _ => MessageView::Other,
    }
}

/// The parts of a record.
pub open spec fn record_view(record: MrtRecord) -> RecordView {
    RecordView {
        timestamp: record_time(record).0,
        microseconds: record_time(record).1,
        message: message_of(record_body(record), record_peer(record)),
    }
}

/// Hand out the parts of a record as plain values.
pub fn record_parts(record: &MrtRecord) -> (parts: RecordParts)
    ensures
        parts@ == record_view(*record),
{
    let (timestamp, microseconds) = time_of(record);
    let message = match (body_of(record), peer_of(record)) {
        (Body::PeerIndexTable { view_name }, _) => Message::PeerIndexTable { view_name },
        (Body::StateChange { old_state, new_state }, Some((peer_ip, peer_asn))) => {
            Message::StateChange { peer_ip, peer_asn, old_state, new_state }
        },
        (Body::Message, Some((peer_ip, peer_asn))) => Message::Message { peer_ip, peer_asn },
        _ => Message::Other,
    };
    RecordParts { timestamp, microseconds, message }
}

/// One peer of a peer-index table.
#[derive(Debug, Clone, Copy, PartialEq, Eq, Structural)]
pub struct IndexedPeer {
    pub peer_ip: IpAddr,
    pub peer_asn: u32,
    /// The peer's BGP identifier.
    pub bgp_id: u32,
}

/// The peers that a `PEER_INDEX_TABLE` record lists, by index. Other records list
/// none.
pub uninterp spec fn record_peers(record: MrtRecord) -> Map<u16, IndexedPeer>;

/// Whether `list` holds every entry of `table` once, in some order.
pub open spec fn enumerates(list: Seq<(u16, IndexedPeer)>, table: Map<u16, IndexedPeer>) -> bool {
    &&& forall|i: int|
        0 <= i < list.len() ==> table.dom().contains(#[trigger] list[i].0) && table[list[i].0]
            == list[i].1
    &&& forall|i: int, j: int|
        0 <= i < j < list.len() ==> #[trigger] list[i].0 != #[trigger] list[j].0
    &&& forall|id: u16| #[trigger]
        table.dom().contains(id) ==> exists|i: int| 0 <= i < list.len() && #[trigger] list[i].0 == id
}

/// Hand out the `id_peer_map` of a `PEER_INDEX_TABLE` record, entry by entry. The
/// map is hashed, so the order of the entries is left open.
#[verifier::external_body]
pub(crate) fn indexed_peers(record: &MrtRecord) -> (peers: Vec<(u16, IndexedPeer)>)
    ensures
        enumerates(peers@, record_peers(*record)),
{
    let ip = |a| match Address::from(a) {
        Address::Ipv4(v) => IpAddr::V4(v.into()),
        Address::Ipv6(v) | Address::Ipv6LinkLocal(v, _) => IpAddr::V6(v.into()),
        Address::VpnIpv6(_, v) | Address::VpnIpv6LinkLocal(_, v, _, _) => IpAddr::V6(v.into()),
    };
    let MrtMessage::TableDumpV2Message(Table::PeerIndexTable(t)) = &record.message else {
        return Vec::new();
    };
    let peer = |p: &Peer| IndexedPeer {
        peer_ip: ip(p.peer_ip),
        peer_asn: p.peer_asn.into(),
        bgp_id: p.peer_bgp_id.into(),
    };
    t.id_peer_map.iter().map(|(id, p)| (*id, peer(p))).collect()
}

/// The peers that an [`Elementor`] resolves references against, once it has a
/// table.
pub uninterp spec fn peer_table(elementor: Elementor) -> Option<Map<u16, IndexedPeer>>;

/// `Elementor::new`: no peer table yet.
#[verifier::external_body]
pub(crate) fn new_elementor() -> (elementor: Elementor)
    ensures
        peer_table(elementor) is None,
{
    Elementor::new()
}

/// `Elementor::set_peer_table`, its result discarded: a `PEER_INDEX_TABLE` record
/// replaces the table, any other record leaves it as it is.
#[verifier::external_body]
pub(crate) fn set_peer_table(elementor: &mut Elementor, record: MrtRecord)
    ensures
        record_view(record).message is PeerIndexTable ==> peer_table(*final(elementor)) == Some(
            record_peers(record),
        ),
        !(record_view(record).message is PeerIndexTable) ==> peer_table(*final(elementor))
            == peer_table(*old(elementor)),
{
    let _ = elementor.set_peer_table(record);
}

/// The routes of a record, resolved against a peer table.
pub uninterp spec fn record_elems(
    table: Option<Map<u16, IndexedPeer>>,
    record: MrtRecord,
) -> Seq<BgpElem>;

/// Whether a route was reported by one of the peers of a table.
pub open spec fn is_from_table(parts: RouteParts, table: Option<Map<u16, IndexedPeer>>) -> bool {
    table is Some && exists|id: u16| #[trigger]
        table->0.dom().contains(id) && table->0[id].peer_ip == parts.peer_ip
            && table->0[id].peer_asn == parts.peer_asn
}

/// Whether a route was reported by who its record says: a route of RIB entries by a peer of
/// the table, a route of a BGP4MP message by the peer that sent it.
pub open spec fn is_from_its_peer(
    parts: RouteParts,
    table: Option<Map<u16, IndexedPeer>>,
    record: MrtRecord,
) -> bool {
    &&& record_body(record) is Rib ==> is_from_table(parts, table)
    &&& record_body(record) is Message ==> record_peer(record) == Some(
        (parts.peer_ip, parts.peer_asn),
    )
}

/// `Elementor::record_to_elems`: the routes of a record, which depend on the
/// record and on the peers of the table alone. The table stays as it is unless the
/// record is a `PEER_INDEX_TABLE`. A route's peer is the one that its record names. Where a route has a flat AS path and one origin
/// AS, the origin is the path's last AS; a withdrawal carries no path, no origin,
/// no next hop and no communities.
#[verifier::external_body]
pub(crate) fn record_to_elems(elementor: &mut Elementor, record: MrtRecord) -> (elems: Vec<BgpElem>)
    ensures
        elems@ == record_elems(peer_table(*old(elementor)), record),
        !(record_view(record).message is PeerIndexTable) ==> peer_table(*final(elementor))
            == peer_table(*old(elementor)),
        forall|i: int|
            0 <= i < elems@.len() ==> is_from_its_peer(
                elem_route(#[trigger] elems@[i]),
                peer_table(*old(elementor)),
                record,
            ),
        forall|i: int|
            0 <= i < elems@.len() && elem_path(#[trigger] elems@[i]) is Some && elem_origin(
                elems@[i],
            ) is Some ==> elem_path(elems@[i])->0.len() > 0 && elem_path(elems@[i])->0.last()
                == elem_origin(elems@[i])->0,
        forall|i: int|
            0 <= i < elems@.len() && elem_route(#[trigger] elems@[i]).withdrawn ==> elem_path(
                elems@[i],
            ) is None && elem_origin(elems@[i]) is None && elem_communities(elems@[i]) is None
                && elem_route(elems@[i]).next_hop is None,
{
    elementor.record_to_elems(record)
}

/// The fields of a route that are plain values.
#[derive(Debug, Clone, Copy, PartialEq, Eq, Structural)]
pub struct RouteParts {
    /// The route's time in seconds, as the bits of a 64-bit floating-point number.
    pub timestamp_bits: u64,
    /// Whether the prefix was withdrawn, not announced.
    pub withdrawn: bool,
    pub peer_ip: IpAddr,
    pub peer_asn: u32,
    pub prefix: IpAddr,
    pub prefix_len: u8,
    pub next_hop: Option<IpAddr>,
    pub med: Option<u32>,
    pub local_pref: Option<u32>,
    pub atomic: bool,
    pub aggregator_asn: Option<u32>,
}

/// The addresses of a route: its peer's, its prefix's and its next hop's.
#[derive(Debug, Clone, Copy, PartialEq, Eq, Structural)]
pub struct RouteAddresses {
    pub peer_ip: IpAddr,
    pub prefix: IpAddr,
    pub next_hop: Option<IpAddr>,
}

/// The addresses of a route.
pub uninterp spec fn elem_addresses(elem: BgpElem) -> RouteAddresses;

/// Hand out the addresses in the public fields of a [`BgpElem`].
#[verifier::external_body]
fn addresses_of(elem: &BgpElem) -> (addresses: RouteAddresses)
    ensures
        addresses == elem_addresses(*elem),
{
    let ip = |a| match Address::from(a) {
        Address::Ipv4(v) => IpAddr::V4(v.into()),
        Address::Ipv6(v) | Address::Ipv6LinkLocal(v, _) => IpAddr::V6(v.into()),
        Address::VpnIpv6(_, v) | Address::VpnIpv6LinkLocal(_, v, _, _) => IpAddr::V6(v.into()),
    };
    RouteAddresses {
        peer_ip: ip(elem.peer_ip),
        prefix: ip(elem.prefix.prefix.addr()),
        next_hop: elem.next_hop.map(ip),
    }
}

/// The numbers and flags of a route.
#[derive(Debug, Clone, Copy, PartialEq, Eq, Structural)]
pub struct RouteNumbers {
    pub timestamp_bits: u64,
    pub withdrawn: bool,
    pub peer_asn: u32,
    pub prefix_len: u8,
    pub med: Option<u32>,
    pub local_pref: Option<u32>,
    pub atomic: bool,
    pub aggregator_asn: Option<u32>,
}

/// The numbers and flags of a route.
pub uninterp spec fn elem_numbers(elem: BgpElem) -> RouteNumbers;

/// Hand out the numbers and flags in the public fields of a [`BgpElem`].
#[verifier::external_body]
fn numbers_of(elem: &BgpElem) -> (numbers: RouteNumbers)
    ensures
        numbers == elem_numbers(*elem),
{
    RouteNumbers {
        timestamp_bits: elem.timestamp.to_bits(),
        withdrawn: matches!(elem.elem_type, ElemType::WITHDRAW),
        peer_asn: elem.peer_asn.into(),
        prefix_len: elem.prefix.prefix.prefix_len(),
        med: elem.med,
        local_pref: elem.local_pref,
        atomic: elem.atomic,
        aggregator_asn: elem.aggr_asn.map(|a| a.into()),
    }
}

/// The plain fields of a route.
pub open spec fn elem_route(elem: BgpElem) -> RouteParts {
    let a = elem_addresses(elem);
    let n = elem_numbers(elem);
    RouteParts {
        timestamp_bits: n.timestamp_bits,
        withdrawn: n.withdrawn,
        peer_ip: a.peer_ip,
        peer_asn: n.peer_asn,
        prefix: a.prefix,
        prefix_len: n.prefix_len,
        next_hop: a.next_hop,
        med: n.med,
        local_pref: n.local_pref,
        atomic: n.atomic,
        aggregator_asn: n.aggregator_asn,
    }
}

/// Hand out the plain fields of a route.
pub fn route_parts(elem: &BgpElem) -> (parts: RouteParts)
    ensures
        parts == elem_route(*elem),
{
    let a = addresses_of(elem);
    let n = numbers_of(elem);
    RouteParts {
        timestamp_bits: n.timestamp_bits,
        withdrawn: n.withdrawn,
        peer_ip: a.peer_ip,
        peer_asn: n.peer_asn,
        prefix: a.prefix,
        prefix_len: n.prefix_len,
        next_hop: a.next_hop,
        med: n.med,
        local_pref: n.local_pref,
        atomic: n.atomic,
        aggregator_asn: n.aggregator_asn,
    }
}

/// The AS path of a route as a flat list of ASNs, where it is one.
pub uninterp spec fn elem_path(elem: BgpElem) -> Option<Seq<u32>>;

/// An optional list of numbers, by its view.
pub open spec fn path_view(path: Option<Vec<u32>>) -> Option<Seq<u32>> {
    match path {
        Some(p) => Some(p@),
        None => None,
    }
}

/// `AsPath::to_u32_vec_opt` without de-duplication, on the route's AS path: the
/// path as a list of ASNs, origin last, where it is a simple sequence.
#[verifier::external_body]
pub(crate) fn flat_path(elem: &BgpElem) -> (path: Option<Vec<u32>>)
    ensures
        path_view(path) == elem_path(*elem),
{
    elem.as_path.as_ref().and_then(|p| p.to_u32_vec_opt(false))
}

/// The single origin AS of a route, where it has one.
pub uninterp spec fn elem_origin(elem: BgpElem) -> Option<u32>;

/// `BgpElem::get_origin_asn_opt`: the origin AS of a route that has exactly one.
#[verifier::external_body]
pub(crate) fn single_origin(elem: &BgpElem) -> (origin: Option<u32>)
    ensures
        origin == elem_origin(*elem),
{
    elem.get_origin_asn_opt()
}

/// The communities of a route, each as its canonical string.
pub uninterp spec fn elem_communities(elem: BgpElem) -> Option<Seq<Seq<char>>>;

/// The views of a list of strings.
pub open spec fn string_views(list: Seq<String>) -> Seq<Seq<char>> {
    list.map_values(|s: String| s@)
}

/// An optional list of strings, by its views.
pub open spec fn texts_view(texts: Option<Vec<String>>) -> Option<Seq<Seq<char>>> {
    match texts {
        Some(t) => Some(string_views(t@)),
        None => None,
    }
}

/// `MetaCommunity::to_string` on each community of a route.
#[verifier::external_body]
pub(crate) fn community_strings(elem: &BgpElem) -> (texts: Option<Vec<String>>)
    ensures
        texts_view(texts) == elem_communities(*elem),
{
    elem.communities.as_ref().map(|cs| cs.iter().map(|c| c.to_string()).collect())
}

} // verus!
