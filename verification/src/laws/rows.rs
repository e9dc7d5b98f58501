//! Laws of the decoder: what a row holds of the record it comes from.
use crate::decode::after_record;
use crate::decode::blank_row;
use crate::decode::collector_after;
use crate::decode::failure_row;
use crate::decode::label_of;
use crate::decode::lists_peers;
use crate::decode::next_of;
use crate::decode::rows_of;
use crate::decode::settled;
use crate::decode::used;
use crate::decode::DecoderView;
use crate::decode::MsgType;
use crate::decode::Next;
use crate::decode::PeerRowView;
use crate::mrt::elem_addresses;
use crate::mrt::elem_communities;
use crate::mrt::elem_numbers;
use crate::mrt::elem_origin;
use crate::mrt::elem_path;
use crate::mrt::enumerates;
use crate::mrt::parsed_record;
use crate::mrt::record_body;
use crate::mrt::record_elems;
use crate::mrt::record_peer;
use crate::mrt::record_peers;
use crate::mrt::record_time;
use crate::mrt::BodyView;
use crate::mrt::ErrorKind;
use crate::mrt::ErrorView;
use crate::mrt::IndexedPeer;
use crate::stream::FaultView;
use crate::time::micros;
use bgpkit_parser::MrtRecord;
use vstd::prelude::*;

verus! {

/// The rows of a record of routes are its routes, one by one and in order, and each holds what
/// the parser gives for that route: the network address with the route's own prefix length,
/// who reported it, where it leads, its path, and its attributes.
pub proof fn routes_keep_their_values(d: DecoderView, record: MrtRecord, i: int)
    requires
        !(record_body(record) is PeerIndexTable),
        !(record_body(record) is StateChange),
        0 <= i < record_elems(d.table, record).len(),
    ensures
        rows_of(d, record).len() == record_elems(d.table, record).len(),
        ({
            let route = record_elems(d.table, record)[i];
            let row = rows_of(d, record)[i];
            &&& row.prefix is Some
            &&& (row.prefix->0).0 == elem_addresses(route).prefix
            &&& (row.prefix->0).1 == elem_numbers(route).prefix_len
            &&& row.peer_ip == Some(elem_addresses(route).peer_ip)
            &&& row.peer_asn == Some(elem_numbers(route).peer_asn)
            &&& row.next_hop == elem_addresses(route).next_hop
            &&& row.as_path == elem_path(route)
            &&& row.origin_asn == elem_origin(route)
            &&& row.communities == elem_communities(route)
            &&& row.med == elem_numbers(route).med
            &&& row.local_pref == elem_numbers(route).local_pref
            &&& row.atomic_aggregate == elem_numbers(route).atomic
            &&& row.aggregator_asn == elem_numbers(route).aggregator_asn
            &&& row.timestamp_us == micros(elem_numbers(route).timestamp_bits)
            &&& row.view_name == d.view_name
            &&& elem_numbers(route).withdrawn ==> row.msg_type == Some(MsgType::Withdraw)
            &&& !elem_numbers(route).withdrawn ==> row.msg_type == Some(MsgType::Announce)
            &&& row.old_state is None && row.new_state is None && row.error is None
        }),
{
}

/// Routes to different networks, or to networks of different sizes, are told apart by their
/// rows' prefixes.
pub proof fn different_prefixes_stay_different(
    d: DecoderView,
    first: MrtRecord,
    i: int,
    e: DecoderView,
    second: MrtRecord,
    j: int,
)
    requires
        !(record_body(first) is PeerIndexTable),
        !(record_body(first) is StateChange),
        !(record_body(second) is PeerIndexTable),
        !(record_body(second) is StateChange),
        0 <= i < record_elems(d.table, first).len(),
        0 <= j < record_elems(e.table, second).len(),
    ensures
        ({
            let a = record_elems(d.table, first)[i];
            let b = record_elems(e.table, second)[j];
            rows_of(d, first)[i].prefix == rows_of(e, second)[j].prefix
                <==> elem_addresses(a).prefix == elem_addresses(b).prefix && elem_numbers(
                a,
            ).prefix_len == elem_numbers(b).prefix_len
        }),
{
    routes_keep_their_values(d, first, i);
    routes_keep_their_values(e, second, j);
}

/// A state change is one row: when it happened to the microsecond, which peer, from which state
/// and to which, and nothing of a route.
pub proof fn state_changes_keep_their_values(d: DecoderView, record: MrtRecord)
    requires
        record_body(record) is StateChange,
        record_peer(record) is Some,
    ensures
        rows_of(d, record).len() == 1,
        ({
            let row = rows_of(d, record)[0];
            let time = record_time(record);
            &&& row.msg_type == Some(MsgType::StateChange)
            &&& row.peer_ip == Some((record_peer(record)->0).0)
            &&& row.peer_asn == Some((record_peer(record)->0).1)
            &&& row.old_state == Some(record_body(record)->StateChange_old_state)
            &&& row.new_state == Some(record_body(record)->StateChange_new_state)
            &&& time.1 is None ==> row.timestamp_us == time.0 * 1_000_000
            &&& time.1 is Some ==> row.timestamp_us - time.1->0 == time.0 * 1_000_000
            &&& row.view_name == d.view_name
            &&& row.prefix is None && row.as_path is None && row.origin_asn is None
            &&& row.next_hop is None && row.communities is None && row.med is None
            &&& row.local_pref is None && row.aggregator_asn is None && !row.atomic_aggregate
            &&& row.error is None
        }),
{
}

/// A peer-index table gives no rows. It, and nothing else, sets the peers that later routes
/// refer to and the view name that later rows carry: the table's own, an empty name being none.
pub proof fn only_peer_tables_are_remembered(d: DecoderView, record: MrtRecord)
    ensures
        record_body(record) is PeerIndexTable ==> rows_of(d, record).len() == 0,
        record_body(record) is PeerIndexTable ==> after_record(d, record).table == Some(
            record_peers(record),
        ),
        record_body(record) matches BodyView::PeerIndexTable { view_name } ==> (view_name.len() > 0
            ==> after_record(d, record).view_name == Some(view_name)),
        record_body(record) matches BodyView::PeerIndexTable { view_name } ==> (view_name.len()
            == 0 ==> after_record(d, record).view_name is None),
        !(record_body(record) is PeerIndexTable) ==> after_record(d, record) == d,
{
}

/// The rows behind a table carry the table's view name, and its peers are those that routes
/// resolve against, until the next table.
pub proof fn view_names_reach_later_rows(d: DecoderView, table: MrtRecord, record: MrtRecord, i: int)
    requires
        record_body(table) is PeerIndexTable,
        record_body(table)->PeerIndexTable_view_name.len() > 0,
        !(record_body(record) is PeerIndexTable),
        0 <= i < rows_of(after_record(d, table), record).len(),
    ensures
        rows_of(after_record(d, table), record)[i].view_name == Some(
            record_body(table)->PeerIndexTable_view_name,
        ),
        !(record_body(record) is StateChange) ==> rows_of(after_record(d, table), record).len()
            == record_elems(Some(record_peers(table)), record).len(),
{
}

/// An error row holds its message and nothing else.
pub proof fn error_rows_hold_only_their_message(message: Seq<char>)
    ensures
        failure_row(message).error == Some(message),
        failure_row(message).timestamp_us == 0,
        failure_row(message).msg_type is None,
        failure_row(message).view_name is None,
        failure_row(message).peer_ip is None,
        failure_row(message).peer_asn is None,
        failure_row(message).prefix is None,
        failure_row(message).as_path is None,
        failure_row(message).origin_asn is None,
        failure_row(message).next_hop is None,
        failure_row(message).communities is None,
        failure_row(message).med is None,
        failure_row(message).local_pref is None,
        !failure_row(message).atomic_aggregate,
        failure_row(message).aggregator_asn is None,
        failure_row(message).old_state is None,
        failure_row(message).new_state is None,
        blank_row().error is None,
{
}

/// The words of the `message_type` column.
pub proof fn kinds_have_their_words()
    ensures
        label_of(MsgType::Announce) == "announce"@,
        label_of(MsgType::Withdraw) == "withdraw"@,
        label_of(MsgType::StateChange) == "state_change"@,
{
}

/// A BGP4MP record lists the peer that it names, alone and under the collector in force.
pub proof fn messages_list_their_peer(
    rows: Seq<PeerRowView>,
    record: MrtRecord,
    collector: Option<Seq<char>>,
)
    requires
        record_body(record) is StateChange || record_body(record) is Message,
        record_peer(record) is Some,
        lists_peers(rows, record, collector),
    ensures
        rows.len() == 1,
        rows[0].peer_ip == (record_peer(record)->0).0,
        rows[0].peer_asn == (record_peer(record)->0).1,
        rows[0].collector == collector,
{
}

/// A peer-index table lists each of its entries, no more rows than entries, and under the
/// collector in force.
pub proof fn tables_list_their_peers(
    rows: Seq<PeerRowView>,
    record: MrtRecord,
    collector: Option<Seq<char>>,
)
    requires
        record_body(record) is PeerIndexTable,
        lists_peers(rows, record, collector),
    ensures
        forall|id: u16| #[trigger]
            record_peers(record).dom().contains(id) ==> exists|i: int|
                0 <= i < rows.len() && (#[trigger] rows[i]).peer_ip == record_peers(
                    record,
                )[id].peer_ip && rows[i].peer_asn == record_peers(record)[id].peer_asn,
        forall|i: int|
            0 <= i < rows.len() ==> (#[trigger] rows[i]).collector == collector && exists|id: u16|
                #[trigger]
                record_peers(record).dom().contains(id) && record_peers(record)[id].peer_ip
                    == rows[i].peer_ip && record_peers(record)[id].peer_asn == rows[i].peer_asn,
{
    let table = record_peers(record);
    let list = choose|list: Seq<(u16, IndexedPeer)>| #[trigger]
        enumerates(list, table) && rows == list.map_values(
            |p: (u16, IndexedPeer)|
                PeerRowView { peer_ip: p.1.peer_ip, peer_asn: p.1.peer_asn, collector },
        );
    assert forall|id: u16| #[trigger] table.dom().contains(id) implies exists|i: int|
        0 <= i < rows.len() && (#[trigger] rows[i]).peer_ip == table[id].peer_ip && rows[i].peer_asn
            == table[id].peer_asn by {
        let i = choose|i: int| 0 <= i < list.len() && #[trigger] list[i].0 == id;
        assert(rows[i].peer_ip == table[id].peer_ip);
    }
    assert forall|i: int| 0 <= i < rows.len() implies (#[trigger] rows[i]).collector == collector
        && exists|id: u16| #[trigger]
        table.dom().contains(id) && table[id].peer_ip == rows[i].peer_ip && table[id].peer_asn
            == rows[i].peer_asn by {
        assert(table.dom().contains(list[i].0));
    }
}

/// Any other record lists no peer.
pub proof fn other_records_list_no_peer(
    rows: Seq<PeerRowView>,
    record: MrtRecord,
    collector: Option<Seq<char>>,
)
    requires
        record_body(record) is Rib || record_body(record) is Other,
        lists_peers(rows, record, collector),
    ensures
        rows.len() == 0,
{
}

/// Peers are listed under the view name of the last peer-index table, an empty name being none;
/// before one there is no name.
pub proof fn collectors_are_view_names(collector: Option<Seq<char>>, record: MrtRecord)
    ensures
        record_body(record) matches BodyView::PeerIndexTable { view_name } ==> (view_name.len() > 0
            ==> collector_after(collector, record) == Some(view_name)),
        record_body(record) matches BodyView::PeerIndexTable { view_name } ==> (view_name.len()
            == 0 ==> collector_after(collector, record) is None),
        !(record_body(record) is PeerIndexTable) ==> collector_after(collector, record)
            == collector,
{
}

/// A record that was read is handed out, whatever stands behind it; and where nothing is wrong
/// behind the bytes, the parser's word counts: the end between two records is the end, and any
/// other failure is reported as it is.
pub proof fn the_parser_decides_on_its_bytes(
    outcome: Result<MrtRecord, ErrorView>,
    fault: Option<FaultView>,
)
    ensures
        outcome is Ok ==> settled(outcome, fault) == Next::Record(outcome->Ok_0),
        outcome is Err && fault is None && outcome->Err_0.kind == ErrorKind::EndOfStream ==> settled(
            outcome,
            fault,
        ) is End,
        outcome is Err && fault is None && outcome->Err_0.kind != ErrorKind::EndOfStream ==> settled(
            outcome,
            fault,
        ) == Next::Failure(outcome->Err_0),
        outcome is Err && (outcome->Err_0.kind == ErrorKind::Malformed || outcome->Err_0.kind
            == ErrorKind::Oversized) ==> settled(outcome, fault) == Next::Failure(outcome->Err_0),
{
}

/// Where the parser ran out of bytes, a fault behind them is what is reported, in its own words.
/// A source that just ends counts as ended only between two records; a fault of any other kind
/// is a failure even there.
pub proof fn faults_are_reported_where_bytes_run_out(err: ErrorView, fault: FaultView)
    requires
        err.kind != ErrorKind::Malformed,
        err.kind != ErrorKind::Oversized,
    ensures
        ({
            let next = settled(Err(err), Some(fault));
            if err.kind == ErrorKind::EndOfStream && fault.unexpected_eof {
                next is End
            } else {
                &&& next is Failure
                &&& next->Failure_0.message == "Error: "@ + fault.message
                &&& next->Failure_0.kind == if err.kind == ErrorKind::Eof && fault.unexpected_eof {
                    ErrorKind::Eof
                } else {
                    ErrorKind::Io
                }
            }
        }),
{
}

/// What comes next in a stream is what the parser makes of its bytes, and what was read is what
/// the parser does not leave.
pub proof fn streams_are_read_by_the_parser(bytes: Seq<u8>, fault: Option<FaultView>)
    ensures
        parsed_record(bytes).outcome matches Ok(record) ==> next_of(bytes, fault) == Next::Record(
            record,
        ),
        parsed_record(bytes).outcome matches Err(e) ==> next_of(bytes, fault) == settled(
            Err(e),
            fault,
        ),
        used(bytes) + parsed_record(bytes).left == bytes.len(),
{
}

} // verus!
