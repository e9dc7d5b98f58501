//! Laws of the output batches: what a query reads under a column's name.
use crate::arrow_io::collectors;
use crate::arrow_io::fits_batch;
use crate::arrow_io::host_cell;
use crate::arrow_io::inet_cells;
use crate::arrow_io::inet_column;
use crate::arrow_io::inet_fields;
use crate::arrow_io::peers_cells;
use crate::arrow_io::peers_fields;
use crate::arrow_io::prefix_cell;
use crate::arrow_io::rib_cells;
use crate::arrow_io::rib_fields;
use crate::arrow_io::row_communities;
use crate::arrow_io::row_inets;
use crate::arrow_io::row_paths;
use crate::arrow_io::row_texts;
use crate::arrow_io::updates_cells;
use crate::arrow_io::updates_fields;
use crate::arrow_io::InetColumn;
use crate::arrow_io::TextColumn;
use crate::bytes::le_value;
use crate::bytes::lemma_le_value_bound;
use crate::bytes::lemma_weight_16;
use crate::columns::all_texts;
use crate::columns::item_count;
use crate::columns::text_bytes;
use crate::columns::Cells;
use crate::columns::FieldView;
use crate::columns::TypeView;
use crate::decode::coherent;
use crate::decode::MsgType;
use crate::decode::PeerRowView;
use crate::decode::RowView;
use crate::inet::host_mask;
use crate::inet::inet_is_read_back;
use crate::inet::inet_of;
use crate::inet::inet_of_host;
use crate::inet::InetView;
use crate::inet::IpAddr;
use crate::reader::table_cells;
use crate::reader::table_fields;
use crate::reader::Kind;
use vstd::prelude::*;

verus! {

/// The column under a name.
pub open spec fn named(fields: Seq<FieldView>, columns: Seq<Cells>, name: Seq<char>) -> Cells {
    columns[choose|k: int| 0 <= k < fields.len() && (#[trigger] fields[k]).name == name]
}

/// The names of fields, in order.
pub open spec fn names(fields: Seq<FieldView>) -> Seq<Seq<char>> {
    fields.map_values(|f: FieldView| f.name)
}

/// Whether a query that reads cell `i` of a column as an `INET` value gets `ip/mask`. The family
/// is 1 for IPv4 and 2 for IPv6. The sixteen address bytes, least significant first, hold an
/// IPv4 address as it is; of an IPv6 address the most significant bit is flipped.
pub open spec fn reads_as_inet(column: Cells, i: int, ip: IpAddr, mask: int) -> bool {
    &&& column matches Cells::Struct { fields, children, valid }
    &&& valid[i]
    &&& names(fields) == seq!["ip_type"@, "address"@, "mask"@]
    &&& children.len() == 3
    &&& children[0] matches Cells::UInt8(families)
    &&& children[1] matches Cells::FixedSizeBinary(width, addresses)
    &&& children[2] matches Cells::UInt16(masks)
    &&& width == 16
    &&& families[i] is Some && addresses[i] is Some && masks[i] is Some
    &&& addresses[i]->0.len() == 16
    &&& match ip {
        IpAddr::V4(bits) => families[i]->0 == 1 && le_value(addresses[i]->0) == bits,
        IpAddr::V6(bits) => families[i]->0 == 2 && le_value(addresses[i]->0) == if bits
            < 0x8000_0000_0000_0000_0000_0000_0000_0000 {
            bits + 0x8000_0000_0000_0000_0000_0000_0000_0000
        } else {
            bits - 0x8000_0000_0000_0000_0000_0000_0000_0000
        },
    }
    &&& masks[i]->0 == mask
}

/// Whether cell `i` of a column is a null `INET` value. Zeros stand under the null.
pub open spec fn is_null_inet(column: Cells, i: int) -> bool {
    &&& column matches Cells::Struct { children, valid, .. }
    &&& !valid[i]
    &&& children.len() == 3
    &&& children[0] matches Cells::UInt8(families)
    &&& children[1] matches Cells::FixedSizeBinary(_, addresses)
    &&& children[2] matches Cells::UInt16(masks)
    &&& families[i] == Some(0u8)
    &&& addresses[i] == Some(Seq::new(16, |k: int| 0u8))
    &&& masks[i] == Some(0u16)
}

/// The mask of a whole address.
pub open spec fn full_width(ip: IpAddr) -> int {
    match ip {
        IpAddr::V4(_) => 32,
        IpAddr::V6(_) => 128,
    }
}

/// Whether a query reads an optional host address back: null for none, else the address with
/// the full-width mask.
pub open spec fn reads_as_host(column: Cells, i: int, ip: Option<IpAddr>) -> bool {
    match ip {
        Some(ip) => reads_as_inet(column, i, ip, full_width(ip)),
        None => is_null_inet(column, i),
    }
}

/// Whether a query reads an optional prefix back.
pub open spec fn reads_as_prefix(column: Cells, i: int, prefix: Option<(IpAddr, u16)>) -> bool {
    match prefix {
        Some((ip, len)) => reads_as_inet(column, i, ip, len as int),
        None => is_null_inet(column, i),
    }
}

/// Whether a query reads an optional list of numbers back.
pub open spec fn reads_as_numbers(column: Cells, i: int, list: Option<Seq<u32>>) -> bool {
    &&& column matches Cells::List { slots, valid, .. }
    &&& valid[i] <==> list is Some
    &&& list is Some ==> {
        &&& slots[i] matches Cells::UInt32(items)
        &&& items.len() == list->0.len()
        &&& forall|j: int| 0 <= j < items.len() ==> #[trigger] items[j] == Some(list->0[j])
    }
}

/// Whether a query reads an optional list of texts back.
pub open spec fn reads_as_texts(column: Cells, i: int, list: Option<Seq<Seq<char>>>) -> bool {
    &&& column matches Cells::List { slots, valid, .. }
    &&& valid[i] <==> list is Some
    &&& list is Some ==> {
        &&& slots[i] matches Cells::Utf8(items)
        &&& items.len() == list->0.len()
        &&& forall|j: int| 0 <= j < items.len() ==> #[trigger] items[j] == Some(list->0[j])
    }
}

/// Whether cell `i` of a column of 32-bit numbers is `n`.
pub open spec fn reads_as_u32(column: Cells, i: int, n: Option<u32>) -> bool {
    column matches Cells::UInt32(cells) && cells[i] == n
}

/// Whether cell `i` of a column of 16-bit numbers is `n`.
pub open spec fn reads_as_u16(column: Cells, i: int, n: Option<u16>) -> bool {
    column matches Cells::UInt16(cells) && cells[i] == n
}

/// Whether cell `i` of a column of texts is `text`.
pub open spec fn reads_as_text(column: Cells, i: int, text: Option<Seq<char>>) -> bool {
    column matches Cells::Utf8(cells) && cells[i] == text
}

/// Whether cell `i` of a column of booleans is `b`.
pub open spec fn reads_as_bool(column: Cells, i: int, b: Option<bool>) -> bool {
    column matches Cells::Boolean(cells) && cells[i] == b
}

/// Whether cell `i` of a column of timestamps is `us`.
pub open spec fn reads_as_time(column: Cells, i: int, us: Option<i64>) -> bool {
    column matches Cells::TimestampMicros(cells) && cells[i] == us
}

/// A name that only field `k` has is the name of column `k`.
proof fn lemma_named(fields: Seq<FieldView>, columns: Seq<Cells>, k: int)
    requires
        0 <= k < fields.len(),
        forall|j: int|
            0 <= j < fields.len() && j != k ==> (#[trigger] fields[j]).name != fields[k].name,
    ensures
        named(fields, columns, fields[k].name) == columns[k],
{
    let name = fields[k].name;
    assert(fields[k].name == name);
    let j = choose|j: int| 0 <= j < fields.len() && (#[trigger] fields[j]).name == name;
    assert(j == k);
}

/// Whether no two fields share a name.
pub open spec fn told_apart(fields: Seq<FieldView>) -> bool {
    forall|j: int, k: int|
        0 <= j < fields.len() && 0 <= k < fields.len() && j != k ==> (#[trigger] fields[j]).name
            != (#[trigger] fields[k]).name
}

proof fn lemma_rib_names()
    ensures
        rib_fields().len() == 14,
        names(rib_fields()) == seq![
            "timestamp"@,
            "view_name"@,
            "peer_ip"@,
            "peer_asn"@,
            "prefix"@,
            "as_path"@,
            "origin_asn"@,
            "next_hop"@,
            "communities"@,
            "med"@,
            "local_pref"@,
            "atomic_aggregate"@,
            "aggregator_asn"@,
            "error"@,
        ],
        told_apart(rib_fields()),
{
    lemma_words();
    let f = rib_fields();
    assert forall|j: int, k: int| 0 <= j < f.len() && 0 <= k < f.len() && j != k implies (
    #[trigger] f[j]).name != (#[trigger] f[k]).name by {
        assert(f[j].name.len() != f[k].name.len() || f[j].name[0] != f[k].name[0]) by {
            assert(j == 0 || j == 1 || j == 2 || j == 3 || j == 4 || j == 5 || j == 6 || j == 7 || j
                == 8 || j == 9 || j == 10 || j == 11 || j == 12 || j == 13);
            assert(k == 0 || k == 1 || k == 2 || k == 3 || k == 4 || k == 5 || k == 6 || k == 7 || k
                == 8 || k == 9 || k == 10 || k == 11 || k == 12 || k == 13);
        }
    }
}

proof fn lemma_updates_names()
    ensures
        updates_fields().len() == 12,
        names(updates_fields()) == seq![
            "timestamp"@,
            "peer_ip"@,
            "peer_asn"@,
            "message_type"@,
            "prefix"@,
            "as_path"@,
            "origin_asn"@,
            "next_hop"@,
            "communities"@,
            "old_state"@,
            "new_state"@,
            "error"@,
        ],
        told_apart(updates_fields()),
{
    lemma_words();
    let f = updates_fields();
    assert forall|j: int, k: int| 0 <= j < f.len() && 0 <= k < f.len() && j != k implies (
    #[trigger] f[j]).name != (#[trigger] f[k]).name by {
        assert(f[j].name.len() != f[k].name.len() || f[j].name[0] != f[k].name[0]) by {
            assert(j == 0 || j == 1 || j == 2 || j == 3 || j == 4 || j == 5 || j == 6 || j == 7 || j
                == 8 || j == 9 || j == 10 || j == 11);
            assert(k == 0 || k == 1 || k == 2 || k == 3 || k == 4 || k == 5 || k == 6 || k == 7 || k
                == 8 || k == 9 || k == 10 || k == 11);
        }
    }
}

proof fn lemma_peers_names()
    ensures
        peers_fields().len() == 3,
        names(peers_fields()) == seq!["peer_ip"@, "peer_asn"@, "collector"@],
        told_apart(peers_fields()),
{
    lemma_words();
    let f = peers_fields();
    assert forall|j: int, k: int| 0 <= j < f.len() && 0 <= k < f.len() && j != k implies (
    #[trigger] f[j]).name != (#[trigger] f[k]).name by {
        assert(f[j].name.len() != f[k].name.len());
    }
}

/// The length and the first character of every column name.
proof fn lemma_words()
    ensures
        "timestamp"@.len() == 9 && "timestamp"@[0] == 't',
        "view_name"@.len() == 9 && "view_name"@[0] == 'v',
        "peer_ip"@.len() == 7 && "peer_ip"@[0] == 'p',
        "peer_asn"@.len() == 8 && "peer_asn"@[0] == 'p',
        "prefix"@.len() == 6,
        "as_path"@.len() == 7 && "as_path"@[0] == 'a',
        "origin_asn"@.len() == 10 && "origin_asn"@[0] == 'o',
        "next_hop"@.len() == 8 && "next_hop"@[0] == 'n',
        "communities"@.len() == 11,
        "med"@.len() == 3,
        "local_pref"@.len() == 10 && "local_pref"@[0] == 'l',
        "atomic_aggregate"@.len() == 16,
        "aggregator_asn"@.len() == 14,
        "error"@.len() == 5,
        "message_type"@.len() == 12,
        "old_state"@.len() == 9 && "old_state"@[0] == 'o',
        "new_state"@.len() == 9 && "new_state"@[0] == 'n',
        "collector"@.len() == 9,
{
    reveal_strlit("timestamp");
    reveal_strlit("view_name");
    reveal_strlit("peer_ip");
    reveal_strlit("peer_asn");
    reveal_strlit("prefix");
    reveal_strlit("as_path");
    reveal_strlit("origin_asn");
    reveal_strlit("next_hop");
    reveal_strlit("communities");
    reveal_strlit("med");
    reveal_strlit("local_pref");
    reveal_strlit("atomic_aggregate");
    reveal_strlit("aggregator_asn");
    reveal_strlit("error");
    reveal_strlit("message_type");
    reveal_strlit("old_state");
    reveal_strlit("new_state");
    reveal_strlit("collector");
}

/// An `INET` column is read back value by value.
proof fn lemma_inet_column(values: Seq<Option<InetView>>, i: int, ip: IpAddr, mask: u16)
    requires
        0 <= i < values.len(),
        values[i] == Some(inet_of(ip, mask)),
    ensures
        reads_as_inet(inet_cells(values), i, ip, mask as int),
{
    encoded_addresses_hold_their_bits(ip, mask);
    assert(names(inet_fields()) == seq!["ip_type"@, "address"@, "mask"@]);
}

/// An encoded address is its family, its bits and its mask: the family is 1 for IPv4 and 2 for
/// IPv6, the sixteen bytes hold the bits, least significant byte first, of an IPv6 address with
/// the most significant bit flipped, and a host has the full-width mask.
pub proof fn encoded_addresses_hold_their_bits(ip: IpAddr, mask: u16)
    ensures
        ({
            let v = inet_of(ip, mask);
            &&& v.address_le.len() == 16
            &&& v.mask == mask
            &&& match ip {
                IpAddr::V4(bits) => v.ip_type == 1 && le_value(v.address_le) == bits,
                IpAddr::V6(bits) => v.ip_type == 2 && le_value(v.address_le) == if bits
                    < 0x8000_0000_0000_0000_0000_0000_0000_0000 {
                    bits + 0x8000_0000_0000_0000_0000_0000_0000_0000
                } else {
                    bits - 0x8000_0000_0000_0000_0000_0000_0000_0000
                },
            }
        }),
        inet_of_host(ip).ip_type == inet_of(ip, mask).ip_type,
        inet_of_host(ip).address_le == inet_of(ip, mask).address_le,
        inet_of_host(ip).mask == full_width(ip),
{
    inet_is_read_back(ip, mask);
    lemma_le_value_bound(inet_of(ip, mask).address_le);
    lemma_weight_16();
}

/// An `INET` column holds the parts of its values, each in its child column, and its nulls.
pub proof fn inet_columns_hold_their_values(values: Seq<Option<InetView>>, i: int)
    requires
        0 <= i < values.len(),
    ensures
        ({
            let column = inet_cells(values);
            &&& column is Struct
            &&& column->Struct_valid.len() == values.len()
            &&& column->Struct_valid[i] <==> values[i] is Some
            &&& values[i] is None ==> is_null_inet(column, i)
            &&& values[i] matches Some(v) ==> {
                &&& column->children[0] matches Cells::UInt8(c) && c[i] == Some(v.ip_type)
                &&& column->children[1] matches Cells::FixedSizeBinary(_, c) && c[i] == Some(
                    v.address_le,
                )
                &&& column->children[2] matches Cells::UInt16(c) && c[i] == Some(v.mask)
            }
        }),
{
}

/// Host addresses are read back.
proof fn lemma_host(values: Seq<Option<InetView>>, i: int, ip: Option<IpAddr>)
    requires
        0 <= i < values.len(),
        values[i] == host_cell(ip),
    ensures
        reads_as_host(inet_cells(values), i, ip),
{
    if let Some(ip) = ip {
        lemma_inet_column(values, i, ip, host_mask(ip));
    }
}

/// Prefixes are read back.
proof fn lemma_prefix(values: Seq<Option<InetView>>, i: int, prefix: Option<(IpAddr, u16)>)
    requires
        0 <= i < values.len(),
        values[i] == prefix_cell(prefix),
    ensures
        reads_as_prefix(inet_cells(values), i, prefix),
{
    if let Some((ip, len)) = prefix {
        lemma_inet_column(values, i, ip, len);
    }
}

/// The time that a row shows: an error row without a time shows none.
pub open spec fn shown_time(row: RowView) -> Option<i64> {
    if row.error is Some && row.timestamp_us == 0 {
        None
    } else {
        Some(row.timestamp_us)
    }
}

/// The word for a row's kind.
pub open spec fn kind_word(kind: Option<MsgType>) -> Option<Seq<char>> {
    match kind {
        Some(MsgType::Announce) => Some("announce"@),
        Some(MsgType::Withdraw) => Some("withdraw"@),
        Some(MsgType::StateChange) => Some("state_change"@),
        None => None,
    }
}

/// In every batch of `read_updates`, what a query reads in row `i` under a column's name is what
/// the `i`-th row holds under that name.
pub proof fn updates_are_read_by_name(rows: Seq<RowView>, i: int)
    requires
        0 <= i < rows.len(),
    ensures
        updates_cells(rows).len() == updates_fields().len(),
        ({
            let row = rows[i];
            let column = |name: Seq<char>| named(updates_fields(), updates_cells(rows), name);
            &&& reads_as_time(column("timestamp"@), i, shown_time(row))
            &&& reads_as_host(column("peer_ip"@), i, row.peer_ip)
            &&& reads_as_u32(column("peer_asn"@), i, row.peer_asn)
            &&& reads_as_text(column("message_type"@), i, kind_word(row.msg_type))
            &&& reads_as_prefix(column("prefix"@), i, row.prefix)
            &&& reads_as_numbers(column("as_path"@), i, row.as_path)
            &&& reads_as_u32(column("origin_asn"@), i, row.origin_asn)
            &&& reads_as_host(column("next_hop"@), i, row.next_hop)
            &&& reads_as_texts(column("communities"@), i, row.communities)
            &&& reads_as_u16(column("old_state"@), i, row.old_state)
            &&& reads_as_u16(column("new_state"@), i, row.new_state)
            &&& reads_as_text(column("error"@), i, row.error)
        }),
{
    let f = updates_fields();
    let c = updates_cells(rows);
    lemma_updates_names();
    assert forall|k: int| 0 <= k < 12 implies named(f, c, (#[trigger] f[k]).name) == c[k] by {
        lemma_named(f, c, k);
    }
    lemma_inets(rows, i);
    assert(f[0].name == "timestamp"@ && f[1].name == "peer_ip"@ && f[2].name == "peer_asn"@);
    assert(f[3].name == "message_type"@ && f[4].name == "prefix"@ && f[5].name == "as_path"@);
    assert(f[6].name == "origin_asn"@ && f[7].name == "next_hop"@ && f[8].name == "communities"@);
    assert(f[9].name == "old_state"@ && f[10].name == "new_state"@ && f[11].name == "error"@);
}

/// The `INET` columns of rows are read back.
proof fn lemma_inets(rows: Seq<RowView>, i: int)
    requires
        0 <= i < rows.len(),
    ensures
        reads_as_host(
            inet_cells(row_inets(rows, InetColumn::PeerIp)),
            i,
            rows[i].peer_ip,
        ),
        reads_as_prefix(
            inet_cells(row_inets(rows, InetColumn::Prefix)),
            i,
            rows[i].prefix,
        ),
        reads_as_host(
            inet_cells(row_inets(rows, InetColumn::NextHop)),
            i,
            rows[i].next_hop,
        ),
{
    lemma_host(
        row_inets(rows, InetColumn::PeerIp),
        i,
        rows[i].peer_ip,
    );
    lemma_prefix(
        row_inets(rows, InetColumn::Prefix),
        i,
        rows[i].prefix,
    );
    lemma_host(
        row_inets(rows, InetColumn::NextHop),
        i,
        rows[i].next_hop,
    );
}

/// In every batch of `read_rib`, what a query reads in row `i` under a column's name is what the
/// `i`-th row holds under that name. An error row has no `atomic_aggregate`.
pub proof fn rib_is_read_by_name(rows: Seq<RowView>, i: int)
    requires
        0 <= i < rows.len(),
    ensures
        rib_cells(rows).len() == rib_fields().len(),
        ({
            let row = rows[i];
            let column = |name: Seq<char>| named(rib_fields(), rib_cells(rows), name);
            &&& reads_as_time(column("timestamp"@), i, shown_time(row))
            &&& reads_as_text(column("view_name"@), i, row.view_name)
            &&& reads_as_host(column("peer_ip"@), i, row.peer_ip)
            &&& reads_as_u32(column("peer_asn"@), i, row.peer_asn)
            &&& reads_as_prefix(column("prefix"@), i, row.prefix)
            &&& reads_as_numbers(column("as_path"@), i, row.as_path)
            &&& reads_as_u32(column("origin_asn"@), i, row.origin_asn)
            &&& reads_as_host(column("next_hop"@), i, row.next_hop)
            &&& reads_as_texts(column("communities"@), i, row.communities)
            &&& reads_as_u32(column("med"@), i, row.med)
            &&& reads_as_u32(column("local_pref"@), i, row.local_pref)
            &&& row.error is None ==> reads_as_bool(
                column("atomic_aggregate"@),
                i,
                Some(row.atomic_aggregate),
            )
            &&& row.error is Some ==> reads_as_bool(column("atomic_aggregate"@), i, None)
            &&& reads_as_u32(column("aggregator_asn"@), i, row.aggregator_asn)
            &&& reads_as_text(column("error"@), i, row.error)
        }),
{
    let f = rib_fields();
    let c = rib_cells(rows);
    lemma_rib_names();
    assert forall|k: int| 0 <= k < 14 implies named(f, c, (#[trigger] f[k]).name) == c[k] by {
        lemma_named(f, c, k);
    }
    lemma_inets(rows, i);
    assert(f[0].name == "timestamp"@ && f[1].name == "view_name"@ && f[2].name == "peer_ip"@);
    assert(f[3].name == "peer_asn"@ && f[4].name == "prefix"@ && f[5].name == "as_path"@);
    assert(f[6].name == "origin_asn"@ && f[7].name == "next_hop"@ && f[8].name == "communities"@);
    assert(f[9].name == "med"@ && f[10].name == "local_pref"@);
    assert(f[11].name == "atomic_aggregate"@ && f[12].name == "aggregator_asn"@);
    assert(f[13].name == "error"@);
}

/// In every batch of `peers`, row `i` reads back as the `i`-th listed peer: its host address with
/// the full-width mask, its ASN and its collector.
pub proof fn peers_are_read_by_name(rows: Seq<PeerRowView>, i: int)
    requires
        0 <= i < rows.len(),
    ensures
        peers_cells(rows).len() == peers_fields().len(),
        ({
            let row = rows[i];
            let column = |name: Seq<char>| named(peers_fields(), peers_cells(rows), name);
            &&& reads_as_inet(column("peer_ip"@), i, row.peer_ip, full_width(row.peer_ip))
            &&& reads_as_u32(column("peer_asn"@), i, Some(row.peer_asn))
            &&& reads_as_text(column("collector"@), i, row.collector)
        }),
{
    let f = peers_fields();
    let c = peers_cells(rows);
    lemma_peers_names();
    assert forall|k: int| 0 <= k < 3 implies named(f, c, (#[trigger] f[k]).name) == c[k] by {
        lemma_named(f, c, k);
    }
    let ips = rows.map_values(|r: PeerRowView| Some(inet_of_host(r.peer_ip)));
    lemma_host(ips, i, Some(rows[i].peer_ip));
    assert(f[0].name == "peer_ip"@ && f[1].name == "peer_asn"@ && f[2].name == "collector"@);
}

/// What is read determines the address and the mask: no two differ and read the same.
pub proof fn inet_readings_are_unique(
    a: Cells,
    i: int,
    b: Cells,
    j: int,
    x: IpAddr,
    m: int,
    y: IpAddr,
    n: int,
)
    requires
        reads_as_inet(a, i, x, m),
        reads_as_inet(b, j, y, n),
        a->children[0]->UInt8_0[i] == b->children[0]->UInt8_0[j],
        a->children[1]->FixedSizeBinary_1[i] == b->children[1]->FixedSizeBinary_1[j],
        a->children[2]->UInt16_0[i] == b->children[2]->UInt16_0[j],
    ensures
        x == y,
        m == n,
{
}

/// Peers with different addresses have different cells, whatever their ASNs.
pub proof fn different_peers_have_different_cells(rows: Seq<PeerRowView>, i: int, j: int)
    requires
        0 <= i < rows.len(),
        0 <= j < rows.len(),
        rows[i].peer_ip != rows[j].peer_ip,
    ensures
        ({
            let column = named(peers_fields(), peers_cells(rows), "peer_ip"@);
            ||| column->children[0]->UInt8_0[i] != column->children[0]->UInt8_0[j]
            ||| column->children[1]->FixedSizeBinary_1[i]
                != column->children[1]->FixedSizeBinary_1[j]
        }),
{
    peers_are_read_by_name(rows, i);
    peers_are_read_by_name(rows, j);
}

/// A withdrawal names its peer and has no origin: its `peer_asn` is not null, its `origin_asn`,
/// `as_path` and `next_hop` are.
pub proof fn withdrawals_have_a_peer_and_no_origin(rows: Seq<RowView>, i: int)
    requires
        0 <= i < rows.len(),
        rows[i].msg_type == Some(MsgType::Withdraw),
        coherent(rows[i]),
        rows[i].peer_asn is Some,
    ensures
        ({
            let column = |name: Seq<char>| named(updates_fields(), updates_cells(rows), name);
            &&& column("peer_asn"@) matches Cells::UInt32(peers) && peers[i] is Some
            &&& column("origin_asn"@) matches Cells::UInt32(origins) && origins[i] is None
            &&& reads_as_text(column("message_type"@), i, Some("withdraw"@))
            &&& reads_as_numbers(column("as_path"@), i, None)
            &&& is_null_inet(column("next_hop"@), i)
        }),
{
    updates_are_read_by_name(rows, i);
}

/// The columns of a table come in the order of its documentation, and a table feeds its own
/// columns under its own fields.
pub proof fn tables_have_their_columns(rows: Seq<RowView>)
    ensures
        names(table_fields(Kind::Rib)) == seq![
            "timestamp"@,
            "view_name"@,
            "peer_ip"@,
            "peer_asn"@,
            "prefix"@,
            "as_path"@,
            "origin_asn"@,
            "next_hop"@,
            "communities"@,
            "med"@,
            "local_pref"@,
            "atomic_aggregate"@,
            "aggregator_asn"@,
            "error"@,
        ],
        names(table_fields(Kind::Updates)) == seq![
            "timestamp"@,
            "peer_ip"@,
            "peer_asn"@,
            "message_type"@,
            "prefix"@,
            "as_path"@,
            "origin_asn"@,
            "next_hop"@,
            "communities"@,
            "old_state"@,
            "new_state"@,
            "error"@,
        ],
        names(peers_fields()) == seq!["peer_ip"@, "peer_asn"@, "collector"@],
        table_fields(Kind::Rib) == rib_fields(),
        table_fields(Kind::Updates) == updates_fields(),
        table_cells(Kind::Rib, rows) == rib_cells(rows),
        table_cells(Kind::Updates, rows) == updates_cells(rows),
{
    lemma_rib_names();
    lemma_updates_names();
    lemma_peers_names();
}

/// No metadata.
pub open spec fn no_metadata() -> Map<Seq<char>, Seq<char>> {
    Map::empty()
}

/// Every output column may be null. The `INET` fields may not: the struct is null as a whole.
/// Its address is sixteen bytes that are marked as a `HUGEINT`.
pub proof fn output_columns_are_nullable(k: int, name: Seq<char>)
    ensures
        0 <= k < rib_fields().len() ==> rib_fields()[k].nullable,
        0 <= k < updates_fields().len() ==> updates_fields()[k].nullable,
        0 <= k < peers_fields().len() ==> peers_fields()[k].nullable,
        0 <= k < inet_fields().len() ==> !inet_fields()[k].nullable,
        0 <= k < rib_fields().len() ==> rib_fields()[k].metadata == no_metadata(),
        0 <= k < updates_fields().len() ==> updates_fields()[k].metadata == no_metadata(),
        0 <= k < peers_fields().len() ==> peers_fields()[k].metadata == no_metadata(),
        inet_fields().len() == 3,
        inet_fields()[0].metadata == no_metadata(),
        inet_fields()[2].metadata == no_metadata(),
        inet_fields()[0].ty == TypeView::UInt8,
        inet_fields()[1].ty == TypeView::FixedSizeBinary(16),
        inet_fields()[2].ty == TypeView::UInt16,
        inet_fields()[1].metadata.dom().contains("ARROW:extension:name"@),
        inet_fields()[1].metadata["ARROW:extension:name"@] == "arrow.opaque"@,
        inet_fields()[1].metadata.dom().contains("ARROW:extension:metadata"@),
        inet_fields()[1].metadata["ARROW:extension:metadata"@]
            == "{\"type_name\":\"hugeint\",\"vendor_name\":\"DuckDB\"}"@,
        inet_column(name).name == name,
        inet_column(name).ty == TypeView::Struct(inet_fields()),
{
    reveal_strlit("ARROW:extension:name");
    reveal_strlit("ARROW:extension:metadata");
    assert("ARROW:extension:name"@.len() != "ARROW:extension:metadata"@.len());
}

/// Rows fit one batch exactly if every column of texts or lists stays within `2^31 - 1` bytes and
/// items.
pub proof fn batches_are_limited_by_offsets(rows: Seq<RowView>, peers: Seq<PeerRowView>)
    ensures
        fits_batch(rows) <==> {
            &&& text_bytes(rows.map_values(|r: RowView| r.view_name)) <= 0x7fff_ffff
            &&& text_bytes(rows.map_values(|r: RowView| kind_word(r.msg_type))) <= 0x7fff_ffff
            &&& text_bytes(rows.map_values(|r: RowView| r.error)) <= 0x7fff_ffff
            &&& item_count(rows.map_values(|r: RowView| r.as_path)) <= 0x7fff_ffff
            &&& item_count(rows.map_values(|r: RowView| r.communities)) <= 0x7fff_ffff
            &&& text_bytes(all_texts(rows.map_values(|r: RowView| r.communities))) <= 0x7fff_ffff
        },
        collectors(peers) == peers.map_values(|r: PeerRowView| r.collector),
{
    assert(row_texts(rows, TextColumn::ViewName) == rows.map_values(|r: RowView| r.view_name));
    assert(row_texts(rows, TextColumn::MessageType) == rows.map_values(
        |r: RowView| kind_word(r.msg_type),
    ));
    assert(row_texts(rows, TextColumn::Error) == rows.map_values(|r: RowView| r.error));
    assert(row_paths(rows) == rows.map_values(|r: RowView| r.as_path));
    assert(row_communities(rows) == rows.map_values(|r: RowView| r.communities));
}

} // verus!
