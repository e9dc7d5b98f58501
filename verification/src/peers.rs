//! The distinct peers of MRT sources, as `peers` lists them.
//!
//! Every peer in a TABLE_DUMP_V2 `PEER_INDEX_TABLE`, and each peer that produced a BGP4MP
//! message, is listed under the RIB view name that was known when it was seen: one row per
//! distinct (peer_ip, peer_asn, collector) triple. A record that could not be parsed is
//! passed over; a clean end and a torn tail both just end the enumeration of a source.
use crate::arrow_io::collectors;
use crate::arrow_io::peers_cells;
use crate::arrow_io::peers_columns;
use crate::arrow_io::peers_columns_match_schema;
use crate::arrow_io::peers_fit;
use crate::cloud::same_option;
use crate::columns::batch_cells;
use crate::columns::batch_fits;
use crate::columns::new_batch;
use crate::columns::schema_view;
use crate::columns::text_bytes;
use crate::columns::Batch;
use crate::decode::collector_after;
use crate::decode::is_recoverable;
use crate::decode::key_of;
use crate::decode::lists_peers;
use crate::decode::next_record;
use crate::decode::peer_views;
use crate::decode::peers_of;
use crate::decode::Decoder;
use crate::decode::PeerKey;
use crate::decode::PeerRow;
use crate::decode::PeerRowView;
use crate::error::Blame;
use crate::error::Error;
use crate::mrt::enumerates;
use crate::mrt::record_peers;
use crate::mrt::record_view;
use crate::mrt::IndexedPeer;
use crate::mrt::MessageView;
use crate::scan::step;
use crate::scan::Step;
use crate::stream::decompress_reader;
use crate::stream::decompressed;
use crate::stream::ByteRead;
use crate::stream::Content;
use arrow_schema::Schema;
use bgpkit_parser::MrtRecord;
use std::sync::Arc;
use vstd::prelude::*;

verus! {

/// The rows that are listed.
pub type Known = Set<PeerRowView>;

/// The rows of the peers that one record names, under a collector name.
pub open spec fn record_rows(record: MrtRecord, collector: Option<Seq<char>>) -> Known {
    Set::new(
        |row: PeerRowView| peers_of(record).contains(key_of(row)) && row.collector == collector,
    )
}

/// The rows that are listed once the rest of one source has been read: `content` from
/// offset `at` on.
pub open spec fn peers_scan(
    content: Content,
    at: nat,
    collector: Option<Seq<char>>,
    known: Known,
) -> Known
    decreases content.bytes.len() - at,
{
    if at > content.bytes.len() {
        known
    } else {
        match step(content.bytes.skip(at as int), content.fault) {
            Step::Record(record, n) => {
                let name = collector_after(collector, record);
                peers_scan(content, at + n, name, known.union(record_rows(record, name)))
            },
            Step::Bad(_, n) => peers_scan(content, at + n, collector, known),
            _ => known,
        }
    }
}

/// Whether `rows` list exactly `known`, each row once.
pub open spec fn tabulates(rows: Seq<PeerRowView>, known: Known) -> bool {
    &&& rows.no_duplicates()
    &&& forall|row: PeerRowView| rows.contains(row) <==> #[trigger] known.contains(row)
}

/// `rows`, then those of `more` that are not listed yet, in order.
pub open spec fn appended(rows: Seq<PeerRowView>, more: Seq<PeerRowView>) -> Seq<PeerRowView>
    decreases more.len(),
{
    if more.len() == 0 {
        rows
    } else {
        let before = appended(rows, more.drop_last());
        if before.contains(more.last()) {
            before
        } else {
            before.push(more.last())
        }
    }
}

/// Whether reading the rest of one source, `content` from offset `at` on, can make the list
/// `after` out of the list `before`. Record after record, the rows of its peers that are not
/// listed yet are appended, in the order in which the record gives them: that of a BGP4MP
/// record is the one peer that produced it, those of a `PEER_INDEX_TABLE` come in some order.
pub open spec fn lists_on(
    content: Content,
    at: nat,
    collector: Option<Seq<char>>,
    before: Seq<PeerRowView>,
    after: Seq<PeerRowView>,
) -> bool
    decreases content.bytes.len() - at,
{
    if at > content.bytes.len() {
        after == before
    } else {
        match step(content.bytes.skip(at as int), content.fault) {
            Step::Record(record, n) => {
                let name = collector_after(collector, record);
                exists|rows: Seq<PeerRowView>| #[trigger]
                    lists_peers(rows, record, name) && lists_on(
                        content,
                        at + n,
                        name,
                        appended(before, rows),
                        after,
                    )
            },
            Step::Bad(_, n) => lists_on(content, at + n, collector, before, after),
            _ => after == before,
        }
    }
}

/// Appending lists what was listed, in its place, and what is new, once.
pub(crate) proof fn lemma_appended(rows: Seq<PeerRowView>, more: Seq<PeerRowView>)
    ensures
        rows.len() <= appended(rows, more).len(),
        appended(rows, more).take(rows.len() as int) == rows,
        rows.no_duplicates() ==> appended(rows, more).no_duplicates(),
        forall|row: PeerRowView| #[trigger]
            appended(rows, more).contains(row) <==> rows.contains(row) || more.contains(row),
    decreases more.len(),
{
    if more.len() == 0 {
        assert(rows.take(rows.len() as int) == rows);
    } else {
        let init = more.drop_last();
        let last = more.last();
        let before = appended(rows, init);
        lemma_appended(rows, init);
        lemma_push_contains(init, last);
        lemma_push_contains(before, last);
        assert(init.push(last) == more);
        assert(before.push(last).take(rows.len() as int) == before.take(rows.len() as int));
    }
}

/// Whatever the order, the list holds exactly what [`peers_scan`] says, each row once, and
/// what was listed stays in its place.
pub proof fn listing_is_complete(
    content: Content,
    at: nat,
    collector: Option<Seq<char>>,
    before: Seq<PeerRowView>,
    after: Seq<PeerRowView>,
    known: Known,
)
    requires
        lists_on(content, at, collector, before, after),
        tabulates(before, known),
    ensures
        tabulates(after, peers_scan(content, at, collector, known)),
        before.len() <= after.len(),
        after.take(before.len() as int) == before,
    decreases content.bytes.len() - at,
{
    assert(before.take(before.len() as int) == before);
    if at <= content.bytes.len() {
        match step(content.bytes.skip(at as int), content.fault) {
            Step::Record(record, n) => {
                let name = collector_after(collector, record);
                let rows = choose|rows: Seq<PeerRowView>| #[trigger]
                    lists_peers(rows, record, name) && lists_on(
                        content,
                        at + n,
                        name,
                        appended(before, rows),
                        after,
                    );
                let middle = appended(before, rows);
                lemma_appended(before, rows);
                lemma_record_rows(rows, record, name);
                let more = known.union(record_rows(record, name));
                assert(tabulates(middle, more));
                listing_is_complete(content, at + n, name, middle, after, more);
                assert(after.take(before.len() as int) == after.take(middle.len() as int).take(
                    before.len() as int,
                ));
            },
            Step::Bad(_, n) => {
                listing_is_complete(content, at + n, collector, before, after, known);
            },
            _ => {},
        }
    }
}

/// The rows of one record are those of the peers that it names.
proof fn lemma_record_rows(
    rows: Seq<PeerRowView>,
    record: MrtRecord,
    collector: Option<Seq<char>>,
)
    requires
        lists_peers(rows, record, collector),
    ensures
        forall|row: PeerRowView|
            rows.contains(row) <==> #[trigger] record_rows(record, collector).contains(row),
{
    match record_view(record).message {
        MessageView::PeerIndexTable { .. } => {
            let table = record_peers(record);
            let list = choose|list: Seq<(u16, IndexedPeer)>| #[trigger]
                enumerates(list, table) && rows == list.map_values(
                    |p: (u16, IndexedPeer)|
                        PeerRowView { peer_ip: p.1.peer_ip, peer_asn: p.1.peer_asn, collector },
                );
            assert forall|row: PeerRowView|
                rows.contains(row) <==> #[trigger] record_rows(record, collector).contains(row) by {
                if rows.contains(row) {
                    let i = choose|i: int| 0 <= i < rows.len() && rows[i] == row;
                    assert(table.dom().contains(list[i].0));
                }
                if record_rows(record, collector).contains(row) {
                    let id = choose|id: u16| #[trigger]
                        table.dom().contains(id) && table[id].peer_ip == row.peer_ip
                            && table[id].peer_asn == row.peer_asn;
                    let i = choose|i: int| 0 <= i < list.len() && #[trigger] list[i].0 == id;
                    assert(rows[i] == row);
                }
            }
        },
        MessageView::StateChange { peer_ip, peer_asn, .. } => {
            assert(rows[0] == PeerRowView { peer_ip, peer_asn, collector });
            assert forall|row: PeerRowView|
                rows.contains(row) <==> #[trigger] record_rows(record, collector).contains(row) by {
            }
        },
        MessageView::Message { peer_ip, peer_asn } => {
            assert(rows[0] == PeerRowView { peer_ip, peer_asn, collector });
            assert forall|row: PeerRowView|
                rows.contains(row) <==> #[trigger] record_rows(record, collector).contains(row) by {
            }
        },
        MessageView::Other => {},
    }
}

/// Collects the distinct peers of sources, one source after the other.
pub struct PeersProducer {
    rows: Vec<PeerRow>,
    /// Whether the batch was handed out.
    finished: bool,
}

impl View for PeersProducer {
    type V = Seq<PeerRowView>;

    closed spec fn view(&self) -> Seq<PeerRowView> {
        peer_views(self.rows@)
    }
}

impl PeersProducer {
    /// Whether the batch was handed out.
    pub closed spec fn finished(self) -> bool {
        self.finished
    }

    /// No peer is known yet.
    pub fn new() -> (producer: PeersProducer)
        ensures
            producer@.len() == 0,
            !producer.finished(),
            tabulates(producer@, Set::empty()),
    {
        PeersProducer { rows: Vec::new(), finished: false }
    }

    /// The rows so far.
    pub fn rows(&self) -> (rows: &Vec<PeerRow>)
        ensures
            peer_views(rows@) == self@,
    {
        &self.rows
    }

    /// Whether a row is listed.
    fn lists(&self, row: &PeerRow) -> (yes: bool)
        ensures
            yes == self@.contains(row@),
    {
        for i in 0..self.rows.len()
            invariant
                forall|k: int| 0 <= k < i ==> #[trigger] self@[k] != row@,
        {
            let r = &self.rows[i];
            assert(self@[i as int] == r@);
            if r.peer_ip == row.peer_ip && r.peer_asn == row.peer_asn && same_option(
                &r.collector,
                &row.collector,
            ) {
                return true;
            }
        }
        false
    }

    /// Add the rows that are not listed yet, in order.
    fn add_rows(&mut self, rows: Vec<PeerRow>)
        ensures
            final(self)@ == appended(old(self)@, peer_views(rows@)),
            final(self).finished() == old(self).finished(),
    {
        let ghost before = self@;
        let ghost views = peer_views(rows@);
        assert(views.take(0) == Seq::<PeerRowView>::empty());
        for row in it: rows
            invariant
                it.seq() == rows@,
                views == peer_views(rows@),
                self.finished() == old(self).finished(),
                self@ == appended(before, views.take(it.index())),
        {
            let ghost i = it.index();
            let ghost v = row@;
            assert(views[i] == v);
            assert(views.take(i + 1).drop_last() == views.take(i));
            assert(views.take(i + 1).last() == v);
            if !self.lists(&row) {
                let ghost rows0 = self.rows@;
                self.rows.push(row);
                assert(peer_views(self.rows@) == peer_views(rows0).push(v));
            }
        }
        assert(views.take(views.len() as int) == views);
    }

    /// Read one more source to its end: `raw` are its bytes as they were fetched.
    pub fn add_source(&mut self, raw: Vec<u8>)
        ensures
            lists_on(decompressed(raw@), 0, None, old(self)@, final(self)@),
            final(self).finished() == old(self).finished(),
            forall|known: Known| #[trigger]
                tabulates(old(self)@, known) ==> tabulates(
                    final(self)@,
                    peers_scan(decompressed(raw@), 0, None, known),
                ),
    {
        let ghost content = decompressed(raw@);
        let ghost before = self@;
        let mut reader = decompress_reader(raw);
        let mut decoder = Decoder::new();
        assert(content.bytes.skip(0) == content.bytes);
        loop
            invariant_except_break
                reader.position() <= content.bytes.len(),
                reader.unread() == content.bytes.skip(reader.position() as int),
                reader.fault() == content.fault,
                forall|after: Seq<PeerRowView>| #[trigger]
                    lists_on(content, reader.position(), decoder@.view_name, self@, after)
                        ==> lists_on(content, 0, None, before, after),
            invariant
                reader.valid(),
                self.finished() == old(self).finished(),
            ensures
                lists_on(content, 0, None, before, self@),
            decreases reader.unread().len(),
        {
            let ghost at = reader.position();
            let ghost name0 = decoder@.view_name;
            let ghost now = self@;
            let ghost n = crate::decode::used(reader.unread());
            let ghost this_step = step(reader.unread(), content.fault);
            let next = next_record(&mut reader);
            assert(content.bytes.skip(at as int).skip(n) == content.bytes.skip(at + n));
            match next {
                Ok(Some(record)) => {
                    assert(this_step == Step::Record(record, n as nat));
                    let ghost name = collector_after(name0, record);
                    let rows = decoder.peer_rows(record);
                    let ghost views = peer_views(rows@);
                    self.add_rows(rows);
                    assert(lists_peers(views, record, name));
                    assert(decoder@.view_name == name);
                    assert(reader.position() == at + n as nat);
                    assert forall|after: Seq<PeerRowView>| #[trigger]
                        lists_on(content, reader.position(), name, self@, after) implies lists_on(
                        content,
                        0,
                        None,
                        before,
                        after,
                    ) by {
                        assert(lists_on(content, at, name0, now, after));
                    }
                },
                Ok(None) => {
                    assert(this_step is End);
                    assert(lists_on(content, at, name0, now, now));
                    break ;
                },
                Err(err) => {
                    if !is_recoverable(&err) {
                        assert(this_step is Torn);
                        assert(lists_on(content, at, name0, now, now));
                        break ;
                    }
                    // Body fully consumed: the stream is aligned, keep going.
                    assert(this_step is Bad);
                    assert(reader.position() == at + n as nat);
                    assert forall|after: Seq<PeerRowView>| #[trigger]
                        lists_on(content, reader.position(), name0, now, after) implies lists_on(
                        content,
                        0,
                        None,
                        before,
                        after,
                    ) by {
                        assert(lists_on(content, at, name0, now, after));
                    }
                },
            }
        }
        proof {
            assert forall|known: Known| #[trigger] tabulates(before, known) implies tabulates(
                self@,
                peers_scan(content, 0, None, known),
            ) by {
                listing_is_complete(content, 0, None, before, self@, known);
            }
        }
    }

    /// The batch of all rows, once; after that there is nothing more. Rows that do not fit
    /// one batch, and a schema that is not the `peers` schema, are an error of the worker.
    pub fn next_batch(&mut self, schema: &Arc<Schema>) -> (out: Result<Option<Batch>, Error>)
        ensures
            final(self)@ == old(self)@,
            final(self).finished(),
            old(self).finished() ==> out is Ok && out->Ok_0 is None,
            !old(self).finished() ==> {
                &&& out is Ok <==> text_bytes(collectors(old(self)@)) <= i32::MAX && batch_fits(
                    schema_view(**schema),
                    peers_cells(old(self)@),
                )
                &&& out is Ok ==> out->Ok_0 is Some && batch_cells(out->Ok_0->0) == peers_cells(
                    old(self)@,
                )
                &&& out is Err ==> out->Err_0.blame == Blame::Runtime
                &&& text_bytes(collectors(old(self)@)) > i32::MAX ==> out is Err
                    && out->Err_0.message@ == "batch is too large for its columns"@
            },
    {
        if self.finished {
            return Ok(None);
        }
        self.finished = true;
        if !peers_fit(self.rows.as_slice()) {
            return Err(Error::runtime_error("batch is too large for its columns".to_string()));
        }
        let columns = peers_columns(self.rows.as_slice());
        proof {
            peers_columns_match_schema(self@);
        }
        match new_batch(schema, columns) {
            Ok(batch) => Ok(Some(batch)),
            Err(message) => Err(Error::runtime_error(message)),
        }
    }
}

proof fn lemma_push_contains(s: Seq<PeerRowView>, v: PeerRowView)
    ensures
        forall|row: PeerRowView| #[trigger]
            s.push(v).contains(row) <==> s.contains(row) || row == v,
{
    assert forall|row: PeerRowView| #[trigger]
        s.push(v).contains(row) <==> s.contains(row) || row == v by {
        if s.contains(row) {
            let i = choose|i: int| 0 <= i < s.len() && s[i] == row;
            assert(s.push(v)[i] == row);
        }
        if row == v {
            assert(s.push(v)[s.len() as int] == v);
        }
        if s.push(v).contains(row) && row != v {
            let i = choose|i: int| 0 <= i < s.push(v).len() && s.push(v)[i] == row;
            assert(s[i] == row);
        }
    }
}

/// However many sources were read, no (peer, collector) row is listed twice.
pub proof fn peers_are_distinct(rows: Seq<PeerRowView>, known: Known)
    requires
        tabulates(rows, known),
    ensures
        forall|i: int, j: int|
            0 <= i < rows.len() && 0 <= j < rows.len() && i != j ==> rows[i] != rows[j],
{
}

/// What is listed stays listed.
pub proof fn known_peers_stay(
    content: Content,
    at: nat,
    collector: Option<Seq<char>>,
    known: Known,
    row: PeerRowView,
)
    requires
        known.contains(row),
    ensures
        peers_scan(content, at, collector, known).contains(row),
    decreases content.bytes.len() - at,
{
    if at <= content.bytes.len() {
        match step(content.bytes.skip(at as int), content.fault) {
            Step::Record(record, n) => {
                let name = collector_after(collector, record);
                known_peers_stay(
                    content,
                    at + n,
                    name,
                    known.union(record_rows(record, name)),
                    row,
                );
            },
            Step::Bad(_, n) => {
                known_peers_stay(content, at + n, collector, known, row);
            },
            _ => {},
        }
    }
}

/// A record that could not be parsed loses no peer but its own: the enumeration goes on with
/// the record behind it.
pub proof fn malformed_records_are_passed_over(
    content: Content,
    at: nat,
    collector: Option<Seq<char>>,
    known: Known,
    message: Seq<char>,
    n: nat,
)
    requires
        at <= content.bytes.len(),
        step(content.bytes.skip(at as int), content.fault) == Step::Bad(message, n),
    ensures
        peers_scan(content, at, collector, known) == peers_scan(content, at + n, collector, known),
{
}

/// A peer that a record names is listed, if the record is reached: under the RIB view name
/// that is in force once the record was read.
pub proof fn reached_peers_are_listed(
    content: Content,
    at: nat,
    collector: Option<Seq<char>>,
    known: Known,
    record: MrtRecord,
    n: nat,
    k: PeerKey,
)
    requires
        at <= content.bytes.len(),
        step(content.bytes.skip(at as int), content.fault) == Step::Record(record, n),
        peers_of(record).contains(k),
    ensures
        peers_scan(content, at, collector, known).contains(
            PeerRowView {
                peer_ip: k.0,
                peer_asn: k.1,
                collector: collector_after(collector, record),
            },
        ),
{
    let name = collector_after(collector, record);
    let row = PeerRowView { peer_ip: k.0, peer_asn: k.1, collector: name };
    assert(key_of(row) == k);
    known_peers_stay(content, at + n, name, known.union(record_rows(record, name)), row);
}

} // verus!
