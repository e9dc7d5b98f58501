//! Laws of scanning: what a stream of records yields, source after source, and where it can be
//! taken up again.
use crate::bytes::byte_weight;
use crate::bytes::le_value;
use crate::decode::after_record;
use crate::decode::failure_row;
use crate::decode::key_of;
use crate::decode::peers_of;
use crate::decode::rows_of;
use crate::decode::DecoderView;
use crate::decode::PeerKey;
use crate::decode::PeerRowView;
use crate::decode::RowView;
use crate::laws::texts::is_number;
use crate::laws::texts::numbers_are_parsed;
use crate::mrt::parsed_record;
use crate::mrt::record_body;
use crate::mrt::record_peer;
use crate::mrt::record_peers;
use crate::mrt::ErrorKind;
use crate::peers::appended;
use crate::peers::lemma_appended;
use crate::peers::peers_scan;
use crate::peers::record_rows;
use crate::peers::Known;
use crate::reader::batch_target;
use crate::scan::encodes;
use crate::scan::labelled;
use crate::scan::opened;
use crate::scan::pulled;
use crate::scan::restored;
use crate::scan::shown_rows;
use crate::scan::source_label;
use crate::scan::source_scan;
use crate::scan::sources_scan;
use crate::scan::step;
use crate::scan::stepped;
use crate::scan::still_to_skip;
use crate::scan::Pulled;
use crate::scan::ScanState;
use crate::scan::SourceView;
use crate::scan::Step;
use crate::scan::Terms;
use crate::stream::bunzipped;
use crate::stream::decompressed;
use crate::stream::gunzipped;
use crate::stream::packing;
use crate::stream::unpacked;
use crate::stream::Content;
use crate::stream::FaultView;
use crate::stream::Packing;
use bgpkit_parser::MrtRecord;
use vstd::prelude::*;

verus! {

/// What the parser makes of the bytes decides the step, and how many bytes it leaves decides
/// where the next one starts: a record is handed out; one that is malformed is passed over; the
/// end between two records ends the stream; anything else leaves it torn.
pub proof fn steps_follow_the_parser(bytes: Seq<u8>, fault: Option<FaultView>)
    requires
        parsed_record(bytes).left <= bytes.len(),
    ensures
        ({
            let outcome = parsed_record(bytes).outcome;
            let n = (bytes.len() - parsed_record(bytes).left) as nat;
            &&& outcome is Ok && n > 0 ==> step(bytes, fault) == Step::Record(outcome->Ok_0, n)
            &&& outcome is Err && outcome->Err_0.kind == ErrorKind::Malformed && n > 0 ==> step(
                bytes,
                fault,
            ) == Step::Bad(outcome->Err_0.message, n)
            &&& outcome is Err && outcome->Err_0.kind == ErrorKind::Oversized ==> step(bytes, fault)
                == Step::Torn(outcome->Err_0.message, n)
            &&& outcome is Err && outcome->Err_0.kind == ErrorKind::EndOfStream && fault is None
                ==> step(bytes, fault) is End
            &&& outcome is Err && (outcome->Err_0.kind == ErrorKind::Eof || outcome->Err_0.kind
                == ErrorKind::Io) && fault is None ==> step(bytes, fault) == Step::Torn(
                outcome->Err_0.message,
                n,
            )
        }),
{
}

/// A failure is reported under the name of its source.
pub proof fn failures_name_their_source(label: Seq<char>, message: Seq<char>)
    ensures
        labelled(label, message) == label + ": "@ + message,
{
}

/// Scanning a source that holds a record here yields the record's rows and then what follows
/// behind it, read with what the record taught.
pub proof fn records_are_scanned_in_turn(
    content: Content,
    at: nat,
    d: DecoderView,
    terms: Terms,
    record: MrtRecord,
    n: nat,
)
    requires
        at <= content.bytes.len(),
        step(content.bytes.skip(at as int), content.fault) == Step::Record(record, n),
    ensures
        ({
            let here = source_scan(content, at, d, None, terms);
            let rest = source_scan(content, at + n, after_record(d, record), None, terms);
            here.rows == rows_of(d, record) + rest.rows && here.failure == rest.failure
        }),
{
}

/// A record that could not be parsed is one error row, and the scan goes on behind it as if it
/// had not been there. A strict scan ends in its message instead.
pub proof fn bad_records_are_error_rows(
    content: Content,
    at: nat,
    d: DecoderView,
    label: Seq<char>,
    message: Seq<char>,
    n: nat,
)
    requires
        at <= content.bytes.len(),
        step(content.bytes.skip(at as int), content.fault) == Step::Bad(message, n),
    ensures
        ({
            let lenient = Terms { label, strict: false };
            let here = source_scan(content, at, d, None, lenient);
            let rest = source_scan(content, at + n, d, None, lenient);
            &&& here.rows == seq![failure_row(label + ": "@ + message)] + rest.rows
            &&& here.failure is None
        }),
        ({
            let here = source_scan(content, at, d, None, Terms { label, strict: true });
            here.rows.len() == 0 && here.failure == Some(label + ": "@ + message)
        }),
{
    crate::scan::lenient_source_never_fails(
        content,
        at,
        d,
        None,
        Terms { label, strict: false },
    );
}

/// A torn stream is one error row, the last of its source. A strict scan ends in its message
/// instead. A clean end adds nothing.
pub proof fn torn_streams_end_in_an_error_row(
    content: Content,
    at: nat,
    d: DecoderView,
    label: Seq<char>,
)
    requires
        at <= content.bytes.len(),
    ensures
        step(content.bytes.skip(at as int), content.fault) matches Step::Torn(message, _) ==> {
            let here = source_scan(content, at, d, None, Terms { label, strict: false });
            here.rows == seq![failure_row(label + ": "@ + message)] && here.failure is None
        },
        step(content.bytes.skip(at as int), content.fault) matches Step::Torn(message, _) ==> {
            let here = source_scan(content, at, d, None, Terms { label, strict: true });
            here.rows.len() == 0 && here.failure == Some(label + ": "@ + message)
        },
        step(content.bytes.skip(at as int), content.fault) is End ==> {
            let here = source_scan(content, at, d, None, Terms { label, strict: true });
            here.rows.len() == 0 && here.failure is None
        },
{
}

/// The bytes of a source: an inline source holds its own, any other those that were fetched for
/// it.
pub open spec fn bytes_of_source(source: SourceView, fetched: Seq<u8>) -> Seq<u8> {
    if source is Bytes {
        source->Bytes_0
    } else {
        fetched
    }
}

/// Sources are scanned one after the other, each from its beginning, with nothing known of the
/// sources before it and under its own name.
pub proof fn sources_are_scanned_in_turn(
    sources: Seq<SourceView>,
    outside: Seq<Seq<u8>>,
    idx: nat,
    strict: bool,
)
    ensures
        idx >= sources.len() ==> sources_scan(sources, outside, idx, strict).rows.len() == 0
            && sources_scan(sources, outside, idx, strict).failure is None,
        idx < sources.len() ==> {
            let source = sources[idx as int];
            let here = source_scan(
                decompressed(bytes_of_source(source, outside[idx as int])),
                0,
                DecoderView { table: None, view_name: None },
                None,
                Terms { label: source_label(source), strict },
            );
            let rest = sources_scan(sources, outside, idx + 1, strict);
            let all = sources_scan(sources, outside, idx, strict);
            &&& here.failure is None ==> all.rows == here.rows + rest.rows && all.failure
                == rest.failure
            &&& here.failure is Some ==> all.rows == here.rows && all.failure == here.failure
        },
{
}

/// A source is named by its path or URL; inline bytes are a blob.
pub proof fn sources_are_named(text: Seq<char>, bytes: Seq<u8>)
    ensures
        source_label(SourceView::Local(text)) == text,
        source_label(SourceView::Remote(text)) == text,
        source_label(SourceView::Bytes(bytes)) == "<blob>"@,
{
}

/// A scan that has not begun yields everything that its sources hold, and nothing else.
pub proof fn a_new_scan_yields_everything(s: ScanState, outside: Seq<Seq<u8>>)
    requires
        s.idx == 0,
        s.open is None,
        s.skip_to is None,
        s.pending.len() == 0,
    ensures
        s.remaining(outside).rows == sources_scan(s.sources, outside, 0, s.strict).rows,
        s.remaining(outside).failure == sources_scan(s.sources, outside, 0, s.strict).failure,
{
    let all = sources_scan(s.sources, outside, 0, s.strict);
    assert(s.pending == Seq::<RowView>::empty());
    assert(Seq::<RowView>::empty() + all.rows == all.rows);
}

/// Fast-forwarding leaves out what ends at or before the offset, and nothing else: what ends
/// behind it, or starts at it, is shown, and ends the fast-forwarding.
pub proof fn fast_forwarding_leaves_out_what_was_read(
    t: nat,
    start: nat,
    end: nat,
    rows: Seq<RowView>,
)
    ensures
        end > t || start >= t ==> shown_rows(Some(t), start, end, rows) == rows && still_to_skip(
            Some(t),
            start,
            end,
        ) is None,
        end <= t && start < t ==> shown_rows(Some(t), start, end, rows).len() == 0 && still_to_skip(
            Some(t),
            start,
            end,
        ) == Some(t),
        shown_rows(None, start, end, rows) == rows,
        still_to_skip(None, start, end) is None,
{
}

/// One step of a scan that is not fast-forwarding: a record moves it behind the record and adds
/// the record's rows, a bad record adds its error row, a torn stream adds one and ends the
/// source, and a clean end ends it without one. The other parts of the scan stay as they are.
pub proof fn steps_move_the_scan(s: ScanState)
    requires
        s.open is Some,
        s.skip_to is None,
    ensures
        ({
            let open = s.open->0;
            let label = source_label(s.sources[s.idx as int]);
            let next = stepped(s);
            match step(open.content.bytes.skip(open.at as int), open.content.fault) {
                Step::Record(record, n) => {
                    &&& next is Ok
                    &&& next->Ok_0.pending == s.pending + rows_of(open.decoder, record)
                    &&& next->Ok_0.open is Some
                    &&& next->Ok_0.open->0.content == open.content
                    &&& next->Ok_0.open->0.at == open.at + n
                    &&& next->Ok_0.open->0.decoder == after_record(open.decoder, record)
                    &&& next->Ok_0.offset == open.at + n
                    &&& next->Ok_0.idx == s.idx
                },
                Step::Bad(message, n) => if s.strict {
                    &&& next is Err
                    &&& next->Err_0.message == label + ": "@ + message
                    &&& next->Err_0.rest.open is Some
                    &&& next->Err_0.rest.open->0.at == open.at + n
                    &&& next->Err_0.rest.open->0.decoder == open.decoder
                    &&& next->Err_0.rest.offset == s.offset
                    &&& next->Err_0.rest.idx == s.idx
                } else {
                    &&& next is Ok
                    &&& next->Ok_0.pending == s.pending.push(failure_row(label + ": "@ + message))
                    &&& next->Ok_0.open is Some
                    &&& next->Ok_0.open->0.at == open.at + n
                    &&& next->Ok_0.open->0.decoder == open.decoder
                    &&& next->Ok_0.offset == open.at + n
                    &&& next->Ok_0.idx == s.idx
                },
                Step::Torn(message, n) => if s.strict {
                    &&& next is Err
                    &&& next->Err_0.message == label + ": "@ + message
                    &&& next->Err_0.rest.open is Some
                    &&& next->Err_0.rest.open->0.at == open.at + n
                    &&& next->Err_0.rest.idx == s.idx
                } else {
                    &&& next is Ok
                    &&& next->Ok_0.pending == s.pending.push(failure_row(label + ": "@ + message))
                    &&& next->Ok_0.open is None
                    &&& next->Ok_0.offset == 0
                    &&& next->Ok_0.idx == s.idx + 1
                },
                Step::End => {
                    &&& next is Ok
                    &&& next->Ok_0.pending == s.pending
                    &&& next->Ok_0.open is None
                    &&& next->Ok_0.offset == 0
                    &&& next->Ok_0.idx == s.idx + 1
                },
            }
        }),
        stepped(s) matches Ok(next) ==> next.sources == s.sources && next.strict == s.strict
            && next.skip_to is None,
        stepped(s) matches Err(f) ==> f.rest.sources == s.sources && f.rest.strict == s.strict,
{
    let open = s.open->0;
    match step(open.content.bytes.skip(open.at as int), open.content.fault) {
        Step::Bad(message, _) => {
            let row = failure_row(labelled(s.terms().label, message));
            assert(s.pending + seq![row] == s.pending.push(row));
        },
        Step::Torn(message, _) => {
            let row = failure_row(labelled(s.terms().label, message));
            assert(s.pending + seq![row] == s.pending.push(row));
        },
        Step::End => {
            assert(s.pending + Seq::<RowView>::empty() == s.pending);
        },
        _ => {},
    }
}

/// A source is opened at its beginning, with nothing known, and the rows that were read before
/// stay.
pub proof fn sources_are_opened_at_their_beginning(s: ScanState, raw: Seq<u8>)
    ensures
        opened(s, raw).open is Some,
        opened(s, raw).open->0.content == decompressed(raw),
        opened(s, raw).open->0.at == 0,
        opened(s, raw).open->0.decoder.table is None,
        opened(s, raw).open->0.decoder.view_name is None,
        opened(s, raw).offset == 0,
        opened(s, raw).idx == s.idx,
        opened(s, raw).pending == s.pending,
        opened(s, raw).skip_to == s.skip_to,
        opened(s, raw).sources == s.sources,
        opened(s, raw).strict == s.strict,
{
}

/// A batch ends with the first record that fills it: before that record it was not full. It ends
/// earlier only where the scan is exhausted.
pub proof fn batches_end_once_they_are_full(s: ScanState, target: nat)
    requires
        s.pending.len() < target,
    ensures
        pulled(s, target) matches Pulled::Rows(rows, rest) ==> {
            ||| exists|before: ScanState| #[trigger]
                fills(before, rows, target)
            ||| rows.len() < target
        },
    decreases
            s.sources.len() - s.idx,
            if s.open is None {
                1int
            } else {
                0int
            },
            match s.open {
                Some(open) => open.content.bytes.len() - open.at,
                None => 0int,
            },
{
    if s.idx < s.sources.len() && (s.open is Some || s.sources[s.idx as int] is Bytes) {
        let ready = if s.open is None {
            opened(s, s.sources[s.idx as int]->Bytes_0)
        } else {
            s
        };
        if ready.open->0.at <= ready.open->0.content.bytes.len() {
            if let Ok(next) = stepped(ready) {
                if next.pending.len() >= target {
                    assert(fills(ready, next.pending, target));
                } else {
                    batches_end_once_they_are_full(next, target);
                }
            }
        }
    }
}

/// Whether one more step makes a batch of what was read `before`, which was none yet.
pub open spec fn fills(before: ScanState, rows: Seq<RowView>, target: nat) -> bool {
    &&& before.pending.len() < target <= rows.len()
    &&& stepped(before) is Ok
    &&& stepped(before)->Ok_0.pending == rows
}

/// A position is sixteen bytes: the index of the source and the offset in it, each a 64-bit
/// number, least significant byte first.
pub proof fn tokens_hold_the_position(token: Seq<u8>, s: ScanState)
    requires
        encodes(token, s),
    ensures
        token.len() == 16,
        s.idx == token[0] + token[1] * 0x100 + token[2] * 0x1_0000 + token[3] * 0x100_0000
            + token[4] * 0x1_0000_0000 + token[5] * 0x100_0000_0000 + token[6] * 0x1_0000_0000_0000
            + token[7] * 0x100_0000_0000_0000,
        s.offset == token[8] + token[9] * 0x100 + token[10] * 0x1_0000 + token[11] * 0x100_0000
            + token[12] * 0x1_0000_0000 + token[13] * 0x100_0000_0000 + token[14]
            * 0x1_0000_0000_0000 + token[15] * 0x100_0000_0000_0000,
{
    lemma_eight_bytes(token.subrange(0, 8));
    lemma_eight_bytes(token.subrange(8, 16));
}

/// The number in eight bytes.
proof fn lemma_eight_bytes(b: Seq<u8>)
    requires
        b.len() == 8,
    ensures
        le_value(b) == b[0] + b[1] * 0x100 + b[2] * 0x1_0000 + b[3] * 0x100_0000 + b[4]
            * 0x1_0000_0000 + b[5] * 0x100_0000_0000 + b[6] * 0x1_0000_0000_0000 + b[7]
            * 0x100_0000_0000_0000,
{
    reveal_with_fuel(byte_weight, 9);
    reveal_with_fuel(le_value, 9);
    let b7 = b.drop_last();
    let b6 = b7.drop_last();
    let b5 = b6.drop_last();
    let b4 = b5.drop_last();
    let b3 = b4.drop_last();
    let b2 = b3.drop_last();
    let b1 = b2.drop_last();
    assert(b1.drop_last().len() == 0);
    assert(le_value(b1) == b[0]);
    assert(le_value(b2) == le_value(b1) + b[1] * 0x100);
    assert(le_value(b3) == le_value(b2) + b[2] * 0x1_0000);
    assert(le_value(b4) == le_value(b3) + b[3] * 0x100_0000);
    assert(le_value(b5) == le_value(b4) + b[4] * 0x1_0000_0000);
    assert(le_value(b6) == le_value(b5) + b[5] * 0x100_0000_0000);
    assert(le_value(b7) == le_value(b6) + b[6] * 0x1_0000_0000_0000);
    assert(le_value(b) == le_value(b7) + b[7] * 0x100_0000_0000_0000);
}

/// Restoring a position puts the scan before the source it names, at the offset it names, with no
/// rows held back; what is no position leaves the scan as it is.
pub proof fn positions_are_restored(s: ScanState, token: Seq<u8>, before: ScanState)
    ensures
        token.len() < 16 ==> restored(s, token) == s,
        encodes(token, before) && before.idx <= s.sources.len() <= usize::MAX ==> restored(
            s,
            token,
        ).idx == before.idx,
        encodes(token, before) ==> restored(s, token).offset == before.offset,
        token.len() >= 16 ==> restored(s, token).open is None && restored(s, token).pending.len()
            == 0 && restored(s, token).sources == s.sources && restored(s, token).strict
            == s.strict,
{
}

/// Compression is told by the leading bytes alone: `1f 8b` is gzip, `BZh` is bzip2, and anything
/// else passes through whole.
pub proof fn compression_is_told_by_its_magic(bytes: Seq<u8>, gz: Content, bz: Content)
    ensures
        bytes.len() >= 2 && bytes.take(2) == seq![0x1fu8, 0x8bu8] ==> packing(bytes)
            == Packing::Gzip && unpacked(bytes, gz, bz) == gz && decompressed(bytes) == gunzipped(
            bytes,
        ),
        bytes.len() >= 3 && bytes.take(3) == seq![0x42u8, 0x5au8, 0x68u8] ==> packing(bytes)
            == Packing::Bzip2 && unpacked(bytes, gz, bz) == bz && decompressed(bytes) == bunzipped(
            bytes,
        ),
        !(bytes.len() >= 2 && bytes.take(2) == seq![0x1fu8, 0x8bu8]) && !(bytes.len() >= 3
            && bytes.take(3) == seq![0x42u8, 0x5au8, 0x68u8]) ==> packing(bytes) == Packing::Plain
            && decompressed(bytes).bytes == bytes && decompressed(bytes).fault is None,
{
    if bytes.len() >= 2 {
        assert(bytes.take(2)[0] == bytes[0] && bytes.take(2)[1] == bytes[1]);
        if bytes[0] == 0x1f && bytes[1] == 0x8b {
            assert(bytes.take(2) == seq![0x1fu8, 0x8bu8]);
        }
    }
    if bytes.len() >= 3 {
        assert(bytes.take(3)[0] == bytes[0] && bytes.take(3)[1] == bytes[1] && bytes.take(3)[2]
            == bytes[2]);
        if bytes[0] == 0x42 && bytes[1] == 0x5a && bytes[2] == 0x68 {
            assert(bytes.take(3) == seq![0x42u8, 0x5au8, 0x68u8]);
        }
    }
}

/// A batch is as large as the setting says, if that is a positive number; without a setting, or
/// with any other, it is 2048 rows.
pub proof fn batches_are_as_large_as_set(text: Seq<char>, n: nat)
    ensures
        batch_target(None) == 2048,
        is_number(text, n) && 0 < n <= usize::MAX ==> batch_target(Some(text)) == n,
        is_number(text, 0) ==> batch_target(Some(text)) == 2048,
        (forall|m: nat| #[trigger] is_number(text, m) ==> m > usize::MAX) ==> batch_target(
            Some(text),
        ) == 2048,
        batch_target(Some(text)) > 0,
{
    numbers_are_parsed(text, usize::MAX as nat, n);
    numbers_are_parsed(text, usize::MAX as nat, 0);
    let parsed = crate::text::parse_unsigned(text, usize::MAX as nat);
    if parsed is Some {
        numbers_are_parsed(text, usize::MAX as nat, parsed->0);
        assert(is_number(text, parsed->0));
    }
}

/// A record names the peers of its table, if it is one, or the peer that it came from.
pub proof fn records_name_their_peers(record: MrtRecord, k: PeerKey)
    ensures
        (record_body(record) is StateChange || record_body(record) is Message) && record_peer(
            record,
        ) is Some ==> (peers_of(record).contains(k) <==> record_peer(record) == Some(k)),
        record_body(record) is PeerIndexTable ==> (peers_of(record).contains(k) <==> exists|id: u16|
            #[trigger]
            record_peers(record).dom().contains(id) && record_peers(record)[id].peer_ip == k.0
                && record_peers(record)[id].peer_asn == k.1),
        record_body(record) is Rib || record_body(record) is Other ==> !peers_of(record).contains(
            k,
        ),
{
}

/// A listed row is a peer that its record names, under the collector in force.
pub proof fn rows_are_peers_of_their_record(
    record: MrtRecord,
    collector: Option<Seq<char>>,
    row: PeerRowView,
)
    ensures
        record_rows(record, collector).contains(row) <==> peers_of(record).contains(
            (row.peer_ip, row.peer_asn),
        ) && row.collector == collector,
        key_of(row).0 == row.peer_ip,
        key_of(row).1 == row.peer_asn,
{
}

/// No row is listed that was not listed before and that no record of the source names.
pub proof fn no_peer_is_made_up(
    content: Content,
    at: nat,
    collector: Option<Seq<char>>,
    known: Known,
    row: PeerRowView,
)
    requires
        peers_scan(content, at, collector, known).contains(row),
    ensures
        known.contains(row) || exists|b: nat|
            at <= b <= content.bytes.len() && #[trigger] names_peer_at(
                content,
                b,
                (row.peer_ip, row.peer_asn),
            ),
    decreases content.bytes.len() - at,
{
    if at <= content.bytes.len() {
        match step(content.bytes.skip(at as int), content.fault) {
            Step::Record(record, n) => {
                let name = crate::decode::collector_after(collector, record);
                let more = known.union(record_rows(record, name));
                no_peer_is_made_up(content, at + n, name, more, row);
                if more.contains(row) && !known.contains(row) {
                    assert(names_peer_at(content, at, (row.peer_ip, row.peer_asn)));
                }
            },
            Step::Bad(_, n) => {
                no_peer_is_made_up(content, at + n, collector, known, row);
            },
            _ => {},
        }
    }
}

/// Whether the record at an offset names a peer.
pub open spec fn names_peer_at(content: Content, at: nat, k: PeerKey) -> bool {
    step(content.bytes.skip(at as int), content.fault) matches Step::Record(record, _) && peers_of(
        record,
    ).contains(k)
}

/// New rows go behind those that are listed, which stay where they are; every row is listed, none
/// twice, and new rows keep the order in which they came.
pub proof fn new_rows_go_behind(rows: Seq<PeerRowView>, more: Seq<PeerRowView>)
    ensures
        rows.len() <= appended(rows, more).len() <= rows.len() + more.len(),
        forall|i: int| 0 <= i < rows.len() ==> #[trigger] appended(rows, more)[i] == rows[i],
        rows.no_duplicates() ==> appended(rows, more).no_duplicates(),
        forall|row: PeerRowView| #[trigger]
            appended(rows, more).contains(row) <==> rows.contains(row) || more.contains(row),
        more.no_duplicates() && (forall|row: PeerRowView|
            more.contains(row) ==> !#[trigger] rows.contains(row)) ==> appended(rows, more) == rows
            + more,
    decreases more.len(),
{
    lemma_appended(rows, more);
    let all = appended(rows, more);
    assert forall|i: int| 0 <= i < rows.len() implies #[trigger] all[i] == rows[i] by {
        assert(all.take(rows.len() as int)[i] == rows[i]);
    }
    if more.len() > 0 {
        let init = more.drop_last();
        let last = more.last();
        new_rows_go_behind(rows, init);
        if more.no_duplicates() && (forall|row: PeerRowView|
            more.contains(row) ==> !#[trigger] rows.contains(row)) {
            assert forall|row: PeerRowView| init.contains(row) implies !#[trigger] rows.contains(
                row,
            ) by {
                let i = choose|i: int| 0 <= i < init.len() && init[i] == row;
                assert(more[i] == row);
            }
            assert(more[more.len() - 1] == last);
            assert(!rows.contains(last));
            assert(!init.contains(last)) by {
                if init.contains(last) {
                    let i = choose|i: int| 0 <= i < init.len() && init[i] == last;
                    assert(more[i] == more[more.len() - 1]);
                }
            }
            lemma_appended(rows, init);
            assert(!appended(rows, init).contains(last));
            assert((rows + init).push(last) == rows + more);
        }
    } else {
        assert(rows + more == rows);
    }
}

} // verus!
