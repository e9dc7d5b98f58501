//! What a scan over MRT sources yields: the model that the streaming reader is
//! held to.
//!
//! A source is a [`Content`]: the bytes of its decompressed stream and the fault
//! behind them. Scanning it is reading record after record; each record, and each
//! record that could not be parsed, adds its rows and moves the offset to the next
//! boundary. A scan of several sources reads them in order.
use crate::bytes::le_value;
use crate::decode::after_record;
use crate::decode::failure_row;
use crate::decode::fresh_decoder;
use crate::decode::next_of;
use crate::decode::rows_of;
use crate::decode::used;
use crate::decode::DecoderView;
use crate::decode::Next;
use crate::decode::RowView;
use crate::mrt::ErrorKind;
use crate::stream::decompressed;
use crate::stream::Content;
use crate::stream::FaultView;
use bgpkit_parser::MrtRecord;
use vstd::prelude::*;

verus! {

/// The rows that a scan yields, and the failure that ends it, if one does.
pub struct Scan {
    pub rows: Seq<RowView>,
    pub failure: Option<Seq<char>>,
}

/// The scan that yields nothing more.
pub open spec fn nothing() -> Scan {
    Scan { rows: Seq::empty(), failure: None }
}

/// `rows`, then what `scan` yields.
pub open spec fn then_scan(rows: Seq<RowView>, scan: Scan) -> Scan {
    Scan { rows: rows + scan.rows, failure: scan.failure }
}

/// One step of reading a stream.
pub enum Step {
    /// A record, and how many bytes it took.
    Record(MrtRecord, nat),
    /// A record that could not be parsed, why, and how many bytes it took. The stream
    /// stands on the next record.
    Bad(Seq<char>, nat),
    /// A failure that leaves the stream nowhere: why, and how many bytes were taken.
    Torn(Seq<char>, nat),
    /// The clean end of the stream.
    End,
}

/// The next step in a stream of `bytes` with `fault` behind them.
pub open spec fn step(bytes: Seq<u8>, fault: Option<FaultView>) -> Step {
    let n = used(bytes);
    let whole = 0 < n <= bytes.len();
    let taken = if 0 <= n <= bytes.len() {
        n as nat
    } else {
        bytes.len()
    };
    match next_of(bytes, fault) {
        Next::Record(record) => if whole {
            Step::Record(record, n as nat)
        } else {
            Step::End
        },
        Next::End => Step::End,
        Next::Failure(e) => if e.kind == ErrorKind::Malformed {
            if whole {
                Step::Bad(e.message, n as nat)
            } else {
                Step::End
            }
        } else {
            Step::Torn(e.message, taken)
        },
    }
}

/// How a failure in a source is reported: under the source's label.
pub open spec fn labelled(label: Seq<char>, message: Seq<char>) -> Seq<char> {
    label + ": "@ + message
}

/// Whether what was read from `start` to `end` lies behind the offset that a resumed
/// scan fast-forwards to.
pub open spec fn is_shown(skip_to: Option<nat>, start: nat, end: nat) -> bool {
    match skip_to {
        None => true,
        Some(t) => end > t || start >= t,
    }
}

/// What is left to fast-forward once the stream stands at `end`.
pub open spec fn still_to_skip(skip_to: Option<nat>, start: nat, end: nat) -> Option<nat> {
    if is_shown(skip_to, start, end) {
        None
    } else {
        skip_to
    }
}

/// `rows`, unless they are being skipped.
pub open spec fn shown_rows(
    skip_to: Option<nat>,
    start: nat,
    end: nat,
    rows: Seq<RowView>,
) -> Seq<RowView> {
    if is_shown(skip_to, start, end) {
        rows
    } else {
        Seq::empty()
    }
}

/// How one source is scanned.
pub struct Terms {
    /// The source's label in messages.
    pub label: Seq<char>,
    /// Whether a failure ends the scan instead of yielding a row.
    pub strict: bool,
}

/// What the rest of one source yields: `content` from offset `at` on, read by a
/// decoder in state `d`, fast-forwarding to `skip_to`.
///
/// A record yields its rows. A record that could not be parsed yields one error row,
/// and the scan goes on with the next record. A torn stream yields one error row and
/// ends the source. In strict mode either failure ends the whole scan instead.
pub open spec fn source_scan(
    content: Content,
    at: nat,
    d: DecoderView,
    skip_to: Option<nat>,
    terms: Terms,
) -> Scan
    decreases content.bytes.len() - at,
{
    if at > content.bytes.len() {
        nothing()
    } else {
        match step(content.bytes.skip(at as int), content.fault) {
            Step::Record(record, n) => then_scan(
                shown_rows(skip_to, at, at + n, rows_of(d, record)),
                source_scan(
                    content,
                    at + n,
                    after_record(d, record),
                    still_to_skip(skip_to, at, at + n),
                    terms,
                ),
            ),
            Step::Bad(message, n) => if terms.strict {
                Scan { rows: Seq::empty(), failure: Some(labelled(terms.label, message)) }
            } else {
                then_scan(
                    shown_rows(
                        skip_to,
                        at,
                        at + n,
                        seq![failure_row(labelled(terms.label, message))],
                    ),
                    source_scan(content, at + n, d, still_to_skip(skip_to, at, at + n), terms),
                )
            },
            Step::Torn(message, n) => if terms.strict {
                Scan { rows: Seq::empty(), failure: Some(labelled(terms.label, message)) }
            } else {
                Scan {
                    rows: shown_rows(
                        skip_to,
                        at,
                        at + n,
                        seq![failure_row(labelled(terms.label, message))],
                    ),
                    failure: None,
                }
            },
            Step::End => nothing(),
        }
    }
}

/// The decoder's state once a scan of `content`, at offset `at` in state `d`, has come
/// to offset `target`; `None` if the scan never stands there.
pub open spec fn decoder_at(
    content: Content,
    at: nat,
    d: DecoderView,
    target: nat,
    strict: bool,
) -> Option<DecoderView>
    decreases content.bytes.len() - at,
{
    if at == target {
        Some(d)
    } else if at > target || at > content.bytes.len() {
        None
    } else {
        match step(content.bytes.skip(at as int), content.fault) {
            Step::Record(record, n) => decoder_at(
                content,
                at + n,
                after_record(d, record),
                target,
                strict,
            ),
            Step::Bad(_, n) => if strict {
                None
            } else {
                decoder_at(content, at + n, d, target, strict)
            },
            _ => None,
        }
    }
}

/// A source as the scan sees it.
pub enum SourceView {
    /// A local path.
    Local(Seq<char>),
    /// A remote object, by its URL.
    Remote(Seq<char>),
    /// Inline bytes.
    Bytes(Seq<u8>),
}

/// The label of a source in messages.
pub open spec fn source_label(source: SourceView) -> Seq<char> {
    match source {
        SourceView::Local(path) => path,
        SourceView::Remote(url) => url,
        SourceView::Bytes(_) => "<blob>"@,
    }
}

/// The raw bytes of source `i`, where `outside[i]` are those of a local or remote
/// source.
pub open spec fn raw_bytes(
    sources: Seq<SourceView>,
    outside: Seq<Seq<u8>>,
    i: int,
) -> Seq<u8> {
    match sources[i] {
        SourceView::Bytes(bytes) => bytes,
        _ => outside[i],
    }
}

/// The decompressed stream of source `i`.
pub open spec fn content_of(
    sources: Seq<SourceView>,
    outside: Seq<Seq<u8>>,
    i: int,
) -> Content {
    decompressed(raw_bytes(sources, outside, i))
}

/// What `first` yields and, unless it fails, what `rest` yields after it.
pub open spec fn followed_by(first: Scan, rest: Scan) -> Scan {
    if first.failure is Some {
        first
    } else {
        then_scan(first.rows, rest)
    }
}

/// What the sources from `idx` on yield, read from their beginnings.
pub open spec fn sources_scan(
    sources: Seq<SourceView>,
    outside: Seq<Seq<u8>>,
    idx: nat,
    strict: bool,
) -> Scan
    decreases sources.len() - idx,
{
    if idx >= sources.len() {
        nothing()
    } else {
        followed_by(
            source_scan(
                content_of(sources, outside, idx as int),
                0,
                fresh_decoder(),
                None,
                Terms { label: source_label(sources[idx as int]), strict },
            ),
            sources_scan(sources, outside, idx + 1, strict),
        )
    }
}

/// The source that a scan stands in.
pub struct OpenSource {
    pub content: Content,
    /// The offset of the next record.
    pub at: nat,
    pub decoder: DecoderView,
}

/// The state of a scan.
pub struct ScanState {
    pub sources: Seq<SourceView>,
    pub strict: bool,
    /// The source that is read, or is to be opened next.
    pub idx: nat,
    /// That source, once it is open.
    pub open: Option<OpenSource>,
    /// The offset in that source up to which a checkpoint covers its rows.
    pub offset: nat,
    /// The offset to fast-forward that source to.
    pub skip_to: Option<nat>,
    /// Rows that were read and not handed out yet.
    pub pending: Seq<RowView>,
    /// Whether a failure in the open source was reported.
    pub failed: bool,
}

impl ScanState {
    /// The terms on which source `idx` is scanned.
    pub open spec fn terms(self) -> Terms {
        Terms { label: source_label(self.sources[self.idx as int]), strict: self.strict }
    }

    /// What the source that the scan stands in yields from here on.
    pub open spec fn current_scan(self, outside: Seq<Seq<u8>>) -> Scan {
        match self.open {
            Some(open) => source_scan(
                open.content,
                open.at,
                open.decoder,
                self.skip_to,
                self.terms(),
            ),
            None => source_scan(
                content_of(self.sources, outside, self.idx as int),
                0,
                fresh_decoder(),
                self.skip_to,
                self.terms(),
            ),
        }
    }

    /// What the scan yields from here on, where `outside[i]` are the raw bytes of
    /// the local or remote source `i`.
    pub open spec fn remaining(self, outside: Seq<Seq<u8>>) -> Scan {
        then_scan(
            self.pending,
            if self.idx >= self.sources.len() {
                nothing()
            } else {
                followed_by(
                    self.current_scan(outside),
                    sources_scan(self.sources, outside, self.idx + 1, self.strict),
                )
            },
        )
    }

    /// What holds of every state a scan can be in. An open source stands on a boundary
    /// that the scan reached from its beginning, and the checkpoint offset is that
    /// boundary; without an open source the checkpoint offset is where the next one
    /// is fast-forwarded to.
    pub open spec fn well_formed(self) -> bool {
        &&& self.idx <= self.sources.len() <= usize::MAX
        &&& self.skip_to is Some ==> self.pending.len() == 0
        &&& match self.open {
            Some(open) => {
                &&& self.idx < self.sources.len()
                &&& open.at <= open.content.bytes.len()
                &&& !self.failed ==> open.at == self.offset && decoder_at(
                    open.content,
                    0,
                    fresh_decoder(),
                    open.at,
                    self.strict,
                ) == Some(open.decoder)
            },
            None => self.skip_to == if self.offset > 0 {
                Some(self.offset)
            } else {
                None
            },
        }
    }

    /// Whether no failure was reported in the source that is open.
    pub open spec fn intact(self) -> bool {
        self.open is Some ==> !self.failed
    }

    /// Whether the scan stands where a checkpoint can be taken: it holds no rows back,
    /// and in an open source it has reported no failure and is not fast-forwarding.
    pub open spec fn at_checkpoint(self) -> bool {
        &&& self.well_formed()
        &&& self.intact()
        &&& self.pending.len() == 0
        &&& self.open is Some ==> self.skip_to is None
    }

    /// Whether `outside` agrees with the source that the scan has open.
    pub open spec fn agrees_with(self, outside: Seq<Seq<u8>>) -> bool {
        self.open is Some ==> self.open->0.content == content_of(
            self.sources,
            outside,
            self.idx as int,
        )
    }
}

/// The scan before the source behind the current one, with `rows` read from that one.
pub open spec fn next_source(s: ScanState, rows: Seq<RowView>) -> ScanState {
    ScanState {
        idx: s.idx + 1,
        open: None,
        offset: 0,
        skip_to: None,
        pending: s.pending + rows,
        ..s
    }
}

/// The scan with the current source open, `raw` being its bytes as they were fetched.
pub open spec fn opened(s: ScanState, raw: Seq<u8>) -> ScanState {
    ScanState {
        open: Some(
            OpenSource { content: decompressed(raw), at: 0, decoder: fresh_decoder() },
        ),
        offset: 0,
        failed: false,
        ..s
    }
}

/// The scan after `n` more bytes of the open source, which gave `rows`.
pub open spec fn moved(s: ScanState, n: nat, d: DecoderView, rows: Seq<RowView>) -> ScanState {
    let open = s.open->0;
    let end = open.at + n;
    ScanState {
        open: Some(OpenSource { at: end, decoder: d, ..open }),
        offset: end,
        skip_to: still_to_skip(s.skip_to, open.at, end),
        pending: s.pending + shown_rows(s.skip_to, open.at, end, rows),
        ..s
    }
}

/// A failure that a strict scan reports.
pub struct Failure {
    pub message: Seq<char>,
    /// The scan behind what could not be read.
    pub rest: ScanState,
}

/// The failure of a strict scan over the next `n` bytes of the open source. They are used
/// up; a checkpoint still covers the rows up to the last boundary.
pub open spec fn failure(s: ScanState, message: Seq<char>, n: nat) -> Failure {
    let open = s.open->0;
    Failure {
        message: labelled(s.terms().label, message),
        rest: ScanState {
            open: Some(OpenSource { at: open.at + n, ..open }),
            failed: true,
            ..s
        },
    }
}

/// The scan after one more record of the open source, or the failure that a strict scan
/// reports.
pub open spec fn stepped(s: ScanState) -> Result<ScanState, Failure> {
    let open = s.open->0;
    match step(open.content.bytes.skip(open.at as int), open.content.fault) {
        Step::Record(record, n) => Ok(
            moved(s, n, after_record(open.decoder, record), rows_of(open.decoder, record)),
        ),
        Step::Bad(message, n) => {
            let text = labelled(s.terms().label, message);
            if s.strict {
                Err(failure(s, message, n))
            } else {
                Ok(moved(s, n, open.decoder, seq![failure_row(text)]))
            }
        },
        Step::Torn(message, n) => {
            let text = labelled(s.terms().label, message);
            if s.strict {
                Err(failure(s, message, n))
            } else {
                Ok(
                    next_source(
                        s,
                        shown_rows(s.skip_to, open.at, open.at + n, seq![failure_row(text)]),
                    ),
                )
            }
        },
        Step::End => Ok(next_source(s, Seq::empty())),
    }
}

/// What a pull gives.
pub enum Pulled {
    /// Rows, and the scan behind them.
    Rows(Seq<RowView>, ScanState),
    /// The scan, before a source that has to be opened.
    Open(ScanState),
    /// The exhausted scan.
    Done(ScanState),
    /// A failure, and the scan behind it.
    Failed(Seq<char>, ScanState),
}

/// What a pull gives that ends here.
pub open spec fn pulled_so_far(s: ScanState) -> Pulled {
    let rest = ScanState { pending: Seq::empty(), ..s };
    if s.pending.len() == 0 {
        Pulled::Done(rest)
    } else {
        Pulled::Rows(s.pending, rest)
    }
}

/// What a pull gives: record after record is read, each kept whole, until there are
/// `target` rows, a source has to be opened, or the scan is exhausted.
pub open spec fn pulled(s: ScanState, target: nat) -> Pulled
    decreases
            s.sources.len() - s.idx,
            if s.open is None {
                1int
            } else {
                0int
            },
            match s.open {
                Some(open) => open.content.bytes.len() - open.at,
                None => 0int,
            },
{
    if s.idx >= s.sources.len() {
        pulled_so_far(s)
    } else if s.open is None && !(s.sources[s.idx as int] is Bytes) {
        Pulled::Open(s)
    } else {
        let ready = if s.open is None {
            opened(s, s.sources[s.idx as int]->Bytes_0)
        } else {
            s
        };
        if ready.open->0.at > ready.open->0.content.bytes.len() {
            pulled_so_far(s)
        } else {
            match stepped(ready) {
                Err(f) => Pulled::Failed(
                    f.message,
                    ScanState { pending: Seq::empty(), ..f.rest },
                ),
                Ok(next) => if next.pending.len() >= target {
                    pulled_so_far(next)
                } else {
                    pulled(next, target)
                },
            }
        }
    }
}

/// Rows taken off one after the other are rows taken off together.
proof fn lemma_then_then(a: Seq<RowView>, b: Seq<RowView>, scan: Scan)
    ensures
        then_scan(a, then_scan(b, scan)) == then_scan(a + b, scan),
{
    assert(a + (b + scan.rows) == (a + b) + scan.rows);
}

/// Taking off no rows changes nothing.
proof fn lemma_then_nothing(scan: Scan)
    ensures
        then_scan(Seq::empty(), scan) == scan,
{
    assert(Seq::<RowView>::empty() + scan.rows == scan.rows);
}

/// Taking rows off the front of a source is taking them off the front of the scan.
proof fn lemma_then_followed(rows: Seq<RowView>, first: Scan, rest: Scan)
    ensures
        followed_by(then_scan(rows, first), rest) == then_scan(rows, followed_by(first, rest)),
{
    if first.failure is None {
        lemma_then_then(rows, first.rows, rest);
    }
}

/// Fast-forwarding to an offset that the scan stands at in state `d` yields what the
/// scan yields from there: nothing is lost and nothing comes twice.
proof fn lemma_fast_forward(
    content: Content,
    at: nat,
    d0: DecoderView,
    target: nat,
    d: DecoderView,
    terms: Terms,
)
    requires
        at <= target,
        decoder_at(content, at, d0, target, terms.strict) == Some(d),
    ensures
        source_scan(content, at, d0, Some(target), terms) == source_scan(
            content,
            target,
            d,
            None,
            terms,
        ),
    decreases content.bytes.len() - at,
{
    if at == target {
        if at <= content.bytes.len() {
            match step(content.bytes.skip(at as int), content.fault) {
                Step::Record(_, n) => {
                    assert(is_shown(Some(target), at, at + n));
                },
                Step::Bad(_, n) => {
                    assert(is_shown(Some(target), at, at + n));
                },
                Step::Torn(_, n) => {
                    assert(is_shown(Some(target), at, at + n));
                },
                Step::End => {},
            }
        }
    } else {
        match step(content.bytes.skip(at as int), content.fault) {
            Step::Record(record, n) => {
                lemma_at_most(content, at + n, after_record(d0, record), target, terms.strict);
                lemma_fast_forward(content, at + n, after_record(d0, record), target, d, terms);
                lemma_then_nothing(
                    source_scan(content, at + n, after_record(d0, record), Some(target), terms),
                );
            },
            Step::Bad(_, n) => {
                lemma_at_most(content, at + n, d0, target, terms.strict);
                lemma_fast_forward(content, at + n, d0, target, d, terms);
                lemma_then_nothing(source_scan(content, at + n, d0, Some(target), terms));
            },
            _ => {},
        }
    }
}

/// A scan only moves forward.
proof fn lemma_at_most(content: Content, at: nat, d: DecoderView, target: nat, strict: bool)
    requires
        decoder_at(content, at, d, target, strict) is Some,
    ensures
        at <= target,
{
}

/// A scan that stands at a boundary and takes one more step stands at the next one.
proof fn lemma_reach_step(
    content: Content,
    at: nat,
    d0: DecoderView,
    middle: nat,
    d: DecoderView,
    strict: bool,
)
    requires
        decoder_at(content, at, d0, middle, strict) == Some(d),
        middle <= content.bytes.len(),
    ensures
        step(content.bytes.skip(middle as int), content.fault) matches Step::Record(
            record,
            n,
        ) ==> decoder_at(content, at, d0, middle + n, strict) == Some(after_record(d, record)),
        step(content.bytes.skip(middle as int), content.fault) matches Step::Bad(_, n) ==> !strict
            ==> decoder_at(content, at, d0, middle + n, strict) == Some(d),
    decreases content.bytes.len() - at,
{
    if at == middle {
        match step(content.bytes.skip(middle as int), content.fault) {
            Step::Record(record, n) => {
                assert(decoder_at(content, at + n, after_record(d, record), middle + n, strict)
                    == Some(after_record(d, record)));
            },
            Step::Bad(_, n) => {
                assert(decoder_at(content, at + n, d, middle + n, strict) == Some(d));
            },
            _ => {},
        }
    } else {
        match step(content.bytes.skip(at as int), content.fault) {
            Step::Record(record, n) => {
                lemma_reach_step(content, at + n, after_record(d0, record), middle, d, strict);
            },
            Step::Bad(_, n) => {
                lemma_reach_step(content, at + n, d0, middle, d, strict);
            },
            _ => {},
        }
    }
}

/// The length of an encoded scan position.
pub const TOKEN_LEN: usize = 16;

/// Whether `token` is the encoded position of a scan: the index of its source and its
/// checkpoint offset, each as eight bytes, least significant first.
pub open spec fn encodes(token: Seq<u8>, state: ScanState) -> bool {
    &&& token.len() == TOKEN_LEN
    &&& le_value(token.subrange(0, 8)) == state.idx
    &&& le_value(token.subrange(8, 16)) == state.offset
}

/// The offset that `token` holds.
pub open spec fn token_offset(token: Seq<u8>) -> nat {
    le_value(token.subrange(8, 16))
}

/// The source index that `token` asks for, of `len` sources: an index past the end
/// stands for the end.
pub open spec fn token_idx(token: Seq<u8>, len: nat) -> nat {
    let idx = (le_value(token.subrange(0, 8)) as u64) as usize as nat;
    if idx < len {
        idx
    } else {
        len
    }
}

/// `state` moved to the position that `token` holds. Anything shorter than a token
/// leaves it as it is.
pub open spec fn restored(state: ScanState, token: Seq<u8>) -> ScanState {
    if token.len() < TOKEN_LEN {
        state
    } else {
        let offset = token_offset(token);
        ScanState {
            idx: token_idx(token, state.sources.len()),
            open: None,
            offset,
            skip_to: if offset > 0 {
                Some(offset)
            } else {
                None
            },
            pending: Seq::empty(),
            ..state
        }
    }
}

/// A resumed scan yields exactly what the checkpointed one had left: nothing is lost
/// and nothing comes twice. `before` is the scan when the checkpoint was taken, `fresh`
/// any scan over the same sources.
pub proof fn resume_is_exact(
    before: ScanState,
    token: Seq<u8>,
    fresh: ScanState,
    outside: Seq<Seq<u8>>,
)
    requires
        before.at_checkpoint(),
        before.agrees_with(outside),
        encodes(token, before),
        fresh.sources == before.sources,
        fresh.strict == before.strict,
    ensures
        restored(fresh, token).remaining(outside) == before.remaining(outside),
{
    let after = restored(fresh, token);
    assert(after.idx == before.idx);
    assert(after.offset == before.offset);
    assert(before.pending == Seq::<RowView>::empty());
    if before.idx < before.sources.len() {
        if let Some(open) = before.open {
            if before.offset > 0 {
                lemma_fast_forward(
                    open.content,
                    0,
                    fresh_decoder(),
                    before.offset,
                    open.decoder,
                    before.terms(),
                );
            }
            assert(after.terms() == before.terms());
            assert(after.current_scan(outside) == before.current_scan(outside));
        }
    }
}

/// Restoring a position and encoding it again gives the same position: a scan that was
/// just resumed can be checkpointed anew.
pub proof fn restored_position_is_kept(before: ScanState, token: Seq<u8>, fresh: ScanState)
    requires
        before.well_formed(),
        encodes(token, before),
        fresh.sources == before.sources,
    ensures
        encodes(token, restored(fresh, token)),
        restored(fresh, token).at_checkpoint(),
{
}

/// Reading one more record changes nothing of what the scan yields in all.
proof fn lemma_step_keeps(s: ScanState, outside: Seq<Seq<u8>>)
    requires
        s.well_formed(),
        s.open is Some,
    ensures
        match stepped(s) {
            Ok(next) => {
                &&& next.well_formed()
                &&& next.remaining(outside) == s.remaining(outside)
                &&& s.agrees_with(outside) ==> next.agrees_with(outside)
                &&& next.failed == s.failed
                &&& next.sources == s.sources
                &&& next.strict == s.strict
                &&& next.pending.len() > 0 ==> next.skip_to is None
            },
            Err(f) => {
                &&& s.strict
                &&& s.remaining(outside).failure == Some(f.message)
                &&& s.remaining(outside).rows == s.pending
                &&& f.rest.well_formed()
                &&& s.agrees_with(outside) ==> f.rest.agrees_with(outside)
            },
        },
{
    let open = s.open->0;
    let content = open.content;
    let at = open.at;
    let terms = s.terms();
    let more = sources_scan(s.sources, outside, s.idx + 1, s.strict);
    match step(content.bytes.skip(at as int), content.fault) {
        Step::Record(record, n) => {
            if !s.failed {
                lemma_reach_step(content, 0, fresh_decoder(), at, open.decoder, s.strict);
            }
            let next = stepped(s)->Ok_0;
            let rows = shown_rows(s.skip_to, at, at + n, rows_of(open.decoder, record));
            let rest = source_scan(
                content,
                at + n,
                after_record(open.decoder, record),
                still_to_skip(s.skip_to, at, at + n),
                terms,
            );
            assert(next.terms() == terms);
            lemma_then_followed(rows, rest, more);
            lemma_then_then(s.pending, rows, followed_by(rest, more));
            assert(s.pending + Seq::<RowView>::empty() == s.pending);
        },
        Step::Bad(message, n) => {
            if s.strict {
                assert(s.pending + Seq::<RowView>::empty() == s.pending);
            } else {
                if !s.failed {
                    lemma_reach_step(content, 0, fresh_decoder(), at, open.decoder, s.strict);
                }
                let next = stepped(s)->Ok_0;
                let row = failure_row(labelled(terms.label, message));
                let rows = shown_rows(s.skip_to, at, at + n, seq![row]);
                let rest = source_scan(
                    content,
                    at + n,
                    open.decoder,
                    still_to_skip(s.skip_to, at, at + n),
                    terms,
                );
                assert(next.terms() == terms);
                lemma_then_followed(rows, rest, more);
                lemma_then_then(s.pending, rows, followed_by(rest, more));
                assert(s.pending + Seq::<RowView>::empty() == s.pending);
            }
        },
        Step::Torn(message, n) => {
            if s.strict {
                assert(s.pending + Seq::<RowView>::empty() == s.pending);
            } else {
                let row = failure_row(labelled(terms.label, message));
                lemma_next_source(s, outside, shown_rows(s.skip_to, at, at + n, seq![row]));
            }
        },
        Step::End => {
            lemma_next_source(s, outside, Seq::empty());
        },
    }
}

/// Reading one more record keeps the scan well formed.
pub proof fn lemma_step_well_formed(s: ScanState)
    requires
        s.well_formed(),
        s.open is Some,
    ensures
        stepped(s) is Ok ==> stepped(s)->Ok_0.well_formed(),
        stepped(s) is Err ==> stepped(s)->Err_0.rest.well_formed(),
{
    lemma_step_keeps(s, Seq::empty());
}

/// Closing a source that yields just `rows` any more leaves the scan with those rows and
/// the sources behind it.
proof fn lemma_next_source(s: ScanState, outside: Seq<Seq<u8>>, rows: Seq<RowView>)
    requires
        s.idx < s.sources.len(),
        s.current_scan(outside) == (Scan { rows, failure: None }),
    ensures
        next_source(s, rows).remaining(outside) == s.remaining(outside),
{
    let more = sources_scan(s.sources, outside, s.idx + 1, s.strict);
    lemma_then_then(s.pending, rows, more);
}

/// Opening a source, with the bytes it has, changes nothing of what the scan yields.
pub proof fn opening_changes_nothing(s: ScanState, raw: Seq<u8>, outside: Seq<Seq<u8>>)
    requires
        s.well_formed(),
        s.idx < s.sources.len(),
        s.open is None,
        raw == raw_bytes(s.sources, outside, s.idx as int),
    ensures
        opened(s, raw).well_formed(),
        opened(s, raw).agrees_with(outside),
        opened(s, raw).remaining(outside) == s.remaining(outside),
{
    assert(opened(s, raw).terms() == s.terms());
}

/// What a pull hands out is the front of what the scan yields, and the rest is still to
/// come: nothing is lost and nothing comes twice. A batch is short of `target` rows only at
/// the end of the scan, and behind a batch the scan can be checkpointed. A strict scan that
/// meets a failure reports it, and stands behind it.
pub proof fn pull_takes_the_front(s: ScanState, target: nat, outside: Seq<Seq<u8>>)
    requires
        s.well_formed(),
        target > 0,
    ensures
        match pulled(s, target) {
            Pulled::Rows(rows, rest) => {
                &&& rows.len() > 0
                &&& rows.len() >= target || rest.idx == rest.sources.len()
                &&& s.remaining(outside) == then_scan(rows, rest.remaining(outside))
                &&& rest.well_formed()
                &&& s.intact() ==> rest.at_checkpoint()
                &&& s.agrees_with(outside) ==> rest.agrees_with(outside)
            },
            Pulled::Open(rest) => {
                &&& rest.idx < rest.sources.len()
                &&& !(rest.sources[rest.idx as int] is Bytes)
                &&& rest.open is None
                &&& rest.remaining(outside) == s.remaining(outside)
                &&& rest.well_formed()
            },
            Pulled::Done(rest) => {
                &&& s.remaining(outside) == nothing()
                &&& rest.well_formed()
            },
            Pulled::Failed(message, rest) => {
                &&& s.strict
                &&& s.remaining(outside).failure == Some(message)
                &&& rest.well_formed()
                &&& s.agrees_with(outside) ==> rest.agrees_with(outside)
            },
        },
    decreases
            s.sources.len() - s.idx,
            if s.open is None {
                1int
            } else {
                0int
            },
            match s.open {
                Some(open) => open.content.bytes.len() - open.at,
                None => 0int,
            },
{
    if s.idx >= s.sources.len() {
        lemma_pull_ends(s, outside);
    } else if s.open is None && !(s.sources[s.idx as int] is Bytes) {
    } else {
        let ready = if s.open is None {
            opened(s, s.sources[s.idx as int]->Bytes_0)
        } else {
            s
        };
        if s.open is None {
            opening_changes_nothing(s, s.sources[s.idx as int]->Bytes_0, outside);
        }
        lemma_step_keeps(ready, outside);
        if let Ok(next) = stepped(ready) {
            if next.pending.len() >= target {
                lemma_pull_ends(next, outside);
            } else {
                pull_takes_the_front(next, target, outside);
            }
        }
    }
}

/// A pull that ends hands out the rows read so far, and the scan goes on behind them.
proof fn lemma_pull_ends(s: ScanState, outside: Seq<Seq<u8>>)
    requires
        s.well_formed(),
        s.idx >= s.sources.len() || s.pending.len() > 0,
    ensures
        match pulled_so_far(s) {
            Pulled::Rows(rows, rest) => {
                &&& rows == s.pending
                &&& rows.len() > 0
                &&& s.remaining(outside) == then_scan(rows, rest.remaining(outside))
                &&& rest.well_formed()
                &&& s.intact() ==> rest.at_checkpoint()
                &&& s.agrees_with(outside) ==> rest.agrees_with(outside)
            },
            Pulled::Done(rest) => s.remaining(outside) == nothing() && rest.well_formed(),
            _ => false,
        },
{
    let later = if s.idx >= s.sources.len() {
        nothing()
    } else {
        followed_by(
            s.current_scan(outside),
            sources_scan(s.sources, outside, s.idx + 1, s.strict),
        )
    };
    let rest = ScanState { pending: Seq::empty(), ..s };
    lemma_then_nothing(later);
    if s.idx < s.sources.len() {
        assert(rest.terms() == s.terms());
    }
    assert(rest.remaining(outside) == later);
    if s.pending.len() == 0 {
        assert(s.pending == Seq::<RowView>::empty());
    }
}

/// Without `strict` no failure ends the scan of a source: everything becomes rows.
pub proof fn lenient_source_never_fails(
    content: Content,
    at: nat,
    d: DecoderView,
    skip_to: Option<nat>,
    terms: Terms,
)
    requires
        !terms.strict,
    ensures
        source_scan(content, at, d, skip_to, terms).failure is None,
    decreases content.bytes.len() - at,
{
    if at <= content.bytes.len() {
        match step(content.bytes.skip(at as int), content.fault) {
            Step::Record(record, n) => {
                lenient_source_never_fails(
                    content,
                    at + n,
                    after_record(d, record),
                    still_to_skip(skip_to, at, at + n),
                    terms,
                );
            },
            Step::Bad(_, n) => {
                lenient_source_never_fails(
                    content,
                    at + n,
                    d,
                    still_to_skip(skip_to, at, at + n),
                    terms,
                );
            },
            _ => {},
        }
    }
}

/// Without `strict` a scan never fails, whatever bytes its sources hold.
pub proof fn lenient_scan_never_fails(
    sources: Seq<SourceView>,
    outside: Seq<Seq<u8>>,
    idx: nat,
)
    ensures
        sources_scan(sources, outside, idx, false).failure is None,
    decreases sources.len() - idx,
{
    if idx < sources.len() {
        let terms = Terms { label: source_label(sources[idx as int]), strict: false };
        lenient_source_never_fails(
            content_of(sources, outside, idx as int),
            0,
            fresh_decoder(),
            None,
            terms,
        );
        lenient_scan_never_fails(sources, outside, idx + 1);
    }
}

/// In strict mode a source fails exactly where a lenient scan of it meets its first
/// failure, and up to there both yield the same rows: the strict rows are the
/// beginning of the lenient ones, followed by the error row of that failure.
pub proof fn strict_stops_at_the_first_error(
    content: Content,
    at: nat,
    d: DecoderView,
    label: Seq<char>,
)
    ensures
        ({
            let strict = source_scan(content, at, d, None, Terms { label, strict: true });
            let lenient = source_scan(content, at, d, None, Terms { label, strict: false });
            match strict.failure {
                None => lenient == strict,
                Some(message) => {
                    &&& strict.rows.len() < lenient.rows.len()
                    &&& lenient.rows.take(strict.rows.len() as int) == strict.rows
                    &&& lenient.rows[strict.rows.len() as int] == failure_row(message)
                },
            }
        }),
    decreases content.bytes.len() - at,
{
    let s = Terms { label, strict: true };
    let l = Terms { label, strict: false };
    if at <= content.bytes.len() {
        match step(content.bytes.skip(at as int), content.fault) {
            Step::Record(record, n) => {
                let next = after_record(d, record);
                strict_stops_at_the_first_error(content, at + n, next, label);
                let rows = rows_of(d, record);
                let strict = source_scan(content, at + n, next, None, s);
                let lenient = source_scan(content, at + n, next, None, l);
                let k = strict.rows.len() as int;
                if strict.failure is Some {
                    assert((rows + lenient.rows).take(rows.len() + k) == rows + lenient.rows.take(
                        k,
                    ));
                    assert((rows + lenient.rows)[rows.len() + k] == lenient.rows[k]);
                }
            },
            Step::Bad(message, n) => {
                let rest = source_scan(content, at + n, d, None, l);
                let row = failure_row(labelled(label, message));
                assert((seq![row] + rest.rows).take(0) == Seq::<RowView>::empty());
                assert((seq![row] + rest.rows)[0] == row);
            },
            Step::Torn(message, n) => {
                let row = failure_row(labelled(label, message));
                assert(seq![row].take(0) == Seq::<RowView>::empty());
            },
            Step::End => {},
        }
    }
}

} // verus!
