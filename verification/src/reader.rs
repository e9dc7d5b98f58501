//! Streaming MRT reader shared by `read_rib` and `read_updates`.
//!
//! ## Byte-offset externalized scan state
//!
//! MRT is a single sequential binary stream. The producer decodes it one batch at a
//! time and checkpoints, at each record boundary, the **decompressed-stream byte
//! offset** plus the index of the source being read. That `{source, offset}` pair is
//! the externalized scan state: a scan is resumed by rebuilding the producer and
//! calling [`MrtProducer::restore_resume`], which fast-forwards the stream to the
//! checkpoint (re-reading the leading records so that a TABLE_DUMP_V2
//! `PEER_INDEX_TABLE` is rebuilt). The resumed scan yields exactly the rows that the
//! checkpointed one had left: see [`crate::scan::resume_is_exact`].
//!
//! ## Per-record error capture
//!
//! A recoverable parse error (a corrupt body whose bytes were fully consumed) becomes
//! an `error`-column row and the scan continues with the next record. A truncated tail
//! (a short read) becomes one error row and ends that source. `strict => true` turns
//! either into a hard error instead.
use crate::arrow_io::fits_batch;
use crate::arrow_io::rib_cells;
use crate::arrow_io::rib_columns;
use crate::arrow_io::rib_columns_match_schema;
use crate::arrow_io::rib_fields;
use crate::arrow_io::rows_fit;
use crate::arrow_io::updates_cells;
use crate::arrow_io::updates_columns;
use crate::arrow_io::updates_columns_match_schema;
use crate::arrow_io::updates_fields;
use crate::bytes::le_read;
use crate::bytes::le_vec;
use crate::bytes::lemma_weight_16;
use crate::columns::batch_cells;
use crate::columns::batch_fits;
use crate::columns::new_batch;
use crate::columns::schema_view;
use crate::columns::Batch;
use crate::columns::Cells;
use crate::columns::FieldView;
use crate::decode::fresh_decoder;
use crate::decode::is_recoverable;
use crate::decode::next_record;
use crate::decode::row_views;
use crate::decode::Decoder;
use crate::decode::MrtRow;
use crate::decode::RowView;
use crate::error::bad_value;
use crate::error::Blame;
use crate::error::Error;
use crate::scan::encodes;
use crate::scan::labelled;
use crate::scan::lemma_step_well_formed;
use crate::scan::next_source;
use crate::scan::opened;
use crate::scan::pulled;
use crate::scan::pulled_so_far;
use crate::scan::restored;
use crate::scan::source_label;
use crate::scan::stepped;
use crate::scan::Failure;
use crate::scan::OpenSource;
use crate::scan::Pulled;
use crate::scan::ScanState;
use crate::scan::SourceView;
use crate::scan::TOKEN_LEN;
use crate::stream::decompress_reader;
use crate::stream::ByteRead;
use crate::stream::ByteStream;
use crate::stream::Content;
use crate::stream::CountingReader;
use crate::text::chars_of;
use crate::text::joined;
use crate::text::parse_number;
use crate::text::parse_unsigned;
use arrow_schema::Schema;
use std::sync::Arc;
use vstd::prelude::*;

verus! {

/// Default rows accumulated before a batch is emitted (a RIB record can expand to many
/// rows, so a batch may overshoot slightly — kept whole so the checkpoint always lands
/// on a record boundary).
pub const DEFAULT_BATCH_ROWS: usize = 2048;

/// The batch-row target that a setting asks for: a positive decimal number, or the
/// default.
pub open spec fn batch_target(setting: Option<Seq<char>>) -> usize {
    match setting {
        Some(text) => match parse_unsigned(text, usize::MAX as nat) {
            Some(n) => if n > 0 {
                n as usize
            } else {
                DEFAULT_BATCH_ROWS
            },
            None => DEFAULT_BATCH_ROWS,
        },
        None => DEFAULT_BATCH_ROWS,
    }
}

/// The batch-row target, honoring an override so that a small batch can be forced.
pub fn batch_rows(setting: Option<&str>) -> (target: usize)
    ensures
        target == batch_target(
            match setting {
                Some(text) => Some(text@),
                None => None,
            },
        ),
        target > 0,
{
    match setting {
        Some(text) => match parse_number(&chars_of(text), usize::MAX as u64) {
            Some(n) => if n > 0 {
                n as usize
            } else {
                DEFAULT_BATCH_ROWS
            },
            None => DEFAULT_BATCH_ROWS,
        },
        None => DEFAULT_BATCH_ROWS,
    }
}

/// A resolved byte source ready to open.
#[derive(Debug, PartialEq, Eq)]
pub enum Source {
    /// A local path.
    Local(String),
    /// A remote object, by its URL.
    Remote(String),
    /// Inline MRT bytes.
    Bytes(Vec<u8>),
}

impl View for Source {
    type V = SourceView;

    open spec fn view(&self) -> SourceView {
        match *self {
            Source::Local(path) => SourceView::Local(path@),
            Source::Remote(url) => SourceView::Remote(url@),
            Source::Bytes(bytes) => SourceView::Bytes(bytes@),
        }
    }
}

/// The views of a list of sources.
pub open spec fn source_views(sources: Seq<Source>) -> Seq<SourceView> {
    sources.map_values(|s: Source| s@)
}

impl Source {
    /// How the source is named in messages.
    pub fn label(&self) -> (label: String)
        ensures
            label@ == source_label(self@),
    {
        match self {
            Source::Local(path) => path.clone(),
            Source::Remote(url) => url.clone(),
            Source::Bytes(_) => "<blob>".to_string(),
        }
    }

    /// The bytes of an inline source. The others have to be fetched.
    pub fn inline_bytes(&self) -> (bytes: Option<Vec<u8>>)
        ensures
            bytes is Some <==> self@ is Bytes,
            bytes is Some ==> self@ == SourceView::Bytes(bytes->0@),
    {
        match self {
            Source::Bytes(bytes) => {
                let mut copy: Vec<u8> = Vec::new();
                copy.extend_from_slice(bytes.as_slice());
                assert(copy@ == bytes@);
                Some(copy)
            },
            _ => None,
        }
    }
}

/// What a pull gives.
pub enum Pull {
    /// The rows of the next batch: at least one.
    Rows(Vec<MrtRow>),
    /// The source with this index has to be opened before the scan can go on.
    Open(usize),
    /// The scan is exhausted.
    Done,
}

type Reader = CountingReader<ByteStream>;

/// A scan over sources: the state machine behind `read_rib` and `read_updates`.
pub struct Scanner {
    strict: bool,
    target: usize,
    sources: Vec<Source>,
    /// Index of the source currently being read.
    idx: usize,
    /// The current source's decompressed byte reader.
    reader: Option<Reader>,
    /// Per-source MRT decoder (peer index table + view name).
    decoder: Decoder,
    /// Decompressed byte offset of the next record in the current source.
    offset: u64,
    /// On resume, the offset to fast-forward the current source to.
    skip_to: Option<u64>,
    /// Rows that were read and not handed out yet.
    pending: Vec<MrtRow>,
    /// The stream that `reader` stands in.
    opened: Ghost<Content>,
    /// Whether a failure in that stream was reported.
    failed: Ghost<bool>,
}

impl View for Scanner {
    type V = ScanState;

    closed spec fn view(&self) -> ScanState {
        ScanState {
            sources: source_views(self.sources@),
            strict: self.strict,
            idx: self.idx as nat,
            open: match self.reader {
                Some(reader) => Some(
                    OpenSource {
                        content: self.opened@,
                        at: reader.position(),
                        decoder: self.decoder@,
                    },
                ),
                None => None,
            },
            offset: self.offset as nat,
            skip_to: match self.skip_to {
                Some(t) => Some(t as nat),
                None => None,
            },
            pending: row_views(self.pending@),
            failed: self.failed@,
        }
    }
}

impl Scanner {
    /// Whether the scanner's parts fit together.
    pub closed spec fn valid(self) -> bool {
        &&& self@.well_formed()
        &&& self.target > 0
        &&& self.reader is Some ==> {
            let reader = self.reader->0;
            &&& reader.valid()
            &&& self.opened@.bytes.len() <= u64::MAX
            &&& reader.position() <= self.opened@.bytes.len()
            &&& reader.unread() == self.opened@.bytes.skip(reader.position() as int)
            &&& reader.fault() == self.opened@.fault
        }
    }

    /// The batch-row target.
    pub closed spec fn target(self) -> usize {
        self.target
    }

    /// What a valid scanner keeps: its scan is well formed, and its target is positive.
    pub proof fn valid_scans(self)
        requires
            self.valid(),
        ensures
            self@.well_formed(),
            self.target() > 0,
    {
    }

    /// A scan over `sources` from their beginning.
    pub fn new(strict: bool, sources: Vec<Source>) -> (scanner: Scanner)
        ensures
            scanner.valid(),
            scanner@.at_checkpoint(),
            scanner.target() == DEFAULT_BATCH_ROWS,
            scanner@ == (ScanState {
                sources: source_views(sources@),
                strict,
                idx: 0,
                open: None,
                offset: 0,
                skip_to: None,
                pending: Seq::empty(),
                failed: false,
            }),
    {
        let n: usize = sources.len();
        let scanner = Scanner {
            strict,
            target: DEFAULT_BATCH_ROWS,
            sources,
            idx: 0,
            reader: None,
            decoder: Decoder::new(),
            offset: 0,
            skip_to: None,
            pending: Vec::new(),
            opened: Ghost(Content { bytes: Seq::empty(), fault: None }),
            failed: Ghost(false),
        };
        assert(scanner@.pending == Seq::<RowView>::empty());
        scanner
    }

    /// Set the batch-row target.
    pub fn set_target(&mut self, target: usize)
        requires
            old(self).valid(),
            target > 0,
        ensures
            final(self).valid(),
            final(self)@ == old(self)@,
            final(self).target() == target,
    {
        self.target = target;
    }

    /// Open the source that the scan stands before: `raw` are its bytes as they were
    /// fetched. Compressed sources are decompressed.
    pub fn open_current(&mut self, raw: Vec<u8>)
        requires
            old(self).valid(),
            old(self)@.idx < old(self)@.sources.len(),
            old(self)@.open is None,
        ensures
            final(self).valid(),
            final(self).target() == old(self).target(),
            final(self)@ == opened(old(self)@, raw@),
    {
        let ghost content = crate::stream::decompressed(raw@);
        let plain = decompress_reader(raw);
        self.opened = Ghost(content);
        self.failed = Ghost(false);
        let left: usize = plain.rest().len();
        self.reader = Some(CountingReader::new(plain));
        self.decoder = Decoder::new();
        self.offset = 0;
        assert(content.bytes.skip(0) == content.bytes);
        assert(content.bytes.len() == left);
    }

    /// Advance to the next source (closing the current one).
    fn advance(&mut self)
        requires
            old(self).target > 0,
            old(self).idx < old(self).sources@.len() <= usize::MAX,
            old(self).skip_to is Some ==> old(self).pending@.len() == 0,
        ensures
            final(self).valid(),
            final(self).target() == old(self).target(),
            final(self)@ == next_source(old(self)@, Seq::empty()),
    {
        self.reader = None;
        self.idx = self.idx + 1;
        self.skip_to = None;
        self.offset = 0;
        assert(old(self)@.pending + Seq::<RowView>::empty() == old(self)@.pending);
    }

    /// Report a failure in the current source under the source's label.
    fn failure(&self, message: &str) -> (text: String)
        requires
            self.idx < self.sources@.len(),
        ensures
            text@ == labelled(source_label(self.sources@[self.idx as int]@), message@),
    {
        let label = self.sources[self.idx].label();
        let head = joined(label.as_str(), ": ");
        joined(head.as_str(), message)
    }

    /// Read one record of the open source.
    fn read_next(&mut self) -> (out: Result<(), String>)
        requires
            old(self).valid(),
            old(self)@.open is Some,
        ensures
            final(self).valid(),
            final(self).target() == old(self).target(),
            match out {
                Ok(_) => stepped(old(self)@) == Ok::<ScanState, Failure>(final(self)@),
                Err(message) => stepped(old(self)@) == Err::<ScanState, Failure>(
                    Failure { message: message@, rest: final(self)@ },
                ),
            },
    {
        let ghost s0 = self@;
        let ghost content = s0.open->0.content;
        let ghost at = s0.open->0.at;
        let mut reader = match self.reader.take() {
            Some(reader) => reader,
            None => return Ok(()),
        };
        let ghost n = crate::decode::used(content.bytes.skip(at as int));
        let start: u64 = reader.count();
        let next = next_record(&mut reader);
        let end: u64 = reader.count();
        assert(content.bytes.skip(at as int).skip(n) == content.bytes.skip(at + n));
        let shown = match self.skip_to {
            None => true,
            Some(t) => end > t || start >= t,
        };
        self.reader = Some(reader);
        let ghost pending0 = self.pending@;
        proof {
            lemma_step_well_formed(s0);
        }
        match next {
            Ok(Some(record)) => {
                let mut rows = self.decoder.record_rows(record);
                let ghost rows0 = rows@;
                self.offset = end;
                if shown {
                    self.skip_to = None;
                    self.pending.append(&mut rows);
                    assert(row_views(self.pending@) == row_views(pending0) + row_views(rows0));
                } else {
                    assert(s0.pending + Seq::<RowView>::empty() == s0.pending);
                }
                Ok(())
            },
            Ok(None) => {
                self.advance();
                Ok(())
            },
            Err(err) => {
                let message = self.failure(err.message.as_str());
                if self.strict {
                    self.failed = Ghost(true);
                    return Err(message);
                }
                let ghost row = crate::decode::failure_row(message@);
                if shown {
                    self.skip_to = None;
                    self.pending.push(MrtRow::error_row(message));
                    assert(row_views(self.pending@) == row_views(pending0).push(row));
                    assert(row_views(pending0).push(row) == s0.pending + seq![row]);
                } else {
                    assert(s0.pending + Seq::<RowView>::empty() == s0.pending);
                }
                if is_recoverable(&err) {
                    // Body fully consumed: the stream is aligned, keep going.
                    self.offset = end;
                } else {
                    // Truncation / short read: this source is torn, stop it.
                    self.advance();
                    assert(row_views(self.pending@) + Seq::<RowView>::empty() == row_views(
                        self.pending@,
                    ));
                }
                Ok(())
            },
        }
    }

    /// Read on until the batch-row target is reached, a source has to be opened, or the
    /// scan is exhausted. Inline sources are opened here.
    ///
    /// A strict scan that meets a failure reports it and drops the rows it had not handed
    /// out. A further pull reads on behind the failure.
    pub fn pull_rows(&mut self) -> (out: Result<Pull, String>)
        requires
            old(self).valid(),
        ensures
            final(self).valid(),
            final(self).target() == old(self).target(),
            final(self)@.sources == old(self)@.sources,
            final(self)@.strict == old(self)@.strict,
            final(self)@.well_formed(),
            match pulled(old(self)@, old(self).target() as nat) {
                Pulled::Rows(rows, rest) => {
                    &&& final(self)@ == rest
                    &&& out matches Ok(Pull::Rows(found)) && row_views(found@) == rows
                },
                Pulled::Open(rest) => {
                    &&& final(self)@ == rest
                    &&& out matches Ok(Pull::Open(i)) && i == rest.idx
                },
                Pulled::Done(rest) => final(self)@ == rest && out matches Ok(Pull::Done),
                Pulled::Failed(message, rest) => {
                    &&& final(self)@ == rest
                    &&& out matches Err(found) && found@ == message
                },
            },
    {
        loop
            invariant_except_break
                pulled(self@, self.target() as nat) == pulled(
                    old(self)@,
                    old(self).target() as nat,
                ),
            invariant
                self.valid(),
                self.target() == old(self).target(),
                self@.sources == old(self)@.sources,
                self@.strict == old(self)@.strict,
            ensures
                pulled_so_far(self@) == pulled(old(self)@, old(self).target() as nat),
            decreases
                    self@.sources.len() - self@.idx,
                    if self@.open is None {
                        1int
                    } else {
                        0int
                    },
                    match self@.open {
                        Some(open) => open.content.bytes.len() - open.at,
                        None => 0int,
                    },
        {
            if self.idx >= self.sources.len() {
                break ;
            }
            if self.reader.is_none() {
                match self.sources[self.idx].inline_bytes() {
                    Some(bytes) => {
                        self.open_current(bytes);
                    },
                    None => {
                        return Ok(Pull::Open(self.idx));
                    },
                }
            }
            match self.read_next() {
                Ok(_) => {},
                Err(message) => {
                    self.pending = Vec::new();
                    assert(self@.pending == Seq::<RowView>::empty());
                    return Err(message);
                },
            }
            if self.pending.len() >= self.target {
                break ;
            }
        }
        let mut rows: Vec<MrtRow> = Vec::new();
        let ghost found = self.pending@;
        rows.append(&mut self.pending);
        assert(rows@ == found);
        assert(self@.pending == Seq::<RowView>::empty());
        if rows.len() == 0 {
            Ok(Pull::Done)
        } else {
            Ok(Pull::Rows(rows))
        }
    }

    /// Encode the scan position: `[source_idx u64 LE][byte_offset u64 LE]`.
    pub fn encode_resume(&self) -> (token: Vec<u8>)
        requires
            self.valid(),
        ensures
            encodes(token@, self@),
    {
        proof {
            lemma_weight_16();
        }
        let mut token = le_vec(self.idx as u128, 8);
        let mut offset = le_vec(self.offset as u128, 8);
        let ghost first = token@;
        let ghost second = offset@;
        token.append(&mut offset);
        assert(token@.subrange(0, 8) == first);
        assert(token@.subrange(8, 16) == second);
        token
    }

    /// Restore the scan position: jump to `source_idx`, fast-forward to `byte_offset`.
    /// Inverse of [`encode_resume`](Self::encode_resume).
    pub fn restore_resume(&mut self, bytes: &[u8])
        requires
            old(self).valid(),
        ensures
            final(self).valid(),
            final(self).target() == old(self).target(),
            final(self)@ == restored(old(self)@, bytes@),
            bytes@.len() >= TOKEN_LEN ==> final(self)@.at_checkpoint(),
    {
        if bytes.len() < TOKEN_LEN {
            return ;
        }
        let idx: usize = le_read(bytes, 0) as usize;
        let offset: u64 = le_read(bytes, 8);
        self.idx = if idx < self.sources.len() {
            idx
        } else {
            self.sources.len()
        };
        self.reader = None;
        self.offset = offset;
        self.skip_to = if offset > 0 {
            Some(offset)
        } else {
            None
        };
        self.pending = Vec::new();
        assert(self@.pending == Seq::<RowView>::empty());
    }

    /// Drop the rows that were read and not handed out: the scan could not be taken
    /// further.
    pub fn abandon(&mut self)
        requires
            old(self).valid(),
        ensures
            final(self).valid(),
            final(self).target() == old(self).target(),
            final(self)@ == (ScanState { pending: Seq::empty(), ..old(self)@ }),
    {
        self.pending = Vec::new();
        assert(self@.pending == Seq::<RowView>::empty());
    }
}

/// Which table the producer is feeding (selects the output column layout).
#[derive(Debug, Clone, Copy, PartialEq, Eq, Structural)]
pub enum Kind {
    Rib,
    Updates,
}

/// The columns of a table for `rows`.
pub open spec fn table_cells(kind: Kind, rows: Seq<RowView>) -> Seq<Cells> {
    match kind {
        Kind::Rib => rib_cells(rows),
        Kind::Updates => updates_cells(rows),
    }
}

/// The fields of a table.
pub open spec fn table_fields(kind: Kind) -> Seq<FieldView> {
    match kind {
        Kind::Rib => rib_fields(),
        Kind::Updates => updates_fields(),
    }
}

/// Whether `rows` can be one batch of a table under `schema`.
pub open spec fn rows_make_batch(kind: Kind, schema: Seq<FieldView>, rows: Seq<RowView>) -> bool {
    fits_batch(rows) && batch_fits(schema, table_cells(kind, rows))
}

/// What pulling a batch gives.
pub enum BatchPull {
    /// The next batch.
    Batch(Batch),
    /// The source with this index has to be opened before the scan can go on.
    Open(usize),
    /// The scan is exhausted.
    Done,
}

/// The streaming producer for `read_rib` / `read_updates`.
pub struct MrtProducer {
    schema: Arc<Schema>,
    kind: Kind,
    scanner: Scanner,
}

impl View for MrtProducer {
    type V = ScanState;

    closed spec fn view(&self) -> ScanState {
        self.scanner@
    }
}

impl MrtProducer {
    /// Whether the producer's parts fit together.
    pub closed spec fn valid(self) -> bool {
        self.scanner.valid()
    }

    /// The fields of the output schema.
    pub closed spec fn fields(self) -> Seq<FieldView> {
        schema_view(*self.schema)
    }

    /// The table that is fed.
    pub closed spec fn kind(self) -> Kind {
        self.kind
    }

    /// The batch-row target.
    pub closed spec fn target(self) -> usize {
        self.scanner.target()
    }

    /// What a valid producer keeps: its scan is well formed, and its target is positive.
    pub proof fn valid_scans(self)
        requires
            self.valid(),
        ensures
            self@.well_formed(),
            self.target() > 0,
    {
        self.scanner.valid_scans();
    }

    /// Whether nothing but the scan's position differs.
    pub open spec fn same_scan(self, other: MrtProducer) -> bool {
        &&& self.fields() == other.fields()
        &&& self.kind() == other.kind()
        &&& self.target() == other.target()
        &&& self@.sources == other@.sources
        &&& self@.strict == other@.strict
    }

    /// A producer that scans `sources` from their beginning.
    pub fn new(schema: Arc<Schema>, kind: Kind, strict: bool, sources: Vec<Source>) -> (producer:
        MrtProducer)
        ensures
            producer.valid(),
            producer@.at_checkpoint(),
            producer.fields() == schema_view(*schema),
            producer.kind() == kind,
            producer.target() == DEFAULT_BATCH_ROWS,
            producer@ == (ScanState {
                sources: source_views(sources@),
                strict,
                idx: 0,
                open: None,
                offset: 0,
                skip_to: None,
                pending: Seq::empty(),
                failed: false,
            }),
    {
        MrtProducer { schema, kind, scanner: Scanner::new(strict, sources) }
    }

    /// Set the batch-row target from a setting (see [`batch_rows`]).
    pub fn set_batch_rows(&mut self, setting: Option<&str>)
        requires
            old(self).valid(),
        ensures
            final(self).valid(),
            final(self)@ == old(self)@,
            final(self).fields() == old(self).fields(),
            final(self).kind() == old(self).kind(),
            final(self).target() == batch_target(
                match setting {
                    Some(text) => Some(text@),
                    None => None,
                },
            ),
    {
        let target: usize = batch_rows(setting);
        self.scanner.set_target(target);
    }

    /// The label of source `i`.
    pub fn source_label(&self, i: usize) -> (label: String)
        requires
            self.valid(),
            i < self@.sources.len(),
        ensures
            label@ == source_label(self@.sources[i as int]),
    {
        self.scanner.sources[i].label()
    }

    /// Open the source that [`pull_batch`](Self::pull_batch) asked for: `raw` are its
    /// bytes as they were fetched.
    pub fn open_current(&mut self, raw: Vec<u8>)
        requires
            old(self).valid(),
            old(self)@.idx < old(self)@.sources.len(),
            old(self)@.open is None,
        ensures
            final(self).valid(),
            final(self).same_scan(*old(self)),
            final(self)@ == opened(old(self)@, raw@),
    {
        self.scanner.open_current(raw);
    }

    /// Drop the rows that were read and not handed out: the source that was asked for
    /// could not be opened.
    pub fn abandon(&mut self)
        requires
            old(self).valid(),
        ensures
            final(self).valid(),
            final(self).same_scan(*old(self)),
            final(self)@ == (ScanState { pending: Seq::empty(), ..old(self)@ }),
    {
        self.scanner.abandon();
    }

    /// The batch of `rows`. Rows that do not fit one batch, and rows whose columns do not
    /// match the schema, are an error of the worker.
    pub fn build_batch(&self, rows: &Vec<MrtRow>) -> (out: Result<Batch, Error>)
        ensures
            out is Ok <==> rows_make_batch(self.kind(), self.fields(), row_views(rows@)),
            out is Ok ==> batch_cells(out->Ok_0) == table_cells(self.kind(), row_views(rows@)),
            out is Err ==> out->Err_0.blame == Blame::Runtime,
            !fits_batch(row_views(rows@)) ==> out is Err && out->Err_0.message@
                == "batch is too large for its columns"@,
    {
        if !rows_fit(rows.as_slice()) {
            return Err(
                Error::runtime_error("batch is too large for its columns".to_string()),
            );
        }
        let columns = match self.kind {
            Kind::Rib => rib_columns(rows.as_slice()),
            Kind::Updates => updates_columns(rows.as_slice()),
        };
        proof {
            rib_columns_match_schema(row_views(rows@));
            updates_columns_match_schema(row_views(rows@));
        }
        match new_batch(&self.schema, columns) {
            Ok(batch) => Ok(batch),
            Err(message) => Err(Error::runtime_error(message)),
        }
    }

    /// The whole streaming step: decode one batch worth of records. Where a source has to
    /// be opened first, its index is handed out; the caller opens it and pulls again.
    pub fn pull_batch(&mut self) -> (out: Result<BatchPull, Error>)
        requires
            old(self).valid(),
        ensures
            final(self).valid(),
            final(self).same_scan(*old(self)),
            final(self)@.well_formed(),
            match pulled(old(self)@, old(self).target() as nat) {
                Pulled::Rows(rows, rest) => {
                    &&& final(self)@ == rest
                    &&& match out {
                        Ok(BatchPull::Batch(batch)) => rows_make_batch(
                            old(self).kind(),
                            old(self).fields(),
                            rows,
                        ) && batch_cells(batch) == table_cells(old(self).kind(), rows),
                        Ok(_) => false,
                        Err(e) => e.blame == Blame::Runtime && !rows_make_batch(
                            old(self).kind(),
                            old(self).fields(),
                            rows,
                        ),
                    }
                },
                Pulled::Open(rest) => {
                    &&& final(self)@ == rest
                    &&& out matches Ok(BatchPull::Open(i)) && i == rest.idx
                },
                Pulled::Done(rest) => final(self)@ == rest && out matches Ok(BatchPull::Done),
                Pulled::Failed(message, rest) => {
                    &&& final(self)@ == rest
                    &&& out is Err
                    &&& out->Err_0@ == bad_value(message)
                },
            },
    {
        match self.scanner.pull_rows() {
            Ok(Pull::Rows(rows)) => match self.build_batch(&rows) {
                Ok(batch) => Ok(BatchPull::Batch(batch)),
                Err(e) => Err(e),
            },
            Ok(Pull::Open(i)) => Ok(BatchPull::Open(i)),
            Ok(Pull::Done) => Ok(BatchPull::Done),
            Err(message) => Err(Error::value_error(message)),
        }
    }

    /// Whether the scan can be resumed: it can.
    pub fn resume_supported(&self) -> (yes: bool)
        ensures
            yes,
    {
        true
    }

    /// Encode the scan position: `[source_idx u64 LE][byte_offset u64 LE]`.
    pub fn encode_resume(&self) -> (token: Vec<u8>)
        requires
            self.valid(),
        ensures
            encodes(token@, self@),
    {
        self.scanner.encode_resume()
    }

    /// Restore the scan position: jump to `source_idx`, fast-forward to `byte_offset`.
    /// Inverse of [`encode_resume`](Self::encode_resume).
    pub fn restore_resume(&mut self, bytes: &[u8])
        requires
            old(self).valid(),
        ensures
            final(self).valid(),
            final(self).same_scan(*old(self)),
            final(self)@ == restored(old(self)@, bytes@),
            bytes@.len() >= TOKEN_LEN ==> final(self)@.at_checkpoint(),
    {
        self.scanner.restore_resume(bytes);
    }
}

/// With the table's own schema, a batch is refused only where its rows are too large for
/// Arrow's 32-bit offsets.
pub proof fn table_schema_always_fits(kind: Kind, rows: Seq<RowView>)
    ensures
        rows_make_batch(kind, table_fields(kind), rows) <==> fits_batch(rows),
{
    rib_columns_match_schema(rows);
    updates_columns_match_schema(rows);
}

} // verus!
