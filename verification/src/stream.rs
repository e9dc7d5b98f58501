//! Byte streams: what the MRT decoder reads from.
//!
//! A stream is the bytes that are still to come and the fault, if any, that a
//! reader meets once they are used up (a damaged archive gives its leading bytes
//! and then an error). Streams are held in memory; the offset that a scan
//! checkpoints is counted in the **decompressed** domain, which is what record
//! framing walks.
use std::io::BufRead;
use std::io::BufReader;
use std::io::Read;
use vstd::prelude::*;
use vstd::slice::slice_subrange;

verus! {

/// What went wrong behind the last readable byte of a stream.
#[derive(Debug)]
pub struct Fault {
    /// The source ended where more was due, as opposed to any other failure.
    pub unexpected_eof: bool,
    /// The failure in words.
    pub message: String,
}

/// A fault, with its message as a sequence of characters.
pub struct FaultView {
    pub unexpected_eof: bool,
    pub message: Seq<char>,
}

impl View for Fault {
    type V = FaultView;

    open spec fn view(&self) -> FaultView {
        FaultView { unexpected_eof: self.unexpected_eof, message: self.message@ }
    }
}

/// An optional fault, by its view.
pub open spec fn fault_view(fault: Option<Fault>) -> Option<FaultView> {
    match fault {
        Some(f) => Some(f@),
        None => None,
    }
}

/// The content of a whole stream: its bytes, then its fault.
pub struct Content {
    pub bytes: Seq<u8>,
    pub fault: Option<FaultView>,
}

/// A reader over bytes: a place in a stream that only moves forward.
pub trait ByteRead: Sized {
    /// Whether the reader's own bookkeeping is in order.
    spec fn valid(&self) -> bool;

    /// The bytes that are still to come.
    spec fn unread(&self) -> Seq<u8>;

    /// The fault behind the last byte.
    spec fn fault(&self) -> Option<FaultView>;

    /// How many bytes the reader has handed out.
    spec fn position(&self) -> nat;

    /// The bytes that are still to come.
    fn rest(&self) -> (bytes: &[u8])
        requires
            self.valid(),
        ensures
            bytes@ == self.unread(),
    ;

    /// The fault behind the last byte.
    fn pending_fault(&self) -> (fault: &Option<Fault>)
        requires
            self.valid(),
        ensures
            fault_view(*fault) == self.fault(),
    ;

    /// Move forward by `n` bytes.
    fn consume(&mut self, n: usize)
        requires
            old(self).valid(),
            n <= old(self).unread().len(),
        ensures
            final(self).valid(),
            final(self).unread() == old(self).unread().skip(n as int),
            final(self).fault() == old(self).fault(),
            final(self).position() == old(self).position() + n,
    ;
}

/// A stream held in memory.
pub struct ByteStream {
    bytes: Vec<u8>,
    pos: usize,
    fault: Option<Fault>,
}

impl ByteStream {
    /// A stream of `bytes` with nothing wrong behind them.
    pub fn new(bytes: Vec<u8>) -> (stream: ByteStream)
        ensures
            stream.valid(),
            stream.unread() == bytes@,
            stream.fault() is None,
            stream.position() == 0,
    {
        let stream = ByteStream { bytes, pos: 0, fault: None };
        assert(stream.unread() == bytes@);
        stream
    }

    /// A stream of `bytes` with `fault` behind them.
    pub fn with_fault(bytes: Vec<u8>, fault: Option<Fault>) -> (stream: ByteStream)
        ensures
            stream.valid(),
            stream.unread() == bytes@,
            stream.fault() == fault_view(fault),
            stream.position() == 0,
    {
        let stream = ByteStream { bytes, pos: 0, fault };
        assert(stream.unread() == bytes@);
        stream
    }
}

impl ByteRead for ByteStream {
    closed spec fn valid(&self) -> bool {
        self.pos <= self.bytes@.len()
    }

    closed spec fn unread(&self) -> Seq<u8> {
        self.bytes@.skip(self.pos as int)
    }

    closed spec fn fault(&self) -> Option<FaultView> {
        fault_view(self.fault)
    }

    closed spec fn position(&self) -> nat {
        self.pos as nat
    }

    fn rest(&self) -> (bytes: &[u8]) {
        slice_subrange(self.bytes.as_slice(), self.pos, self.bytes.len())
    }

    fn pending_fault(&self) -> (fault: &Option<Fault>) {
        &self.fault
    }

    fn consume(&mut self, n: usize) {
        assert(self.bytes@.skip(self.pos as int).skip(n as int) == self.bytes@.skip(self.pos + n));
        let total: usize = self.bytes.len();
        assert(self.pos + n <= total);
        self.pos = self.pos + n;
    }
}

/// A reader that counts the bytes taken from another, so that a scan can
/// checkpoint the decompressed-stream offset at each record boundary.
pub struct CountingReader<R> {
    inner: R,
    count: u64,
}

impl<R: ByteRead> CountingReader<R> {
    /// Wrap `inner`, counting from zero.
    pub fn new(inner: R) -> (reader: CountingReader<R>)
        requires
            inner.valid(),
        ensures
            reader.valid(),
            reader.unread() == inner.unread(),
            reader.fault() == inner.fault(),
            reader.position() == 0,
    {
        let left: usize = inner.rest().len();
        assert(left == inner.unread().len());
        CountingReader { inner, count: 0 }
    }

    /// Total bytes read so far.
    pub fn count(&self) -> (n: u64)
        ensures
            n == self.position(),
    {
        self.count
    }
}

impl<R: ByteRead> ByteRead for CountingReader<R> {
    closed spec fn valid(&self) -> bool {
        self.inner.valid() && self.count + self.inner.unread().len() <= u64::MAX
    }

    closed spec fn unread(&self) -> Seq<u8> {
        self.inner.unread()
    }

    closed spec fn fault(&self) -> Option<FaultView> {
        self.inner.fault()
    }

    closed spec fn position(&self) -> nat {
        self.count as nat
    }

    fn rest(&self) -> (bytes: &[u8]) {
        self.inner.rest()
    }

    fn pending_fault(&self) -> (fault: &Option<Fault>) {
        self.inner.pending_fault()
    }

    fn consume(&mut self, n: usize) {
        self.inner.consume(n);
        self.count = self.count + n as u64;
    }
}

/// Read up to `max` bytes: all that are left, if they are fewer.
pub fn read_up_to<R: ByteRead>(reader: &mut R, max: usize) -> (out: Vec<u8>)
    requires
        old(reader).valid(),
    ensures
        final(reader).valid(),
        final(reader).fault() == old(reader).fault(),
        out@.len() == if max <= old(reader).unread().len() {
            max as nat
        } else {
            old(reader).unread().len()
        },
        out@ == old(reader).unread().take(out@.len() as int),
        final(reader).unread() == old(reader).unread().skip(out@.len() as int),
        final(reader).position() == old(reader).position() + out@.len(),
{
    let mut out: Vec<u8> = Vec::new();
    let rest = reader.rest();
    let n: usize = if max <= rest.len() {
        max
    } else {
        rest.len()
    };
    out.extend_from_slice(slice_subrange(rest, 0, n));
    assert(out@ == reader.unread().take(n as int));
    reader.consume(n);
    out
}

/// Discard exactly `n` bytes (used to resume a scan at a checkpointed offset).
/// Where the stream is shorter, all of it is discarded and the reason is returned:
/// the fault behind its last byte, or that it ended before the resume offset.
pub fn skip_bytes<R: ByteRead>(reader: &mut R, n: u64) -> (out: Result<(), Fault>)
    requires
        old(reader).valid(),
    ensures
        final(reader).valid(),
        final(reader).fault() == old(reader).fault(),
        out is Ok <==> n <= old(reader).unread().len(),
        match out {
            Ok(_) => {
                &&& final(reader).unread() == old(reader).unread().skip(n as int)
                &&& final(reader).position() == old(reader).position() + n
            },
            Err(e) => {
                &&& final(reader).unread().len() == 0
                &&& final(reader).position() == old(reader).position() + old(reader).unread().len()
                &&& e@ == match old(reader).fault() {
                    Some(f) => f,
                    None => FaultView {
                        unexpected_eof: true,
                        message: "stream ended before the resume offset"@,
                    },
                }
            },
        },
{
    let left: usize = reader.rest().len();
    if n <= left as u64 {
        reader.consume(n as usize);
        Ok(())
    } else {
        let fault = match reader.pending_fault() {
            Some(f) => Fault { unexpected_eof: f.unexpected_eof, message: f.message.clone() },
            None => Fault {
                unexpected_eof: true,
                message: "stream ended before the resume offset".to_string(),
            },
        };
        reader.consume(left);
        Err(fault)
    }
}

/// What decoding every member of a gzip file gives: the bytes that come out before the first
/// failure, and that failure.
pub uninterp spec fn gunzipped(bytes: Seq<u8>) -> Content;

/// What decoding a bzip2 file gives: the bytes before the first failure, and that
/// failure.
pub uninterp spec fn bunzipped(bytes: Seq<u8>) -> Content;

/// `flate2::read::MultiGzDecoder` over a buffered reader that holds the leading bytes, read to
/// the end byte by byte: the bytes that the decoder gave out before a failure, and the error
/// that cut the reading short. What the decoder had produced in the call that fails is not
/// among them. Both depend on `bytes` alone; the format is not restated.
#[verifier::external_body]
fn gunzip(bytes: &[u8]) -> (out: (Vec<u8>, Option<Fault>))
    ensures
        out.0@ == gunzipped(bytes@).bytes,
        fault_view(out.1) == gunzipped(bytes@).fault,
{
    let mut out = Vec::new();
    let mut buffered = BufReader::new(bytes);
    let _ = buffered.fill_buf();
    let mut decoded = flate2::read::MultiGzDecoder::new(buffered).bytes();
    match decoded.try_for_each(|byte| byte.map(|b| out.push(b))) {
        Ok(()) => (out, None),
        Err(e) => {
            let unexpected_eof = matches!(e.kind(), std::io::ErrorKind::UnexpectedEof);
            (out, Some(Fault { unexpected_eof, message: e.to_string() }))
        },
    }
}

/// `bzip2_rs::DecoderReader`, read to the end: the decoded bytes, and the error
/// that cut the reading short. Both depend on `bytes` alone; the format is not
/// restated.
#[verifier::external_body]
fn bunzip(bytes: &[u8]) -> (out: (Vec<u8>, Option<Fault>))
    ensures
        out.0@ == bunzipped(bytes@).bytes,
        fault_view(out.1) == bunzipped(bytes@).fault,
{
    let mut out = Vec::new();
    match bzip2_rs::DecoderReader::new(bytes).read_to_end(&mut out) {
        Ok(_) => (out, None),
        Err(e) => {
            let unexpected_eof = matches!(e.kind(), std::io::ErrorKind::UnexpectedEof);
            (out, Some(Fault { unexpected_eof, message: e.to_string() }))
        },
    }
}

/// How a source is packed.
#[derive(Debug, Clone, Copy, PartialEq, Eq, Structural)]
pub enum Packing {
    Plain,
    Gzip,
    Bzip2,
}

/// The packing that the leading bytes announce: `1f 8b` is gzip, `BZh` is bzip2.
pub open spec fn packing(bytes: Seq<u8>) -> Packing {
    if bytes.len() >= 2 && bytes[0] == 0x1f && bytes[1] == 0x8b {
        Packing::Gzip
    } else if bytes.len() >= 3 && bytes[0] == 0x42 && bytes[1] == 0x5a && bytes[2] == 0x68 {
        Packing::Bzip2
    } else {
        Packing::Plain
    }
}

/// The stream that a raw source holds, given what each decompressor makes of it.
pub open spec fn unpacked(bytes: Seq<u8>, gz: Content, bz: Content) -> Content {
    match packing(bytes) {
        Packing::Plain => Content { bytes, fault: None },
        Packing::Gzip => gz,
        Packing::Bzip2 => bz,
    }
}

/// The decompressed stream that a raw source holds.
pub open spec fn decompressed(bytes: Seq<u8>) -> Content {
    unpacked(bytes, gunzipped(bytes), bunzipped(bytes))
}

/// Sniff the leading magic bytes.
pub fn sniff(bytes: &[u8]) -> (kind: Packing)
    ensures
        kind == packing(bytes@),
{
    if bytes.len() >= 2 && bytes[0] == 0x1f && bytes[1] == 0x8b {
        Packing::Gzip
    } else if bytes.len() >= 3 && bytes[0] == 0x42 && bytes[1] == 0x5a && bytes[2] == 0x68 {
        Packing::Bzip2
    } else {
        Packing::Plain
    }
}

/// Turn a raw source into its decompressed stream: gzip and bzip2 sources are
/// decompressed, anything else passes through unchanged.
pub fn decompress_reader(raw: Vec<u8>) -> (stream: ByteStream)
    ensures
        stream.valid(),
        stream.position() == 0,
        stream.unread() == decompressed(raw@).bytes,
        stream.fault() == decompressed(raw@).fault,
        packing(raw@) == Packing::Plain ==> stream.unread() == raw@ && stream.fault() is None,
{
    match sniff(raw.as_slice()) {
        Packing::Plain => ByteStream::new(raw),
        Packing::Gzip => {
            let (bytes, fault) = gunzip(raw.as_slice());
            ByteStream::with_fault(bytes, fault)
        },
        Packing::Bzip2 => {
            let (bytes, fault) = bunzip(raw.as_slice());
            ByteStream::with_fault(bytes, fault)
        },
    }
}

} // verus!
