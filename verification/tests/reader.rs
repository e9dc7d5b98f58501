use std::io::Write;
use std::sync::Arc;

use bgp::arrow_io::rib_schema;
use bgp::arrow_io::updates_schema;
use bgp::columns::Batch;
use bgp::decode::MrtRow;
use bgp::error::Error;
use bgp::meta::RIB_MRT_HEX;
use bgp::meta::UPD_MRT_HEX;
use bgp::reader::batch_rows;
use bgp::reader::BatchPull;
use bgp::reader::Kind;
use bgp::reader::MrtProducer;
use bgp::reader::Pull;
use bgp::reader::Scanner;
use bgp::reader::Source;

fn bytes_of(hex: &str) -> Vec<u8> {
    (0..hex.len() / 2)
        .map(|i| u8::from_str_radix(&hex[2 * i..2 * i + 2], 16).unwrap())
        .collect()
}

fn rib() -> Vec<u8> {
    bytes_of(RIB_MRT_HEX)
}

/// The RIB dump without its last bytes: a torn tail record.
fn truncated() -> Vec<u8> {
    let mut bytes = rib();
    bytes.truncate(bytes.len() - 8);
    bytes
}

fn gzip(bytes: &[u8]) -> Vec<u8> {
    let mut enc = flate2::write::GzEncoder::new(Vec::new(), flate2::Compression::default());
    enc.write_all(bytes).unwrap();
    enc.finish().unwrap()
}

/// A record of an unknown type, whose body is skipped.
fn bad_record() -> Vec<u8> {
    let mut out = vec![0, 0, 0, 0, 3, 0xe7, 0, 0, 0, 0, 0, 4];
    out.extend([1, 2, 3, 4]);
    out
}

fn producer(kind: Kind, strict: bool, sources: Vec<Vec<u8>>) -> MrtProducer {
    let schema = match kind {
        Kind::Rib => rib_schema(),
        Kind::Updates => updates_schema(),
    };
    let sources = sources.into_iter().map(Source::Bytes).collect();
    MrtProducer::new(Arc::new(schema), kind, strict, sources)
}

fn pull(p: &mut MrtProducer) -> Result<Option<Batch>, Error> {
    match p.pull_batch()? {
        BatchPull::Batch(batch) => Ok(Some(batch)),
        BatchPull::Open(i) => panic!("source {i} is inline"),
        BatchPull::Done => Ok(None),
    }
}

/// Drain a producer fully, returning the total row count across batches.
fn drain(mut p: MrtProducer) -> (usize, usize) {
    let mut rows = 0;
    let mut batches = 0;
    while let Some(b) = pull(&mut p).unwrap() {
        rows += b.batch.num_rows();
        batches += 1;
    }
    (rows, batches)
}

#[test]
fn rib_fixture_streams_three_rows() {
    let (rows, _) = drain(producer(Kind::Rib, false, vec![rib()]));
    assert_eq!(rows, 3);
}

#[test]
fn updates_fixture_streams_three_rows() {
    let (rows, _) = drain(producer(Kind::Updates, false, vec![bytes_of(UPD_MRT_HEX)]));
    assert_eq!(rows, 3);
}

#[test]
fn gzip_source_decompresses() {
    let bytes = gzip(&bytes_of(UPD_MRT_HEX));
    let (rows, _) = drain(producer(Kind::Updates, false, vec![bytes]));
    assert_eq!(rows, 3);
}

#[test]
fn truncated_tail_yields_error_row_not_panic() {
    let (rows, _) = drain(producer(Kind::Rib, false, vec![truncated()]));
    // Leading intact record(s) + exactly one error row for the torn tail.
    assert!(rows >= 2, "expected data rows + an error row, got {rows}");
}

#[test]
fn strict_truncated_tail_errors() {
    let mut p = producer(Kind::Rib, true, vec![truncated()]);
    // The first batch may carry intact rows; the torn tail must eventually surface as a
    // hard error under strict mode.
    let mut errored = false;
    loop {
        match pull(&mut p) {
            Ok(Some(_)) => continue,
            Ok(None) => break,
            Err(_) => {
                errored = true;
                break;
            }
        }
    }
    assert!(errored, "strict mode must error on the truncated tail");
}

#[test]
fn resume_roundtrips_across_batch_boundary() {
    // Decode rib fully, then decode again resuming from the encoded state captured after
    // the first batch; the union of rows must match a full single-pass decode (the offset
    // round-trips across the boundary).
    let full = drain(producer(Kind::Rib, false, vec![rib()])).0;
    let mut p = producer(Kind::Rib, false, vec![rib()]);
    let first = pull(&mut p).unwrap();
    let state = p.encode_resume();
    // first batch carried everything for this tiny fixture; resuming from the
    // end-of-stream state must yield zero further rows and not error/panic.
    let mut q = producer(Kind::Rib, false, vec![rib()]);
    q.restore_resume(&state);
    let rest = drain(q).0;
    let first_rows = first.map(|b| b.batch.num_rows()).unwrap_or(0);
    assert_eq!(first_rows + rest, full);
}

fn sources(all: &[Vec<u8>]) -> Vec<Source> {
    all.iter().map(|b| Source::Bytes(b.clone())).collect()
}

fn next_rows(s: &mut Scanner) -> Option<Vec<MrtRow>> {
    match s.pull_rows().unwrap() {
        Pull::Rows(rows) => Some(rows),
        Pull::Open(i) => panic!("source {i} is inline"),
        Pull::Done => None,
    }
}

fn all_rows(s: &mut Scanner) -> Vec<MrtRow> {
    let mut out = Vec::new();
    while let Some(rows) = next_rows(s) {
        out.extend(rows);
    }
    out
}

#[test]
fn resuming_after_every_batch_yields_every_row_once() {
    let mut mixed = rib();
    mixed.extend(bad_record());
    mixed.extend(bytes_of(UPD_MRT_HEX));
    let scans = [
        vec![rib()],
        vec![truncated(), rib()],
        vec![mixed.clone(), Vec::new(), truncated(), gzip(&mixed)],
        vec![vec![0; 5], rib()],
    ];
    for all in scans {
        let expected = all_rows(&mut Scanner::new(false, sources(&all)));
        for target in [1, 2, 3] {
            let mut rows = Vec::new();
            let mut token: Option<Vec<u8>> = None;
            loop {
                let mut s = Scanner::new(false, sources(&all));
                s.set_target(target);
                if let Some(t) = &token {
                    s.restore_resume(t);
                    // A position that was just restored can be encoded again.
                    assert_eq!(&s.encode_resume(), t);
                }
                match next_rows(&mut s) {
                    Some(more) => rows.extend(more),
                    None => break,
                }
                token = Some(s.encode_resume());
            }
            assert_eq!(rows, expected);
        }
    }
}

#[test]
fn a_bad_record_is_one_row_and_the_scan_goes_on() {
    let mut bytes = rib();
    bytes.extend(bad_record());
    bytes.extend(bytes_of(UPD_MRT_HEX));
    let rows = all_rows(&mut Scanner::new(false, sources(&[bytes.clone()])));
    assert_eq!(rows.len(), 7);
    let error = rows[3].error.as_deref().expect("an error row");
    assert!(error.starts_with("<blob>: Error: "), "{error}");
    assert!(rows.iter().enumerate().all(|(i, r)| r.error.is_some() == (i == 3)));
    // Strict: the same failure, as an error.
    let mut strict = Scanner::new(true, sources(&[bytes]));
    strict.set_target(1);
    let mut before = Vec::new();
    let failure = loop {
        match strict.pull_rows() {
            Ok(Pull::Rows(rows)) => before.extend(rows),
            Ok(_) => panic!("strict mode must error on the bad record"),
            Err(message) => break message,
        }
    };
    assert_eq!(before, rows[..3]);
    assert_eq!(failure, error);
}

#[test]
fn a_torn_source_ends_and_the_next_one_is_read() {
    let rows = all_rows(&mut Scanner::new(false, sources(&[truncated(), rib()])));
    let whole = all_rows(&mut Scanner::new(false, sources(&[rib()])));
    let torn = all_rows(&mut Scanner::new(false, sources(&[truncated()])));
    assert_eq!(torn.iter().filter(|r| r.error.is_some()).count(), 1);
    assert!(torn.last().unwrap().error.is_some());
    assert_eq!(rows.len(), torn.len() + whole.len());
    assert_eq!(rows[..torn.len()], torn);
    assert_eq!(rows[torn.len()..], whole);
}

#[test]
fn outside_sources_are_asked_for() {
    let mut s = Scanner::new(
        false,
        vec![Source::Local("a.mrt".to_string()), Source::Bytes(rib()),
            Source::Remote("https://h/b".to_string())],
    );
    assert!(matches!(s.pull_rows(), Ok(Pull::Open(0))));
    // Asking again changes nothing.
    assert!(matches!(s.pull_rows(), Ok(Pull::Open(0))));
    s.open_current(truncated());
    assert!(matches!(s.pull_rows(), Ok(Pull::Open(2))));
    s.open_current(gzip(&rib()));
    let rows = all_rows(&mut s);
    let torn = rows.iter().filter_map(|r| r.error.as_deref()).collect::<Vec<_>>();
    assert_eq!(torn.len(), 1);
    assert!(torn[0].starts_with("a.mrt: Error: "), "{}", torn[0]);
    assert!(matches!(s.pull_rows(), Ok(Pull::Done)));
}

#[test]
fn batches_end_on_record_boundaries() {
    let mut p = producer(Kind::Rib, false, vec![rib()]);
    p.set_batch_rows(Some("1"));
    let (rows, batches) = drain(p);
    // One record has one row, the other has two: it is kept whole.
    assert_eq!(rows, 3);
    assert_eq!(batches, 2);
}

#[test]
fn batch_rows_setting() {
    assert_eq!(batch_rows(None), 2048);
    assert_eq!(batch_rows(Some("17")), 17);
    assert_eq!(batch_rows(Some("0")), 2048);
    assert_eq!(batch_rows(Some("x")), 2048);
    assert_eq!(batch_rows(Some("")), 2048);
    assert_eq!(batch_rows(Some("99999999999999999999999")), 2048);
}

#[test]
fn tokens_are_little_endian() {
    let mut s = Scanner::new(false, sources(&[rib(), rib(), rib()]));
    let mut token = vec![2, 0, 0, 0, 0, 0, 0, 0];
    token.extend([0x39, 0x30, 0, 0, 0, 0, 0, 1]);
    s.restore_resume(&token);
    assert_eq!(s.encode_resume(), token);
    // Too short: nothing happens.
    s.restore_resume(&[7; 15]);
    assert_eq!(s.encode_resume(), token);
    // A source past the end is the end.
    s.restore_resume(&[0xff; 16]);
    assert!(matches!(s.pull_rows(), Ok(Pull::Done)));
}

#[test]
fn a_schema_that_does_not_match_is_refused() {
    let sources = sources(&[rib()]);
    let mut p = MrtProducer::new(Arc::new(updates_schema()), Kind::Rib, false, sources);
    assert!(pull(&mut p).is_err());
}

#[test]
fn a_strict_scan_reads_on_behind_a_failure() {
    let mut bytes = bad_record();
    bytes.extend(bytes_of(UPD_MRT_HEX));
    let mut p = producer(Kind::Updates, true, vec![bytes]);
    assert!(pull(&mut p).is_err());
    // No boundary was reached yet.
    assert_eq!(p.encode_resume(), [0; 16]);
    assert_eq!(pull(&mut p).unwrap().unwrap().batch.num_rows(), 3);
    assert!(pull(&mut p).unwrap().is_none());
}
