use std::io::BufRead;
use std::io::BufReader;
use std::io::Write;

use bgp::decode::is_recoverable;
use bgp::decode::next_record;
use bgp::decode::Decoder;
use bgp::decode::MrtRow;
use bgp::decode::MsgType;
use bgp::inet::IpAddr;
use bgp::meta::RIB_MRT_HEX;
use bgp::meta::UPD_MRT_HEX;
use bgp::mrt::ErrorKind;
use bgp::stream::decompress_reader;
use bgp::stream::read_up_to;
use bgp::stream::skip_bytes;
use bgp::stream::sniff;
use bgp::stream::ByteStream;
use bgp::stream::CountingReader;
use bgp::stream::Fault;
use bgp::stream::Packing;

fn bytes_of(hex: &str) -> Vec<u8> {
    (0..hex.len() / 2)
        .map(|i| u8::from_str_radix(&hex[2 * i..2 * i + 2], 16).unwrap())
        .collect()
}

fn gzip(bytes: &[u8]) -> Vec<u8> {
    let mut enc = flate2::write::GzEncoder::new(Vec::new(), flate2::Compression::default());
    enc.write_all(bytes).unwrap();
    enc.finish().unwrap()
}

fn read_all(stream: &mut ByteStream) -> Vec<u8> {
    read_up_to(stream, usize::MAX)
}

/// The rows of a stream, and the failure that ended it.
fn rows(mut stream: ByteStream) -> (Vec<MrtRow>, Option<(ErrorKind, String)>) {
    let mut decoder = Decoder::new();
    let mut rows = Vec::new();
    loop {
        match next_record(&mut stream) {
            Ok(Some(record)) => rows.extend(decoder.record_rows(record)),
            Ok(None) => return (rows, None),
            Err(e) => return (rows, Some((e.kind, e.message))),
        }
    }
}

#[test]
fn counting_reader_tracks_offset() {
    let data = b"hello world";
    let mut cr = CountingReader::new(ByteStream::new(data.to_vec()));
    let out = read_up_to(&mut cr, 5);
    assert_eq!(out, b"hello");
    assert_eq!(cr.count(), 5);
    let rest = read_up_to(&mut cr, usize::MAX);
    assert_eq!(rest, b" world");
    assert_eq!(cr.count(), 11);
}

#[test]
fn skip_bytes_advances() {
    let data = b"0123456789";
    let mut cur = ByteStream::new(data.to_vec());
    skip_bytes(&mut cur, 4).unwrap();
    let rest = read_all(&mut cur);
    assert_eq!(rest, b"456789");
}

#[test]
fn skip_past_end_errors() {
    let data = b"abc";
    let mut cur = ByteStream::new(data.to_vec());
    let err = skip_bytes(&mut cur, 10);
    assert!(err.is_err());
    let fault = err.unwrap_err();
    assert!(fault.unexpected_eof);
    assert_eq!(fault.message, "stream ended before the resume offset");
}

#[test]
fn skip_exactly_to_the_end() {
    let mut cur = ByteStream::new(b"abc".to_vec());
    assert!(skip_bytes(&mut cur, 3).is_ok());
    assert!(skip_bytes(&mut cur, 0).is_ok());
    assert!(skip_bytes(&mut cur, 1).is_err());
}

#[test]
fn decompress_passthrough_plain() {
    // Plain bytes are returned unchanged (no magic match).
    let mut r = decompress_reader(b"not compressed".to_vec());
    assert_eq!(read_all(&mut r), b"not compressed");
}

#[test]
fn gzip_roundtrips() {
    let mut r = decompress_reader(gzip(b"mrt bytes here"));
    assert_eq!(read_all(&mut r), b"mrt bytes here");
}

#[test]
fn gzip_members_are_joined() {
    let mut two = gzip(b"mrt ");
    two.extend(gzip(b"bytes"));
    assert_eq!(read_all(&mut decompress_reader(two)), b"mrt bytes");
}

#[test]
fn bzip2_is_decompressed() {
    let packed = bytes_of("425a683931415926535907c90d9e0000039180400012421c20200031064c41006d2058b71415cdf8bb9229c284803e486cf0");
    assert_eq!(sniff(&packed), Packing::Bzip2);
    assert_eq!(read_all(&mut decompress_reader(packed)), b"mrt bytes here");
}

#[test]
fn packing_is_sniffed() {
    assert_eq!(sniff(&[]), Packing::Plain);
    assert_eq!(sniff(&[0x1f]), Packing::Plain);
    assert_eq!(sniff(&[0x1f, 0x8b]), Packing::Gzip);
    assert_eq!(sniff(b"BZ"), Packing::Plain);
    assert_eq!(sniff(b"BZh"), Packing::Bzip2);
    assert_eq!(sniff(b"BZi9"), Packing::Plain);
}

#[test]
fn torn_gzip_gives_its_bytes_and_then_the_fault() {
    let rib = bytes_of(RIB_MRT_HEX);
    let mut packed = gzip(&rib);
    packed.truncate(packed.len() - 8);
    let (rows, failure) = rows(decompress_reader(packed));
    // All records come out before the missing trailer is noticed.
    assert_eq!(rows.len(), 3);
    // The decoder reports the missing trailer as an unexpected end, between two records.
    assert_eq!(failure, None);
}

#[test]
fn a_fault_is_reported_where_the_bytes_run_out() {
    let rib = bytes_of(RIB_MRT_HEX);
    let fault = || Some(Fault { unexpected_eof: false, message: "disk on fire".to_string() });
    // Between two records.
    let (all, failure) = rows(ByteStream::with_fault(rib.clone(), fault()));
    assert_eq!(all.len(), 3);
    assert_eq!(failure, Some((ErrorKind::Io, "Error: disk on fire".to_string())));
    // Inside a record.
    let (some, failure) = rows(ByteStream::with_fault(rib[..rib.len() - 1].to_vec(), fault()));
    assert!(some.len() < 3);
    assert_eq!(failure, Some((ErrorKind::Io, "Error: disk on fire".to_string())));
    // Inside a header.
    let (_, failure) = rows(ByteStream::with_fault(vec![0; 5], fault()));
    assert_eq!(failure, Some((ErrorKind::Io, "Error: disk on fire".to_string())));
}

#[test]
fn rib_entries_are_decoded() {
    let (rows, failure) = rows(ByteStream::new(bytes_of(RIB_MRT_HEX)));
    assert_eq!(failure, None);
    assert_eq!(rows.len(), 3);
    let first = &rows[0];
    assert_eq!(first.timestamp_us, 1_751_155_200_000_000);
    assert_eq!(first.msg_type, Some(MsgType::Announce));
    assert_eq!(first.view_name, None);
    assert_eq!(first.peer_asn, Some(65001));
    assert_eq!(first.as_path, Some(vec![65001, 64500, 64600]));
    assert_eq!(first.origin_asn, Some(64600));
    assert_eq!(first.communities, Some(vec!["65001:7:9".to_string()]));
    assert_eq!(first.local_pref, Some(100));
    assert_eq!(first.med, Some(0));
    assert_eq!(first.error, None);
    let v4 = &rows[1];
    assert_eq!(v4.prefix, Some((IpAddr::V4(0xcb00_7100), 24)));
    assert_eq!(v4.peer_ip, Some(IpAddr::V4(0xc633_6407)));
    assert_eq!(v4.next_hop, Some(IpAddr::V4(0xc633_6407)));
    for row in &rows {
        // The origin is the last AS of the path.
        assert_eq!(row.as_path.as_ref().unwrap().last().copied(), row.origin_asn);
    }
}

#[test]
fn updates_are_decoded() {
    let (rows, failure) = rows(ByteStream::new(bytes_of(UPD_MRT_HEX)));
    assert_eq!(failure, None);
    let kinds: Vec<_> = rows.iter().map(|r| r.msg_type.unwrap().as_str()).collect();
    assert_eq!(kinds, ["announce", "announce", "withdraw"]);
    assert_eq!(rows[0].peer_ip, Some(IpAddr::V4(0xc000_0201)));
    assert_eq!(
        rows[0].communities,
        Some(vec!["65001:100".to_string(), "65001:1:2".to_string()])
    );
    let withdrawn = &rows[2];
    assert_eq!(withdrawn.as_path, None);
    assert_eq!(withdrawn.origin_asn, None);
    assert_eq!(withdrawn.next_hop, None);
    assert_eq!(withdrawn.communities, None);
    assert!(withdrawn.prefix.is_some());
}

/// An MRT record: the common header, then the body.
fn record(timestamp: u32, kind: u16, subtype: u16, body: &[u8]) -> Vec<u8> {
    let mut out = timestamp.to_be_bytes().to_vec();
    out.extend(kind.to_be_bytes());
    out.extend(subtype.to_be_bytes());
    out.extend((body.len() as u32).to_be_bytes());
    out.extend(body);
    out
}

/// A BGP4MP_STATE_CHANGE body: peer AS 7, local AS 8, 192.0.2.1 → 192.0.2.2.
fn state_change(old: u16, new: u16) -> Vec<u8> {
    let mut body = vec![0, 7, 0, 8, 0, 0, 0, 1, 192, 0, 2, 1, 192, 0, 2, 2];
    body.extend(old.to_be_bytes());
    body.extend(new.to_be_bytes());
    body
}

#[test]
fn state_changes_carry_the_header_time() {
    let mut bytes = record(1000, 16, 0, &state_change(3, 6));
    let mut extended = 250_000u32.to_be_bytes().to_vec();
    extended.extend(state_change(6, 1));
    bytes.extend(record(1001, 17, 0, &extended));
    let (rows, failure) = rows(ByteStream::new(bytes));
    assert_eq!(failure, None);
    assert_eq!(rows.len(), 2);
    assert_eq!(rows[0].msg_type, Some(MsgType::StateChange));
    assert_eq!(rows[0].timestamp_us, 1_000_000_000);
    assert_eq!((rows[0].old_state, rows[0].new_state), (Some(3), Some(6)));
    assert_eq!(rows[0].peer_asn, Some(7));
    assert_eq!(rows[0].peer_ip, Some(IpAddr::V4(0xc000_0201)));
    assert_eq!(rows[0].prefix, None);
    assert_eq!(rows[1].timestamp_us, 1_001_250_000);
    assert_eq!((rows[1].old_state, rows[1].new_state), (Some(6), Some(1)));
}

#[test]
fn errors_say_whether_the_stream_is_aligned() {
    // An unknown record type: the body is skipped, the stream stands on the next record.
    let mut bytes = record(0, 999, 0, &[1, 2, 3, 4]);
    bytes.extend(record(1000, 16, 0, &state_change(1, 2)));
    let mut stream = ByteStream::new(bytes);
    let err = next_record(&mut stream).unwrap_err();
    assert_eq!(err.kind, ErrorKind::Malformed);
    assert!(is_recoverable(&err));
    assert!(err.message.starts_with("Error: "));
    let next = next_record(&mut stream).unwrap().expect("the record behind the bad one");
    assert_eq!(Decoder::new().record_rows(next).len(), 1);
    assert!(next_record(&mut stream).unwrap().is_none());

    // A peer table that ends inside an address: read in full, so the stream goes on.
    let mut bytes = record(0, 13, 1, &[0, 0, 0, 0, 0, 0, 0, 1, 2, 192, 0, 2, 1, 192]);
    bytes.extend(record(1000, 16, 0, &state_change(1, 2)));
    let mut stream = ByteStream::new(bytes);
    let err = next_record(&mut stream).unwrap_err();
    assert_eq!(err.kind, ErrorKind::Malformed);
    assert!(next_record(&mut stream).unwrap().is_some());

    // A torn body.
    let whole = record(1000, 16, 0, &state_change(1, 2));
    let err = next_record(&mut ByteStream::new(whole[..whole.len() - 1].to_vec())).unwrap_err();
    assert_eq!(err.kind, ErrorKind::Io);
    assert!(!is_recoverable(&err));

    // A torn header.
    let err = next_record(&mut ByteStream::new(whole[..11].to_vec())).unwrap_err();
    assert_eq!(err.kind, ErrorKind::Eof);
    assert!(!is_recoverable(&err));

    // A declared body over the limit, which is not read.
    let mut huge = whole[..8].to_vec();
    huge.extend([0xff; 4]);
    let err = next_record(&mut ByteStream::new(huge)).unwrap_err();
    assert_eq!(err.kind, ErrorKind::Oversized);
    assert!(!is_recoverable(&err));

    // No bytes at all.
    assert!(next_record(&mut ByteStream::new(Vec::new())).unwrap().is_none());
}

#[test]
fn rib_entries_without_a_peer_table_give_no_rows() {
    let rib = bytes_of(RIB_MRT_HEX);
    // The first record is the PEER_INDEX_TABLE: 12 + 59 bytes.
    let (rows, failure) = rows(ByteStream::new(rib[71..].to_vec()));
    assert_eq!(failure, None);
    assert_eq!(rows.len(), 0);
}

#[test]
fn view_name_is_captured() {
    let mut body = vec![0, 0, 0, 0, 0, 4];
    body.extend(b"view");
    body.extend([0, 0]);
    let mut decoder = Decoder::new();
    assert_eq!(decoder.view_name(), None);
    let mut stream = ByteStream::new(record(1, 13, 1, &body));
    let pit = next_record(&mut stream).unwrap().unwrap();
    assert_eq!(decoder.record_rows(pit).len(), 0);
    assert_eq!(decoder.view_name(), Some("view"));
    let mut state = ByteStream::new(record(1000, 16, 0, &state_change(1, 2)));
    let rows = decoder.record_rows(next_record(&mut state).unwrap().unwrap());
    assert_eq!(rows[0].view_name.as_deref(), Some("view"));
}

#[test]
fn error_rows_are_otherwise_empty() {
    let row = MrtRow::error_row("boom".to_string());
    assert_eq!(row.error.as_deref(), Some("boom"));
    let blank = MrtRow { error: None, ..row };
    assert_eq!(blank, MrtRow::default());
}

#[test]
fn arbitrary_bytes_never_panic() {
    let mut x: u64 = 0x1234_5678_9abc_def1;
    for round in 0..400 {
        let mut bytes = Vec::new();
        for _ in 0..(round * 7) % 1024 {
            x ^= x << 13;
            x ^= x >> 7;
            x ^= x << 17;
            bytes.push(x as u8);
        }
        let _ = rows(ByteStream::new(bytes));
    }
}

#[test]
fn truncated_and_mutated_fixtures_never_panic() {
    for hex in [RIB_MRT_HEX, UPD_MRT_HEX] {
        let whole = bytes_of(hex);
        for cut in 0..whole.len() {
            let _ = rows(ByteStream::new(whole[..cut].to_vec()));
            let mut mutated = whole.clone();
            mutated[cut] ^= 0x81;
            let _ = rows(ByteStream::new(mutated));
        }
    }
}

/// The records that a buffered gzip reader gives before it fails, and the failure.
fn streamed(packed: &[u8]) -> (usize, String) {
    let mut buffered = BufReader::new(packed);
    buffered.fill_buf().unwrap();
    let mut reader = flate2::read::MultiGzDecoder::new(buffered);
    let mut n = 0;
    loop {
        match bgpkit_parser::parser::mrt::parse_mrt_record(&mut reader) {
            Ok(_) => n += 1,
            Err(e) => match e.error {
                bgpkit_parser::ParserError::IoError(_)
                | bgpkit_parser::ParserError::EofError(_)
                | bgpkit_parser::ParserError::OversizedRecord { .. }
                | bgpkit_parser::ParserError::EofExpected => return (n, e.error.to_string()),
                _ => n += 1,
            },
        }
    }
}

#[test]
fn corrupt_gzip_gives_what_a_stream_gives() {
    // Records of an unknown type with bodies that do not compress.
    let mut plain = Vec::new();
    let mut seed = 1u32;
    for _ in 0..400 {
        plain.extend([0, 0, 0, 0, 3, 0xe7, 0, 0, 0, 0, 1, 0]);
        for _ in 0..256 {
            seed = seed.wrapping_mul(1_664_525).wrapping_add(1_013_904_223);
            plain.push((seed >> 26) as u8);
        }
    }
    let packed = gzip(&plain);
    assert!(packed.len() > 60_000);
    let mut failures = 0;
    for k in 0..60 {
        let mut torn = packed.clone();
        let at = 20 + k * 1_001;
        for b in &mut torn[at..at + 40] {
            *b = 0xff;
        }
        let (expected, why) = streamed(&torn);
        let mut reader = decompress_reader(torn);
        let mut found = 0;
        let end = loop {
            match next_record(&mut reader) {
                Ok(Some(_)) => found += 1,
                Ok(None) => break None,
                Err(e) if is_recoverable(&e) => found += 1,
                Err(e) => break Some(e.message),
            }
        };
        assert_eq!(found, expected, "damaged at {at}");
        if let Some(message) = end {
            failures += 1;
            assert_eq!(message, why, "damaged at {at}");
        }
    }
    assert!(failures > 0);
}
