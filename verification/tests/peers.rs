use std::sync::Arc;

use bgp::arrow_io::peers_schema;
use bgp::arrow_io::rib_schema;
use bgp::inet::IpAddr;
use bgp::meta::RIB_MRT_HEX;
use bgp::meta::UPD_MRT_HEX;
use bgp::peers::PeersProducer;

fn bytes_of(hex: &str) -> Vec<u8> {
    (0..hex.len() / 2)
        .map(|i| u8::from_str_radix(&hex[2 * i..2 * i + 2], 16).unwrap())
        .collect()
}

/// A PEER_INDEX_TABLE with one peer, 192.0.2.1 of AS 65001, under a view name.
fn peer_table(view: &str) -> Vec<u8> {
    let mut body = vec![0, 0, 0, 0];
    body.extend((view.len() as u16).to_be_bytes());
    body.extend(view.as_bytes());
    body.extend([0, 1, 2, 192, 0, 2, 1, 192, 0, 2, 1, 0, 0, 0xfd, 0xe9]);
    let mut out = vec![0, 0, 0, 1, 0, 13, 0, 1];
    out.extend((body.len() as u32).to_be_bytes());
    out.extend(body);
    out
}

#[test]
fn every_peer_of_the_table_is_listed_once() {
    let mut p = PeersProducer::new();
    p.add_source(bytes_of(RIB_MRT_HEX));
    let mut found: Vec<_> = p.rows().iter().map(|r| (r.peer_asn, r.peer_ip)).collect();
    found.sort_by_key(|(asn, ip)| (*asn, matches!(ip, IpAddr::V6(_))));
    assert_eq!(
        found,
        [
            (65001, IpAddr::V4(0xc000_0201)),
            (65001, IpAddr::V6(0x2001_0db8_0000_0000_0000_0000_0000_0001)),
            (65002, IpAddr::V4(0xc633_6407)),
        ]
    );
    // The same peers again add nothing.
    p.add_source(bytes_of(RIB_MRT_HEX));
    assert_eq!(p.rows().len(), 3);
}

#[test]
fn update_peers_are_deduplicated() {
    let mut p = PeersProducer::new();
    p.add_source(bytes_of(UPD_MRT_HEX));
    let mut seen: Vec<_> = p.rows().iter().map(|r| (r.peer_ip, r.peer_asn)).collect();
    let n = seen.len();
    seen.dedup();
    assert_eq!(seen.len(), n);
    assert!((1..=3).contains(&n));
}

#[test]
fn collectors_keep_their_own_rows() {
    let mut p = PeersProducer::new();
    p.add_source(peer_table("rrc00"));
    p.add_source(peer_table("rrc01"));
    p.add_source(peer_table("rrc00"));
    p.add_source(peer_table(""));
    let names: Vec<_> = p.rows().iter().map(|r| r.collector.as_deref()).collect();
    assert_eq!(names, [Some("rrc00"), Some("rrc01"), None]);
    assert!(p.rows().iter().all(|r| r.peer_asn == 65001));
}

#[test]
fn a_torn_source_just_ends() {
    let mut bytes = peer_table("v");
    bytes.extend([1, 2, 3]);
    let mut p = PeersProducer::new();
    p.add_source(bytes);
    p.add_source(Vec::new());
    assert_eq!(p.rows().len(), 1);
}

#[test]
fn a_malformed_record_is_passed_over() {
    let mut bytes = peer_table("rrc00");
    // A PEER_INDEX_TABLE whose body is one byte: read in full, and no table.
    bytes.extend([0, 0, 0, 1, 0, 13, 0, 1, 0, 0, 0, 1, 0xff]);
    bytes.extend(peer_table("rrc01"));
    let mut p = PeersProducer::new();
    p.add_source(bytes);
    let names: Vec<_> = p.rows().iter().map(|r| r.collector.as_deref()).collect();
    assert_eq!(names, [Some("rrc00"), Some("rrc01")]);
}

#[test]
fn peers_of_messages_come_in_the_order_seen() {
    let mut p = PeersProducer::new();
    p.add_source(bytes_of(UPD_MRT_HEX));
    let seen: Vec<_> = p.rows().iter().map(|r| (r.peer_ip, r.peer_asn)).collect();
    assert_eq!(
        seen,
        [
            (IpAddr::V4(0xc000_0201), 65001),
            (IpAddr::V6(0x2001_0db8_0000_0000_0000_0000_0000_0001), 65001),
        ]
    );
    // New ones follow those that are listed.
    p.add_source(peer_table("rrc00"));
    assert_eq!(p.rows()[2].collector.as_deref(), Some("rrc00"));
}

#[test]
fn one_batch_comes_out() {
    let mut p = PeersProducer::new();
    p.add_source(bytes_of(RIB_MRT_HEX));
    let schema = Arc::new(peers_schema());
    let batch = p.next_batch(&schema).unwrap().expect("a batch");
    assert_eq!(batch.batch.num_rows(), 3);
    assert_eq!(batch.batch.num_columns(), 3);
    assert!(p.next_batch(&schema).unwrap().is_none());
    let mut q = PeersProducer::new();
    assert!(q.next_batch(&Arc::new(rib_schema())).is_err());
    let mut empty = PeersProducer::new();
    assert_eq!(empty.next_batch(&schema).unwrap().unwrap().batch.num_rows(), 0);
}
