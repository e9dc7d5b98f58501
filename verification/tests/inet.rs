use bgp::encode_inet;
use bgp::inet::encode;
use bgp::inet::encode_ip;
use bgp::inet::IpAddr;

/// An address from its dotted or colon-separated text (no embedded IPv4).
fn ip(text: &str) -> IpAddr {
    if text.contains(':') {
        let (head, tail) = text.split_once("::").unwrap_or((text, ""));
        let words = |s: &str| -> Vec<u128> {
            s.split(':')
                .filter(|w| !w.is_empty())
                .map(|w| u128::from_str_radix(w, 16).unwrap())
                .collect()
        };
        let (head, tail) = (words(head), words(tail));
        let mut all = head.clone();
        all.resize(8 - tail.len(), 0);
        all.extend(tail);
        IpAddr::V6(all.iter().fold(0, |bits, w| bits << 16 | w))
    } else {
        IpAddr::V4(
            text.split('.')
                .fold(0, |bits, o| bits << 8 | o.parse::<u32>().unwrap()),
        )
    }
}

#[test]
fn ipv4_low_bits() {
    // 203.0.113.5 = 0xCB007105 = 3405803781 in the low 32 bits.
    let v = encode(ip("203.0.113.5"), 24);
    assert_eq!(v.ip_type, 1);
    assert_eq!(v.mask, 24);
    assert_eq!(i128::from_le_bytes(v.address_le), 0xCB00_7105);
}

#[test]
fn ipv4_full_range() {
    let v = encode(ip("255.255.255.255"), 32);
    assert_eq!(i128::from_le_bytes(v.address_le), 0xFFFF_FFFF);
}

#[test]
fn ipv6_sign_bit_flipped() {
    // `::` -> 0 XOR 2^127 = 2^127, as i128 that is i128::MIN (-2^127).
    let v = encode(IpAddr::V6(0), 0);
    assert_eq!(v.ip_type, 2);
    assert_eq!(i128::from_le_bytes(v.address_le), i128::MIN);
    // `::1` -> 1 XOR 2^127 = i128::MIN + 1.
    let v1 = encode(ip("::1"), 128);
    assert_eq!(i128::from_le_bytes(v1.address_le), i128::MIN + 1);
}

#[test]
fn ipv6_top_byte_flip() {
    // 2001:db8::1 — top byte 0x20 becomes 0xa0 (0x20 ^ 0x80) in the stored big-endian
    // value; little-endian byte[15] therefore holds 0xa0.
    let v = encode(ip("2001:db8::1"), 64);
    assert_eq!(v.address_le[15], 0xa0);
    assert_eq!(v.address_le[0], 0x01); // low byte of the address
}

#[test]
fn default_masks() {
    assert_eq!(encode_ip(ip("10.0.0.1")).mask, 32);
    assert_eq!(encode_ip(ip("::1")).mask, 128);
}

#[test]
fn order_is_kept() {
    let value = |a: &str| i128::from_le_bytes(encode_inet(ip(a), 0).address_le);
    assert!(value("9.255.0.1") < value("10.0.0.0"));
    assert!(value("127.255.255.255") < value("128.0.0.0"));
    assert!(value("::ffff") < value("2001:db8::1"));
    assert!(value("7fff::") < value("8000::"));
    assert!(value("8000::") < value("ffff::1"));
}

#[test]
fn cells_tell_addresses_apart() {
    assert_ne!(encode(ip("1.2.3.4"), 24), encode(ip("1.2.3.4"), 25));
    assert_ne!(encode(ip("1.2.3.4"), 24), encode(ip("1.2.3.5"), 24));
    assert_ne!(encode(IpAddr::V4(7), 24), encode(IpAddr::V6(7), 24));
    assert_eq!(encode(ip("1.2.3.4"), 24), encode(ip("1.2.3.4"), 24));
}
