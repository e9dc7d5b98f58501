//! Encode an IP address or prefix into DuckDB's internal `INET` physical layout.
//!
//! DuckDB's core `INET` type is, on the Arrow boundary, a
//! `STRUCT(ip_type UTINYINT, address HUGEINT, mask USMALLINT)`. Emitting exactly
//! that struct makes a `prefix` / `peer_ip` / `next_hop` column a zero-cost
//! `::INET` cast away from the native type.
//!
//! - `ip_type`: `1` for IPv4, `2` for IPv6.
//! - `address`: the 128-bit `HUGEINT` storage value. For IPv4 it is the 32 address
//!   bits as an unsigned integer. For IPv6 it is the 128 address bits with the sign
//!   bit flipped, which maps the unsigned address onto the signed `HUGEINT` and
//!   keeps the order of addresses. `address_le` holds that value in little-endian
//!   two's complement.
//! - `mask`: the prefix length in bits.
use crate::bytes::byte_weight;
use crate::bytes::le_digits;
use crate::bytes::le_value;
use crate::bytes::le_vec;
use crate::bytes::lemma_le_digits;
use crate::bytes::lemma_weight_16;
use vstd::prelude::*;

verus! {

/// An IP address. The number holds the address bits, the first octet on the wire
/// being the most significant.
#[derive(Debug, Clone, Copy, PartialEq, Eq, Structural)]
pub enum IpAddr {
    V4(u32),
    V6(u128),
}

/// The three field values of one DuckDB `INET` struct cell.
#[derive(Debug, Clone, Copy, PartialEq, Eq)]
pub struct InetVal {
    /// `1` = IPv4, `2` = IPv6.
    pub ip_type: u8,
    /// The DuckDB `HUGEINT` address value, little-endian `i128` bytes.
    pub address_le: [u8; 16],
    /// Prefix length in bits.
    pub mask: u16,
}

/// The `ip_type` discriminant DuckDB's `inet` extension uses for IPv4.
pub const IP_TYPE_V4: u8 = 1;

/// The `ip_type` discriminant DuckDB's `inet` extension uses for IPv6.
pub const IP_TYPE_V6: u8 = 2;

/// `2^127`, the weight of the sign bit of a 128-bit integer.
pub const SIGN_BIT: u128 = 0x8000_0000_0000_0000_0000_0000_0000_0000;

/// The signed 128-bit number that sixteen little-endian bytes hold.
pub open spec fn huge_value(bytes: Seq<u8>) -> int {
    let n = le_value(bytes) as int;
    if n < SIGN_BIT {
        n
    } else {
        n - 2 * SIGN_BIT
    }
}

/// The `HUGEINT` that stands for an address.
pub open spec fn huge_address(ip: IpAddr) -> int {
    match ip {
        IpAddr::V4(bits) => bits as int,
        IpAddr::V6(bits) => bits - SIGN_BIT,
    }
}

/// The `ip_type` of an address.
pub open spec fn family(ip: IpAddr) -> u8 {
    match ip {
        IpAddr::V4(_) => 1,
        IpAddr::V6(_) => 2,
    }
}

/// The prefix length that covers a whole address.
pub open spec fn host_mask(ip: IpAddr) -> u16 {
    match ip {
        IpAddr::V4(_) => 32,
        IpAddr::V6(_) => 128,
    }
}

/// An [`InetVal`], with its address bytes as a sequence.
pub struct InetView {
    pub ip_type: u8,
    pub address_le: Seq<u8>,
    pub mask: u16,
}

impl View for InetVal {
    type V = InetView;

    open spec fn view(&self) -> InetView {
        InetView { ip_type: self.ip_type, address_le: self.address_le@, mask: self.mask }
    }
}

/// A `HUGEINT` as an unsigned number of the same 128 bits.
pub open spec fn huge_bits(n: int) -> nat {
    if n >= 0 {
        n as nat
    } else {
        (n + 2 * SIGN_BIT) as nat
    }
}

/// The `INET` cell of `ip/mask`.
pub open spec fn inet_of(ip: IpAddr, mask: u16) -> InetView {
    InetView {
        ip_type: family(ip),
        address_le: le_digits(huge_bits(huge_address(ip)), 16),
        mask,
    }
}

/// The `INET` cell of a host address.
pub open spec fn inet_of_host(ip: IpAddr) -> InetView {
    inet_of(ip, host_mask(ip))
}

/// Whether `v` is the `INET` cell of `ip/mask`: the address bytes, read as a `HUGEINT`,
/// are the number that stands for the address.
pub open spec fn is_inet(v: InetView, ip: IpAddr, mask: u16) -> bool {
    &&& v.ip_type == family(ip)
    &&& v.address_le.len() == 16
    &&& huge_value(v.address_le) == huge_address(ip)
    &&& v.mask == mask
}

/// The sixteen bytes of `x`, least significant first.
fn le_bytes(x: u128) -> (out: [u8; 16])
    ensures
        out@ == le_digits(x as nat, 16),
{
    proof {
        lemma_weight_16();
    }
    let bytes = le_vec(x, 16);
    let mut out: [u8; 16] = [0; 16];
    for i in 0..16usize
        invariant
            bytes@.len() == 16,
            out@.len() == 16,
            forall|k: int| 0 <= k < i ==> out@[k] == bytes@[k],
    {
        out[i] = bytes[i];
    }
    assert(out@ == bytes@);
    out
}

/// Encode a bare address as an `INET` host address: the mask is the full width,
/// `/32` for IPv4 and `/128` for IPv6.
pub fn encode_ip(ip: IpAddr) -> (v: InetVal)
    ensures
        v@ == inet_of_host(ip),
        is_inet(v@, ip, host_mask(ip)),
{
    match ip {
        IpAddr::V4(_) => encode(ip, 32),
        IpAddr::V6(_) => encode(ip, 128),
    }
}

/// Encode an address and a prefix length into the DuckDB `INET` field triple.
pub fn encode(ip: IpAddr, mask: u16) -> (v: InetVal)
    ensures
        v@ == inet_of(ip, mask),
        is_inet(v@, ip, mask),
{
    let v = match ip {
        IpAddr::V4(bits) => InetVal {
            ip_type: IP_TYPE_V4,
            address_le: le_bytes(bits as u128),
            mask,
        },
        IpAddr::V6(bits) => {
            let flipped: u128 = if bits < SIGN_BIT {
                bits + SIGN_BIT
            } else {
                bits - SIGN_BIT
            };
            InetVal { ip_type: IP_TYPE_V6, address_le: le_bytes(flipped), mask }
        },
    };
    proof {
        inet_is_read_back(ip, mask);
    }
    v
}

/// Reading an encoded cell back gives the address and mask it was made from.
pub proof fn inet_is_read_back(ip: IpAddr, mask: u16)
    ensures
        is_inet(inet_of(ip, mask), ip, mask),
{
    let n = huge_bits(huge_address(ip));
    lemma_weight_16();
    lemma_le_digits(n, 16);
    vstd::arithmetic::div_mod::lemma_small_mod(n, byte_weight(16));
}

/// The address bits of `ip` as a number.
pub open spec fn address_bits(ip: IpAddr) -> nat {
    match ip {
        IpAddr::V4(bits) => bits as nat,
        IpAddr::V6(bits) => bits as nat,
    }
}

/// The encoding keeps the order of addresses: of two addresses of one family, the
/// smaller has the smaller stored `HUGEINT`.
pub proof fn inet_keeps_order(x: IpAddr, m: u16, y: IpAddr, n: u16)
    requires
        family(x) == family(y),
    ensures
        huge_value(inet_of(x, m).address_le) < huge_value(inet_of(y, n).address_le)
            <==> address_bits(x) < address_bits(y),
{
    inet_is_read_back(x, m);
    inet_is_read_back(y, n);
}

/// The encoding loses nothing: equal cells come from the same address and mask.
pub proof fn inet_is_injective(x: IpAddr, m: u16, y: IpAddr, n: u16)
    requires
        inet_of(x, m) == inet_of(y, n),
    ensures
        x == y,
        m == n,
{
    inet_is_read_back(x, m);
    inet_is_read_back(y, n);
}

} // verus!
