//! Bidirectional connection identifiers.
//!
//! Provides endpoint-specific (distinguishes originator and responder) and generic identifiers for
//! bi-directional connections. A connection is defined by its five tuple (source/destination
//! addresses, ports, and transport protocol).

use vstd::prelude::*;

use crate::net::{
    addr_text, earlier, ipv4_text, ipv6_text, later, later_first, push_addr, push_ipv4, push_ipv6,
    SocketAddr,
};
use crate::text::{decimal, push_decimal};

verus! {

/// Protocol number of TCP.
pub const TCP_PROTOCOL: usize = 6;

/// Protocol number of UDP.
pub const UDP_PROTOCOL: usize = 17;

/// Connection 5-tuple.
///
/// The sender of the first observed packet in the connection becomes the originator `orig`, and
/// the recipient becomes the responder `resp`.
#[derive(Clone, Copy, Debug, PartialEq, Eq, Hash, Structural)]
pub struct FiveTuple {
    /// The originator connection endpoint.
    pub orig: SocketAddr,
    /// The responder connection endpoint.
    pub resp: SocketAddr,
    /// The layer-4 protocol.
    pub proto: usize,
}

/// The transport-layer header fields of a packet.
#[derive(Clone, Copy, Debug, PartialEq, Eq, Structural)]
pub struct L4Context {
    /// Source endpoint.
    pub src: SocketAddr,
    /// Destination endpoint.
    pub dst: SocketAddr,
    /// The layer-4 protocol.
    pub proto: usize,
}

impl L4Context {
    /// The 5-tuple as observed on the wire.
    pub open spec fn five_tuple(self) -> FiveTuple {
        FiveTuple { orig: self.src, resp: self.dst, proto: self.proto }
    }
}

/// Where an FNV-1a hash starts.
pub const FNV_OFFSET: u64 = 0xcbf29ce484222325;

/// The multiplier of FNV-1a.
pub const FNV_PRIME: u64 = 0x100000001b3;

/// The FNV-1a state after one byte `b` enters the state `h`.
pub open spec fn fnv_step(h: u64, b: u8) -> u64 {
    ((((h ^ (b as u64)) as nat) * (FNV_PRIME as nat)) % 0x1_0000_0000_0000_0000) as u64
}

/// The FNV-1a state after the bytes `s` enter the state `h`, the first one first.
pub open spec fn fnv1a(h: u64, s: Seq<u8>) -> u64
    decreases s.len(),
{
    if s.len() == 0 {
        h
    } else {
        fnv_step(fnv1a(h, s.drop_last()), s.last())
    }
}

/// The bytes of a word, the least significant first.
pub open spec fn le_bytes(v: u64) -> Seq<u8> {
    Seq::new(8, |k: int| (v >> ((8 * k) as u64)) as u8)
}

/// Fold `v`'s bytes into the FNV-1a accumulator `h`.
pub fn mix(h: u64, v: u64) -> (r: u64)
    ensures
        r == fnv1a(h, le_bytes(v)),
{
    let mut acc: u64 = h;
    let mut k: u64 = 0;
    let ghost bytes = le_bytes(v);
    assert(bytes.take(0) =~= Seq::empty());
    while k < 8
        invariant
            k <= 8,
            bytes == le_bytes(v),
            acc == fnv1a(h, bytes.take(k as int)),
        decreases 8 - k,
    {
        let byte: u8 = (v >> (8 * k)) as u8;
        assert(bytes.take(k + 1).drop_last() =~= bytes.take(k as int));
        assert(byte == bytes[k as int]);
        acc = (acc ^ (byte as u64)).wrapping_mul(FNV_PRIME);
        k = k + 1;
    }
    assert(bytes.take(8) =~= bytes);
    acc
}

/// An endpoint collapsed to one word: the address shifted up, with the port in the low bits.
///
/// An IPv6 address is folded in half, so addresses that differ only in the halves' xor collide.
pub open spec fn endpoint_word(a: SocketAddr) -> u64 {
    match a {
        SocketAddr::V4(v) => ((v.ip as u64) << 16) ^ (v.port as u64),
        SocketAddr::V6(v) => (((v.ip as u64) ^ ((v.ip >> 64) as u64)) << 16) ^ (v.port as u64),
    }
}

/// Collapse an endpoint to one word. IPv6 is folded in half, so v6 addresses differing only in the
/// halves' xor collide, which is acceptable for a non-unique hash.
pub fn hash_sockaddr(sa: SocketAddr) -> (r: u64)
    ensures
        r == endpoint_word(sa),
{
    match sa {
        SocketAddr::V4(a) => {
            let ip: u64 = a.ip as u64;
            (ip << 16) ^ (a.port as u64)
        },
        SocketAddr::V6(a) => {
            let ip: u64 = (a.ip as u64) ^ ((a.ip >> 64) as u64);
            (ip << 16) ^ (a.port as u64)
        },
    }
}

/// The FNV-1a hash of two endpoints and a protocol.
pub open spec fn hash_of(a: SocketAddr, b: SocketAddr, proto: usize) -> u64 {
    fnv1a(
        fnv1a(fnv1a(FNV_OFFSET, le_bytes(endpoint_word(a))), le_bytes(endpoint_word(b))),
        le_bytes(proto as u64),
    )
}

/// The /24 network of an IPv4 address.
pub open spec fn slash24(ip: u32) -> u32 {
    ip & 0xffff_ff00
}

/// The /64 network of an IPv6 address.
pub open spec fn slash64(ip: u128) -> u128 {
    ip & 0xffff_ffff_ffff_ffff_0000_0000_0000_0000
}

/// Whether an IPv4 address is the broadcast address or a multicast address (`224.0.0.0/4`).
pub open spec fn is_group_v4(ip: u32) -> bool {
    ip == 0xffff_ffff || 0xe000_0000 <= ip <= 0xefff_ffff
}

impl FiveTuple {
    /// The 5-tuple of the other direction.
    pub open spec fn reversed(self) -> FiveTuple {
        FiveTuple { orig: self.resp, resp: self.orig, proto: self.proto }
    }

    /// Creates a new 5-tuple from `ctxt`.
    pub fn from_ctxt(ctxt: &L4Context) -> (r: Self)
        ensures
            r == ctxt.five_tuple(),
    {
        FiveTuple { orig: ctxt.src, resp: ctxt.dst, proto: ctxt.proto }
    }

    /// The 5-tuple of the other direction.
    pub fn reverse(&self) -> (r: Self)
        ensures
            r == self.reversed(),
    {
        FiveTuple { orig: self.resp, resp: self.orig, proto: self.proto }
    }

    /// The hash of the 5-tuple that is the same for both directions.
    pub open spec fn conn_hash_value(self) -> u64 {
        hash_of(later(self.orig, self.resp), earlier(self.orig, self.resp), self.proto)
    }

    /// The hash of the 5-tuple as observed on the wire.
    pub open spec fn dir_hash_value(self) -> u64 {
        hash_of(self.orig, self.resp, self.proto)
    }

    /// The destination address as text.
    pub open spec fn dst_ip_text(self) -> Seq<char> {
        ip_text(self.resp)
    }

    /// The source address as text.
    pub open spec fn src_ip_text(self) -> Seq<char> {
        ip_text(self.orig)
    }

    /// The 5-tuple as text.
    pub open spec fn text(self) -> Seq<char> {
        addr_text(self.orig) + " -> "@ + addr_text(self.resp) + " protocol "@ + decimal(
            self.proto as nat,
        )
    }

    /// Converts a 5-tuple to a non-directional connection identifier.
    pub fn conn_id(&self) -> (r: ConnId)
        ensures
            r@ == (later(self.orig, self.resp), earlier(self.orig, self.resp), self.proto),
    {
        ConnId::new(self.orig, self.resp, self.proto)
    }

    /// Non-bucketed u64 hash of the canonicalized five-tuple, i.e. the same value for both
    /// directions of a connection.
    ///
    /// See [`FiveTuple::dir_hash`] for the direction-sensitive counterpart.
    pub fn conn_hash(&self) -> (r: u64)
        ensures
            r == self.conn_hash_value(),
    {
        let (hi, lo) = later_first(self.orig, self.resp);
        let mut h: u64 = FNV_OFFSET;
        h = mix(h, hash_sockaddr(hi));
        h = mix(h, hash_sockaddr(lo));
        h = mix(h, self.proto as u64);
        h
    }

    /// Non-bucketed u64 hash of the five-tuple as observed on the wire.
    ///
    /// Unlike [`FiveTuple::conn_hash`] the endpoints are not sorted, so the two directions of a
    /// connection hash differently. Like `conn_hash`, this is not unique on its own.
    pub fn dir_hash(&self) -> (r: u64)
        ensures
            r == self.dir_hash_value(),
    {
        let mut h: u64 = FNV_OFFSET;
        h = mix(h, hash_sockaddr(self.orig));
        h = mix(h, hash_sockaddr(self.resp));
        h = mix(h, self.proto as u64);
        h
    }

    /// The destination subnet as text: the /24 network for IPv4 (the whole address if it is
    /// broadcast or multicast), the /64 network for IPv6, and nothing if the two endpoints are of
    /// different families.
    pub open spec fn dst_subnet_text(self) -> Seq<char> {
        match (self.orig, self.resp) {
            (SocketAddr::V4(_), SocketAddr::V4(dst)) => ipv4_text(
                if is_group_v4(dst.ip) {
                    dst.ip
                } else {
                    slash24(dst.ip)
                },
            ),
            (SocketAddr::V6(_), SocketAddr::V6(dst)) => ipv6_text(slash64(dst.ip)),
            _ => Seq::empty(),
        }
    }

    /// Utility for returning a string representation of the dst. subnet: /24 for IPv4, /64 for
    /// IPv6; no mask for broadcast.
    pub fn dst_subnet_str(&self) -> (r: String)
        ensures
            r@ == self.dst_subnet_text(),
    {
        let mut out: String = String::new();
        match (self.orig, self.resp) {
            (SocketAddr::V4(_), SocketAddr::V4(dst)) => {
                if dst.ip == 0xffff_ffff || (0xe000_0000 <= dst.ip && dst.ip <= 0xefff_ffff) {
                    push_ipv4(&mut out, dst.ip);
                } else {
                    push_ipv4(&mut out, dst.ip & 0xffff_ff00);
                }
            },
            (SocketAddr::V6(_), SocketAddr::V6(dst)) => {
                push_ipv6(&mut out, dst.ip & 0xffff_ffff_ffff_ffff_0000_0000_0000_0000);
            },
            _ => {},
        }
        assert(out@ =~= self.dst_subnet_text());
        out
    }

    /// Utility for returning a string representation of the dst. IP.
    pub fn dst_ip_str(&self) -> (r: String)
        ensures
            r@ == self.dst_ip_text(),
    {
        ip_str(&self.resp)
    }

    /// Utility for returning a string representation of the src. IP.
    pub fn src_ip_str(&self) -> (r: String)
        ensures
            r@ == self.src_ip_text(),
    {
        ip_str(&self.orig)
    }

    /// The transport protocol and the ports as text.
    pub open spec fn transp_proto_text(self) -> Seq<char> {
        let proto = if self.proto == UDP_PROTOCOL {
            "udp"@
        } else if self.proto == TCP_PROTOCOL {
            "tcp"@
        } else {
            "none"@
        };
        "{ \"proto\": \""@ + proto + "\", \"src\": \""@ + decimal(port_of(self.orig) as nat)
            + "\", \"dst\": \""@ + decimal(port_of(self.resp) as nat) + "\" }"@
    }

    /// Utility for returning a string representation of the transport protocol and
    /// source/destination ports.
    pub fn transp_proto_str(&self) -> (r: String)
        ensures
            r@ == self.transp_proto_text(),
    {
        let mut out: String = String::new();
        out.append("{ \"proto\": \"");
        if self.proto == UDP_PROTOCOL {
            out.append("udp");
        } else if self.proto == TCP_PROTOCOL {
            out.append("tcp");
        } else {
            out.append("none");
        }
        out.append("\", \"src\": \"");
        push_decimal(&mut out, port(&self.orig) as u128);
        out.append("\", \"dst\": \"");
        push_decimal(&mut out, port(&self.resp) as u128);
        out.append("\" }");
        assert(out@ =~= self.transp_proto_text());
        out
    }

    /// The 5-tuple as text: `<originator> -> <responder> protocol <number>`.
    pub fn to_text(&self) -> (r: String)
        ensures
            r@ == self.text(),
    {
        let mut out: String = String::new();
        push_addr(&mut out, &self.orig);
        out.append(" -> ");
        push_addr(&mut out, &self.resp);
        out.append(" protocol ");
        push_decimal(&mut out, self.proto as u128);
        assert(out@ =~= addr_text(self.orig) + " -> "@ + addr_text(self.resp) + " protocol "@
            + decimal(self.proto as nat));
        out
    }
}

/// The port of an endpoint.
pub open spec fn port_of(a: SocketAddr) -> u16 {
    match a {
        SocketAddr::V4(v) => v.port,
        SocketAddr::V6(v) => v.port,
    }
}

/// The port of an endpoint.
pub fn port(a: &SocketAddr) -> (r: u16)
    ensures
        r == port_of(*a),
{
    match a {
        SocketAddr::V4(v) => v.port,
        SocketAddr::V6(v) => v.port,
    }
}

/// The address of an endpoint as text.
pub open spec fn ip_text(a: SocketAddr) -> Seq<char> {
    match a {
        SocketAddr::V4(v) => ipv4_text(v.ip),
        SocketAddr::V6(v) => ipv6_text(v.ip),
    }
}

/// The address of an endpoint as text.
fn ip_str(a: &SocketAddr) -> (r: String)
    ensures
        r@ == ip_text(*a),
{
    let mut out: String = String::new();
    match a {
        SocketAddr::V4(v) => push_ipv4(&mut out, v.ip),
        SocketAddr::V6(v) => push_ipv6(&mut out, v.ip),
    }
    assert(out@ =~= ip_text(*a));
    out
}

/// A generic connection identifier.
///
/// Identifies a connection independent of the source and destination socket address order. Does
/// not distinguish between the originator and responder of the connection.
#[derive(Clone, Copy, Debug, PartialEq, Eq, Hash, Structural)]
pub struct ConnId(SocketAddr, SocketAddr, usize);

impl View for ConnId {
    type V = (SocketAddr, SocketAddr, usize);

    /// The later endpoint, the earlier endpoint and the protocol.
    closed spec fn view(&self) -> (SocketAddr, SocketAddr, usize) {
        (self.0, self.1, self.2)
    }
}

impl ConnId {
    /// Returns the connection ID of a packet with `src` and `dst` IP/port pairs.
    pub fn new(src: SocketAddr, dst: SocketAddr, protocol: usize) -> (r: Self)
        ensures
            r@ == (later(src, dst), earlier(src, dst), protocol),
    {
        let (hi, lo) = later_first(src, dst);
        ConnId(hi, lo, protocol)
    }

    /// The identifier as text: `<later endpoint> <> <earlier endpoint> protocol <number>`.
    pub fn to_text(&self) -> (r: String)
        ensures
            r@ == addr_text(self@.0) + " <> "@ + addr_text(self@.1) + " protocol "@ + decimal(
                self@.2 as nat,
            ),
    {
        let mut out: String = String::new();
        push_addr(&mut out, &self.0);
        out.append(" <> ");
        push_addr(&mut out, &self.1);
        out.append(" protocol ");
        push_decimal(&mut out, self.2 as u128);
        assert(out@ =~= addr_text(self@.0) + " <> "@ + addr_text(self@.1) + " protocol "@ + decimal(
            self@.2 as nat,
        ));
        out
    }
}

/// Both directions of a connection have the same connection identifier and the same connection
/// hash.
pub proof fn law_directions_agree(t: FiveTuple)
    ensures
        later(t.orig, t.resp) == later(t.reversed().orig, t.reversed().resp),
        earlier(t.orig, t.resp) == earlier(t.reversed().orig, t.reversed().resp),
        hash_of(later(t.orig, t.resp), earlier(t.orig, t.resp), t.proto) == hash_of(
            later(t.reversed().orig, t.reversed().resp),
            earlier(t.reversed().orig, t.reversed().resp),
            t.reversed().proto,
        ),
{
    crate::net::law_endpoint_order(t.orig, t.resp, t.orig);
}

/// Two 5-tuples have the same connection identifier exactly if they are the same 5-tuple, or one is
/// the other direction of the other.
pub proof fn law_conn_id_identifies(a: FiveTuple, b: FiveTuple)
    ensures
        (later(a.orig, a.resp) == later(b.orig, b.resp) && earlier(a.orig, a.resp) == earlier(
            b.orig,
            b.resp,
        ) && a.proto == b.proto) <==> (a == b || a == b.reversed()),
{
    crate::net::law_endpoint_order(a.orig, a.resp, a.orig);
    crate::net::law_endpoint_order(b.orig, b.resp, b.orig);
}

/// The connection hash of a 5-tuple is the directional hash of one of its two directions.
pub proof fn law_conn_hash_is_a_dir_hash(t: FiveTuple)
    ensures
        ({
            let c = hash_of(later(t.orig, t.resp), earlier(t.orig, t.resp), t.proto);
            c == hash_of(t.orig, t.resp, t.proto) || c == hash_of(
                t.reversed().orig,
                t.reversed().resp,
                t.reversed().proto,
            )
        }),
{
}

} // verus!
