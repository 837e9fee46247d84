//! Laws of connection identifiers: what tells connections apart, and how they are hashed and named.

use vstd::prelude::*;

use crate::conn_id::{
    endpoint_word, fnv1a, le_bytes, port_of, FiveTuple, L4Context, FNV_OFFSET,
};
use crate::net::{addr_text, earlier, ipv4_text, ipv6_text, later, precedes, SocketAddr};
use crate::text::decimal;

verus! {

/// The word of an endpoint: the address above sixteen bits of port. An IPv4 address is there whole;
/// of an IPv6 address both halves are, as the low 48 bits of their xor.
pub proof fn law_endpoint_word(a: SocketAddr)
    ensures
        a matches SocketAddr::V4(v) ==> endpoint_word(a) == v.ip * 65_536 + v.port,
        a matches SocketAddr::V6(v) ==> {
            let low = (v.ip as int % 0x1_0000_0000_0000_0000) as u64;
            let high = (v.ip as int / 0x1_0000_0000_0000_0000) as u64;
            &&& endpoint_word(a) % 65_536 == v.port
            &&& endpoint_word(a) / 65_536 == (low ^ high) % 0x1_0000_0000_0000
        },
{
    match a {
        SocketAddr::V4(v) => {
            let ip = v.ip;
            let p = v.port;
            assert(((ip as u64) << 16) ^ (p as u64) == (ip as u64) * 65_536 + (p as u64))
                by (bit_vector);
        },
        SocketAddr::V6(v) => {
            lemma_halves(v.ip);
            let x = (v.ip as u64) ^ ((v.ip >> 64) as u64);
            lemma_word(x, v.port);
        },
    }
}

/// The two halves of a 128-bit number.
proof fn lemma_halves(ip: u128)
    ensures
        (ip as int % 0x1_0000_0000_0000_0000) as u64 == ip as u64,
        (ip as int / 0x1_0000_0000_0000_0000) as u64 == (ip >> 64) as u64,
{
    assert(ip as u64 == ip % 0x1_0000_0000_0000_0000 && (ip >> 64) as u64 == ip
        / 0x1_0000_0000_0000_0000) by (bit_vector);
}

/// An address part above a port.
proof fn lemma_word(x: u64, p: u16)
    ensures
        ((x << 16) ^ (p as u64)) % 65_536 == p,
        ((x << 16) ^ (p as u64)) / 65_536 == x % 0x1_0000_0000_0000,
{
    assert(((x << 16) ^ (p as u64)) % 65_536 == p as u64 && ((x << 16) ^ (p as u64)) / 65_536 == x
        % 0x1_0000_0000_0000) by (bit_vector);
}

/// What the word of an endpoint tells apart. Two IPv4 endpoints have one word only if they are the
/// same endpoint. Two IPv6 endpoints of one network and port have different words if their
/// addresses differ within the low 48 bits, and so do two of one interface and port if their
/// networks differ within the low 48 bits. Different ports always have different words.
pub proof fn law_words_tell_endpoints_apart(a: SocketAddr, b: SocketAddr)
    ensures
        a matches SocketAddr::V4(v) ==> port_of(a) == v.port,
        a matches SocketAddr::V6(v) ==> port_of(a) == v.port,
        a is V4 && b is V4 && endpoint_word(a) == endpoint_word(b) ==> a == b,
        (a is V4 <==> b is V4) && port_of(a) != port_of(b) ==> endpoint_word(a) != endpoint_word(b),
        (a, b) matches (SocketAddr::V6(x), SocketAddr::V6(y)) ==> {
            let low_x = x.ip as int % 0x1_0000_0000_0000_0000;
            let low_y = y.ip as int % 0x1_0000_0000_0000_0000;
            let high_x = x.ip as int / 0x1_0000_0000_0000_0000;
            let high_y = y.ip as int / 0x1_0000_0000_0000_0000;
            &&& x.port == y.port && high_x == high_y && low_x % 0x1_0000_0000_0000 != low_y
                % 0x1_0000_0000_0000 ==> endpoint_word(a) != endpoint_word(b)
            &&& x.port == y.port && low_x == low_y && high_x % 0x1_0000_0000_0000 != high_y
                % 0x1_0000_0000_0000 ==> endpoint_word(a) != endpoint_word(b)
        },
{
    law_endpoint_word(a);
    law_endpoint_word(b);
    match (a, b) {
        (SocketAddr::V6(x), SocketAddr::V6(y)) => {
            lemma_halves(x.ip);
            lemma_halves(y.ip);
            let lx = x.ip as u64;
            let ly = y.ip as u64;
            let hx = (x.ip >> 64) as u64;
            let hy = (y.ip >> 64) as u64;
            assert(hx == hy && lx % 0x1_0000_0000_0000 != ly % 0x1_0000_0000_0000 ==> (lx ^ hx)
                % 0x1_0000_0000_0000 != (ly ^ hy) % 0x1_0000_0000_0000) by (bit_vector);
            assert(lx == ly && hx % 0x1_0000_0000_0000 != hy % 0x1_0000_0000_0000 ==> (lx ^ hx)
                % 0x1_0000_0000_0000 != (ly ^ hy) % 0x1_0000_0000_0000) by (bit_vector);
        },
        _ => {},
    }
}

/// FNV-1a: every byte is put to the state with xor, and the state is then multiplied.
pub proof fn law_fnv_takes_bytes_in_turn(h: u64, s: Seq<u8>, b: u8)
    ensures
        fnv1a(h, Seq::empty()) == h,
        fnv1a(h, s.push(b)) == (((fnv1a(h, s) ^ (b as u64)) as int) * 0x100_0000_01b3)
            % 0x1_0000_0000_0000_0000,
{
    assert(s.push(b).drop_last() =~= s);
}

/// Hashing two byte strings one after the other is hashing both in a row.
proof fn lemma_fnv_concat(h: u64, a: Seq<u8>, b: Seq<u8>)
    ensures
        fnv1a(h, a + b) == fnv1a(fnv1a(h, a), b),
    decreases b.len(),
{
    if b.len() == 0 {
        assert(a + b =~= a);
    } else {
        assert((a + b).drop_last() =~= a + b.drop_last());
        lemma_fnv_concat(h, a, b.drop_last());
    }
}

/// A word is hashed as its eight bytes, the least significant first.
pub proof fn law_words_are_hashed_in_little_endian(v: u64)
    ensures
        le_bytes(v).len() == 8,
        le_bytes(v)[0] == v % 256,
        le_bytes(v)[1] == (v / 0x100) % 256,
        le_bytes(v)[2] == (v / 0x1_0000) % 256,
        le_bytes(v)[3] == (v / 0x100_0000) % 256,
        le_bytes(v)[4] == (v / 0x1_0000_0000) % 256,
        le_bytes(v)[5] == (v / 0x100_0000_0000) % 256,
        le_bytes(v)[6] == (v / 0x1_0000_0000_0000) % 256,
        le_bytes(v)[7] == v / 0x100_0000_0000_0000,
{
    assert((v >> 0) as u8 == v % 256 && (v >> 8) as u8 == (v / 0x100) % 256 && (v >> 16) as u8 == (v
        / 0x1_0000) % 256 && (v >> 24) as u8 == (v / 0x100_0000) % 256 && (v >> 32) as u8 == (v
        / 0x1_0000_0000) % 256 && (v >> 40) as u8 == (v / 0x100_0000_0000) % 256 && (v >> 48) as u8
        == (v / 0x1_0000_0000_0000) % 256 && (v >> 56) as u8 == v / 0x100_0000_0000_0000)
        by (bit_vector);
}

/// The hash of a 5-tuple is FNV-1a over 24 bytes: the words of the two endpoints and the protocol.
/// The directional hash takes the originator first; the connection hash takes the endpoint first
/// that is later in the order of endpoints, whichever of the two it is.
pub proof fn law_hash_takes_endpoints_and_protocol(t: FiveTuple)
    ensures
        ({
            let orig = le_bytes(endpoint_word(t.orig));
            let resp = le_bytes(endpoint_word(t.resp));
            let proto = le_bytes(t.proto as u64);
            let start = 0xcbf2_9ce4_8422_2325u64;
            &&& t.dir_hash_value() == fnv1a(start, orig + resp + proto)
            &&& precedes(t.orig, t.resp) ==> t.conn_hash_value() == fnv1a(
                start,
                resp + orig + proto,
            )
            &&& !precedes(t.orig, t.resp) ==> t.conn_hash_value() == fnv1a(
                start,
                orig + resp + proto,
            )
        }),
        t.conn_hash_value() == t.reversed().conn_hash_value(),
{
    let orig = le_bytes(endpoint_word(t.orig));
    let resp = le_bytes(endpoint_word(t.resp));
    let proto = le_bytes(t.proto as u64);
    lemma_fnv_concat(FNV_OFFSET, orig + resp, proto);
    lemma_fnv_concat(FNV_OFFSET, orig, resp);
    lemma_fnv_concat(FNV_OFFSET, resp + orig, proto);
    lemma_fnv_concat(FNV_OFFSET, resp, orig);
    crate::net::law_endpoint_order(t.orig, t.resp, t.orig);
}

/// The other direction of a connection has the endpoints exchanged and the same protocol, and its
/// other direction is the connection again.
pub proof fn law_reverse_exchanges_the_endpoints(t: FiveTuple, ctxt: L4Context)
    ensures
        t.reversed().orig == t.resp,
        t.reversed().resp == t.orig,
        t.reversed().proto == t.proto,
        t.reversed().reversed() == t,
        ctxt.five_tuple().orig == ctxt.src,
        ctxt.five_tuple().resp == ctxt.dst,
        ctxt.five_tuple().proto == ctxt.proto,
{
}

/// Endpoints are ordered as numbers made of their parts: IPv4 before IPv6, then address above port,
/// and for IPv6 then flow label above scope.
pub proof fn law_order_of_endpoints(a: SocketAddr, b: SocketAddr)
    ensures
        a is V4 && b is V6 ==> precedes(a, b) && !precedes(b, a),
        (a, b) matches (SocketAddr::V4(x), SocketAddr::V4(y)) ==> (precedes(a, b) <==> x.ip * 65_536
            + x.port < y.ip * 65_536 + y.port),
        (a, b) matches (SocketAddr::V6(x), SocketAddr::V6(y)) ==> (precedes(a, b) <==> ((x.ip * 65_536
            + x.port) * 0x1_0000_0000 + x.flowinfo) * 0x1_0000_0000 + x.scope_id < ((y.ip * 65_536
            + y.port) * 0x1_0000_0000 + y.flowinfo) * 0x1_0000_0000 + y.scope_id),
        later(a, b) == a && earlier(a, b) == b || later(a, b) == b && earlier(a, b) == a,
        !precedes(later(a, b), earlier(a, b)),
{
    crate::net::law_endpoint_order(a, b, a);
}

/// The destination subnet: an IPv4 address is cut to its first three octets, but for broadcast and
/// for the addresses whose first octet is 224 to 239, which stay whole; an IPv6 address is cut to
/// its upper half. Endpoints of different families have none.
pub proof fn law_subnet_of_the_destination(t: FiveTuple)
    ensures
        (t.orig, t.resp) matches (SocketAddr::V4(_), SocketAddr::V4(d)) ==> {
            let first = d.ip / 0x100_0000;
            let whole = d.ip == 0xffff_ffff || 224 <= first <= 239;
            t.dst_subnet_text() == ipv4_text(
                if whole {
                    d.ip
                } else {
                    (d.ip - d.ip % 256) as u32
                },
            )
        },
        (t.orig, t.resp) matches (SocketAddr::V6(_), SocketAddr::V6(d)) ==> t.dst_subnet_text()
            == ipv6_text((d.ip - d.ip as int % 0x1_0000_0000_0000_0000) as u128),
        t.orig is V4 != t.resp is V4 ==> t.dst_subnet_text().len() == 0,
{
    match (t.orig, t.resp) {
        (SocketAddr::V4(_), SocketAddr::V4(d)) => {
            let ip = d.ip;
            assert(ip & 0xffff_ff00 == ip - ip % 256) by (bit_vector);
        },
        (SocketAddr::V6(_), SocketAddr::V6(d)) => {
            let ip = d.ip;
            assert(ip & 0xffff_ffff_ffff_ffff_0000_0000_0000_0000 == ip - ip
                % 0x1_0000_0000_0000_0000) by (bit_vector);
        },
        _ => {},
    }
}

/// The texts of a 5-tuple name its parts in order: the destination is the responder, the source the
/// originator, and the ports stand the same way.
pub proof fn law_texts_name_the_parts(t: FiveTuple)
    ensures
        t.dst_ip_text() == match t.resp {
            SocketAddr::V4(v) => ipv4_text(v.ip),
            SocketAddr::V6(v) => ipv6_text(v.ip),
        },
        t.src_ip_text() == t.reversed().dst_ip_text(),
        t.text() == addr_text(t.orig) + " -> "@ + addr_text(t.resp) + " protocol "@ + decimal(
            t.proto as nat,
        ),
        ({
            let ports = |src: SocketAddr, dst: SocketAddr|
                "\", \"src\": \""@ + decimal(port_of(src) as nat) + "\", \"dst\": \""@ + decimal(
                    port_of(dst) as nat,
                ) + "\" }"@;
            let open = "{ \"proto\": \""@;
            &&& t.proto == 6 ==> t.transp_proto_text() =~= open + "tcp"@ + ports(t.orig, t.resp)
            &&& t.proto == 17 ==> t.transp_proto_text() =~= open + "udp"@ + ports(t.orig, t.resp)
            &&& t.proto != 6 && t.proto != 17 ==> t.transp_proto_text() =~= open + "none"@ + ports(
                t.orig,
                t.resp,
            )
        }),
{
}

} // verus!
