//! Laws of the hash that spreads tuples over the flow table.

use vstd::prelude::*;

use crate::conn_id::FiveTuple;
use crate::fx_hash::{
    addr_words, chunks, fx_step, fx_tuple, fx_words, le_u32, le_u64, lemma_fx_words_concat,
};
use crate::net::{ipv4_octets, ipv6_octets, SocketAddr};

verus! {

/// One step of the hash: the bits of the state move up by five places, those that leave at the top
/// come in at the bottom, the word is laid over them, and the whole is multiplied modulo 2^64.
pub proof fn law_step_of_the_hash(h: u64, i: u64)
    ensures
        ({
            let moved = ((h * 32) % 0x1_0000_0000_0000_0000 + h as int / 0x800_0000_0000_0000)
                as u64;
            fx_step(h, i) == ((moved ^ i) * 0x517c_c1b7_2722_0a95) % 0x1_0000_0000_0000_0000
        }),
{
    assert(((h << 5) | (h >> 59)) == (h * 32) % 0x1_0000_0000_0000_0000 + h
        / 0x800_0000_0000_0000) by (bit_vector);
}

/// Words enter the hash in turn, the first one first; without words the state stays.
pub proof fn law_words_enter_in_turn(h: u64, w: u64, ws: Seq<u64>)
    ensures
        fx_words(h, Seq::empty()) == h,
        fx_words(h, seq![w] + ws) == fx_words(fx_step(h, w), ws),
        fx_words(h, ws.push(w)) == fx_step(fx_words(h, ws), w),
{
    lemma_fx_words_concat(h, seq![w], ws);
    assert(seq![w].drop_last() =~= Seq::empty());
    reveal_with_fuel(fx_words, 2);
    assert(ws.push(w).drop_last() =~= ws);
}

/// Bytes are taken in little-endian order: each byte weighs 256 times as much as the one before it.
pub proof fn law_bytes_in_little_endian(s: Seq<u8>)
    ensures
        le_u32(s) == s[0] + 0x100 * s[1] + 0x1_0000 * s[2] + 0x100_0000 * s[3],
        le_u64(s) == s[0] + 0x100 * s[1] + 0x1_0000 * s[2] + 0x100_0000 * s[3] + 0x1_0000_0000
            * s[4] + 0x100_0000_0000 * s[5] + 0x1_0000_0000_0000 * s[6] + 0x100_0000_0000_0000
            * s[7],
{
    let (a, b, c, d) = (s[0], s[1], s[2], s[3]);
    let (e, f, g, h) = (s[4], s[5], s[6], s[7]);
    assert(((a as u64) | (b as u64) << 8 | (c as u64) << 16 | (d as u64) << 24) == a + 0x100 * b
        + 0x1_0000 * c + 0x100_0000 * d) by (bit_vector);
    assert(((a as u64) | (b as u64) << 8 | (c as u64) << 16 | (d as u64) << 24 | (e as u64) << 32
        | (f as u64) << 40 | (g as u64) << 48 | (h as u64) << 56) == a + 0x100 * b + 0x1_0000 * c
        + 0x100_0000 * d + 0x1_0000_0000 * e + 0x100_0000_0000 * f + 0x1_0000_0000_0000 * g
        + 0x100_0000_0000_0000 * h) by (bit_vector);
}

/// A byte string enters by eights, the rest by four, and what is then left byte by byte.
pub proof fn law_cutting_of_bytes(s: Seq<u8>, rest: Seq<u8>)
    ensures
        s.len() == 8 ==> chunks(s + rest) == seq![le_u64(s)] + chunks(rest),
        s.len() == 4 && rest.len() < 4 ==> chunks(s + rest) == seq![le_u32(s)] + chunks(rest),
        rest.len() < 4 ==> chunks(rest).len() == rest.len() && forall|k: int|
            0 <= k < rest.len() ==> #[trigger] chunks(rest)[k] == rest[k],
{
    let all = s + rest;
    if s.len() == 8 {
        assert(all.skip(8) =~= rest);
    }
    if s.len() == 4 && rest.len() < 4 {
        assert(all.skip(4) =~= rest);
        assert(chunks(rest) == rest.map_values(|b: u8| b as u64));
    }
}

/// What an endpoint feeds to the hash: the family, the octets of the address from the first to the
/// last, the port, and for IPv6 the flow label and the scope.
pub proof fn law_words_of_an_endpoint(a: SocketAddr)
    ensures
        a matches SocketAddr::V4(v) ==> {
            &&& addr_words(a).len() == 3
            &&& addr_words(a)[0] == 0
            &&& addr_words(a)[1] == le_u32(ipv4_octets(v.ip))
            &&& addr_words(a)[2] == v.port
        },
        a matches SocketAddr::V6(v) ==> {
            &&& addr_words(a).len() == 6
            &&& addr_words(a)[0] == 1
            &&& addr_words(a)[1] == le_u64(ipv6_octets(v.ip).take(8))
            &&& addr_words(a)[2] == le_u64(ipv6_octets(v.ip).skip(8))
            &&& addr_words(a)[3] == v.port
            &&& addr_words(a)[4] == v.flowinfo
            &&& addr_words(a)[5] == v.scope_id
        },
{
    if let SocketAddr::V6(v) = a {
        let o = ipv6_octets(v.ip);
        law_cutting_of_bytes(o.take(8), o.skip(8));
        law_cutting_of_bytes(o.skip(8), Seq::empty());
        assert(o.take(8) + o.skip(8) =~= o);
        assert(o.skip(8) + Seq::<u8>::empty() =~= o.skip(8));
    }
}

/// An address can be told from its octets, taken in little-endian order.
proof fn lemma_octets_tell_v4(x: u32, y: u32)
    requires
        le_u32(ipv4_octets(x)) == le_u32(ipv4_octets(y)),
    ensures
        x == y,
{
    let (a, b) = (ipv4_octets(x), ipv4_octets(y));
    assert(((x >> 24) as u8 as u64 | ((x >> 16) as u8 as u64) << 8 | ((x >> 8) as u8 as u64) << 16
        | ((x >> 0) as u8 as u64) << 24) == ((y >> 24) as u8 as u64 | ((y >> 16) as u8 as u64) << 8
        | ((y >> 8) as u8 as u64) << 16 | ((y >> 0) as u8 as u64) << 24) ==> x == y)
        by (bit_vector);
    assert(a[0] == (x >> 24) as u8 && a[1] == (x >> 16) as u8);
    assert(a[2] == (x >> 8) as u8 && a[3] == (x >> 0) as u8);
    assert(b[0] == (y >> 24) as u8 && b[1] == (y >> 16) as u8);
    assert(b[2] == (y >> 8) as u8 && b[3] == (y >> 0) as u8);
}

/// Eight octets can be told from the word that they make.
proof fn lemma_word_tells_octets(s: Seq<u8>, t: Seq<u8>)
    requires
        s.len() == 8,
        t.len() == 8,
        le_u64(s) == le_u64(t),
    ensures
        s == t,
{
    let (a, b, c, d) = (s[0], s[1], s[2], s[3]);
    let (e, f, g, h) = (s[4], s[5], s[6], s[7]);
    let (i, j, k, l) = (t[0], t[1], t[2], t[3]);
    let (m, n, o, p) = (t[4], t[5], t[6], t[7]);
    assert(a == i && b == j && c == k && d == l && e == m && f == n && g == o && h == p)
        by (bit_vector)
        requires
            (a as u64) | (b as u64) << 8 | (c as u64) << 16 | (d as u64) << 24 | (e as u64) << 32
                | (f as u64) << 40 | (g as u64) << 48 | (h as u64) << 56 == (i as u64) | (j as u64)
                << 8 | (k as u64) << 16 | (l as u64) << 24 | (m as u64) << 32 | (n as u64) << 40 | (
            o as u64) << 48 | (p as u64) << 56,
    ;
    assert(s =~= t);
}

/// An IPv6 address can be told from its octets.
proof fn lemma_octets_tell_v6(x: u128, y: u128)
    requires
        ipv6_octets(x) == ipv6_octets(y),
    ensures
        x == y,
{
    let (a, b) = (ipv6_octets(x), ipv6_octets(y));
    assert(a[0] == b[0] && a[1] == b[1] && a[2] == b[2] && a[3] == b[3] && a[4] == b[4]);
    assert(a[5] == b[5] && a[6] == b[6] && a[7] == b[7] && a[8] == b[8] && a[9] == b[9]);
    assert(a[10] == b[10] && a[11] == b[11] && a[12] == b[12] && a[13] == b[13]);
    assert(a[14] == b[14] && a[15] == b[15]);
    assert(x == y) by (bit_vector)
        requires
            (x >> 120) as u8 == (y >> 120) as u8,
            (x >> 112) as u8 == (y >> 112) as u8,
            (x >> 104) as u8 == (y >> 104) as u8,
            (x >> 96) as u8 == (y >> 96) as u8,
            (x >> 88) as u8 == (y >> 88) as u8,
            (x >> 80) as u8 == (y >> 80) as u8,
            (x >> 72) as u8 == (y >> 72) as u8,
            (x >> 64) as u8 == (y >> 64) as u8,
            (x >> 56) as u8 == (y >> 56) as u8,
            (x >> 48) as u8 == (y >> 48) as u8,
            (x >> 40) as u8 == (y >> 40) as u8,
            (x >> 32) as u8 == (y >> 32) as u8,
            (x >> 24) as u8 == (y >> 24) as u8,
            (x >> 16) as u8 == (y >> 16) as u8,
            (x >> 8) as u8 == (y >> 8) as u8,
            (x >> 0) as u8 == (y >> 0) as u8,
    ;
}

/// An endpoint can be told from what it feeds to the hash: no part of it is left out.
pub proof fn law_words_tell_the_endpoint(a: SocketAddr, b: SocketAddr)
    requires
        addr_words(a) == addr_words(b),
    ensures
        a == b,
{
    law_words_of_an_endpoint(a);
    law_words_of_an_endpoint(b);
    assert(addr_words(a)[0] == addr_words(b)[0]);
    assert(addr_words(a)[1] == addr_words(b)[1]);
    assert(addr_words(a)[2] == addr_words(b)[2]);
    match (a, b) {
        (SocketAddr::V4(x), SocketAddr::V4(y)) => lemma_octets_tell_v4(x.ip, y.ip),
        (SocketAddr::V6(x), SocketAddr::V6(y)) => {
            assert(addr_words(a)[3] == addr_words(b)[3]);
            assert(addr_words(a)[4] == addr_words(b)[4]);
            assert(addr_words(a)[5] == addr_words(b)[5]);
            let (s, t) = (ipv6_octets(x.ip), ipv6_octets(y.ip));
            lemma_word_tells_octets(s.take(8), t.take(8));
            lemma_word_tells_octets(s.skip(8), t.skip(8));
            assert(s =~= s.take(8) + s.skip(8));
            assert(t =~= t.take(8) + t.skip(8));
            lemma_octets_tell_v6(x.ip, y.ip);
        },
        _ => {},
    }
}

/// The hash of a tuple is that of the words of its originator, of its responder and of its protocol
/// number, in this order, and no two tuples feed the same words.
pub proof fn law_words_tell_the_tuple(t: FiveTuple, u: FiveTuple)
    ensures
        ({
            let a = addr_words(t.orig) + addr_words(t.resp) + seq![t.proto as u64];
            let b = addr_words(u.orig) + addr_words(u.resp) + seq![u.proto as u64];
            &&& fx_tuple(t) == fx_words(0, a)
            &&& a == b ==> t == u
        }),
{
    let a = addr_words(t.orig) + addr_words(t.resp) + seq![t.proto as u64];
    let b = addr_words(u.orig) + addr_words(u.resp) + seq![u.proto as u64];
    if a == b {
        law_words_of_an_endpoint(t.orig);
        law_words_of_an_endpoint(u.orig);
        law_words_of_an_endpoint(t.resp);
        law_words_of_an_endpoint(u.resp);
        let n = addr_words(t.orig).len() as int;
        assert(a[0] == addr_words(t.orig)[0] && b[0] == addr_words(u.orig)[0]);
        assert(addr_words(u.orig).len() == n);
        assert(a.take(n) =~= addr_words(t.orig) && b.take(n) =~= addr_words(u.orig));
        law_words_tell_the_endpoint(t.orig, u.orig);
        let m = n + addr_words(t.resp).len();
        assert(a[n] == addr_words(t.resp)[0] && b[n] == addr_words(u.resp)[0]);
        assert(addr_words(u.resp).len() == addr_words(t.resp).len());
        assert(a.subrange(n, m) =~= addr_words(t.resp) && b.subrange(n, m) =~= addr_words(u.resp));
        law_words_tell_the_endpoint(t.resp, u.resp);
        assert(a[m] == t.proto as u64 && b[m] == u.proto as u64);
    }
}

} // verus!
