//! The FxHash function, and the hash of a 5-tuple under it.
//!
//! FxHash is much faster than a keyed hash on small fixed-size keys, at the cost of resistance
//! against chosen keys, which a trusted flow table does not need.

use vstd::prelude::*;
use vstd::slice::slice_subrange;

use crate::conn_id::FiveTuple;
use crate::net::{ipv4_octets, ipv6_octets, octets_v4, octets_v6, SocketAddr};

verus! {

/// The odd multiplier of every step.
pub const FX_SEED: u64 = 0x51_7c_c1_b7_27_22_0a_95;

/// `x` with its bits rotated left by five places.
pub open spec fn rotated(x: u64) -> u64 {
    (x << 5) | (x >> 59)
}

/// The state after one word `i` enters the state `h`.
pub open spec fn fx_step(h: u64, i: u64) -> u64 {
    ((((rotated(h) ^ i) as nat) * (FX_SEED as nat)) % 0x1_0000_0000_0000_0000) as u64
}

/// The state after the words `ws` enter the state `h`, the first one first.
pub open spec fn fx_words(h: u64, ws: Seq<u64>) -> u64
    decreases ws.len(),
{
    if ws.len() == 0 {
        h
    } else {
        fx_step(fx_words(h, ws.drop_last()), ws.last())
    }
}

/// Eight bytes as a number, the first byte being the least significant.
pub open spec fn le_u64(s: Seq<u8>) -> u64 {
    (s[0] as u64) | (s[1] as u64) << 8 | (s[2] as u64) << 16 | (s[3] as u64) << 24
        | (s[4] as u64) << 32 | (s[5] as u64) << 40 | (s[6] as u64) << 48 | (s[7] as u64) << 56
}

/// Four bytes as a number, the first byte being the least significant.
pub open spec fn le_u32(s: Seq<u8>) -> u64 {
    (s[0] as u64) | (s[1] as u64) << 8 | (s[2] as u64) << 16 | (s[3] as u64) << 24
}

/// The words that a byte string is cut into: as many groups of eight bytes as there are, then a
/// group of four if that many are left, then single bytes.
pub open spec fn chunks(s: Seq<u8>) -> Seq<u64>
    decreases s.len(),
{
    if s.len() >= 8 {
        seq![le_u64(s)] + chunks(s.skip(8))
    } else if s.len() >= 4 {
        seq![le_u32(s)] + s.skip(4).map_values(|b: u8| b as u64)
    } else {
        s.map_values(|b: u8| b as u64)
    }
}

/// The words that an endpoint feeds to the hash.
///
/// The family comes first, then the address octets in memory order, then the port, and for IPv6
/// the flow label and the scope.
pub open spec fn addr_words(a: SocketAddr) -> Seq<u64> {
    match a {
        SocketAddr::V4(v) => seq![0u64, le_u32(ipv4_octets(v.ip)), v.port as u64],
        SocketAddr::V6(v) => seq![0x1u64] + chunks(ipv6_octets(v.ip)) + seq![
            v.port as u64,
            v.flowinfo as u64,
            v.scope_id as u64,
        ],
    }
}

/// The FxHash of a 5-tuple.
pub open spec fn fx_tuple(t: FiveTuple) -> u64 {
    fx_words(0, addr_words(t.orig) + addr_words(t.resp) + seq![t.proto as u64])
}

/// Entering two lists of words one after the other is entering their concatenation.
pub proof fn lemma_fx_words_concat(h: u64, a: Seq<u64>, b: Seq<u64>)
    ensures
        fx_words(h, a + b) == fx_words(fx_words(h, a), b),
    decreases b.len(),
{
    if b.len() == 0 {
        assert(a + b =~= a);
    } else {
        assert((a + b).drop_last() =~= a + b.drop_last());
        lemma_fx_words_concat(h, a, b.drop_last());
    }
}

/// A running FxHash.
pub struct FxHasher {
    pub hash: u64,
}

impl FxHasher {
    /// A hash that nothing has entered yet.
    pub fn new() -> (r: Self)
        ensures
            r.hash == 0,
    {
        FxHasher { hash: 0 }
    }

    /// Enters one word.
    pub fn add(&mut self, i: u64)
        ensures
            final(self).hash == fx_step(old(self).hash, i),
    {
        let r: u64 = (self.hash << 5) | (self.hash >> 59);
        self.hash = (r ^ i).wrapping_mul(FX_SEED);
    }

    /// Enters a byte string, cut into words.
    pub fn write(&mut self, bytes: &[u8])
        ensures
            final(self).hash == fx_words(old(self).hash, chunks(bytes@)),
    {
        let mut b: &[u8] = bytes;
        let ghost start = self.hash;
        let ghost mut done: Seq<u64> = Seq::empty();
        while b.len() >= 8
            invariant
                self.hash == fx_words(start, done),
                chunks(bytes@) == done + chunks(b@),
            decreases b.len(),
        {
            let w: u64 = (b[0] as u64) | (b[1] as u64) << 8 | (b[2] as u64) << 16
                | (b[3] as u64) << 24 | (b[4] as u64) << 32 | (b[5] as u64) << 40
                | (b[6] as u64) << 48 | (b[7] as u64) << 56;
            self.add(w);
            proof {
                assert(done.push(w).drop_last() =~= done);
                assert(done.push(w) + chunks(b@.skip(8)) =~= done + chunks(b@));
                done = done.push(w);
            }
            b = slice_subrange(b, 8, b.len());
        }
        if b.len() >= 4 {
            let w: u64 = (b[0] as u64) | (b[1] as u64) << 8 | (b[2] as u64) << 16
                | (b[3] as u64) << 24;
            self.add(w);
            proof {
                assert(done.push(w).drop_last() =~= done);
                assert(done.push(w) + chunks(b@.skip(4)) =~= done + chunks(b@));
                done = done.push(w);
            }
            b = slice_subrange(b, 4, b.len());
        }
        let mut i: usize = 0;
        let ghost tail = chunks(b@);
        proof {
            assert(tail.take(0) =~= Seq::<u64>::empty());
            assert(done + tail.take(0) =~= done);
        }
        while i < b.len()
            invariant
                i <= b.len(),
                tail == b@.map_values(|b: u8| b as u64),
                self.hash == fx_words(start, done + tail.take(i as int)),
            decreases b.len() - i,
        {
            self.add(b[i] as u64);
            proof {
                assert((done + tail.take(i + 1)).drop_last() =~= done + tail.take(i as int));
            }
            i = i + 1;
        }
        assert(tail.take(i as int) =~= tail);
    }

    pub fn write_u8(&mut self, i: u8)
        ensures
            final(self).hash == fx_step(old(self).hash, i as u64),
    {
        self.add(i as u64);
    }

    pub fn write_u16(&mut self, i: u16)
        ensures
            final(self).hash == fx_step(old(self).hash, i as u64),
    {
        self.add(i as u64);
    }

    pub fn write_u32(&mut self, i: u32)
        ensures
            final(self).hash == fx_step(old(self).hash, i as u64),
    {
        self.add(i as u64);
    }

    pub fn write_u64(&mut self, i: u64)
        ensures
            final(self).hash == fx_step(old(self).hash, i),
    {
        self.add(i);
    }

    pub fn write_usize(&mut self, i: usize)
        ensures
            final(self).hash == fx_step(old(self).hash, i as u64),
    {
        self.add(i as u64);
    }

    /// The hash of what has entered.
    pub fn finish(&self) -> (r: u64)
        ensures
            r == self.hash,
    {
        self.hash
    }
}

/// Enters an endpoint.
fn write_addr(h: &mut FxHasher, a: &SocketAddr)
    ensures
        final(h).hash == fx_words(old(h).hash, addr_words(*a)),
{
    let ghost start = h.hash;
    match a {
        SocketAddr::V4(v) => {
            let o: [u8; 4] = octets_v4(v.ip);
            let w: u64 = (o[0] as u64) | (o[1] as u64) << 8 | (o[2] as u64) << 16
                | (o[3] as u64) << 24;
            h.write_u64(0);
            h.write_u64(w);
            h.write_u16(v.port);
            proof {
                let ws = addr_words(*a);
                assert(ws.drop_last().drop_last().drop_last() =~= Seq::<u64>::empty());
                reveal_with_fuel(fx_words, 4);
            }
        },
        SocketAddr::V6(v) => {
            let o: [u8; 16] = octets_v6(v.ip);
            h.write_u64(1);
            let ghost h1 = h.hash;
            h.write(&o);
            let ghost h2 = h.hash;
            h.write_u16(v.port);
            h.write_u32(v.flowinfo);
            h.write_u32(v.scope_id);
            proof {
                let first = seq![0x1u64];
                let mid = chunks(ipv6_octets(v.ip));
                let last = seq![v.port as u64, v.flowinfo as u64, v.scope_id as u64];
                lemma_fx_words_concat(start, first + mid, last);
                lemma_fx_words_concat(start, first, mid);
                assert(first.drop_last() =~= Seq::<u64>::empty());
                reveal_with_fuel(fx_words, 4);
                assert(last.drop_last().drop_last().drop_last() =~= Seq::<u64>::empty());
            }
        },
    }
}

/// FxHash of a 5-tuple.
pub fn fxhash(tuple: &FiveTuple) -> (r: u64)
    ensures
        r == fx_tuple(*tuple),
{
    let mut h = FxHasher::new();
    write_addr(&mut h, &tuple.orig);
    write_addr(&mut h, &tuple.resp);
    h.write_usize(tuple.proto);
    proof {
        let a = addr_words(tuple.orig);
        let b = addr_words(tuple.resp);
        lemma_fx_words_concat(0, a, b);
        assert((a + b + seq![tuple.proto as u64]).drop_last() =~= a + b);
    }
    h.finish()
}

} // verus!
