//! Socket addresses as plain values: their octets, their order and their text form.

use vstd::prelude::*;

use crate::text::{decimal, hex, push_decimal, push_hex};

verus! {

/// An IPv4 address and a port.
///
/// `ip` holds the four octets as one number, the first octet being the most
/// significant.
#[derive(Clone, Copy, Debug, PartialEq, Eq, Hash, Structural)]
pub struct SocketAddrV4 {
    pub ip: u32,
    pub port: u16,
}

/// An IPv6 address and a port, with the flow label and the scope.
///
/// `ip` holds the sixteen octets as one number, the first octet being the most
/// significant.
#[derive(Clone, Copy, Debug, PartialEq, Eq, Hash, Structural)]
pub struct SocketAddrV6 {
    pub ip: u128,
    pub port: u16,
    pub flowinfo: u32,
    pub scope_id: u32,
}

/// One endpoint of a connection.
#[derive(Clone, Copy, Debug, PartialEq, Eq, Hash, Structural)]
pub enum SocketAddr {
    V4(SocketAddrV4),
    V6(SocketAddrV6),
}

/// The octets of an IPv4 address in network order.
pub open spec fn ipv4_octets(ip: u32) -> Seq<u8> {
    Seq::new(4, |k: int| (ip >> ((24 - 8 * k) as u32)) as u8)
}

/// The octets of an IPv6 address in network order.
pub open spec fn ipv6_octets(ip: u128) -> Seq<u8> {
    Seq::new(16, |k: int| (ip >> ((120 - 8 * k) as u128)) as u8)
}

/// The octets of an IPv4 address in network order.
pub fn octets_v4(ip: u32) -> (r: [u8; 4])
    ensures
        r@ == ipv4_octets(ip),
{
    [(ip >> 24) as u8, (ip >> 16) as u8, (ip >> 8) as u8, (ip >> 0) as u8]
}

/// The octets of an IPv6 address in network order.
pub fn octets_v6(ip: u128) -> (r: [u8; 16])
    ensures
        r@ == ipv6_octets(ip),
{
    [
        (ip >> 120) as u8,
        (ip >> 112) as u8,
        (ip >> 104) as u8,
        (ip >> 96) as u8,
        (ip >> 88) as u8,
        (ip >> 80) as u8,
        (ip >> 72) as u8,
        (ip >> 64) as u8,
        (ip >> 56) as u8,
        (ip >> 48) as u8,
        (ip >> 40) as u8,
        (ip >> 32) as u8,
        (ip >> 24) as u8,
        (ip >> 16) as u8,
        (ip >> 8) as u8,
        (ip >> 0) as u8,
    ]
}

/// The eight 16-bit groups of an IPv6 address, the most significant first.
pub open spec fn ipv6_segments(ip: u128) -> Seq<u16> {
    Seq::new(8, |k: int| (ip >> ((112 - 16 * k) as u128)) as u16)
}

/// The eight 16-bit groups of an IPv6 address, the most significant first.
pub fn segments_v6(ip: u128) -> (r: [u16; 8])
    ensures
        r@ == ipv6_segments(ip),
{
    [
        (ip >> 112) as u16,
        (ip >> 96) as u16,
        (ip >> 80) as u16,
        (ip >> 64) as u16,
        (ip >> 48) as u16,
        (ip >> 32) as u16,
        (ip >> 16) as u16,
        (ip >> 0) as u16,
    ]
}

/// An IPv4 address as text: four decimal numbers with dots between them.
pub open spec fn ipv4_text(ip: u32) -> Seq<char> {
    let o = ipv4_octets(ip);
    decimal(o[0] as nat) + "."@ + decimal(o[1] as nat) + "."@ + decimal(o[2] as nat) + "."@
        + decimal(o[3] as nat)
}

/// How many groups in a row, from group `i` on, are zero.
pub open spec fn zero_run(s: Seq<u16>, i: nat) -> nat
    decreases s.len() - i,
{
    if i < s.len() && s[i as int] == 0 {
        1 + zero_run(s, i + 1)
    } else {
        0
    }
}

/// Where, among the first `n` groups, the longest row of zeros starts; the first one, if there are
/// several.
pub open spec fn longest_zeros(s: Seq<u16>, n: nat) -> nat
    decreases n,
{
    if n <= 1 {
        0
    } else {
        let best = longest_zeros(s, (n - 1) as nat);
        if zero_run(s, (n - 1) as nat) > zero_run(s, best) {
            (n - 1) as nat
        } else {
            best
        }
    }
}

/// Groups in hexadecimal with colons between them.
pub open spec fn colon_hex(s: Seq<u16>) -> Seq<char>
    decreases s.len(),
{
    if s.len() == 0 {
        Seq::empty()
    } else if s.len() == 1 {
        hex(s[0] as nat)
    } else {
        colon_hex(s.drop_last()) + ":"@ + hex(s.last() as nat)
    }
}

/// Whether an IPv6 address stands for an IPv4 address (`::ffff:0:0/96`).
pub open spec fn is_v4_mapped(ip: u128) -> bool {
    let s = ipv6_segments(ip);
    s[0] == 0 && s[1] == 0 && s[2] == 0 && s[3] == 0 && s[4] == 0 && s[5] == 0xffff
}

/// An IPv6 address as text.
///
/// The groups are written in hexadecimal with colons between them, and the first longest row of at
/// least two zero groups is left out, which a double colon shows. An address that stands for an
/// IPv4 address ends in the text of that address.
pub open spec fn ipv6_text(ip: u128) -> Seq<char> {
    let s = ipv6_segments(ip);
    let start = longest_zeros(s, 8) as int;
    let len = zero_run(s, start as nat) as int;
    if is_v4_mapped(ip) {
        "::ffff:"@ + ipv4_text(ip as u32)
    } else if len > 1 {
        colon_hex(s.subrange(0, start)) + "::"@ + colon_hex(s.subrange(start + len, 8))
    } else {
        colon_hex(s)
    }
}

/// An endpoint as text: the address and the port, with a colon between them. An IPv6 address
/// stands in square brackets, with its scope if it has one.
pub open spec fn addr_text(a: SocketAddr) -> Seq<char> {
    match a {
        SocketAddr::V4(v) => ipv4_text(v.ip) + ":"@ + decimal(v.port as nat),
        SocketAddr::V6(v) => {
            let scope = if v.scope_id == 0 {
                Seq::<char>::empty()
            } else {
                "%"@ + decimal(v.scope_id as nat)
            };
            "["@ + ipv6_text(v.ip) + scope + "]:"@ + decimal(v.port as nat)
        },
    }
}

/// Appends the text of an IPv4 address.
pub fn push_ipv4(out: &mut String, ip: u32)
    ensures
        final(out)@ == old(out)@ + ipv4_text(ip),
{
    let o: [u8; 4] = octets_v4(ip);
    push_decimal(out, o[0] as u128);
    out.append(".");
    push_decimal(out, o[1] as u128);
    out.append(".");
    push_decimal(out, o[2] as u128);
    out.append(".");
    push_decimal(out, o[3] as u128);
    assert(out@ =~= old(out)@ + ipv4_text(ip));
}

/// [`zero_run`], computed.
fn count_zeros(s: &[u16; 8], i: usize) -> (r: usize)
    requires
        i <= 8,
    ensures
        r == zero_run(s@, i as nat),
        i + r <= 8,
    decreases 8 - i,
{
    if i < 8 && s[i] == 0 {
        1 + count_zeros(s, i + 1)
    } else {
        0
    }
}

/// Appends the groups `lo..hi` in hexadecimal with colons between them.
fn push_colon_hex(out: &mut String, s: &[u16; 8], lo: usize, hi: usize)
    requires
        lo <= hi <= 8,
    ensures
        final(out)@ == old(out)@ + colon_hex(s@.subrange(lo as int, hi as int)),
    decreases hi - lo,
{
    if hi == lo {
        assert(out@ =~= old(out)@ + colon_hex(s@.subrange(lo as int, hi as int)));
        return;
    }
    let last: usize = hi - 1;
    proof {
        let part = s@.subrange(lo as int, hi as int);
        assert(part.drop_last() =~= s@.subrange(lo as int, last as int));
    }
    if last > lo {
        push_colon_hex(out, s, lo, last);
        out.append(":");
    }
    push_hex(out, s[last] as u64);
    assert(out@ =~= old(out)@ + colon_hex(s@.subrange(lo as int, hi as int)));
}

/// Appends the text of an IPv6 address.
pub fn push_ipv6(out: &mut String, ip: u128)
    ensures
        final(out)@ == old(out)@ + ipv6_text(ip),
{
    let s: [u16; 8] = segments_v6(ip);
    if s[0] == 0 && s[1] == 0 && s[2] == 0 && s[3] == 0 && s[4] == 0 && s[5] == 0xffff {
        out.append("::ffff:");
        push_ipv4(out, ip as u32);
        assert(out@ =~= old(out)@ + ipv6_text(ip));
        return;
    }
    let mut start: usize = 0;
    let mut len: usize = count_zeros(&s, 0);
    let mut i: usize = 1;
    while i < 8
        invariant
            1 <= i <= 8,
            start == longest_zeros(s@, i as nat),
            len == zero_run(s@, start as nat),
            start < 8,
            start + len <= 8,
        decreases 8 - i,
    {
        let run: usize = count_zeros(&s, i);
        if run > len {
            start = i;
            len = run;
        }
        i = i + 1;
    }
    if len > 1 {
        push_colon_hex(out, &s, 0, start);
        out.append("::");
        push_colon_hex(out, &s, start + len, 8);
    } else {
        push_colon_hex(out, &s, 0, 8);
        assert(s@.subrange(0, 8) =~= s@);
    }
    assert(out@ =~= old(out)@ + ipv6_text(ip));
}

/// Appends the text of an endpoint.
pub fn push_addr(out: &mut String, a: &SocketAddr)
    ensures
        final(out)@ == old(out)@ + addr_text(*a),
{
    match a {
        SocketAddr::V4(v) => {
            push_ipv4(out, v.ip);
            out.append(":");
            push_decimal(out, v.port as u128);
        },
        SocketAddr::V6(v) => {
            out.append("[");
            push_ipv6(out, v.ip);
            if v.scope_id != 0 {
                out.append("%");
                push_decimal(out, v.scope_id as u128);
            }
            out.append("]:");
            push_decimal(out, v.port as u128);
        },
    }
    assert(out@ =~= old(out)@ + addr_text(*a));
}

/// The order of endpoints: IPv4 before IPv6, then by address, then by port, and for IPv6 then by
/// flow label and scope.
pub open spec fn precedes(a: SocketAddr, b: SocketAddr) -> bool {
    match (a, b) {
        (SocketAddr::V4(x), SocketAddr::V4(y)) => x.ip < y.ip || (x.ip == y.ip && x.port < y.port),
        (SocketAddr::V4(_), SocketAddr::V6(_)) => true,
        (SocketAddr::V6(_), SocketAddr::V4(_)) => false,
        (SocketAddr::V6(x), SocketAddr::V6(y)) => {
            ||| x.ip < y.ip
            ||| x.ip == y.ip && x.port < y.port
            ||| x.ip == y.ip && x.port == y.port && x.flowinfo < y.flowinfo
            ||| x.ip == y.ip && x.port == y.port && x.flowinfo == y.flowinfo && x.scope_id
                < y.scope_id
        },
    }
}

/// The later of two endpoints.
pub open spec fn later(a: SocketAddr, b: SocketAddr) -> SocketAddr {
    if precedes(a, b) {
        b
    } else {
        a
    }
}

/// The earlier of two endpoints.
pub open spec fn earlier(a: SocketAddr, b: SocketAddr) -> SocketAddr {
    if precedes(a, b) {
        a
    } else {
        b
    }
}

/// The order of endpoints is a strict total order.
pub proof fn law_endpoint_order(a: SocketAddr, b: SocketAddr, c: SocketAddr)
    ensures
        !precedes(a, a),
        a != b ==> (precedes(a, b) <==> !precedes(b, a)),
        precedes(a, b) && precedes(b, c) ==> precedes(a, c),
{
}

/// Whether `a` comes before `b`.
fn comes_before(a: &SocketAddr, b: &SocketAddr) -> (r: bool)
    ensures
        r == precedes(*a, *b),
{
    match (a, b) {
        (SocketAddr::V4(x), SocketAddr::V4(y)) => x.ip < y.ip || (x.ip == y.ip && x.port < y.port),
        (SocketAddr::V4(_), SocketAddr::V6(_)) => true,
        (SocketAddr::V6(_), SocketAddr::V4(_)) => false,
        (SocketAddr::V6(x), SocketAddr::V6(y)) => {
            if x.ip != y.ip {
                x.ip < y.ip
            } else if x.port != y.port {
                x.port < y.port
            } else if x.flowinfo != y.flowinfo {
                x.flowinfo < y.flowinfo
            } else {
                x.scope_id < y.scope_id
            }
        },
    }
}

/// The two endpoints, the later one first.
pub fn later_first(a: SocketAddr, b: SocketAddr) -> (r: (SocketAddr, SocketAddr))
    ensures
        r.0 == later(a, b),
        r.1 == earlier(a, b),
{
    if comes_before(&a, &b) {
        (b, a)
    } else {
        (a, b)
    }
}

} // verus!
