//! Match patterns for one 5-tuple.

use vstd::prelude::*;

use crate::conn_id::{port, port_of, FiveTuple, TCP_PROTOCOL, UDP_PROTOCOL};
use crate::flow_drop::five_tuple_drop::FlowDropError;
use crate::net::{ipv4_octets, ipv6_octets, octets_v4, octets_v6, SocketAddr};

verus! {

/// The IPv4 header fields that a pattern looks at, in network order.
#[derive(Clone, Copy, Debug, PartialEq, Eq)]
pub struct Ipv4Fields {
    pub src_addr: [u8; 4],
    pub dst_addr: [u8; 4],
    pub next_proto_id: u8,
}

/// The IPv6 header fields that a pattern looks at, in network order.
#[derive(Clone, Copy, Debug, PartialEq, Eq)]
pub struct Ipv6Fields {
    pub src_addr: [u8; 16],
    pub dst_addr: [u8; 16],
    pub proto: u8,
}

/// The transport header fields that a pattern looks at, in network order.
#[derive(Clone, Copy, Debug, PartialEq, Eq)]
pub struct PortFields {
    pub src_port: [u8; 2],
    pub dst_port: [u8; 2],
}

/// One layer of a pattern. A packet matches a layer if its fields agree with `spec` on all bits
/// that are set in `mask`.
#[derive(Clone, Copy, Debug, PartialEq, Eq)]
#[allow(inconsistent_fields)]
pub enum FlowItem {
    /// Any Ethernet header.
    Eth,
    Ipv4 { spec: Ipv4Fields, mask: Ipv4Fields },
    Ipv6 { spec: Ipv6Fields, mask: Ipv6Fields },
    Tcp { spec: PortFields, mask: PortFields },
    Udp { spec: PortFields, mask: PortFields },
    /// End of the pattern.
    End,
}

/// Whether `x` agrees with `spec` on the bits of `mask`.
pub open spec fn agrees(x: Seq<u8>, spec: Seq<u8>, mask: Seq<u8>) -> bool {
    &&& x.len() == spec.len()
    &&& x.len() == mask.len()
    &&& forall|k: int| #![trigger x[k]] 0 <= k < x.len() ==> x[k] & mask[k] == spec[k] & mask[k]
}

/// A port number in network order.
pub open spec fn port_octets(p: u16) -> Seq<u8> {
    seq![(p >> 8) as u8, p as u8]
}

/// Whether a packet with the 5-tuple `p` matches a layer.
pub open spec fn item_matches(item: FlowItem, p: FiveTuple) -> bool {
    match item {
        FlowItem::Eth | FlowItem::End => true,
        FlowItem::Ipv4 { spec, mask } => match (p.orig, p.resp) {
            (SocketAddr::V4(s), SocketAddr::V4(d)) => {
                &&& agrees(ipv4_octets(s.ip), spec.src_addr@, mask.src_addr@)
                &&& agrees(ipv4_octets(d.ip), spec.dst_addr@, mask.dst_addr@)
                &&& (p.proto as u8) & mask.next_proto_id == spec.next_proto_id & mask.next_proto_id
            },
            _ => false,
        },
        FlowItem::Ipv6 { spec, mask } => match (p.orig, p.resp) {
            (SocketAddr::V6(s), SocketAddr::V6(d)) => {
                &&& agrees(ipv6_octets(s.ip), spec.src_addr@, mask.src_addr@)
                &&& agrees(ipv6_octets(d.ip), spec.dst_addr@, mask.dst_addr@)
                &&& (p.proto as u8) & mask.proto == spec.proto & mask.proto
            },
            _ => false,
        },
        FlowItem::Tcp { spec, mask } => {
            &&& p.proto == TCP_PROTOCOL
            &&& agrees(port_octets(port_of(p.orig)), spec.src_port@, mask.src_port@)
            &&& agrees(port_octets(port_of(p.resp)), spec.dst_port@, mask.dst_port@)
        },
        FlowItem::Udp { spec, mask } => {
            &&& p.proto == UDP_PROTOCOL
            &&& agrees(port_octets(port_of(p.orig)), spec.src_port@, mask.src_port@)
            &&& agrees(port_octets(port_of(p.resp)), spec.dst_port@, mask.dst_port@)
        },
    }
}

/// Whether a packet with the 5-tuple `p` matches every layer of a pattern.
pub open spec fn pattern_matches(items: Seq<FlowItem>, p: FiveTuple) -> bool {
    forall|i: int| 0 <= i < items.len() ==> item_matches(#[trigger] items[i], p)
}

/// Whether every byte is `0xff`.
pub open spec fn all_ones(s: Seq<u8>) -> bool {
    forall|k: int| 0 <= k < s.len() ==> #[trigger] s[k] == 0xff
}

/// Whether the address layer of a pattern is the exact match for `t`.
pub open spec fn is_ip_item(item: FlowItem, t: FiveTuple) -> bool {
    match (t.orig, t.resp) {
        (SocketAddr::V4(s), SocketAddr::V4(d)) => item matches FlowItem::Ipv4 { spec, mask } && {
            &&& spec.src_addr@ == ipv4_octets(s.ip)
            &&& spec.dst_addr@ == ipv4_octets(d.ip)
            &&& spec.next_proto_id == t.proto as u8
            &&& all_ones(mask.src_addr@)
            &&& all_ones(mask.dst_addr@)
            &&& mask.next_proto_id == 0xff
        },
        (SocketAddr::V6(s), SocketAddr::V6(d)) => item matches FlowItem::Ipv6 { spec, mask } && {
            &&& spec.src_addr@ == ipv6_octets(s.ip)
            &&& spec.dst_addr@ == ipv6_octets(d.ip)
            &&& spec.proto == t.proto as u8
            &&& all_ones(mask.src_addr@)
            &&& all_ones(mask.dst_addr@)
            &&& mask.proto == 0xff
        },
        _ => false,
    }
}

/// Whether a pair of port fields is the exact match for the ports of `t`.
pub open spec fn is_port_match(spec: PortFields, mask: PortFields, t: FiveTuple) -> bool {
    &&& spec.src_port@ == port_octets(port_of(t.orig))
    &&& spec.dst_port@ == port_octets(port_of(t.resp))
    &&& all_ones(mask.src_port@)
    &&& all_ones(mask.dst_port@)
}

/// Whether the transport layer of a pattern is the exact match for `t`.
pub open spec fn is_l4_item(item: FlowItem, t: FiveTuple) -> bool {
    if t.proto == TCP_PROTOCOL {
        item matches FlowItem::Tcp { spec, mask } && is_port_match(spec, mask, t)
    } else {
        t.proto == UDP_PROTOCOL && (item matches FlowItem::Udp { spec, mask } && is_port_match(
            spec,
            mask,
            t,
        ))
    }
}

/// Whether `items` is the pattern for `t`: Ethernet, then the addresses, then the ports.
pub open spec fn is_pattern_for(items: Seq<FlowItem>, t: FiveTuple) -> bool {
    &&& items.len() == 4
    &&& items[0] is Eth
    &&& is_ip_item(items[1], t)
    &&& is_l4_item(items[2], t)
    &&& items[3] is End
}

/// Whether the endpoints of a 5-tuple are of one address family.
pub open spec fn same_family(t: FiveTuple) -> bool {
    t.orig is V4 <==> t.resp is V4
}

/// Whether a pattern can be built for a 5-tuple.
pub open spec fn matchable(t: FiveTuple) -> bool {
    same_family(t) && (t.proto == TCP_PROTOCOL || t.proto == UDP_PROTOCOL)
}

/// A port number in network order.
fn octets_port(p: u16) -> (r: [u8; 2])
    ensures
        r@ == port_octets(p),
{
    [(p >> 8) as u8, p as u8]
}

/// The port fields that match the ports of a 5-tuple exactly.
fn port_fields(tuple: &FiveTuple) -> (r: (PortFields, PortFields))
    ensures
        is_port_match(r.0, r.1, *tuple),
{
    let spec_fields = PortFields {
        src_port: octets_port(port(&tuple.orig)),
        dst_port: octets_port(port(&tuple.resp)),
    };
    let mask_fields = PortFields { src_port: [0xff; 2], dst_port: [0xff; 2] };
    (spec_fields, mask_fields)
}

/// Builds the pattern (Ethernet, addresses, ports, end) for a 5-tuple.
pub fn build_pattern(tuple: &FiveTuple) -> (r: Result<Vec<FlowItem>, FlowDropError>)
    ensures
        r is Ok <==> matchable(*tuple),
        match r {
            Ok(items) => is_pattern_for(items@, *tuple),
            Err(e) => e == if same_family(*tuple) {
                FlowDropError::UnsupportedProtocol(tuple.proto)
            } else {
                FlowDropError::MismatchedIpVersions
            },
        },
{
    let ip: FlowItem = match (tuple.orig, tuple.resp) {
        (SocketAddr::V4(src), SocketAddr::V4(dst)) => FlowItem::Ipv4 {
            spec: Ipv4Fields {
                src_addr: octets_v4(src.ip),
                dst_addr: octets_v4(dst.ip),
                next_proto_id: tuple.proto as u8,
            },
            mask: Ipv4Fields { src_addr: [0xff; 4], dst_addr: [0xff; 4], next_proto_id: 0xff },
        },
        (SocketAddr::V6(src), SocketAddr::V6(dst)) => FlowItem::Ipv6 {
            spec: Ipv6Fields {
                src_addr: octets_v6(src.ip),
                dst_addr: octets_v6(dst.ip),
                proto: tuple.proto as u8,
            },
            mask: Ipv6Fields { src_addr: [0xff; 16], dst_addr: [0xff; 16], proto: 0xff },
        },
        _ => {
            return Err(FlowDropError::MismatchedIpVersions);
        },
    };
    let (spec_ports, mask_ports) = port_fields(tuple);
    let l4: FlowItem = if tuple.proto == TCP_PROTOCOL {
        FlowItem::Tcp { spec: spec_ports, mask: mask_ports }
    } else if tuple.proto == UDP_PROTOCOL {
        FlowItem::Udp { spec: spec_ports, mask: mask_ports }
    } else {
        return Err(FlowDropError::UnsupportedProtocol(tuple.proto));
    };
    let mut items: Vec<FlowItem> = Vec::new();
    items.push(FlowItem::Eth);
    items.push(ip);
    items.push(l4);
    items.push(FlowItem::End);
    Ok(items)
}

/// Comparing under a mask of ones is comparing.
proof fn lemma_agrees_exact(x: Seq<u8>, spec: Seq<u8>, mask: Seq<u8>)
    requires
        x.len() == spec.len(),
        x.len() == mask.len(),
        all_ones(mask),
    ensures
        agrees(x, spec, mask) <==> x == spec,
{
    assert forall|k: int| 0 <= k < x.len() implies #[trigger] x[k] & mask[k] == x[k] && spec[k]
        & mask[k] == spec[k] by {
        let a = x[k];
        let b = spec[k];
        assert(mask[k] == 0xff);
        assert(a & 0xff == a && b & 0xff == b) by (bit_vector);
    }
    if agrees(x, spec, mask) {
        assert(x =~= spec);
    }
}

/// The octets determine an IPv4 address.
proof fn lemma_ipv4_octets(a: u32, b: u32)
    ensures
        ipv4_octets(a) == ipv4_octets(b) <==> a == b,
{
    if ipv4_octets(a) == ipv4_octets(b) {
        let x = ipv4_octets(a);
        let y = ipv4_octets(b);
        assert(x[0] == y[0] && x[1] == y[1] && x[2] == y[2] && x[3] == y[3]);
        assert(a == b) by (bit_vector)
            requires
                (a >> 24) as u8 == (b >> 24) as u8,
                (a >> 16) as u8 == (b >> 16) as u8,
                (a >> 8) as u8 == (b >> 8) as u8,
                (a >> 0) as u8 == (b >> 0) as u8,
        ;
    }
}

/// The octets determine an IPv6 address.
proof fn lemma_ipv6_octets(a: u128, b: u128)
    ensures
        ipv6_octets(a) == ipv6_octets(b) <==> a == b,
{
    if ipv6_octets(a) == ipv6_octets(b) {
        let x = ipv6_octets(a);
        let y = ipv6_octets(b);
        assert(x[0] == y[0] && x[1] == y[1] && x[2] == y[2] && x[3] == y[3]);
        assert(x[4] == y[4] && x[5] == y[5] && x[6] == y[6] && x[7] == y[7]);
        assert(x[8] == y[8] && x[9] == y[9] && x[10] == y[10] && x[11] == y[11]);
        assert(x[12] == y[12] && x[13] == y[13] && x[14] == y[14] && x[15] == y[15]);
        assert(a == b) by (bit_vector)
            requires
                (a >> 120) as u8 == (b >> 120) as u8,
                (a >> 112) as u8 == (b >> 112) as u8,
                (a >> 104) as u8 == (b >> 104) as u8,
                (a >> 96) as u8 == (b >> 96) as u8,
                (a >> 88) as u8 == (b >> 88) as u8,
                (a >> 80) as u8 == (b >> 80) as u8,
                (a >> 72) as u8 == (b >> 72) as u8,
                (a >> 64) as u8 == (b >> 64) as u8,
                (a >> 56) as u8 == (b >> 56) as u8,
                (a >> 48) as u8 == (b >> 48) as u8,
                (a >> 40) as u8 == (b >> 40) as u8,
                (a >> 32) as u8 == (b >> 32) as u8,
                (a >> 24) as u8 == (b >> 24) as u8,
                (a >> 16) as u8 == (b >> 16) as u8,
                (a >> 8) as u8 == (b >> 8) as u8,
                (a >> 0) as u8 == (b >> 0) as u8,
        ;
    }
}

/// The octets determine a port.
proof fn lemma_port_octets(a: u16, b: u16)
    ensures
        port_octets(a) == port_octets(b) <==> a == b,
{
    if port_octets(a) == port_octets(b) {
        let x = port_octets(a);
        let y = port_octets(b);
        assert(x[0] == y[0] && x[1] == y[1]);
        assert(a == b) by (bit_vector)
            requires
                (a >> 8) as u8 == (b >> 8) as u8,
                a as u8 == b as u8,
        ;
    }
}

/// Whether two endpoints have the same address and port.
pub open spec fn same_endpoint(a: SocketAddr, b: SocketAddr) -> bool {
    match (a, b) {
        (SocketAddr::V4(x), SocketAddr::V4(y)) => x.ip == y.ip && x.port == y.port,
        (SocketAddr::V6(x), SocketAddr::V6(y)) => x.ip == y.ip && x.port == y.port,
        _ => false,
    }
}

/// The pattern for a 5-tuple matches the packets of that 5-tuple and no others.
pub proof fn law_pattern_is_exact(items: Seq<FlowItem>, t: FiveTuple, p: FiveTuple)
    requires
        is_pattern_for(items, t),
    ensures
        pattern_matches(items, p) <==> (same_endpoint(p.orig, t.orig) && same_endpoint(
            p.resp,
            t.resp,
        ) && p.proto == t.proto),
{
    let proto = p.proto as u8;
    let want = t.proto as u8;
    assert(proto & 0xff == proto && want & 0xff == want) by (bit_vector);
    lemma_port_octets(port_of(p.orig), port_of(t.orig));
    lemma_port_octets(port_of(p.resp), port_of(t.resp));
    match items[2] {
        FlowItem::Tcp { spec, mask } => {
            lemma_agrees_exact(port_octets(port_of(p.orig)), spec.src_port@, mask.src_port@);
            lemma_agrees_exact(port_octets(port_of(p.resp)), spec.dst_port@, mask.dst_port@);
        },
        FlowItem::Udp { spec, mask } => {
            lemma_agrees_exact(port_octets(port_of(p.orig)), spec.src_port@, mask.src_port@);
            lemma_agrees_exact(port_octets(port_of(p.resp)), spec.dst_port@, mask.dst_port@);
        },
        _ => {},
    }
    match (t.orig, t.resp, p.orig, p.resp) {
        (
            SocketAddr::V4(a),
            SocketAddr::V4(b),
            SocketAddr::V4(c),
            SocketAddr::V4(d),
        ) => {
            if let FlowItem::Ipv4 { spec, mask } = items[1] {
                lemma_agrees_exact(ipv4_octets(c.ip), spec.src_addr@, mask.src_addr@);
                lemma_agrees_exact(ipv4_octets(d.ip), spec.dst_addr@, mask.dst_addr@);
                lemma_ipv4_octets(c.ip, a.ip);
                lemma_ipv4_octets(d.ip, b.ip);
            }
        },
        (
            SocketAddr::V6(a),
            SocketAddr::V6(b),
            SocketAddr::V6(c),
            SocketAddr::V6(d),
        ) => {
            if let FlowItem::Ipv6 { spec, mask } = items[1] {
                lemma_agrees_exact(ipv6_octets(c.ip), spec.src_addr@, mask.src_addr@);
                lemma_agrees_exact(ipv6_octets(d.ip), spec.dst_addr@, mask.dst_addr@);
                lemma_ipv6_octets(c.ip, a.ip);
                lemma_ipv6_octets(d.ip, b.ip);
            }
        },
        _ => {},
    }
    if pattern_matches(items, p) {
        assert(item_matches(items[1], p));
        assert(item_matches(items[2], p));
    }
}

/// A pattern can be built for a 5-tuple exactly if one can be built for its other direction.
pub proof fn law_reverse_is_matchable(t: FiveTuple)
    ensures
        matchable(t.reversed()) == matchable(t),
{
}

/// Whether two endpoints agree is a matter of address and port: both of one family, with the same
/// number for either.
pub proof fn law_same_endpoint(a: SocketAddr, b: SocketAddr)
    ensures
        same_endpoint(a, b) ==> (a is V4 <==> b is V4),
        a is V4 && b is V4 ==> (same_endpoint(a, b) <==> a == b),
        a is V6 && b is V6 ==> (same_endpoint(a, b) <==> a->V6_0.ip == b->V6_0.ip && a->V6_0.port
            == b->V6_0.port),
{
}

/// A pattern can be built for TCP and UDP between endpoints of one family, and for nothing else.
pub proof fn law_what_is_matchable(t: FiveTuple)
    ensures
        matchable(t) <==> (t.proto == 6 || t.proto == 17) && ((t.orig is V4 && t.resp is V4) || (
        t.orig is V6 && t.resp is V6)),
        same_family(t) <==> !(t.orig is V4 && t.resp is V6) && !(t.orig is V6 && t.resp is V4),
{
}

/// The layers of a pattern: an address layer of the family of the endpoints, and a transport layer
/// of the protocol.
pub proof fn law_layers_of_a_pattern(items: Seq<FlowItem>, t: FiveTuple)
    requires
        is_pattern_for(items, t),
    ensures
        items.len() == 4,
        items[0] is Eth,
        items[1] is Ipv4 <==> t.orig is V4,
        items[1] is Ipv6 <==> t.orig is V6,
        items[2] is Tcp <==> t.proto == 6,
        items[2] is Udp <==> t.proto == 17,
        items[3] is End,
{
}

/// Nothing is compared under an empty mask.
proof fn lemma_empty_mask(x: Seq<u8>, spec: Seq<u8>, mask: Seq<u8>)
    requires
        x.len() == spec.len(),
        x.len() == mask.len(),
        forall|k: int| 0 <= k < mask.len() ==> #[trigger] mask[k] == 0,
    ensures
        agrees(x, spec, mask),
{
    assert forall|k: int| #![trigger x[k]] 0 <= k < x.len() implies x[k] & mask[k] == spec[k]
        & mask[k] by {
        let (a, b, m) = (x[k], spec[k], mask[k]);
        assert(m == 0);
        assert(a & 0 == 0 && b & 0 == 0) by (bit_vector);
    }
}

/// A mask acts on its own port: where the mask of one port is empty, packets that differ in that
/// port only are matched alike, whatever the mask of the other port.
pub proof fn law_masks_act_on_their_own_port(
    spec: PortFields,
    mask: PortFields,
    p: FiveTuple,
    q: FiveTuple,
)
    requires
        p.proto == q.proto,
    ensures
        mask.src_port@ == seq![0u8, 0u8] && port_of(p.resp) == port_of(q.resp) ==> {
            &&& item_matches(FlowItem::Tcp { spec, mask }, p) == item_matches(
                FlowItem::Tcp { spec, mask },
                q,
            )
            &&& item_matches(FlowItem::Udp { spec, mask }, p) == item_matches(
                FlowItem::Udp { spec, mask },
                q,
            )
        },
        mask.dst_port@ == seq![0u8, 0u8] && port_of(p.orig) == port_of(q.orig) ==> {
            &&& item_matches(FlowItem::Tcp { spec, mask }, p) == item_matches(
                FlowItem::Tcp { spec, mask },
                q,
            )
            &&& item_matches(FlowItem::Udp { spec, mask }, p) == item_matches(
                FlowItem::Udp { spec, mask },
                q,
            )
        },
{
    if mask.src_port@ == seq![0u8, 0u8] {
        lemma_empty_mask(port_octets(port_of(p.orig)), spec.src_port@, mask.src_port@);
        lemma_empty_mask(port_octets(port_of(q.orig)), spec.src_port@, mask.src_port@);
    }
    if mask.dst_port@ == seq![0u8, 0u8] {
        lemma_empty_mask(port_octets(port_of(p.resp)), spec.dst_port@, mask.dst_port@);
        lemma_empty_mask(port_octets(port_of(q.resp)), spec.dst_port@, mask.dst_port@);
    }
}

} // verus!
