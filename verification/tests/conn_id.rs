use iris_flow::conn_id::{
    hash_sockaddr, mix, ConnId, FiveTuple, L4Context, TCP_PROTOCOL, UDP_PROTOCOL,
};
use iris_flow::net::{SocketAddr, SocketAddrV4, SocketAddrV6};

fn v4(octets: [u8; 4], port: u16) -> SocketAddr {
    SocketAddr::V4(SocketAddrV4 { ip: u32::from_be_bytes(octets), port })
}

fn v6(ip: u128, port: u16) -> SocketAddr {
    SocketAddr::V6(SocketAddrV6 { ip, port, flowinfo: 0, scope_id: 0 })
}

fn groups(s: &str) -> Vec<u16> {
    s.split(':').filter(|g| !g.is_empty()).map(|g| u16::from_str_radix(g, 16).expect("group")).collect()
}

fn sock((ip, port): (&str, u16)) -> SocketAddr {
    if ip.contains(':') {
        let (head, tail) = ip.split_once("::").expect("addr");
        let (head, tail) = (groups(head), groups(tail));
        let mut all = vec![0u16; 8];
        all[..head.len()].copy_from_slice(&head);
        all[8 - tail.len()..].copy_from_slice(&tail);
        v6(all.iter().fold(0u128, |n, g| (n << 16) | *g as u128), port)
    } else {
        let octets: Vec<u8> = ip.split('.').map(|o| o.parse().expect("octet")).collect();
        v4([octets[0], octets[1], octets[2], octets[3]], port)
    }
}

fn tuple(src: (&str, u16), dst: (&str, u16), proto: usize) -> FiveTuple {
    FiveTuple { orig: sock(src), resp: sock(dst), proto }
}

/// Swap the endpoints, as the reverse direction of the same connection would.
fn reversed(t: &FiveTuple) -> FiveTuple {
    FiveTuple { orig: t.resp, resp: t.orig, proto: t.proto }
}

#[test]
fn conn_hash_is_symmetric_dir_hash_is_not() {
    for t in [
        tuple(("10.0.0.1", 1234), ("10.0.0.2", 443), TCP_PROTOCOL),
        tuple(("2001:db8::1", 53), ("2001:db8::2", 9999), UDP_PROTOCOL),
    ] {
        let r = reversed(&t);
        assert_eq!(t.conn_hash(), r.conn_hash(), "conn_hash must canonicalize");
        assert_ne!(t.dir_hash(), r.dir_hash(), "dir_hash must be directional");
    }
}

#[test]
fn both_hashes_separate_distinct_tuples() {
    let base = tuple(("10.0.0.1", 1234), ("10.0.0.2", 443), TCP_PROTOCOL);
    // One field different in each: port, address, protocol.
    for other in [
        tuple(("10.0.0.1", 1235), ("10.0.0.2", 443), TCP_PROTOCOL),
        tuple(("10.0.0.1", 1234), ("10.0.0.3", 443), TCP_PROTOCOL),
        tuple(("10.0.0.1", 1234), ("10.0.0.2", 443), UDP_PROTOCOL),
    ] {
        assert_ne!(base.conn_hash(), other.conn_hash());
        assert_ne!(base.dir_hash(), other.dir_hash());
    }
}

#[test]
fn conn_hash_has_not_moved() {
    // `conn_hash` is half of a composite connection key downstream, so its value is
    // part of the API, not a detail. These pin the hash against an accidental change
    // when its helpers are edited.
    let t = tuple(("10.0.0.1", 1234), ("10.0.0.2", 443), TCP_PROTOCOL);
    assert_eq!(t.conn_hash(), 0x0205_0803_386e_1236);
    assert_eq!(t.dir_hash(), 0x3714_856c_d9ff_16ce);
}

#[test]
fn hashes_are_deterministic() {
    let t = tuple(("192.0.2.7", 80), ("198.51.100.9", 51000), TCP_PROTOCOL);
    assert_eq!(t.conn_hash(), t.conn_hash());
    assert_eq!(t.dir_hash(), t.dir_hash());
}

#[test]
fn v4_and_v6_endpoints_are_distinguished() {
    let four = v4([10, 0, 0, 1], 80);
    let six = v6(1, 80);
    assert_ne!(hash_sockaddr(four), hash_sockaddr(six));
}

#[test]
fn mix_is_fnv1a_over_little_endian_bytes() {
    let mut h: u64 = 0xcbf29ce484222325;
    for b in 0x0102_0304_0506_0708u64.to_le_bytes() {
        h = (h ^ b as u64).wrapping_mul(0x100000001b3);
    }
    assert_eq!(mix(0xcbf29ce484222325, 0x0102_0304_0506_0708), h);
}

#[test]
fn conn_id_is_the_same_for_both_directions() {
    let t = tuple(("10.0.0.1", 1234), ("10.0.0.2", 443), TCP_PROTOCOL);
    assert_eq!(t.conn_id(), reversed(&t).conn_id());
    assert_eq!(t.conn_id(), ConnId::new(t.orig, t.resp, t.proto));
    let other = tuple(("10.0.0.1", 1234), ("10.0.0.2", 444), TCP_PROTOCOL);
    assert_ne!(t.conn_id(), other.conn_id());
}

#[test]
fn context_gives_the_tuple_on_the_wire() {
    let ctxt = L4Context { src: v4([1, 2, 3, 4], 5), dst: v4([6, 7, 8, 9], 10), proto: 17 };
    let t = FiveTuple::from_ctxt(&ctxt);
    assert_eq!(t.orig, ctxt.src);
    assert_eq!(t.resp, ctxt.dst);
    assert_eq!(t.proto, 17);
    assert_eq!(t.reverse(), reversed(&t));
}

#[test]
fn tuples_as_text() {
    let t = tuple(("10.0.0.1", 1234), ("10.0.0.2", 443), TCP_PROTOCOL);
    assert_eq!(t.to_text(), "10.0.0.1:1234 -> 10.0.0.2:443 protocol 6");
    assert_eq!(t.src_ip_str(), "10.0.0.1");
    assert_eq!(t.dst_ip_str(), "10.0.0.2");
    assert_eq!(t.transp_proto_str(), "{ \"proto\": \"tcp\", \"src\": \"1234\", \"dst\": \"443\" }");
    let u = tuple(("2001:db8::1", 53), ("2001:db8::2", 9999), UDP_PROTOCOL);
    assert_eq!(u.to_text(), "[2001:db8::1]:53 -> [2001:db8::2]:9999 protocol 17");
    assert_eq!(u.transp_proto_str(), "{ \"proto\": \"udp\", \"src\": \"53\", \"dst\": \"9999\" }");
    let n = FiveTuple { proto: 1, ..t };
    assert_eq!(n.transp_proto_str(), "{ \"proto\": \"none\", \"src\": \"1234\", \"dst\": \"443\" }");
}

#[test]
fn destination_subnets() {
    let src = ("10.0.0.1", 1);
    assert_eq!(tuple(src, ("192.0.2.77", 2), 6).dst_subnet_str(), "192.0.2.0");
    assert_eq!(tuple(src, ("255.255.255.255", 2), 6).dst_subnet_str(), "255.255.255.255");
    assert_eq!(tuple(src, ("224.0.0.251", 2), 6).dst_subnet_str(), "224.0.0.251");
    let six = ("2001:db8::1", 1);
    assert_eq!(tuple(six, ("2001:db8:1:2::9", 2), 6).dst_subnet_str(), "2001:db8:1:2::");
    assert_eq!(tuple(src, ("2001:db8::2", 2), 6).dst_subnet_str(), "");
}

#[test]
fn conn_id_as_text() {
    let t = tuple(("10.0.0.1", 1234), ("10.0.0.2", 443), TCP_PROTOCOL);
    assert_eq!(t.conn_id().to_text(), reversed(&t).conn_id().to_text());
    assert_eq!(t.conn_id().to_text(), "10.0.0.2:443 <> 10.0.0.1:1234 protocol 6");
}
