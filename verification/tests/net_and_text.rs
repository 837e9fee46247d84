use iris_flow::net::{
    later_first, octets_v4, octets_v6, push_addr, push_ipv4, push_ipv6, segments_v6, SocketAddr,
    SocketAddrV4, SocketAddrV6,
};
use iris_flow::text::{contains, eq_ignore_ascii_case, push_decimal, push_hex, same_text};
use iris_flow::time::{Duration, Instant};

fn six(ip: u128) -> String {
    let mut out = String::new();
    push_ipv6(&mut out, ip);
    out
}

#[test]
fn ipv6_addresses_are_compressed() {
    assert_eq!(six(0), "::");
    assert_eq!(six(1), "::1");
    assert_eq!(six(0x2001_0db8_0000_0000_0000_0000_0000_0001), "2001:db8::1");
    assert_eq!(six(0x2001_0db8_0000_0001_0000_0000_0000_0000), "2001:db8:0:1::");
    // The longest run of zero groups is compressed, the first of two that are equally long.
    assert_eq!(six(0x0001_0000_0000_0002_0000_0000_0000_0003), "1:0:0:2::3");
    assert_eq!(six(0x0001_0000_0000_0002_0003_0000_0000_0004), "1::2:3:0:0:4");
    // A single zero group is not.
    assert_eq!(six(0x0001_0000_0002_0003_0004_0005_0006_0007), "1:0:2:3:4:5:6:7");
    assert_eq!(six(0x0000_0000_0000_0000_0000_ffff_0a00_0001), "::ffff:10.0.0.1");
    assert_eq!(six(u128::MAX), "ffff:ffff:ffff:ffff:ffff:ffff:ffff:ffff");
}

#[test]
fn addresses_with_ports() {
    let mut out = String::new();
    push_ipv4(&mut out, 0xc000_0207);
    assert_eq!(out, "192.0.2.7");
    let mut out = String::new();
    push_addr(&mut out, &SocketAddr::V4(SocketAddrV4 { ip: 0, port: 80 }));
    assert_eq!(out, "0.0.0.0:80");
    let mut out = String::new();
    push_addr(&mut out, &SocketAddr::V6(SocketAddrV6 { ip: 1, port: 80, flowinfo: 0, scope_id: 0 }));
    assert_eq!(out, "[::1]:80");
    let mut out = String::new();
    push_addr(&mut out, &SocketAddr::V6(SocketAddrV6 { ip: 1, port: 80, flowinfo: 0, scope_id: 7 }));
    assert_eq!(out, "[::1%7]:80");
}

#[test]
fn octets_are_in_network_order() {
    assert_eq!(octets_v4(0x0102_0304), [1, 2, 3, 4]);
    assert_eq!(octets_v6(0x0102 << 112), (0x0102u128 << 112).to_be_bytes());
    assert_eq!(segments_v6((0x2001 << 112) | 9), [0x2001, 0, 0, 0, 0, 0, 0, 9]);
}

#[test]
fn endpoints_are_ordered_by_family_address_and_port() {
    let four = |ip: u32, port: u16| SocketAddr::V4(SocketAddrV4 { ip, port });
    let six = SocketAddr::V6(SocketAddrV6 { ip: 0, port: 0, flowinfo: 0, scope_id: 0 });
    assert_eq!(later_first(four(1, 9), four(2, 1)), (four(2, 1), four(1, 9)));
    assert_eq!(later_first(four(2, 9), four(2, 1)), (four(2, 9), four(2, 1)));
    assert_eq!(later_first(four(u32::MAX, 9), six), (six, four(u32::MAX, 9)));
    assert_eq!(later_first(six, four(5, 5)), (six, four(5, 5)));
}

#[test]
fn numbers_and_comparisons() {
    let mut out = String::new();
    push_decimal(&mut out, 0);
    push_decimal(&mut out, u128::MAX);
    assert_eq!(out, "0340282366920938463463374607431768211455");
    let mut out = String::new();
    push_hex(&mut out, 0);
    push_hex(&mut out, 0xdead_beef);
    assert_eq!(out, "0deadbeef");
    assert!(contains("rx_phy_bytes", "phy"));
    assert!(contains("abc", ""));
    assert!(contains("abc", "abc"));
    assert!(contains("aab", "ab"));
    assert!(!contains("abc", "abcd"));
    assert!(!contains("rx_good", "phy"));
    assert!(eq_ignore_ascii_case("FaLsE", "false"));
    assert!(!eq_ignore_ascii_case("falsy", "false"));
    assert!(same_text("x", "x"));
    assert!(!same_text("x", "xy"));
}

#[test]
fn spans_of_time() {
    let a = Instant { nanos: 5 };
    let b = Instant { nanos: 3_500_000_005 };
    assert_eq!(b.since(a), Duration { nanos: 3_500_000_000 });
    assert_eq!(a.since(b), Duration { nanos: 0 });
    assert_eq!(b.since(a).as_secs(), 3);
    assert_eq!(b.since(a).as_millis(), 3_500);
    assert_eq!(b.since(a).as_micros(), 3_500_000);
    assert_eq!(Duration::from_secs(2), Duration { nanos: 2_000_000_000 });
    assert_eq!(Duration::from_millis(7), Duration { nanos: 7_000_000 });
}
