use iris_flow::conn_fts::{
    ByteCount, ConnDuration, ConnHistory, IatStats, InterArrivals, L4Pdu, PktCount,
};
use iris_flow::time::{Duration, Instant};

fn at(nanos: u128) -> Instant {
    Instant { nanos }
}

fn pdu(dir: bool, flags: u8, length: usize) -> L4Pdu {
    L4Pdu { dir, ts: at(0), length, flags }
}

#[test]
fn durations_of_connections() {
    let mut d = ConnDuration::new(at(5_000_000));
    assert_eq!(d.duration_ms(), 0);
    d.update(&L4Pdu { ts: at(12_999_999), ..pdu(true, 0, 0) });
    assert_eq!(d.duration_ms(), 7);
    assert_eq!(d.duration(), Duration { nanos: 7_999_999 });
    d.update(&L4Pdu { ts: at(1), ..pdu(true, 0, 0) });
    assert_eq!(d.duration_ms(), 0);
    d.clear();
    assert_eq!(d.last_ts, at(1));
}

#[test]
fn packets_and_bytes_by_direction() {
    let mut p = PktCount::new();
    let mut b = ByteCount::new();
    for seg in [pdu(true, 0, 10), pdu(false, 0, 100), pdu(true, 0, 5)] {
        p.update(&seg);
        b.update(&seg);
    }
    assert_eq!((p.orig(), p.resp(), p.total()), (2, 1, 3));
    assert_eq!((b.orig(), b.resp(), b.total()), (15, 100, 115));
    p.clear();
    b.clear();
    assert_eq!(p.total(), 3);
    assert_eq!(b.total(), 115);
}

#[test]
fn inter_arrival_extremes() {
    let mut s = IatStats::new();
    assert_eq!(s.extremes(), (0, 0));
    for us in [30u128, 7, 90] {
        s.push(Duration { nanos: us * 1000 + 999 });
    }
    assert_eq!(s.count(), 3);
    assert_eq!(s.extremes(), (7, 90));
    s.clear();
    assert_eq!(s.count(), 0);
    assert_eq!(s.extremes(), (0, 0));
}

#[test]
fn arrivals_are_timed_from_the_second_packet_on() {
    let mut a = InterArrivals::new(at(0));
    assert!(a.can_update(true));
    assert_eq!(a.update(&pdu(true, 0, 0), at(1_000)), None);
    assert_eq!(a.update(&pdu(false, 0, 0), at(2_000)), None);
    assert_eq!(a.update(&pdu(true, 0, 0), at(9_000)), Some(Duration { nanos: 8_000 }));
    assert_eq!(a.update(&pdu(true, 0, 0), at(12_000)), Some(Duration { nanos: 3_000 }));
    assert_eq!(a.direction(true).count(), 2);
    assert_eq!(a.direction(true).extremes(), (3, 8));
    assert_eq!(a.direction(false).count(), 0);
    a.clear();
    assert_eq!(a.direction(true).count(), 0);
    // What was seen of the packets is kept, so the next span is timed from the last packet.
    assert_eq!(a.update(&pdu(true, 0, 0), at(20_000)), Some(Duration { nanos: 8_000 }));
    assert_eq!(a.update(&pdu(false, 0, 0), at(5_000)), Some(Duration { nanos: 3_000 }));
    assert_eq!(InterArrivals::new_empty(at(3)).direction(true).count(), 0);
}

#[test]
fn history_of_a_connection() {
    let mut h = ConnHistory::new();
    h.update(&pdu(true, 0x02, 0));
    h.update(&pdu(false, 0x12, 0));
    h.update(&pdu(true, 0x10, 0));
    h.update(&pdu(true, 0x18, 400));
    h.update(&pdu(false, 0x10, 0));
    h.update(&pdu(false, 0x18, 900));
    h.update(&pdu(true, 0x11, 0));
    h.update(&pdu(false, 0x14, 0));
    assert_eq!(h.history, b"ShADadFr");
    h.clear();
    assert_eq!(h.history.len(), 8);
}

#[test]
fn letters_are_recorded_once_per_direction() {
    let mut h = ConnHistory::new();
    for _ in 0..3 {
        h.update(&pdu(true, 0x18, 10));
        h.update(&pdu(false, 0x18, 10));
    }
    assert_eq!(h.history, b"Dd");
}

#[test]
fn letters_of_one_segment() {
    let mut h = ConnHistory::new();
    h.update(&pdu(true, 0x02, 50));
    assert_eq!(h.history, b"SD");
    h.update(&pdu(false, 0x05, 50));
    assert_eq!(h.history, b"SDdfr");
    let mut none = ConnHistory::new();
    none.update(&pdu(true, 0x18, 0));
    assert!(none.history.is_empty());
}
