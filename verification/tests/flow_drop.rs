use iris_flow::conn_id::FiveTuple;
use iris_flow::flow_drop::five_tuple_drop::{
    find_table, ingress_attr, install_drop_flow, install_split_flow, FlowDropError, FlowInstaller,
    InstallAction, InstallEvent,
};
use iris_flow::flow_drop::pattern::{build_pattern, FlowItem, Ipv4Fields, PortFields};
use iris_flow::flow_drop::teardown::{
    query_flow_stats, query_resident_flow, uninstall_flow, CountData, Discarded, RemoveAction,
    RemoveEvent, ResidentAction,
};
use iris_flow::flow_drop::{FlowAttr, RuleAction};
use iris_flow::net::{SocketAddr, SocketAddrV4, SocketAddrV6};
use iris_flow::port::PortId;

fn v4(octets: [u8; 4], port: u16) -> SocketAddr {
    SocketAddr::V4(SocketAddrV4 { ip: u32::from_be_bytes(octets), port })
}

fn v6(ip: u128, port: u16) -> SocketAddr {
    SocketAddr::V6(SocketAddrV6 { ip, port, flowinfo: 0, scope_id: 0 })
}

fn tcp() -> FiveTuple {
    FiveTuple { orig: v4([10, 0, 0, 1], 1234), resp: v4([10, 0, 0, 2], 443), proto: 6 }
}

fn ports() -> Vec<PortId> {
    vec![PortId(4), PortId(5)]
}

#[test]
fn pattern_matches_every_bit_of_the_tuple() {
    let items = build_pattern(&tcp()).ok().expect("pattern");
    let want = [
        FlowItem::Eth,
        FlowItem::Ipv4 {
            spec: Ipv4Fields { src_addr: [10, 0, 0, 1], dst_addr: [10, 0, 0, 2], next_proto_id: 6 },
            mask: Ipv4Fields { src_addr: [255; 4], dst_addr: [255; 4], next_proto_id: 255 },
        },
        FlowItem::Tcp {
            spec: PortFields { src_port: [4, 210], dst_port: [1, 187] },
            mask: PortFields { src_port: [255; 2], dst_port: [255; 2] },
        },
        FlowItem::End,
    ];
    assert_eq!(items, want);
}

#[test]
fn ipv6_and_udp_patterns() {
    let t = FiveTuple { orig: v6(1, 53), resp: v6(2, 9999), proto: 17 };
    let items = build_pattern(&t).ok().expect("pattern");
    assert!(matches!(items[1], FlowItem::Ipv6 { .. }));
    assert!(matches!(items[2], FlowItem::Udp { .. }));
    if let FlowItem::Ipv6 { spec, mask } = items[1] {
        assert_eq!(spec.src_addr, 1u128.to_be_bytes());
        assert_eq!(spec.dst_addr, 2u128.to_be_bytes());
        assert_eq!(spec.proto, 17);
        assert_eq!(mask.src_addr, [255; 16]);
        assert_eq!(mask.dst_addr, [255; 16]);
        assert_eq!(mask.proto, 255);
    }
}

#[test]
fn tuples_that_no_rule_can_match() {
    let mixed = FiveTuple { resp: v6(2, 443), ..tcp() };
    let e = build_pattern(&mixed).err().expect("error");
    assert_eq!(e, FlowDropError::MismatchedIpVersions);
    assert_eq!(e.message(), "Mismatched IP versions");
    let icmp = FiveTuple { proto: 1, ..tcp() };
    let e = install_drop_flow(ports(), &icmp).err().expect("error");
    assert_eq!(e, FlowDropError::UnsupportedProtocol(1));
    assert_eq!(e.message(), "Unsupported protocol 1");
    let both = FiveTuple { proto: 1, ..mixed };
    assert_eq!(
        install_split_flow(ports(), &both, 3).err().expect("error"),
        FlowDropError::MismatchedIpVersions
    );
}

#[test]
fn tables_by_destination_port() {
    let to = |port: u16, proto: usize| FiveTuple { resp: v4([1, 1, 1, 1], port), proto, ..tcp() };
    assert_eq!(find_table(&to(0, 6)), 2);
    assert_eq!(find_table(&to(0x120c, 17)), 14);
    assert_eq!(find_table(&to(0x000d, 6)), 2);
    assert_eq!(find_table(&to(0x000f, 6)), 4);
    assert_eq!(find_table(&to(0x000c, 1)), 2);
    assert_eq!(ingress_attr(3, 4), FlowAttr { ingress: true, group: 3, priority: 4 });
}

/// Runs an installation where the counter is ten times the rule, and returns the rules' ports.
fn run(mut inst: FlowInstaller, fail_at: usize) -> (Vec<(PortId, bool)>, Result<(Vec<u64>, Vec<u64>), FlowDropError>, Vec<(PortId, u64)>) {
    let mut made = Vec::new();
    let mut destroyed = Vec::new();
    let mut n = 0u64;
    loop {
        match inst.next() {
            InstallAction::CreateHandle(_) => {
                n += 1;
                inst.step(InstallEvent::HandleCreated(n * 10));
            }
            InstallAction::CreateFlow { port, reverse, actions } => {
                assert_eq!(actions[0], RuleAction::Indirect(n * 10));
                assert_eq!(actions.len(), 3);
                assert_eq!(actions[2], RuleAction::End);
                if made.len() == fail_at {
                    inst.step(InstallEvent::FlowFailed("no room".to_string()));
                } else {
                    made.push((port, reverse));
                    inst.step(InstallEvent::FlowCreated(n));
                }
            }
            InstallAction::DestroyHandle(port, h) => {
                destroyed.push((port, h));
                inst.step(InstallEvent::HandleDestroyed);
            }
            InstallAction::Finished | InstallAction::Aborted => break,
        }
    }
    (made, inst.finish(), destroyed)
}

#[test]
fn installation_covers_both_directions_of_each_port() {
    let inst = install_drop_flow(ports(), &tcp()).ok().expect("installer");
    assert_eq!(inst.attr(), FlowAttr { ingress: true, group: 1, priority: 0 });
    assert_eq!(inst.pattern(false), &build_pattern(&tcp()).ok().expect("pattern"));
    assert_eq!(inst.pattern(true), &build_pattern(&tcp().reverse()).ok().expect("pattern"));
    let (made, end, destroyed) = run(inst, usize::MAX);
    assert_eq!(
        made,
        vec![(PortId(4), false), (PortId(5), false), (PortId(4), true), (PortId(5), true)]
    );
    assert_eq!(end, Ok((vec![1, 2, 3, 4], vec![10, 20, 30, 40])));
    assert!(destroyed.is_empty());
}

#[test]
fn refused_rule_takes_its_counter_along() {
    let inst = install_split_flow(ports(), &tcp(), 9).ok().expect("installer");
    let (made, end, destroyed) = run(inst, 1);
    assert_eq!(made.len(), 1);
    assert_eq!(destroyed, vec![(PortId(5), 20)]);
    let e = end.err().expect("error");
    assert_eq!(e, FlowDropError::Install(PortId(5), "no room".to_string()));
    assert_eq!(e.message(), "Failed to install flow on port 5: no room");
}

#[test]
fn split_rules_steer_to_the_queue() {
    let mut inst = install_split_flow(vec![PortId(0)], &tcp(), 9).ok().expect("installer");
    inst.step(InstallEvent::HandleCreated(1));
    assert_eq!(
        inst.next(),
        InstallAction::CreateFlow {
            port: PortId(0),
            reverse: false,
            actions: vec![RuleAction::Indirect(1), RuleAction::Queue(9), RuleAction::End],
        }
    );
    let mut drop = install_drop_flow(vec![PortId(0)], &tcp()).ok().expect("installer");
    drop.step(InstallEvent::HandleCreated(1));
    assert!(matches!(
        drop.next(),
        InstallAction::CreateFlow { actions, .. } if actions[1] == RuleAction::Drop
    ));
}

#[test]
fn refused_counter_ends_the_installation() {
    let mut inst = install_drop_flow(ports(), &tcp()).ok().expect("installer");
    inst.step(InstallEvent::HandleFailed("full".to_string()));
    assert_eq!(inst.next(), InstallAction::Aborted);
    let e = inst.finish().err().expect("error");
    assert_eq!(e.message(), "rte_flow_action_handle_create failed on port 4: full");
}

#[test]
fn no_ports_need_no_rules() {
    let inst = install_drop_flow(Vec::new(), &tcp()).ok().expect("installer");
    assert_eq!(inst.next(), InstallAction::Finished);
    assert_eq!(inst.finish(), Ok((Vec::new(), Vec::new())));
}

fn count(hits: u64, bytes: u64) -> Result<CountData, String> {
    Ok(CountData { hits_set: true, bytes_set: true, hits, bytes })
}

#[test]
fn removal_reads_counters_and_destroys_in_order() {
    let mut m = uninstall_flow(ports(), vec![1, 0, 3, 4], vec![10, 20, 0, 40]).ok().expect("remover");
    let mut seen = Vec::new();
    loop {
        let a = m.next();
        seen.push(a);
        let ev = match a {
            RemoveAction::Query(_, h) => RemoveEvent::Counted(if h == 40 {
                Err("gone".to_string())
            } else {
                count(5, 600)
            }),
            RemoveAction::DestroyFlow(..) => RemoveEvent::FlowDestroyed,
            RemoveAction::DestroyHandle(..) => RemoveEvent::HandleDestroyed,
            RemoveAction::Finished | RemoveAction::Aborted => break,
        };
        let e = m.step(ev);
        if a == RemoveAction::Query(PortId(5), 40) {
            assert_eq!(e, Some(FlowDropError::Query(PortId(5), "gone".to_string())));
        } else {
            assert_eq!(e, None);
        }
    }
    assert_eq!(
        seen,
        vec![
            RemoveAction::Query(PortId(4), 10),
            RemoveAction::DestroyFlow(PortId(4), 1),
            RemoveAction::DestroyHandle(PortId(4), 10),
            RemoveAction::DestroyFlow(PortId(4), 3),
            RemoveAction::Query(PortId(5), 40),
            RemoveAction::DestroyFlow(PortId(5), 4),
            RemoveAction::DestroyHandle(PortId(5), 40),
            RemoveAction::Finished,
        ]
    );
    assert_eq!(m.total(), Discarded { packets: 5, bytes: 600 });
    assert_eq!(m.finish(), Ok(()));
}

#[test]
fn refused_removal_stops() {
    let mut m = uninstall_flow(ports(), vec![1, 2, 3, 4], vec![0; 4]).ok().expect("remover");
    m.step(RemoveEvent::FlowDestroyed);
    m.step(RemoveEvent::FlowKept("busy".to_string()));
    assert_eq!(m.next(), RemoveAction::Aborted);
    let e = m.finish().err().expect("error");
    assert_eq!(e.message(), "Failed to uninstall flow on port 5: busy");
}

#[test]
fn lists_must_be_parallel() {
    let e = uninstall_flow(ports(), vec![1, 2, 3], vec![1, 2, 3]).err().expect("error");
    assert_eq!(e.message(), "Mismatched lengths: 2 ports but 3 flows");
    let e = uninstall_flow(ports(), vec![1, 2, 3, 4], vec![1]).err().expect("error");
    assert_eq!(e.message(), "Mismatched lengths: 4 flows but 1 handles");
    let e = query_resident_flow(ports(), vec![1, 2], vec![1, 2]).err().expect("error");
    assert_eq!(e, FlowDropError::FlowCount(2, 2));
    let e = query_resident_flow(ports(), vec![1, 2, 3, 4], vec![]).err().expect("error");
    assert_eq!(e, FlowDropError::HandleCount(4, 0));
}

#[test]
fn resident_rules_are_only_read() {
    let mut q = query_resident_flow(ports(), vec![1, 0, 3, 4], vec![10, 20, 0, 40]).ok().expect("query");
    assert_eq!(q.next(), ResidentAction::Query(PortId(4), 10));
    assert_eq!(q.step(count(1, 100)), None);
    assert_eq!(q.next(), ResidentAction::Query(PortId(5), 40));
    assert_eq!(q.step(count(2, 200)), None);
    assert_eq!(q.next(), ResidentAction::Finished);
    assert_eq!(q.step(count(7, 7)), None);
    assert_eq!(q.total(), Discarded { packets: 3, bytes: 300 });
    let mut r = query_resident_flow(vec![PortId(1)], vec![1, 2], vec![3, 4]).ok().expect("query");
    assert_eq!(
        r.step(Err("x".to_string())),
        Some(FlowDropError::Query(PortId(1), "x".to_string()))
    );
}

#[test]
fn readings_count_only_what_was_filled_in() {
    let part = CountData { hits_set: true, bytes_set: false, hits: 3, bytes: 99 };
    assert_eq!(query_flow_stats(PortId(0), Ok(part)), Ok((3, 0)));
    let none = CountData { hits_set: false, bytes_set: false, hits: 3, bytes: 99 };
    assert_eq!(query_flow_stats(PortId(0), Ok(none)), Ok((0, 0)));
    let e = query_flow_stats(PortId(6), Err("bad".to_string())).err().expect("error");
    assert_eq!(e.message(), "rte_flow_action_handle_query failed on port 6: bad");
    let mut total = Discarded { packets: u64::MAX, bytes: 1 };
    total.record(2, 3);
    assert_eq!(total, Discarded { packets: 1, bytes: 4 });
}

#[test]
fn zero_is_no_rule_and_no_counter() {
    let mut inst = install_drop_flow(vec![PortId(3)], &tcp()).ok().expect("installer");
    inst.step(InstallEvent::HandleCreated(0));
    assert_eq!(inst.next(), InstallAction::CreateHandle(PortId(3)));
    inst.step(InstallEvent::HandleCreated(8));
    inst.step(InstallEvent::FlowCreated(0));
    assert!(matches!(inst.next(), InstallAction::CreateFlow { reverse: false, .. }));
    inst.step(InstallEvent::FlowCreated(1));
    assert_eq!(inst.next(), InstallAction::CreateHandle(PortId(3)));
}
