use iris_flow::flow_model::FlowAction;
use iris_flow::lcore::rx_core::FlowTableConfig;
use iris_flow::lcore::{CoreId, SocketId};
use iris_flow::offline::{
    in_socket_order, OfflineAction, OfflineEvent, OfflineOptions, OfflineRun, OfflineRuntime,
};

fn runtime(table: bool) -> OfflineRuntime {
    let options = OfflineOptions {
        pcap: "trace.pcap".to_string(),
        mtu: 1500,
        flow_table: if table { Some(FlowTableConfig { capacity: 8, ways: 4 }) } else { None },
    };
    let pools = vec![(SocketId(0), "pool_0".to_string()), (SocketId(1), "pool_1".to_string())];
    OfflineRuntime::new(options, &pools, CoreId(5), SocketId(1)).expect("pool")
}

/// Runs over frames of the given lengths with a cycle counter that advances by 10 per read.
fn run(s: &mut OfflineRun, frames: &[u32], action: Option<FlowAction>, cont: bool) -> Vec<OfflineAction> {
    let mut log = Vec::new();
    let mut tsc = 500;
    let mut at = 0;
    loop {
        let a = s.next();
        log.push(a);
        let ev = match a {
            OfflineAction::ReadFrame => {
                at += 1;
                OfflineEvent::Frame(frames.get(at - 1).copied())
            }
            OfflineAction::Alloc => OfflineEvent::Allocated(frames[at - 1] as u64),
            OfflineAction::ReadClock => OfflineEvent::ClockRead,
            OfflineAction::Tap => OfflineEvent::Tapped,
            OfflineAction::DrainInbox => OfflineEvent::Drained,
            OfflineAction::Lookup => OfflineEvent::LookedUp(action),
            OfflineAction::ReadTsc => {
                tsc += 10;
                OfflineEvent::Tsc(tsc)
            }
            OfflineAction::Filter => OfflineEvent::Filtered(cont),
            OfflineAction::Process => OfflineEvent::Processed,
            OfflineAction::Publish => OfflineEvent::Published,
            OfflineAction::Deliver => OfflineEvent::Delivered,
            OfflineAction::Finished => break,
        };
        assert!(s.can_take(&ev));
        s.step(ev);
    }
    log
}

#[test]
fn pool_of_the_core_is_used() {
    let rt = runtime(false);
    assert_eq!(rt.mempool_name, "pool_1");
    assert_eq!(rt.id, CoreId(5));
    let options = OfflineOptions { pcap: "x".to_string(), mtu: 1, flow_table: None };
    assert!(OfflineRuntime::new(options, &vec![(SocketId(0), "p".to_string())], CoreId(0), SocketId(3)).is_none());
}

#[test]
fn pools_stand_in_the_order_of_their_sockets() {
    let p = |n: u32| (SocketId(n), format!("pool_{}", n));
    assert!(in_socket_order(&Vec::new()) && in_socket_order(&vec![p(3)]));
    assert!(in_socket_order(&vec![p(0), p(1), p(4)]));
    assert!(!in_socket_order(&vec![p(1), p(1)]) && !in_socket_order(&vec![p(0), p(4), p(3)]));
}

#[test]
fn frames_are_counted_and_attributed() {
    let mut s = runtime(false).run(true, false, 500);
    run(&mut s, &[60, 1500, 1501, 100], None, true);
    assert_eq!(s.nb_frames, 3);
    assert_eq!(s.nb_pkts, 3);
    assert_eq!(s.nb_bytes, 1660);
    assert_eq!(s.budget.poll_busy, 30);
    assert_eq!(s.budget.pipeline, 30);
    assert_eq!(s.budget.poll_idle, 0);
    assert_eq!(s.budget.wall, 60);
    assert_eq!(s.budget.sampled_wall, 60);
    assert_eq!(s.budget.sampled_iters, 3);
    assert_eq!(s.budget.sample_stride, 1);
    assert_eq!(s.budget.rdtsc_reads, 7);
    assert_eq!(s.budget.bursts, 3);
    assert_eq!(s.budget.recv_pkts, 3);
}

#[test]
fn shed_frames_cost_their_ingest() {
    let mut s = runtime(true).run(true, true, 500);
    let log = run(&mut s, &[60, 70], Some(FlowAction::Drop), true);
    assert_eq!(s.nb_frames, 2);
    assert_eq!(s.nb_pkts, 0);
    assert_eq!(s.budget.poll_busy, 20);
    assert_eq!(s.budget.pipeline, 0);
    assert_eq!(
        log[..6],
        [
            OfflineAction::ReadFrame,
            OfflineAction::Alloc,
            OfflineAction::Tap,
            OfflineAction::DrainInbox,
            OfflineAction::Lookup,
            OfflineAction::ReadTsc,
        ]
    );
    let mut s = runtime(true).run(true, false, 500);
    run(&mut s, &[60, 70], Some(FlowAction::Queue(1)), false);
    assert_eq!(s.nb_pkts, 2);
}

#[test]
fn clock_is_refreshed_for_the_tap() {
    let frames = vec![64u32; 2048];
    let mut s = runtime(false).run(true, true, 500);
    let log = run(&mut s, &frames, None, true);
    assert_eq!(log.iter().filter(|a| **a == OfflineAction::ReadClock).count(), 2);
    let mut s = runtime(false).run(true, false, 500);
    let log = run(&mut s, &frames, None, true);
    assert!(!log.contains(&OfflineAction::ReadClock));
}

#[test]
fn full_counter_takes_no_frame() {
    let mut s = runtime(false).run(true, false, 0);
    s.step(OfflineEvent::Frame(Some(60)));
    s.nb_frames = u64::MAX;
    assert!(!s.can_take(&OfflineEvent::Allocated(60)));
}

#[test]
fn closing_report() {
    let mut s = runtime(true).run(true, false, 500);
    run(&mut s, &[60, 70], None, true);
    assert_eq!(
        s.report(12, Some((3, 4))),
        vec![
            "Frames read: 2",
            "Processed: 2 pkts, 130 bytes",
            "CPU time: 12ms",
            "Flow table entries: 3",
            "Evictions: 4",
        ]
    );
    assert_eq!(s.report(0, None)[3], "Flow table entries: 0");
}
