use iris_flow::lcore::datapath_budget::DatapathBudget;
use iris_flow::lcore::logger::{
    budget_header, mempool_name, phy_load, port_file_name, port_header, port_row, BudgetLog,
    PhyLoad,
};
use iris_flow::lcore::monitor::{
    display_dram, display_pcie, distinct_sockets, dram_totals, pool_names, pretty_print_duration,
    DisplayConfig, LogConfig, MeterSample, Monitor, MonitorAction, MonitorConfig, MonitorEvent,
    OnlineConfig,
};
use iris_flow::lcore::port_stats::{
    in_port_order, AggRxStats, CollectError, DpdkStats, PortStats, RxDrops,
};
use iris_flow::lcore::SocketId;
use iris_flow::port::{PortId, RxQueue, RxQueueId, RxQueueType};
use iris_flow::time::{Duration, Instant};

fn at(secs: u128) -> Instant {
    Instant { nanos: secs * 1_000_000_000 }
}

fn stats(items: &[(&str, u64)]) -> PortStats {
    PortStats::new(items.iter().map(|(l, v)| (l.to_string(), *v)).collect())
}

fn strings(items: &[&str]) -> Vec<String> {
    items.iter().map(|s| s.to_string()).collect()
}

fn queues(sinks: &[u16]) -> Vec<RxQueue> {
    let mut out = vec![RxQueue { pid: PortId(0), qid: RxQueueId(0), ty: RxQueueType::Receive }];
    for q in sinks {
        out.push(RxQueue { pid: PortId(0), qid: RxQueueId(*q), ty: RxQueueType::Sink });
    }
    out
}

fn full(scale: u64) -> PortStats {
    stats(&[
        ("rx_good_bytes", 900 * scale),
        ("rx_good_packets", 9 * scale),
        ("rx_missed_errors", scale),
        ("rx_phy_bytes", 1000 * scale),
        ("rx_phy_discard_packets", 2 * scale),
        ("rx_phy_packets", 10 * scale),
        ("rx_q1_bytes", 200 * scale),
        ("rx_q1_packets", 2 * scale),
        ("rx_q2_bytes", 5 * scale),
    ])
}

#[test]
fn statistics_are_summed_over_ports() {
    let ports = vec![(PortId(0), queues(&[1, 2])), (PortId(1), queues(&[]))];
    let a = AggRxStats::collect(&ports, &vec![Ok(full(1)), Ok(full(10))]).ok().expect("stats");
    assert_eq!(a.ingress_bytes, 11_000);
    assert_eq!(a.ingress_pkts, 110);
    assert_eq!(a.ingress_bits, (11_000 + 20 * 110) * 8);
    assert_eq!(a.good_pkts, 99);
    assert_eq!(a.good_bits, (9_900 + 24 * 99) * 8);
    // Port 0 steers 205 bytes and 2 packets to its sinks; queue 2 has no packet count.
    assert_eq!(a.process_pkts, 7 + 90);
    assert_eq!(a.process_bits, (695 + 9_000 + 24 * 97) * 8);
    assert_eq!(a.hw_dropped_pkts, 22);
    assert_eq!(a.sw_dropped_pkts, 11);
    assert_eq!(a.dropped_pkts(), 33);
}

#[test]
fn missing_counters_are_zero_but_for_software_drops() {
    let ports = vec![(PortId(0), queues(&[1]))];
    let a = AggRxStats::collect(&ports, &vec![Ok(stats(&[("rx_missed_errors", 4), ("rx_q1_bytes", 9)]))]);
    assert_eq!(a, Ok(AggRxStats { sw_dropped_pkts: 4, ..AggRxStats::new() }));
    let e = AggRxStats::collect(&ports, &vec![Ok(stats(&[("rx_good_bytes", 4)]))]).err().expect("error");
    assert_eq!(e, CollectError::NoSwDropped);
    assert_eq!(e.message(), "Failed retrieving sw_dropped_pkts");
}

#[test]
fn first_failing_port_is_reported() {
    let ports = vec![(PortId(0), queues(&[])), (PortId(1), queues(&[])), (PortId(2), queues(&[]))];
    let reads = vec![Ok(full(1)), Err("port 1 is down".to_string()), Ok(stats(&[]))];
    let e = AggRxStats::collect(&ports, &reads).err().expect("error");
    assert_eq!(e, CollectError::Port("port 1 is down".to_string()));
    assert_eq!(e.message(), "port 1 is down");
}

#[test]
fn sums_that_do_not_fit() {
    let ports = vec![(PortId(0), queues(&[])), (PortId(1), queues(&[]))];
    let big = || Ok(stats(&[("rx_missed_errors", u64::MAX)]));
    assert_eq!(AggRxStats::try_collect(&ports, &vec![big(), big()]), None);
    let bits = || Ok(stats(&[("rx_missed_errors", 0), ("rx_phy_bytes", u64::MAX / 4)]));
    assert_eq!(AggRxStats::try_collect(&ports, &vec![bits(), bits()]), None);
    assert!(matches!(
        AggRxStats::try_collect(&ports, &vec![big(), Err("x".to_string())]),
        Some(Err(_))
    ));
}

#[test]
fn gains_between_collections() {
    let ports = vec![(PortId(0), queues(&[1]))];
    let a = AggRxStats::collect(&ports, &vec![Ok(full(1))]).ok().expect("stats");
    let b = AggRxStats::collect(&ports, &vec![Ok(full(3))]).ok().expect("stats");
    assert!(b.has_rates_since(&a) && b.has_drops_since(&a));
    assert!(!a.has_rates_since(&b) && !a.has_drops_since(&b));
    let d = b.rates_since(&a);
    assert_eq!(d.ingress_bits, (2_000 + 20 * 20) * 8);
    assert_eq!(d.ingress_pkts, 20);
    assert_eq!(d.process_pkts, 14);
    assert_eq!(d.dropped_pkts, 6);
    assert_eq!(
        b.drops_since(&a),
        RxDrops { hw_dropped_pkts: 4, sw_dropped_pkts: 2, dropped_pkts: 6, ingress_pkts: 20 }
    );
    // The rates are made of all drops together, and of no byte counts.
    let c = AggRxStats { ingress_bytes: 0, hw_dropped_pkts: 5, sw_dropped_pkts: 9, ..b };
    assert!(c.has_rates_since(&b) && !c.has_drops_since(&b));
    assert_eq!(c.rates_since(&b).dropped_pkts, 5);
    let mut out = DpdkStats {
        ingress_pkts: 1,
        ingress_bits: 0,
        good_pkts: 0,
        good_bits: 0,
        process_pkts: 0,
        process_bits: 0,
        hw_dropped_pkts: 0,
        sw_dropped_pkts: 0,
    };
    assert!(b.can_export(&out));
    b.update_prometheus_stats(&mut out);
    assert!(!a.can_export(&out));
    assert_eq!(out.ingress_pkts, b.ingress_pkts);
    assert_eq!(out.process_bits, b.process_bits);
    assert_eq!(out.sw_dropped_pkts, 3);
}

#[test]
fn statistics_are_kept_in_the_order_of_their_labels() {
    let s = stats(&[("rx_b", 1), ("rx_a", 2), ("rx_", 3), ("rx_b", 4), ("rx_aa", 5), ("", 6)]);
    let kept: Vec<(&str, u64)> = s.entries().iter().map(|(l, v)| (l.as_str(), *v)).collect();
    assert_eq!(kept, vec![("", 6), ("rx_", 3), ("rx_a", 2), ("rx_aa", 5), ("rx_b", 4)]);
    assert_eq!(s.get("rx_b"), Some(4));
    assert_eq!(s.get("rx_c"), None);
    assert_eq!(s.get_or_zero("rx_c"), 0);
    assert_eq!(port_header(&s, &strings(&["a"])), strings(&["ts", "rx_a", "rx_aa", "mempool_avail_cnt", "mempool_inuse_cnt"]));
    let p = |n: u16| (PortId(n), queues(&[]));
    assert!(in_port_order(&Vec::new()) && in_port_order(&vec![p(9)]));
    assert!(in_port_order(&vec![p(0), p(1), p(7)]));
    assert!(!in_port_order(&vec![p(0), p(0)]) && !in_port_order(&vec![p(0), p(2), p(1)]));
}

#[test]
fn log_files_have_the_selected_columns() {
    let keywords = strings(&["good", "phy_p"]);
    assert_eq!(
        port_header(&full(1), &keywords),
        strings(&[
            "ts",
            "rx_good_bytes",
            "rx_good_packets",
            "rx_phy_packets",
            "mempool_avail_cnt",
            "mempool_inuse_cnt",
        ])
    );
    let elapsed = Duration { nanos: 1_234_567_890 };
    assert_eq!(
        port_row(&elapsed, &Ok(full(2)), &keywords, 7, 8),
        strings(&["1234", "1800", "18", "20", "7", "8"])
    );
    assert_eq!(port_row(&elapsed, &Err("x".to_string()), &keywords, 7, 8), strings(&["7", "8"]));
    assert_eq!(port_header(&full(1), &Vec::new()).len(), 3);
    assert_eq!(port_header(&full(1), &strings(&[""])).len(), 12);
    assert_eq!(port_file_name(PortId(12)), "port12.csv");
    assert_eq!(mempool_name("standard", SocketId(1)), "mempool_standard_1");
}

#[test]
fn offered_load_falls_back_to_what_reached_software() {
    let load = phy_load(&vec![Ok(full(1)), Ok(stats(&[("rx_good_packets", 5), ("rx_phy_bytes", 9)]))]);
    assert_eq!(load, Some(PhyLoad { pkts: 15, bytes: 1000, missing_phy: true, ok: true }));
    let load = phy_load(&vec![Ok(full(1)), Err("x".to_string())]);
    assert_eq!(load, Some(PhyLoad { pkts: 10, bytes: 1000, missing_phy: false, ok: false }));
    let big = || Ok(stats(&[("rx_good_packets", u64::MAX)]));
    assert_eq!(phy_load(&vec![big(), big()]), None);
}

#[test]
fn cycle_rows_are_gains() {
    let mut log = BudgetLog::new();
    let mut now = DatapathBudget::new();
    now.poll_busy = 10;
    now.poll_idle = 20;
    now.pipeline = 30;
    now.maint = 40;
    now.sampled_wall = 100;
    now.wall = 500;
    now.bursts = 3;
    now.cores = 2;
    now.rdtsc_cost = 25;
    let load = PhyLoad { pkts: 7, bytes: 700, missing_phy: true, ok: true };
    assert!(log.should_warn(&load));
    assert!(!log.should_warn(&load));
    log.written(&load, &now);
    let mut later = now;
    later.poll_busy = 15;
    later.pipeline = 37;
    later.maint = 39;
    later.sampled_wall = 120;
    let more = PhyLoad { pkts: 9, bytes: 100, ..load };
    let row = log.log_cycle_budget(&Duration { nanos: 2_000_000 }, &more, &later);
    assert_eq!(row.poll_busy, 5);
    assert_eq!(row.pipeline, 7);
    assert_eq!(row.maint, 0);
    assert_eq!(row.ingress_pkts, 2);
    assert_eq!(row.ingress_bytes, 0);
    assert_eq!(row.busy(), Some(12));
    assert_eq!(
        row.columns(),
        strings(&["2", "5", "0", "7", "0", "20", "0", "0", "0", "0", "2", "0", "2", "25"])
    );
    let round = log.log_stats(&Duration { nanos: 0 }, &vec![Ok(full(1))], &later).expect("round");
    assert!(!round.warn);
    assert_eq!(round.load, PhyLoad { pkts: 10, bytes: 1000, missing_phy: false, ok: true });
    assert_eq!(round.row.expect("row").ingress_pkts, 3);
    let failed = vec![Ok(full(1)), Err("x".to_string())];
    let round = log.log_stats(&Duration { nanos: 0 }, &failed, &later).expect("round");
    assert_eq!(round.row, None);
    assert_eq!(budget_header().len(), 17);
    assert_eq!(budget_header()[0], "ts_ms");
    assert_eq!(budget_header()[16], "cycles_per_ingress_pkt");
    let mut full = row;
    full.poll_busy = u64::MAX;
    assert_eq!(full.busy(), None);
}

#[test]
fn rows_sum_to_the_counters() {
    let mut log = BudgetLog::new();
    let mut pkts = 0;
    let mut pipeline = 0;
    for (n, written) in [(1u64, true), (4, true), (9, false), (11, false), (20, true)] {
        let mut now = DatapathBudget::new();
        now.pipeline = 100 * n;
        let load = PhyLoad { pkts: n, bytes: 60 * n, missing_phy: false, ok: true };
        let row = log.log_cycle_budget(&Duration { nanos: 0 }, &load, &now);
        if written {
            log.written(&load, &now);
            pkts += row.ingress_pkts;
            pipeline += row.pipeline;
        }
    }
    assert_eq!(pkts, 20);
    assert_eq!(pipeline, 2_000);
}

#[test]
fn times_are_shown_from_the_largest_unit() {
    let show = |secs: u64| pretty_print_duration(&Duration::from_secs(secs));
    assert_eq!(show(0), "0s");
    assert_eq!(show(59), "59s");
    assert_eq!(show(60), "1m 0s");
    assert_eq!(show(3_600), "1h 0m 0s");
    assert_eq!(show(86_400), "1d 0h 0m 0s");
    assert_eq!(show(90_061), "1d 1h 1m 1s");
    assert_eq!(pretty_print_duration(&Duration::from_millis(1_999)), "1s");
}

#[test]
fn meters_do_not_repeat_samples() {
    let fresh = MeterSample::of(Some((5, 6)), true);
    assert_eq!(display_dram("S0", &fresh), "DRAM S0: read 5 bytes / write 6 bytes");
    assert_eq!(display_pcie("P1", &fresh), "PCIe P1: in-write 6 bytes / in-read 5 bytes");
    let stale = MeterSample::of(None, true);
    assert_eq!(display_dram("S0", &stale), "DRAM S0: no new sample");
    assert_eq!(display_pcie("P1", &stale), "PCIe P1: no new sample");
    let waiting = MeterSample::of(None, false);
    assert_eq!(display_dram("S0", &waiting), "DRAM S0: waiting for first sample");
    assert_eq!(display_pcie("P1", &waiting), "PCIe P1: waiting for first sample");
    assert_eq!(dram_totals(&vec![(1, 2), (3, 4)]), Some((4, 6, 10)));
    assert_eq!(dram_totals(&vec![(u64::MAX, 0), (0, 1)]), None);
}

#[test]
fn pools_of_each_socket_once() {
    let sockets = distinct_sockets(&vec![SocketId(1), SocketId(0), SocketId(1)]);
    assert_eq!(sockets, vec![SocketId(0), SocketId(1)]);
    assert_eq!(
        pool_names(&sockets),
        strings(&[
            "mempool_standard_0",
            "mempool_split_header_0",
            "mempool_split_remainder_0",
            "mempool_standard_1",
            "mempool_split_header_1",
            "mempool_split_remainder_1",
        ])
    );
}

fn config(throughput: bool, log: bool) -> OnlineConfig {
    OnlineConfig {
        duration: Some(3),
        monitor: Some(MonitorConfig {
            display: Some(DisplayConfig {
                throughput,
                pcie: true,
                dram: false,
                port_stats: strings(&["rx"]),
            }),
            log: if log {
                Some(LogConfig {
                    directory: "logs".to_string(),
                    port_stats: strings(&["phy"]),
                    interval: 250,
                })
            } else {
                None
            },
        }),
        devices: strings(&["0000:3b:00.0"]),
    }
}

#[test]
fn monitor_follows_its_configuration() {
    let ports = vec![(PortId(0), queues(&[])), (PortId(3), queues(&[1]))];
    let m = Monitor::new(config(true, true), ports, "2024-01-01T00:00:00".to_string());
    assert_eq!(m.duration, Some(Duration::from_secs(3)));
    assert!(m.wants_pcie);
    assert!(!m.wants_dram);
    assert_eq!(m.devices, strings(&["0000:3b:00.0"]));
    let plan = m.log.expect("log");
    assert_eq!(plan.interval, Duration::from_millis(250));
    assert_eq!(plan.directory, "logs");
    assert_eq!(plan.run, "2024-01-01T00:00:00");
    assert_eq!(
        plan.port_files,
        vec![(PortId(0), "port0.csv".to_string()), (PortId(3), "port3.csv".to_string())]
    );
    let log_only = OnlineConfig {
        monitor: Some(MonitorConfig { display: None, log: None }),
        duration: None,
        devices: Vec::new(),
    };
    let m = Monitor::new(log_only, Vec::new(), String::new());
    assert!(m.display.is_none() && m.log.is_none() && m.duration.is_none());
    assert!(!m.wants_pcie && !m.wants_dram);
}

fn sample(n: u64) -> AggRxStats {
    AggRxStats { ingress_pkts: n, ..AggRxStats::new() }
}

#[test]
fn a_run_of_the_monitor() {
    let mut r = Monitor::new(config(true, true), Vec::new(), String::new()).run();
    assert_eq!(r.next(), MonitorAction::InitLog);
    r.step(MonitorEvent::Began(at(3)));
    assert_eq!(r.next(), MonitorAction::InitLog);
    r.step(MonitorEvent::Done);
    assert_eq!(r.next(), MonitorAction::Begin);
    r.step(MonitorEvent::Began(at(10)));
    assert_eq!(r.next(), MonitorAction::Sleep);
    r.step(MonitorEvent::Done);
    assert_eq!(r.next(), MonitorAction::CheckRunning);
    r.step(MonitorEvent::Running(true, at(11)));
    assert_eq!(r.next(), MonitorAction::WaitDisplay);
    r.step(MonitorEvent::Done);
    assert_eq!(r.next(), MonitorAction::Collect);
    r.step(MonitorEvent::Collected(at(11), Some(sample(5))));
    assert_eq!(
        r.next(),
        MonitorAction::ShowRates {
            curr: sample(5),
            prev: sample(0),
            init: sample(5),
            delta: Duration::from_secs(1),
            elapsed: Duration::from_secs(1),
        }
    );
    r.step(MonitorEvent::Done);
    assert_eq!(r.next(), MonitorAction::ReadTransport);
    r.step(MonitorEvent::Transport(100, 50));
    r.step(MonitorEvent::Done);
    assert_eq!(r.next(), MonitorAction::ShowMeters);
    r.step(MonitorEvent::Done);
    assert_eq!(r.next(), MonitorAction::WaitLog);
    r.step(MonitorEvent::Done);
    assert_eq!(r.next(), MonitorAction::LogStats { since: at(11) });
    r.step(MonitorEvent::Done);
    // The time is up: the workers are stopped and the round is still carried out.
    r.step(MonitorEvent::Running(true, at(13)));
    assert_eq!(r.next(), MonitorAction::StopRunning);
    r.step(MonitorEvent::Done);
    r.step(MonitorEvent::Done);
    r.step(MonitorEvent::Collected(at(13), Some(sample(9))));
    assert!(matches!(r.next(), MonitorAction::ShowRates { prev, init, .. } if prev == sample(5) && init == sample(5)));
    r.step(MonitorEvent::Done);
    r.step(MonitorEvent::Transport(170, 40));
    assert_eq!(
        r.next(),
        MonitorAction::ShowTransport { tcp: 70, udp: 0, delta: Duration::from_secs(2) }
    );
    r.step(MonitorEvent::Done);
    r.step(MonitorEvent::Done);
    r.step(MonitorEvent::Done);
    r.step(MonitorEvent::Done);
    r.step(MonitorEvent::Running(false, at(14)));
    assert_eq!(r.next(), MonitorAction::Sleep);
    r.step(MonitorEvent::Done);
    assert_eq!(
        r.next(),
        MonitorAction::Summarise {
            curr: sample(9),
            init: sample(5),
            elapsed: Duration::from_secs(2),
        }
    );
    r.step(MonitorEvent::Done);
    assert_eq!(r.next(), MonitorAction::Finished);
}

#[test]
fn rounds_without_throughput_or_statistics() {
    let mut r = Monitor::new(config(false, false), Vec::new(), String::new()).run();
    assert_eq!(r.next(), MonitorAction::Begin);
    r.step(MonitorEvent::Began(at(0)));
    assert_eq!(r.next(), MonitorAction::Sleep);
    r.step(MonitorEvent::Done);
    r.step(MonitorEvent::Running(true, at(1)));
    r.step(MonitorEvent::Done);
    r.step(MonitorEvent::Collected(at(1), None));
    assert_eq!(r.next(), MonitorAction::CheckRunning);
    assert!(r.init);
    r.step(MonitorEvent::Running(true, at(2)));
    r.step(MonitorEvent::Done);
    r.step(MonitorEvent::Collected(at(2), Some(sample(1))));
    assert_eq!(r.next(), MonitorAction::CheckRunning);
    assert!(!r.init);
    assert_eq!(r.prev_ts, at(2));
}
