use iris_flow::flow_model::FlowAction;
use iris_flow::lcore::datapath_budget::DatapathBudget;
use iris_flow::lcore::packet_tap::{install, installed, TapSlot};
use iris_flow::lcore::rx_core::{
    FlowTableConfig, RxAction, RxCore, RxEvent, RxMode, RxProcess, RX_BURST_SIZE,
};
use iris_flow::lcore::{CoreId, SocketId};
use iris_flow::port::{PortId, RxQueue, RxQueueId, RxQueueType};
use iris_flow::stats::{add_datapath_busy, datapath_busy, Counter, DatapathBusy};

fn queue(qid: u16, ty: RxQueueType) -> RxQueue {
    RxQueue { pid: PortId(0), qid: RxQueueId(qid), ty }
}

fn rx_of(n: u16, table: bool, stride: u64) -> RxCore {
    let queues = (0..n).map(|q| queue(q, RxQueueType::Receive)).collect();
    let config = if table { Some(FlowTableConfig { capacity: 8, ways: 4 }) } else { None };
    RxCore::new(CoreId(1), queues, config, stride, false)
}

/// A driver whose cycle counter advances by 100 with every read.
struct Driver {
    tsc: u64,
    bursts: Vec<u64>,
    action: Option<FlowAction>,
    cont: bool,
    log: Vec<RxAction>,
}

impl Driver {
    fn new(bursts: Vec<u64>) -> Self {
        Driver { tsc: 1000, bursts, action: None, cont: true, log: Vec::new() }
    }

    fn run(&mut self, rx: &mut RxProcess) {
        let mut left = self.bursts.len();
        loop {
            let action = rx.next();
            self.log.push(action);
            let ev = match action {
                RxAction::CheckRunning => RxEvent::Running(left > 0),
                RxAction::ReadTsc => {
                    self.tsc += 100;
                    RxEvent::Tsc(self.tsc)
                }
                RxAction::Burst(_) => {
                    let n = if left > 0 {
                        left -= 1;
                        self.bursts[self.bursts.len() - left - 1]
                    } else {
                        0
                    };
                    RxEvent::Received(n)
                }
                RxAction::DrainInbox => RxEvent::Drained,
                RxAction::ReadClock => RxEvent::ClockRead,
                RxAction::ReportStats => RxEvent::Reported,
                RxAction::Tap(_) => RxEvent::Tapped,
                RxAction::Lookup(_) => RxEvent::LookedUp(self.action),
                RxAction::Filter(_) => RxEvent::Filtered(self.cont, 60),
                RxAction::Process(_) => RxEvent::Processed,
                RxAction::CheckInactive => RxEvent::Maintained,
                RxAction::Publish => RxEvent::Published,
                RxAction::Deliver => RxEvent::Delivered,
                RxAction::Finished => break,
            };
            assert!(rx.can_take(&ev));
            rx.step(ev);
        }
    }
}

#[test]
fn first_queue_tells_the_mode() {
    let sink = RxCore::new(
        CoreId(0),
        vec![queue(0, RxQueueType::Sink), queue(1, RxQueueType::Receive)],
        None,
        1,
        false,
    );
    assert_eq!(sink.rx_loop(), RxMode::Sink);
    assert_eq!(rx_of(2, false, 1).rx_loop(), RxMode::Process);
    assert!(rx_of(1, false, 1).new_flow_table(true).is_none());
    assert!(rx_of(1, true, 1).new_flow_table(true).expect("table").is_empty());
}

#[test]
fn sink_counts_each_queue() {
    let mut sink = rx_of(2, false, 1).rx_sink();
    assert_eq!(sink.per_queue, vec![(0, 0), (0, 0)]);
    sink.received(1, &vec![60, 1500]);
    sink.received(0, &vec![]);
    sink.received(1, &vec![40]);
    assert_eq!(sink.per_queue, vec![(0, 0), (3, 1600)]);
}

#[test]
fn buckets_sum_to_the_sampled_span() {
    let mut rx = rx_of(2, false, 1).rx_process(true, false, 30, 1000);
    let mut d = Driver::new(vec![3, 0, 0, 2]);
    d.run(&mut rx);
    let b = rx.budget;
    // Each closed span is 100 cycles less the cost of one read.
    assert_eq!(b.poll_busy, 2 * 70);
    assert_eq!(b.poll_idle, 2 * 70);
    assert_eq!(b.pipeline, 2 * 70);
    assert_eq!(b.maint, 2 * 70);
    assert_eq!(b.sampled_wall, b.poll_busy + b.poll_idle + b.pipeline + b.maint);
    assert_eq!(b.sampled_iters, 2);
    assert_eq!(b.bursts, 2);
    assert_eq!(b.idle_polls, 2);
    assert_eq!(b.recv_pkts, 5);
    assert_eq!(rx.stats.idle_cycles.get(), 2);
    assert_eq!(rx.stats.total_cycles.get(), 4);
    assert_eq!(rx.nb_pkts, 5);
    assert_eq!(rx.nb_bytes, 300);
    // One read before the loop, one per opened iteration, one per closed span, one at the end.
    assert_eq!(b.rdtsc_reads, 1 + 2 + 8 + 1);
    assert_eq!(b.wall, d.tsc - 1000);
    assert_eq!(rx.published, b);
}

#[test]
fn one_in_every_stride_iterations_is_sampled() {
    let mut rx = rx_of(1, false, 3).rx_process(true, false, 0, 0);
    let mut d = Driver::new(vec![0; 7]);
    d.run(&mut rx);
    assert_eq!(rx.budget.sampled_iters, 3);
    assert_eq!(rx.budget.idle_polls, 7);
    assert_eq!(rx.budget.sample_stride, 3);
}

#[test]
fn attribution_can_be_turned_off() {
    let mut rx = rx_of(1, false, 0).rx_process(true, false, 30, 0);
    let mut d = Driver::new(vec![4; 5]);
    d.run(&mut rx);
    assert_eq!(rx.budget.rdtsc_cost, 0);
    assert_eq!(rx.budget.sampled_iters, 0);
    assert_eq!(rx.budget.sampled_wall, 0);
    assert_eq!(rx.budget.recv_pkts, 20);
    assert_eq!(d.log.iter().filter(|a| **a == RxAction::ReadTsc).count(), 1);
}

#[test]
fn maintenance_waits_for_a_full_burst() {
    let mut rx = rx_of(1, false, 0).rx_process(true, false, 0, 0);
    let mut d = Driver::new(vec![31, 0, 1, 32, 5]);
    d.run(&mut rx);
    assert_eq!(d.log.iter().filter(|a| **a == RxAction::CheckInactive).count(), 2);
    assert_eq!(rx.pkts_since_maint, 5);
    assert_eq!(RX_BURST_SIZE, 32);
}

#[test]
fn tap_comes_before_the_flow_table() {
    let mut rx = rx_of(1, true, 0).rx_process(true, true, 0, 0);
    let mut d = Driver::new(vec![1]);
    d.run(&mut rx);
    assert_eq!(
        d.log,
        vec![
            RxAction::CheckRunning,
            RxAction::Burst(0),
            RxAction::DrainInbox,
            RxAction::Tap(0),
            RxAction::Lookup(0),
            RxAction::Filter(0),
            RxAction::Process(0),
            RxAction::CheckRunning,
            RxAction::ReadTsc,
            RxAction::Publish,
            RxAction::Deliver,
            RxAction::Finished,
        ]
    );
}

#[test]
fn flow_tables_can_be_turned_off() {
    let off = rx_of(1, true, 0);
    assert!(off.new_flow_table(false).is_none());
    let mut rx = off.rx_process(false, false, 0, 0);
    let mut d = Driver::new(vec![2]);
    d.action = Some(FlowAction::Drop);
    d.run(&mut rx);
    assert_eq!(rx.nb_pkts, 2);
    assert!(!d.log.iter().any(|a| matches!(a, RxAction::DrainInbox | RxAction::Lookup(_))));
}

#[test]
fn drop_rules_shed_packets() {
    let mut rx = rx_of(1, true, 1).rx_process(true, true, 0, 0);
    let mut d = Driver::new(vec![4]);
    d.action = Some(FlowAction::Drop);
    d.run(&mut rx);
    assert_eq!(rx.nb_pkts, 0);
    assert_eq!(rx.budget.recv_pkts, 4);
    assert_eq!(d.log.iter().filter(|a| matches!(a, RxAction::Tap(_))).count(), 4);
    assert!(!d.log.iter().any(|a| matches!(a, RxAction::Filter(_))));
    let mut rx = rx_of(1, true, 1).rx_process(true, false, 0, 0);
    let mut d = Driver::new(vec![4]);
    d.action = Some(FlowAction::Queue(3));
    d.run(&mut rx);
    assert_eq!(rx.nb_pkts, 4);
}

#[test]
fn packets_that_the_filter_ignores() {
    let mut rx = rx_of(1, false, 0).rx_process(true, false, 0, 0);
    let mut d = Driver::new(vec![3]);
    d.cont = false;
    d.run(&mut rx);
    assert_eq!(rx.stats.total_pkt.get(), 3);
    assert_eq!(rx.stats.total_byte.get(), 180);
    assert_eq!(rx.stats.ignored_pkt.get(), 3);
    assert_eq!(rx.stats.ignored_byte.get(), 180);
    assert!(!d.log.iter().any(|a| matches!(a, RxAction::Process(_))));
}

#[test]
fn clock_is_read_every_1024_polls() {
    let mut rx = rx_of(1, false, 0).rx_process(true, false, 0, 0);
    let mut d = Driver::new(vec![0; 3000]);
    d.run(&mut rx);
    assert_eq!(d.log.iter().filter(|a| **a == RxAction::ReadClock).count(), 3);
    assert!(!d.log.iter().any(|a| *a == RxAction::ReportStats));
    let exporting = RxCore::new(CoreId(0), vec![queue(0, RxQueueType::Receive)], None, 0, true);
    let mut rx = exporting.rx_process(true, false, 0, 0);
    let mut d = Driver::new(vec![0; 3000]);
    d.run(&mut rx);
    assert_eq!(d.log.iter().filter(|a| **a == RxAction::ReportStats).count(), 2);
}

#[test]
fn budget_is_published_every_1024_sampled_iterations() {
    let mut rx = rx_of(1, false, 1).rx_process(true, false, 0, 0);
    let mut d = Driver::new(vec![0; 2100]);
    d.run(&mut rx);
    assert_eq!(d.log.iter().filter(|a| **a == RxAction::Publish).count(), 3);
    assert_eq!(rx.published, rx.budget);
}

#[test]
fn full_counters_take_nothing_more() {
    let mut rx = rx_of(1, false, 0).rx_process(true, false, 0, 0);
    rx.step(RxEvent::Running(true));
    rx.budget.recv_pkts = u64::MAX - 1;
    assert!(rx.can_take(&RxEvent::Received(1)));
    assert!(!rx.can_take(&RxEvent::Received(2)));
    rx.budget.idle_polls = u64::MAX;
    assert!(!rx.can_take(&RxEvent::Received(0)));
}

#[test]
fn unexpected_events_change_nothing() {
    let mut rx = rx_of(1, false, 0).rx_process(true, false, 0, 0);
    let before = rx;
    rx.step(RxEvent::Tsc(5));
    rx.step(RxEvent::Processed);
    assert_eq!(rx, before);
    assert_eq!(DatapathBudget::new().cores, 0);
}

#[test]
fn tap_is_installed_once() {
    let mut slot: TapSlot<u32> = TapSlot::new();
    assert_eq!(installed(&slot), None);
    assert_eq!(install(&mut slot, 1), Ok(()));
    assert_eq!(install(&mut slot, 2), Err(2));
    assert_eq!(installed(&slot), Some(1));
}

#[test]
fn busy_cycles_are_summed() {
    let mut total = DatapathBusy::new();
    assert_eq!(datapath_busy(&total), (0, 0));
    add_datapath_busy(&mut total, 100, 3);
    add_datapath_busy(&mut total, u64::MAX, 4);
    assert_eq!(datapath_busy(&total), (99, 7));
    let mut c = Counter::new();
    c.inc();
    c.inc_by(41);
    assert_eq!(c.get(), 42);
}

#[test]
fn identifiers() {
    assert_eq!(CoreId(7).raw(), 7);
    assert_eq!(CoreId(7).to_text(), "7");
    assert_eq!(SocketId(10).raw(), 10);
    assert_eq!(SocketId(10).to_text(), "10");
    assert_eq!(PortId(65535).raw(), 65535);
    assert_eq!(RxQueueId(2).raw(), 2);
}
