//! Receive cores.
//!
//! A core polls its receive queues. A core on a sink queue counts and drops what it receives; any
//! other core runs each packet through the tap, the software flow table, the packet filter and the
//! pipeline. The loop of such a core is a state machine: it says what is to be done next, and takes
//! note of what came of it.

use vstd::prelude::*;

use crate::flow_model::{max_nat, FlowAction, TableModel};
use crate::lcore::datapath_budget::{elapsed, less, net_span, DatapathBudget};
use crate::lcore::CoreId;
use crate::port::{RxQueue, RxQueueType};
use crate::stats::Counter;
use crate::sw_flow::FlowTable;

verus! {

/// Number of packets requested per poll, and the unit in which datapath maintenance is amortised.
pub const RX_BURST_SIZE: u16 = 32;

/// Size of the software flow table of a core.
#[derive(Clone, Copy, Debug, PartialEq, Eq, Structural)]
pub struct FlowTableConfig {
    /// Rules that the table should hold.
    pub capacity: usize,
    /// Rules per set.
    pub ways: usize,
}

/// A core that polls from `rxqueues`.
#[derive(Debug)]
pub struct RxCore {
    /// The core.
    pub id: CoreId,
    /// The queues that it polls.
    pub rxqueues: Vec<RxQueue>,
    /// Size of its flow table, if it has one.
    pub flow_table: Option<FlowTableConfig>,
    /// Cycles are attributed on one in every this many loop iterations; zero turns that off.
    pub budget_sample_stride: u64,
    /// Whether the core's statistics are exported.
    pub is_prometheus_enabled: bool,
}

/// What a core does with its packets.
#[derive(Clone, Copy, Debug, PartialEq, Eq, Structural)]
pub enum RxMode {
    /// Count and drop them.
    Sink,
    /// Run them through the pipeline.
    Process,
}

impl RxCore {
    /// A core that polls from `rxqueues`.
    pub fn new(
        core_id: CoreId,
        rxqueues: Vec<RxQueue>,
        flow_table: Option<FlowTableConfig>,
        budget_sample_stride: u64,
        is_prometheus_enabled: bool,
    ) -> (r: Self)
        ensures
            r == (RxCore {
                id: core_id,
                rxqueues,
                flow_table,
                budget_sample_stride,
                is_prometheus_enabled,
            }),
    {
        RxCore { id: core_id, rxqueues, flow_table, budget_sample_stride, is_prometheus_enabled }
    }

    /// What the core does, as told by its first queue.
    pub fn rx_loop(&self) -> (r: RxMode)
        requires
            self.rxqueues@.len() > 0,
        ensures
            r == if self.rxqueues@[0].ty == RxQueueType::Sink {
                RxMode::Sink
            } else {
                RxMode::Process
            },
    {
        match self.rxqueues[0].ty {
            RxQueueType::Sink => RxMode::Sink,
            RxQueueType::Receive => RxMode::Process,
        }
    }

    /// The core's flow table, empty, if flow tables are on and the core is configured with one.
    pub fn new_flow_table(&self, on: bool) -> (r: Option<FlowTable>)
        requires
            on ==> (self.flow_table matches Some(c) ==> TableModel::with_capacity(
                c.capacity as nat,
                c.ways as nat,
            ).n_sets * max_nat(c.ways as nat, 1) <= usize::MAX),
        ensures
            match self.flow_table {
                Some(c) => if on {
                    r matches Some(t) && t.wf() && t@ == TableModel::with_capacity(
                        c.capacity as nat,
                        c.ways as nat,
                    )
                } else {
                    r is None
                },
                None => r is None,
            },
    {
        match self.flow_table {
            Some(c) => if on {
                Some(FlowTable::with_capacity_ways(c.capacity, c.ways))
            } else {
                None
            },
            None => None,
        }
    }

    /// Whether the core attributes cycles at all.
    pub fn attributes_cycles(&self) -> (r: bool)
        ensures
            r == (self.budget_sample_stride != 0),
    {
        self.budget_sample_stride != 0
    }

    /// The processing loop before its first iteration. `on` says whether flow tables are on, `tap`
    /// whether a packet tap was installed, `rdtsc_cost` is the measured cost of reading the cycle
    /// counter, which counts only if cycles are attributed, and `loop_start` is what the counter
    /// reads now. Without a flow table the loop skips both the inbox and the lookup.
    pub fn rx_process(&self, on: bool, tap: bool, rdtsc_cost: u64, loop_start: u64) -> (r:
        RxProcess)
        requires
            self.rxqueues@.len() > 0,
        ensures
            r.wf(),
            r == RxProcess::start(
                self.rxqueues@.len(),
                on && self.flow_table is Some,
                tap,
                self.is_prometheus_enabled,
                self.budget_sample_stride,
                rdtsc_cost,
                loop_start,
            ),
    {
        let attribute: bool = self.attributes_cycles();
        let mut budget: DatapathBudget = DatapathBudget::new();
        budget.sample_stride = self.budget_sample_stride;
        budget.rdtsc_cost = if attribute {
            rdtsc_cost
        } else {
            0
        };
        RxProcess {
            n_queues: self.rxqueues.len(),
            has_table: on && self.flow_table.is_some(),
            has_tap: tap,
            exports: self.is_prometheus_enabled,
            attribute,
            sample_stride: if attribute {
                self.budget_sample_stride
            } else {
                1
            },
            budget,
            published: DatapathBudget::new(),
            loop_start,
            rdtsc_reads: 1,
            countdown: 1,
            pkts_since_maint: 0,
            nb_pkts: 0,
            nb_bytes: 0,
            stats: RxStats {
                idle_cycles: Counter::new(),
                total_cycles: Counter::new(),
                total_pkt: Counter::new(),
                total_byte: Counter::new(),
                ignored_pkt: Counter::new(),
                ignored_byte: Counter::new(),
            },
            sampled: false,
            t_cursor: 0,
            iter_start: 0,
            spans_closed: 0,
            phase: RxPhase::Running,
        }
    }

    /// The counting loop before its first iteration.
    pub fn rx_sink(&self) -> (r: RxSink)
        ensures
            r.per_queue@ == Seq::new(self.rxqueues@.len(), |i: int| (0u64, 0u64)),
    {
        let mut per_queue: Vec<(u64, u64)> = Vec::new();
        let mut i: usize = 0;
        while i < self.rxqueues.len()
            invariant
                i <= self.rxqueues@.len(),
                per_queue@ == Seq::new(i as nat, |j: int| (0u64, 0u64)),
            decreases self.rxqueues@.len() - i,
        {
            per_queue.push((0, 0));
            i = i + 1;
        }
        RxSink { per_queue }
    }
}

/// Packets and bytes that a sink core received on each of its queues.
#[derive(Debug)]
pub struct RxSink {
    /// Packets and bytes of each queue.
    pub per_queue: Vec<(u64, u64)>,
}

/// The sum of some lengths.
pub open spec fn total_len(lens: Seq<u64>) -> int
    decreases lens.len(),
{
    if lens.len() == 0 {
        0
    } else {
        total_len(lens.drop_last()) + lens.last()
    }
}

/// More lengths have no smaller sum.
pub proof fn lemma_total_len(lens: Seq<u64>, n: int)
    requires
        0 <= n <= lens.len(),
    ensures
        0 <= total_len(lens.take(n)) <= total_len(lens),
    decreases lens.len(),
{
    if n == lens.len() {
        assert(lens.take(n) =~= lens);
        if lens.len() > 0 {
            lemma_total_len(lens.drop_last(), lens.len() - 1);
            assert(lens.drop_last().take(lens.len() - 1) =~= lens.drop_last());
        }
    } else {
        lemma_total_len(lens.drop_last(), n);
        assert(lens.drop_last().take(n) =~= lens.take(n));
    }
}

impl RxSink {
    /// Counts the packets of one poll of a queue, given their lengths.
    pub fn received(&mut self, queue: usize, lens: &Vec<u64>)
        requires
            queue < old(self).per_queue@.len(),
            old(self).per_queue@[queue as int].0 + lens@.len() <= u64::MAX,
            old(self).per_queue@[queue as int].1 + total_len(lens@) <= u64::MAX,
        ensures
            final(self).per_queue@ == old(self).per_queue@.update(
                queue as int,
                (
                    (old(self).per_queue@[queue as int].0 + lens@.len()) as u64,
                    (old(self).per_queue@[queue as int].1 + total_len(lens@)) as u64,
                ),
            ),
    {
        let (mut pkts, mut bytes): (u64, u64) = self.per_queue[queue];
        let mut i: usize = 0;
        while i < lens.len()
            invariant
                i <= lens@.len(),
                queue < self.per_queue@.len(),
                *self == *old(self),
                pkts == self.per_queue@[queue as int].0 + i,
                bytes == self.per_queue@[queue as int].1 + total_len(lens@.take(i as int)),
                self.per_queue@[queue as int].0 + lens@.len() <= u64::MAX,
                self.per_queue@[queue as int].1 + total_len(lens@) <= u64::MAX,
            decreases lens@.len() - i,
        {
            proof {
                lemma_total_len(lens@, i + 1);
                assert(lens@.take(i + 1).drop_last() =~= lens@.take(i as int));
            }
            pkts = pkts + 1;
            bytes = bytes + lens[i];
            i = i + 1;
        }
        assert(lens@.take(i as int) =~= lens@);
        self.per_queue.set(queue, (pkts, bytes));
    }
}

/// Counters of one processing core.
#[derive(Clone, Copy, Debug, PartialEq, Eq, Structural)]
pub struct RxStats {
    /// Polls that found no packet.
    pub idle_cycles: Counter,
    /// Polls.
    pub total_cycles: Counter,
    /// Packets that the flow table let through.
    pub total_pkt: Counter,
    /// Bytes in those packets.
    pub total_byte: Counter,
    /// Packets that the packet filter ignored.
    pub ignored_pkt: Counter,
    /// Bytes in those packets.
    pub ignored_byte: Counter,
}

/// Where the loop of a processing core stands. `q` is the queue that is being polled, `n` the
/// number of packets that its poll found, and `i` the packet at hand.
#[derive(Clone, Copy, Debug, PartialEq, Eq, Structural)]
pub enum RxPhase {
    /// Between iterations.
    Running,
    /// A sampled iteration opens.
    Start,
    /// The queue is to be polled.
    Poll { q: usize },
    /// The poll of a sampled iteration closes.
    PollTsc { q: usize, n: u64 },
    /// Pending flow rules are to be applied.
    Drain { q: usize, n: u64 },
    /// The clock is to be read.
    Clock { q: usize, n: u64 },
    /// The core's statistics are to be exported.
    Report { q: usize, n: u64 },
    /// The tap is to see the packet.
    Tap { q: usize, n: u64, i: u64 },
    /// The packet is to be looked up in the flow table.
    Lookup { q: usize, n: u64, i: u64 },
    /// The packet filter is to see the packet.
    Filter { q: usize, n: u64, i: u64 },
    /// The pipeline is to process the packet.
    Process { q: usize, n: u64, i: u64 },
    /// The pipeline span of a sampled iteration closes.
    PipelineTsc { q: usize },
    /// Inactive connections are to be expired.
    Maint,
    /// The maintenance span of a sampled iteration closes.
    MaintTsc,
    /// The budget is to be published.
    Publish,
    /// The loop ends: its span closes.
    FinalTsc,
    /// The rest of the budget is to be published.
    FinalPublish,
    /// What unfinished connections still hold is to be delivered.
    Deliver,
    /// The core is done.
    Done,
}

/// What a processing core is to do next.
#[derive(Clone, Copy, Debug, PartialEq, Eq, Structural)]
pub enum RxAction {
    /// Find out whether to go on.
    CheckRunning,
    /// Read the cycle counter.
    ReadTsc,
    /// Poll a queue for up to `RX_BURST_SIZE` packets.
    Burst(usize),
    /// Apply the flow rules that wait in the inbox.
    DrainInbox,
    /// Refresh the coarse clock.
    ReadClock,
    /// Export the core's statistics.
    ReportStats,
    /// Hand a packet of the burst to the tap.
    Tap(u64),
    /// Look a packet of the burst up in the flow table.
    Lookup(u64),
    /// Run a packet of the burst through the packet filter.
    Filter(u64),
    /// Run a packet of the burst through the pipeline.
    Process(u64),
    /// Expire inactive connections.
    CheckInactive,
    /// Publish what the budget gained since it was last published.
    Publish,
    /// Deliver what unfinished connections still hold.
    Deliver,
    /// Nothing: the core is done.
    Finished,
}

/// What came of an action of a processing core.
#[derive(Clone, Copy, Debug, PartialEq, Eq, Structural)]
pub enum RxEvent {
    /// Whether to go on.
    Running(bool),
    /// The cycle counter reads this.
    Tsc(u64),
    /// The poll found this many packets.
    Received(u64),
    /// The inbox is empty.
    Drained,
    /// The clock was read.
    ClockRead,
    /// The statistics were exported.
    Reported,
    /// The tap saw the packet.
    Tapped,
    /// The flow table holds this action for the packet, or none.
    LookedUp(Option<FlowAction>),
    /// Whether the packet filter wants the packet, and its length.
    Filtered(bool, u64),
    /// The pipeline processed the packet.
    Processed,
    /// Inactive connections were expired.
    Maintained,
    /// The budget was published.
    Published,
    /// The rest was delivered.
    Delivered,
}

/// The loop of a processing core.
#[derive(Clone, Copy, Debug, PartialEq, Eq, Structural)]
pub struct RxProcess {
    /// Number of queues.
    pub n_queues: usize,
    /// Whether the core has a flow table.
    pub has_table: bool,
    /// Whether a tap is installed.
    pub has_tap: bool,
    /// Whether the core's statistics are exported.
    pub exports: bool,
    /// Whether cycles are attributed.
    pub attribute: bool,
    /// One in every this many iterations is due to be sampled.
    pub sample_stride: u64,
    /// The core's budget.
    pub budget: DatapathBudget,
    /// The budget as it was last published.
    pub published: DatapathBudget,
    /// What the cycle counter read before the loop.
    pub loop_start: u64,
    /// Reads of the cycle counter so far.
    pub rdtsc_reads: u64,
    /// Iterations until the next one that is due to be sampled.
    pub countdown: u64,
    /// Packets received since connections were last expired.
    pub pkts_since_maint: u64,
    /// Packets that the flow table let through.
    pub nb_pkts: u64,
    /// Bytes in those packets.
    pub nb_bytes: u64,
    /// The core's counters.
    pub stats: RxStats,
    /// Whether the current iteration is sampled.
    pub sampled: bool,
    /// What the cycle counter read when the last span of the iteration closed.
    pub t_cursor: u64,
    /// What the cycle counter read when the iteration opened.
    pub iter_start: u64,
    /// Spans closed in this iteration.
    pub spans_closed: u64,
    /// What is to be done.
    pub phase: RxPhase,
}

impl RxProcess {
    /// The loop before its first iteration.
    pub open spec fn start(
        n_queues: nat,
        has_table: bool,
        has_tap: bool,
        exports: bool,
        stride: u64,
        rdtsc_cost: u64,
        loop_start: u64,
    ) -> RxProcess {
        let zero = Counter { count: 0 };
        RxProcess {
            n_queues: n_queues as usize,
            has_table,
            has_tap,
            exports,
            attribute: stride != 0,
            sample_stride: if stride == 0 {
                1
            } else {
                stride
            },
            budget: DatapathBudget {
                sample_stride: stride,
                rdtsc_cost: if stride == 0 {
                    0
                } else {
                    rdtsc_cost
                },
                ..DatapathBudget::zero()
            },
            published: DatapathBudget::zero(),
            loop_start,
            rdtsc_reads: 1,
            countdown: 1,
            pkts_since_maint: 0,
            nb_pkts: 0,
            nb_bytes: 0,
            stats: RxStats {
                idle_cycles: zero,
                total_cycles: zero,
                total_pkt: zero,
                total_byte: zero,
                ignored_pkt: zero,
                ignored_byte: zero,
            },
            sampled: false,
            t_cursor: 0,
            iter_start: 0,
            spans_closed: 0,
            phase: RxPhase::Running,
        }
    }

    /// The net cycles of the span that closes when the counter reads `t`.
    pub open spec fn span(self, t: u64) -> u64 {
        less(elapsed(self.t_cursor, t), self.budget.rdtsc_cost as int)
    }

    /// The net cycles of the iteration that closes when the counter reads `t`.
    pub open spec fn iteration_span(self, t: u64) -> u64 {
        less(elapsed(self.iter_start, t), (self.spans_closed + 1) * self.budget.rdtsc_cost)
    }

    /// The loop as an iteration begins. Whether it is sampled is decided once.
    pub open spec fn began(self) -> RxProcess {
        let due = self.countdown == 1;
        let sampled = due && self.attribute;
        RxProcess {
            countdown: if due {
                self.sample_stride
            } else {
                (self.countdown - 1) as u64
            },
            sampled,
            t_cursor: 0,
            iter_start: 0,
            spans_closed: 0,
            phase: if sampled {
                RxPhase::Start
            } else {
                RxPhase::Poll { q: 0 }
            },
            ..self
        }
    }

    /// A sampled iteration opens.
    pub open spec fn opened(self, t: u64) -> RxProcess {
        RxProcess {
            t_cursor: t,
            iter_start: t,
            rdtsc_reads: (self.rdtsc_reads + 1) as u64,
            phase: RxPhase::Poll { q: 0 },
            ..self
        }
    }

    /// The span of a poll goes to the bucket for polls that found packets or for those that found
    /// none.
    pub open spec fn poll_closed(self, n: u64, t: u64) -> RxProcess {
        RxProcess {
            budget: if n == 0 {
                DatapathBudget {
                    poll_idle: (self.budget.poll_idle + self.span(t)) as u64,
                    ..self.budget
                }
            } else {
                DatapathBudget {
                    poll_busy: (self.budget.poll_busy + self.span(t)) as u64,
                    ..self.budget
                }
            },
            t_cursor: t,
            rdtsc_reads: (self.rdtsc_reads + 1) as u64,
            spans_closed: (self.spans_closed + 1) as u64,
            ..self
        }
    }

    /// The exact counters of polls and packets.
    pub open spec fn counted(self, q: usize, n: u64) -> RxProcess {
        let s = if n == 0 {
            RxProcess {
                budget: DatapathBudget {
                    idle_polls: (self.budget.idle_polls + 1) as u64,
                    ..self.budget
                },
                stats: RxStats {
                    idle_cycles: Counter { count: (self.stats.idle_cycles.count + 1) as u64 },
                    ..self.stats
                },
                ..self
            }
        } else {
            RxProcess {
                budget: DatapathBudget {
                    bursts: (self.budget.bursts + 1) as u64,
                    recv_pkts: (self.budget.recv_pkts + n) as u64,
                    ..self.budget
                },
                pkts_since_maint: (self.pkts_since_maint + n) as u64,
                ..self
            }
        };
        if self.has_table {
            RxProcess { phase: RxPhase::Drain { q, n }, ..s }
        } else {
            s.cycled(q, n)
        }
    }

    /// Another poll is counted; the clock is refreshed and the statistics are exported every 1024
    /// polls.
    pub open spec fn cycled(self, q: usize, n: u64) -> RxProcess {
        let c = (self.stats.total_cycles.count + 1) as u64;
        let s = RxProcess {
            stats: RxStats { total_cycles: Counter { count: c }, ..self.stats },
            ..self
        };
        if c % 1024 == 512 {
            RxProcess { phase: RxPhase::Clock { q, n }, ..s }
        } else if c % 1024 == 0 && self.exports {
            RxProcess { phase: RxPhase::Report { q, n }, ..s }
        } else {
            s.at_packet(q, n, 0)
        }
    }

    /// The loop turns to packet `i` of the burst, if there is one.
    pub open spec fn at_packet(self, q: usize, n: u64, i: u64) -> RxProcess {
        if i >= n {
            self.burst_done(q, n)
        } else if self.has_tap {
            RxProcess { phase: RxPhase::Tap { q, n, i }, ..self }
        } else {
            self.at_table(q, n, i)
        }
    }

    /// The tap, if any, has seen the packet.
    pub open spec fn at_table(self, q: usize, n: u64, i: u64) -> RxProcess {
        if self.has_table {
            RxProcess { phase: RxPhase::Lookup { q, n, i }, ..self }
        } else {
            RxProcess { phase: RxPhase::Filter { q, n, i }, ..self }
        }
    }

    /// The packet filter has seen the packet.
    pub open spec fn filtered(self, q: usize, n: u64, i: u64, cont: bool, len: u64) -> RxProcess {
        let s = RxProcess {
            nb_pkts: (self.nb_pkts + 1) as u64,
            nb_bytes: (self.nb_bytes + len) as u64,
            stats: RxStats {
                total_pkt: Counter { count: (self.stats.total_pkt.count + 1) as u64 },
                total_byte: Counter { count: (self.stats.total_byte.count + len) as u64 },
                ..self.stats
            },
            ..self
        };
        if cont {
            RxProcess { phase: RxPhase::Process { q, n, i }, ..s }
        } else {
            (RxProcess {
                stats: RxStats {
                    ignored_pkt: Counter { count: (self.stats.ignored_pkt.count + 1) as u64 },
                    ignored_byte: Counter { count: (self.stats.ignored_byte.count + len) as u64 },
                    ..s.stats
                },
                ..s
            }).at_packet(q, n, (i + 1) as u64)
        }
    }

    /// The packets of a burst are done. The pipeline span closes, where there were packets.
    pub open spec fn burst_done(self, q: usize, n: u64) -> RxProcess {
        if self.sampled && n > 0 {
            RxProcess { phase: RxPhase::PipelineTsc { q }, ..self }
        } else {
            self.queue_done(q)
        }
    }

    /// The pipeline span of a burst closes.
    pub open spec fn pipeline_closed(self, t: u64) -> RxProcess {
        RxProcess {
            budget: DatapathBudget {
                pipeline: (self.budget.pipeline + self.span(t)) as u64,
                ..self.budget
            },
            t_cursor: t,
            rdtsc_reads: (self.rdtsc_reads + 1) as u64,
            spans_closed: (self.spans_closed + 1) as u64,
            ..self
        }
    }

    /// A queue is done. After the last one, maintenance runs if a full burst of packets came since
    /// it last ran.
    pub open spec fn queue_done(self, q: usize) -> RxProcess {
        if q + 1 < self.n_queues {
            RxProcess { phase: RxPhase::Poll { q: (q + 1) as usize }, ..self }
        } else if self.pkts_since_maint >= RX_BURST_SIZE {
            RxProcess { pkts_since_maint: 0, phase: RxPhase::Maint, ..self }
        } else {
            self.maintained()
        }
    }

    /// Maintenance is done or was not due.
    pub open spec fn maintained(self) -> RxProcess {
        RxProcess {
            phase: if self.sampled {
                RxPhase::MaintTsc
            } else {
                RxPhase::Running
            },
            ..self
        }
    }

    /// The maintenance span and the iteration close. The budget is published every 1024 sampled
    /// iterations.
    pub open spec fn maint_closed(self, t: u64) -> RxProcess {
        let iters = (self.budget.sampled_iters + 1) as u64;
        let reads = (self.rdtsc_reads + 1) as u64;
        let due = iters % 1024 == 0;
        RxProcess {
            budget: DatapathBudget {
                maint: (self.budget.maint + self.span(t)) as u64,
                sampled_wall: (self.budget.sampled_wall + self.iteration_span(t)) as u64,
                sampled_iters: iters,
                wall: if due {
                    elapsed(self.loop_start, t)
                } else {
                    self.budget.wall
                },
                rdtsc_reads: if due {
                    reads
                } else {
                    self.budget.rdtsc_reads
                },
                ..self.budget
            },
            rdtsc_reads: reads,
            spans_closed: (self.spans_closed + 1) as u64,
            phase: if due {
                RxPhase::Publish
            } else {
                RxPhase::Running
            },
            ..self
        }
    }

    /// The loop ends.
    pub open spec fn ended(self, t: u64) -> RxProcess {
        RxProcess {
            budget: DatapathBudget {
                wall: elapsed(self.loop_start, t),
                rdtsc_reads: (self.rdtsc_reads + 1) as u64,
                ..self.budget
            },
            phase: RxPhase::FinalPublish,
            ..self
        }
    }

    /// The loop after an event. An event that does not answer the action that was asked for changes
    /// nothing.
    pub open spec fn after(self, ev: RxEvent) -> RxProcess {
        match (self.phase, ev) {
            (RxPhase::Running, RxEvent::Running(true)) => self.began(),
            (RxPhase::Running, RxEvent::Running(false)) => RxProcess {
                phase: RxPhase::FinalTsc,
                ..self
            },
            (RxPhase::Start, RxEvent::Tsc(t)) => self.opened(t),
            (RxPhase::Poll { q }, RxEvent::Received(n)) => if self.sampled {
                RxProcess { phase: RxPhase::PollTsc { q, n }, ..self }
            } else {
                self.counted(q, n)
            },
            (RxPhase::PollTsc { q, n }, RxEvent::Tsc(t)) => self.poll_closed(n, t).counted(q, n),
            (RxPhase::Drain { q, n }, RxEvent::Drained) => self.cycled(q, n),
            (RxPhase::Clock { q, n }, RxEvent::ClockRead) => self.at_packet(q, n, 0),
            (RxPhase::Report { q, n }, RxEvent::Reported) => self.at_packet(q, n, 0),
            (RxPhase::Tap { q, n, i }, RxEvent::Tapped) => self.at_table(q, n, i),
            (RxPhase::Lookup { q, n, i }, RxEvent::LookedUp(action)) => match action {
                Some(FlowAction::Drop) => self.at_packet(q, n, (i + 1) as u64),
                _ => RxProcess { phase: RxPhase::Filter { q, n, i }, ..self },
            },
            (RxPhase::Filter { q, n, i }, RxEvent::Filtered(cont, len)) => self.filtered(
                q,
                n,
                i,
                cont,
                len,
            ),
            (RxPhase::Process { q, n, i }, RxEvent::Processed) => self.at_packet(
                q,
                n,
                (i + 1) as u64,
            ),
            (RxPhase::PipelineTsc { q }, RxEvent::Tsc(t)) => self.pipeline_closed(t).queue_done(q),
            (RxPhase::Maint, RxEvent::Maintained) => self.maintained(),
            (RxPhase::MaintTsc, RxEvent::Tsc(t)) => self.maint_closed(t),
            (RxPhase::Publish, RxEvent::Published) => RxProcess {
                published: self.budget,
                phase: RxPhase::Running,
                ..self
            },
            (RxPhase::FinalTsc, RxEvent::Tsc(t)) => self.ended(t),
            (RxPhase::FinalPublish, RxEvent::Published) => RxProcess {
                published: self.budget,
                phase: RxPhase::Deliver,
                ..self
            },
            (RxPhase::Deliver, RxEvent::Delivered) => RxProcess { phase: RxPhase::Done, ..self },
            _ => self,
        }
    }

    /// What is to be done next.
    pub open spec fn asks(self) -> RxAction {
        match self.phase {
            RxPhase::Running => RxAction::CheckRunning,
            RxPhase::Start => RxAction::ReadTsc,
            RxPhase::Poll { q } => RxAction::Burst(q),
            RxPhase::PollTsc { q, n } => RxAction::ReadTsc,
            RxPhase::Drain { q, n } => RxAction::DrainInbox,
            RxPhase::Clock { q, n } => RxAction::ReadClock,
            RxPhase::Report { q, n } => RxAction::ReportStats,
            RxPhase::Tap { q, n, i } => RxAction::Tap(i),
            RxPhase::Lookup { q, n, i } => RxAction::Lookup(i),
            RxPhase::Filter { q, n, i } => RxAction::Filter(i),
            RxPhase::Process { q, n, i } => RxAction::Process(i),
            RxPhase::PipelineTsc { q } => RxAction::ReadTsc,
            RxPhase::Maint => RxAction::CheckInactive,
            RxPhase::MaintTsc => RxAction::ReadTsc,
            RxPhase::Publish => RxAction::Publish,
            RxPhase::FinalTsc => RxAction::ReadTsc,
            RxPhase::FinalPublish => RxAction::Publish,
            RxPhase::Deliver => RxAction::Deliver,
            RxPhase::Done => RxAction::Finished,
        }
    }

    /// Whether the exact counters have room for a poll that found `n` packets.
    pub open spec fn counts_fit(self, n: u64) -> bool {
        &&& if n == 0 {
            &&& self.budget.idle_polls < u64::MAX
            &&& self.stats.idle_cycles.count < u64::MAX
        } else {
            &&& self.budget.bursts < u64::MAX
            &&& self.budget.recv_pkts + n <= u64::MAX
            &&& self.pkts_since_maint + n <= u64::MAX
        }
        &&& !self.has_table ==> self.stats.total_cycles.count < u64::MAX
    }

    /// Whether every counter that an event raises has room for it.
    pub open spec fn fits(self, ev: RxEvent) -> bool {
        match (self.phase, ev) {
            (RxPhase::Start, RxEvent::Tsc(t)) => self.rdtsc_reads < u64::MAX,
            (RxPhase::Poll { q }, RxEvent::Received(n)) => self.sampled || self.counts_fit(n),
            (RxPhase::PollTsc { q, n }, RxEvent::Tsc(t)) => {
                &&& self.rdtsc_reads < u64::MAX
                &&& self.spans_closed < u64::MAX
                &&& n == 0 ==> self.budget.poll_idle + self.span(t) <= u64::MAX
                &&& n != 0 ==> self.budget.poll_busy + self.span(t) <= u64::MAX
                &&& self.counts_fit(n)
            },
            (RxPhase::Drain { q, n }, RxEvent::Drained) => self.stats.total_cycles.count
                < u64::MAX,
            (RxPhase::Filter { q, n, i }, RxEvent::Filtered(cont, len)) => {
                &&& self.nb_pkts < u64::MAX
                &&& self.nb_bytes + len <= u64::MAX
                &&& self.stats.total_pkt.count < u64::MAX
                &&& self.stats.total_byte.count + len <= u64::MAX
                &&& !cont ==> {
                    &&& self.stats.ignored_pkt.count < u64::MAX
                    &&& self.stats.ignored_byte.count + len <= u64::MAX
                }
            },
            (RxPhase::PipelineTsc { q }, RxEvent::Tsc(t)) => {
                &&& self.rdtsc_reads < u64::MAX
                &&& self.spans_closed < u64::MAX
                &&& self.budget.pipeline + self.span(t) <= u64::MAX
            },
            (RxPhase::MaintTsc, RxEvent::Tsc(t)) => {
                &&& self.rdtsc_reads < u64::MAX
                &&& self.spans_closed < u64::MAX
                &&& self.budget.maint + self.span(t) <= u64::MAX
                &&& (self.spans_closed + 1) * self.budget.rdtsc_cost <= u64::MAX
                &&& self.budget.sampled_wall + self.iteration_span(t) <= u64::MAX
                &&& self.budget.sampled_iters < u64::MAX
            },
            (RxPhase::FinalTsc, RxEvent::Tsc(t)) => self.rdtsc_reads < u64::MAX,
            _ => true,
        }
    }

    /// What holds between any two events.
    pub open spec fn wf(self) -> bool {
        &&& self.n_queues >= 1
        &&& 1 <= self.countdown <= self.sample_stride
        &&& self.sampled ==> self.attribute
        &&& match self.phase {
            RxPhase::Start => {
                &&& self.sampled
                &&& self.spans_closed == 0
                &&& self.pkts_since_maint < RX_BURST_SIZE
            },
            RxPhase::Poll { q } => q < self.n_queues,
            RxPhase::PollTsc { q, n } => q < self.n_queues && self.sampled,
            RxPhase::Drain { q, n } => q < self.n_queues && self.has_table,
            RxPhase::Clock { q, n } => q < self.n_queues,
            RxPhase::Report { q, n } => q < self.n_queues && self.exports,
            RxPhase::Tap { q, n, i } => q < self.n_queues && i < n && self.has_tap,
            RxPhase::Lookup { q, n, i } => q < self.n_queues && i < n && self.has_table,
            RxPhase::Filter { q, n, i } => q < self.n_queues && i < n,
            RxPhase::Process { q, n, i } => q < self.n_queues && i < n,
            RxPhase::PipelineTsc { q } => q < self.n_queues && self.sampled,
            RxPhase::MaintTsc => self.sampled && self.pkts_since_maint < RX_BURST_SIZE,
            _ => self.pkts_since_maint < RX_BURST_SIZE,
        }
    }
}

/// Whether a counter can be raised by an amount.
fn room(count: u64, by: u64) -> (r: bool)
    ensures
        r == (count + by <= u64::MAX),
{
    by <= u64::MAX - count
}

impl RxProcess {
    /// What is to be done next.
    pub fn next(&self) -> (r: RxAction)
        ensures
            r == self.asks(),
    {
        match self.phase {
            RxPhase::Running => RxAction::CheckRunning,
            RxPhase::Start => RxAction::ReadTsc,
            RxPhase::Poll { q } => RxAction::Burst(q),
            RxPhase::PollTsc { q, n } => RxAction::ReadTsc,
            RxPhase::Drain { q, n } => RxAction::DrainInbox,
            RxPhase::Clock { q, n } => RxAction::ReadClock,
            RxPhase::Report { q, n } => RxAction::ReportStats,
            RxPhase::Tap { q, n, i } => RxAction::Tap(i),
            RxPhase::Lookup { q, n, i } => RxAction::Lookup(i),
            RxPhase::Filter { q, n, i } => RxAction::Filter(i),
            RxPhase::Process { q, n, i } => RxAction::Process(i),
            RxPhase::PipelineTsc { q } => RxAction::ReadTsc,
            RxPhase::Maint => RxAction::CheckInactive,
            RxPhase::MaintTsc => RxAction::ReadTsc,
            RxPhase::Publish => RxAction::Publish,
            RxPhase::FinalTsc => RxAction::ReadTsc,
            RxPhase::FinalPublish => RxAction::Publish,
            RxPhase::Deliver => RxAction::Deliver,
            RxPhase::Done => RxAction::Finished,
        }
    }

    /// The net cycles of the span that closes when the counter reads `t`.
    fn net(&self, t: u64) -> (r: u64)
        ensures
            r == self.span(t),
    {
        net_span(self.t_cursor, t, self.budget.rdtsc_cost)
    }

    /// The net cycles of the iteration that closes when the counter reads `t`; `None` if the
    /// correction is no 64-bit number.
    fn iteration_net(&self, t: u64) -> (r: Option<u64>)
        requires
            self.spans_closed < u64::MAX,
        ensures
            match r {
                Some(n) => n == self.iteration_span(t) && (self.spans_closed + 1)
                    * self.budget.rdtsc_cost <= u64::MAX,
                None => (self.spans_closed + 1) * self.budget.rdtsc_cost > u64::MAX,
            },
    {
        match (self.spans_closed + 1).checked_mul(self.budget.rdtsc_cost) {
            Some(correction) => Some(net_span(self.iter_start, t, correction)),
            None => None,
        }
    }

    /// Whether the exact counters have room for a poll that found `n` packets.
    fn can_count(&self, n: u64) -> (r: bool)
        ensures
            r == self.counts_fit(n),
    {
        let polls: bool = if n == 0 {
            room(self.budget.idle_polls, 1) && room(self.stats.idle_cycles.count, 1)
        } else {
            room(self.budget.bursts, 1) && room(self.budget.recv_pkts, n) && room(
                self.pkts_since_maint,
                n,
            )
        };
        polls && (self.has_table || room(self.stats.total_cycles.count, 1))
    }

    /// Whether every counter that an event raises has room for it.
    pub fn can_take(&self, ev: &RxEvent) -> (r: bool)
        ensures
            r == self.fits(*ev),
    {
        match (self.phase, *ev) {
            (RxPhase::Start, RxEvent::Tsc(_)) => room(self.rdtsc_reads, 1),
            (RxPhase::Poll { q }, RxEvent::Received(n)) => self.sampled || self.can_count(n),
            (RxPhase::PollTsc { q, n }, RxEvent::Tsc(t)) => {
                let bucket: u64 = if n == 0 {
                    self.budget.poll_idle
                } else {
                    self.budget.poll_busy
                };
                room(self.rdtsc_reads, 1) && room(self.spans_closed, 1) && room(
                    bucket,
                    self.net(t),
                ) && self.can_count(n)
            },
            (RxPhase::Drain { q, n }, RxEvent::Drained) => room(self.stats.total_cycles.count, 1),
            (RxPhase::Filter { q, n, i }, RxEvent::Filtered(cont, len)) => {
                room(self.nb_pkts, 1) && room(self.nb_bytes, len) && room(
                    self.stats.total_pkt.count,
                    1,
                ) && room(self.stats.total_byte.count, len) && (cont || (room(
                    self.stats.ignored_pkt.count,
                    1,
                ) && room(self.stats.ignored_byte.count, len)))
            },
            (RxPhase::PipelineTsc { q }, RxEvent::Tsc(t)) => room(self.rdtsc_reads, 1) && room(
                self.spans_closed,
                1,
            ) && room(self.budget.pipeline, self.net(t)),
            (RxPhase::MaintTsc, RxEvent::Tsc(t)) => {
                if !room(self.rdtsc_reads, 1) || !room(self.spans_closed, 1) || !room(
                    self.budget.maint,
                    self.net(t),
                ) || !room(self.budget.sampled_iters, 1) {
                    return false;
                }
                match self.iteration_net(t) {
                    Some(n) => room(self.budget.sampled_wall, n),
                    None => false,
                }
            },
            (RxPhase::FinalTsc, RxEvent::Tsc(_)) => room(self.rdtsc_reads, 1),
            _ => true,
        }
    }

    /// Begins an iteration.
    fn begin(&mut self)
        requires
            old(self).countdown >= 1,
        ensures
            *final(self) == old(self).began(),
    {
        // A countdown rather than a remainder, to avoid a division.
        self.countdown = self.countdown - 1;
        let due: bool = self.countdown == 0;
        if due {
            self.countdown = self.sample_stride;
        }
        self.sampled = due && self.attribute;
        self.t_cursor = 0;
        self.iter_start = 0;
        self.spans_closed = 0;
        self.phase = if self.sampled {
            RxPhase::Start
        } else {
            RxPhase::Poll { q: 0 }
        };
    }

    /// Closes the span of a poll.
    fn close_poll(&mut self, n: u64, t: u64)
        requires
            old(self).rdtsc_reads < u64::MAX,
            old(self).spans_closed < u64::MAX,
            n == 0 ==> old(self).budget.poll_idle + old(self).span(t) <= u64::MAX,
            n != 0 ==> old(self).budget.poll_busy + old(self).span(t) <= u64::MAX,
        ensures
            *final(self) == old(self).poll_closed(n, t),
    {
        let span: u64 = self.net(t);
        if n == 0 {
            self.budget.poll_idle = self.budget.poll_idle + span;
        } else {
            self.budget.poll_busy = self.budget.poll_busy + span;
        }
        self.t_cursor = t;
        self.rdtsc_reads = self.rdtsc_reads + 1;
        self.spans_closed = self.spans_closed + 1;
    }

    /// Counts a poll and its packets.
    fn count(&mut self, q: usize, n: u64)
        requires
            old(self).counts_fit(n),
        ensures
            *final(self) == old(self).counted(q, n),
    {
        if n == 0 {
            self.budget.idle_polls = self.budget.idle_polls + 1;
            self.stats.idle_cycles.inc();
        } else {
            self.budget.bursts = self.budget.bursts + 1;
            self.budget.recv_pkts = self.budget.recv_pkts + n;
            self.pkts_since_maint = self.pkts_since_maint + n;
        }
        if self.has_table {
            self.phase = RxPhase::Drain { q, n };
        } else {
            self.cycle(q, n);
        }
    }

    /// Counts another poll, and finds out what is due with it.
    fn cycle(&mut self, q: usize, n: u64)
        requires
            old(self).stats.total_cycles.count < u64::MAX,
        ensures
            *final(self) == old(self).cycled(q, n),
    {
        self.stats.total_cycles.inc();
        let c: u64 = self.stats.total_cycles.get();
        assert(c & 1023 == c % 1024) by (bit_vector);
        if c & 1023 == 512 {
            self.phase = RxPhase::Clock { q, n };
        } else if c & 1023 == 0 && self.exports {
            self.phase = RxPhase::Report { q, n };
        } else {
            self.turn_to(q, n, 0);
        }
    }

    /// Turns to packet `i` of the burst.
    fn turn_to(&mut self, q: usize, n: u64, i: u64)
        ensures
            *final(self) == old(self).at_packet(q, n, i),
    {
        if i >= n {
            self.finish_burst(q, n);
        } else if self.has_tap {
            self.phase = RxPhase::Tap { q, n, i };
        } else {
            self.consult(q, n, i);
        }
    }

    /// Turns to the flow table, if there is one, else to the packet filter.
    fn consult(&mut self, q: usize, n: u64, i: u64)
        ensures
            *final(self) == old(self).at_table(q, n, i),
    {
        self.phase = if self.has_table {
            RxPhase::Lookup { q, n, i }
        } else {
            RxPhase::Filter { q, n, i }
        };
    }

    /// Counts a packet that came to the packet filter.
    fn filter(&mut self, q: usize, n: u64, i: u64, cont: bool, len: u64)
        requires
            i < n,
            old(self).phase == (RxPhase::Filter { q, n, i }),
            old(self).fits(RxEvent::Filtered(cont, len)),
        ensures
            *final(self) == old(self).filtered(q, n, i, cont, len),
    {
        self.nb_pkts = self.nb_pkts + 1;
        self.nb_bytes = self.nb_bytes + len;
        self.stats.total_pkt.inc();
        self.stats.total_byte.inc_by(len);
        if cont {
            self.phase = RxPhase::Process { q, n, i };
        } else {
            self.stats.ignored_pkt.inc();
            self.stats.ignored_byte.inc_by(len);
            self.turn_to(q, n, i + 1);
        }
    }

    /// Ends a burst.
    fn finish_burst(&mut self, q: usize, n: u64)
        ensures
            *final(self) == old(self).burst_done(q, n),
    {
        if self.sampled && n > 0 {
            self.phase = RxPhase::PipelineTsc { q };
        } else {
            self.finish_queue(q);
        }
    }

    /// Closes the pipeline span of a burst.
    fn close_pipeline(&mut self, t: u64)
        requires
            old(self).rdtsc_reads < u64::MAX,
            old(self).spans_closed < u64::MAX,
            old(self).budget.pipeline + old(self).span(t) <= u64::MAX,
        ensures
            *final(self) == old(self).pipeline_closed(t),
    {
        let span: u64 = self.net(t);
        self.budget.pipeline = self.budget.pipeline + span;
        self.t_cursor = t;
        self.rdtsc_reads = self.rdtsc_reads + 1;
        self.spans_closed = self.spans_closed + 1;
    }

    /// Ends the turn of a queue.
    fn finish_queue(&mut self, q: usize)
        ensures
            *final(self) == old(self).queue_done(q),
    {
        if q < self.n_queues && q + 1 < self.n_queues {
            self.phase = RxPhase::Poll { q: q + 1 };
        } else if self.pkts_since_maint >= RX_BURST_SIZE as u64 {
            self.pkts_since_maint = 0;
            self.phase = RxPhase::Maint;
        } else {
            self.finish_maint();
        }
    }

    /// Ends the maintenance of an iteration.
    fn finish_maint(&mut self)
        ensures
            *final(self) == old(self).maintained(),
    {
        self.phase = if self.sampled {
            RxPhase::MaintTsc
        } else {
            RxPhase::Running
        };
    }

    /// Closes the maintenance span and the iteration.
    fn close_maint(&mut self, t: u64)
        requires
            old(self).phase == RxPhase::MaintTsc,
            old(self).fits(RxEvent::Tsc(t)),
        ensures
            *final(self) == old(self).maint_closed(t),
    {
        let span: u64 = self.net(t);
        if let Some(whole) = self.iteration_net(t) {
            self.budget.maint = self.budget.maint + span;
            self.budget.sampled_wall = self.budget.sampled_wall + whole;
        }
        self.budget.sampled_iters = self.budget.sampled_iters + 1;
        self.rdtsc_reads = self.rdtsc_reads + 1;
        self.spans_closed = self.spans_closed + 1;
        let iters: u64 = self.budget.sampled_iters;
        assert(iters & 1023 == iters % 1024) by (bit_vector);
        if iters & 1023 == 0 {
            self.budget.wall = net_span(self.loop_start, t, 0);
            self.budget.rdtsc_reads = self.rdtsc_reads;
            self.phase = RxPhase::Publish;
        } else {
            self.phase = RxPhase::Running;
        }
    }

    /// Takes note of what came of the action.
    pub fn step(&mut self, ev: RxEvent)
        requires
            old(self).wf(),
            old(self).fits(ev),
        ensures
            final(self).wf(),
            *final(self) == old(self).after(ev),
    {
        proof {
            law_loop_keeps_wf(*self, ev);
        }
        match (self.phase, ev) {
            (RxPhase::Running, RxEvent::Running(go)) => {
                if go {
                    self.begin();
                } else {
                    self.phase = RxPhase::FinalTsc;
                }
            },
            (RxPhase::Start, RxEvent::Tsc(t)) => {
                self.t_cursor = t;
                self.iter_start = t;
                self.rdtsc_reads = self.rdtsc_reads + 1;
                self.phase = RxPhase::Poll { q: 0 };
            },
            (RxPhase::Poll { q }, RxEvent::Received(n)) => {
                if self.sampled {
                    self.phase = RxPhase::PollTsc { q, n };
                } else {
                    self.count(q, n);
                }
            },
            (RxPhase::PollTsc { q, n }, RxEvent::Tsc(t)) => {
                self.close_poll(n, t);
                self.count(q, n);
            },
            (RxPhase::Drain { q, n }, RxEvent::Drained) => self.cycle(q, n),
            (RxPhase::Clock { q, n }, RxEvent::ClockRead) => self.turn_to(q, n, 0),
            (RxPhase::Report { q, n }, RxEvent::Reported) => self.turn_to(q, n, 0),
            (RxPhase::Tap { q, n, i }, RxEvent::Tapped) => self.consult(q, n, i),
            (RxPhase::Lookup { q, n, i }, RxEvent::LookedUp(action)) => match action {
                Some(FlowAction::Drop) => self.turn_to(q, n, i + 1),
                // No steering in software: the packet goes on.
                _ => {
                    self.phase = RxPhase::Filter { q, n, i };
                },
            },
            (RxPhase::Filter { q, n, i }, RxEvent::Filtered(cont, len)) => self.filter(
                q,
                n,
                i,
                cont,
                len,
            ),
            (RxPhase::Process { q, n, i }, RxEvent::Processed) => self.turn_to(q, n, i + 1),
            (RxPhase::PipelineTsc { q }, RxEvent::Tsc(t)) => {
                self.close_pipeline(t);
                self.finish_queue(q);
            },
            (RxPhase::Maint, RxEvent::Maintained) => self.finish_maint(),
            (RxPhase::MaintTsc, RxEvent::Tsc(t)) => self.close_maint(t),
            (RxPhase::Publish, RxEvent::Published) => {
                self.published = self.budget;
                self.phase = RxPhase::Running;
            },
            (RxPhase::FinalTsc, RxEvent::Tsc(t)) => {
                self.budget.wall = net_span(self.loop_start, t, 0);
                self.budget.rdtsc_reads = self.rdtsc_reads + 1;
                self.phase = RxPhase::FinalPublish;
            },
            (RxPhase::FinalPublish, RxEvent::Published) => {
                self.published = self.budget;
                self.phase = RxPhase::Deliver;
            },
            (RxPhase::Deliver, RxEvent::Delivered) => {
                self.phase = RxPhase::Done;
            },
            _ => {},
        }
    }
}

/// What holds of the loop holds after every event.
pub proof fn law_loop_keeps_wf(s: RxProcess, ev: RxEvent)
    requires
        s.wf(),
    ensures
        s.after(ev).wf(),
{
}

} // verus!
