//! Offline analysis: the packets of a capture file instead of those of a NIC.
//!
//! The loop runs each frame through the tap, the software flow table, the packet filter and the
//! pipeline, and keeps the same cycle budget as a receive core. There is no polling: `poll_idle`
//! stays zero, and `poll_busy` covers the ingest of frames. Attribution is exact.

use vstd::prelude::*;

use crate::flow_model::FlowAction;
use crate::lcore::datapath_budget::{elapsed, net_span, DatapathBudget};
use crate::lcore::rx_core::FlowTableConfig;
use crate::lcore::{CoreId, SocketId};
use crate::text::{decimal, push_decimal};

verus! {

/// Read-only options for the offline core.
#[derive(Debug)]
pub struct OfflineOptions {
    /// Path of the capture file.
    pub pcap: String,
    /// Frames longer than this are skipped.
    pub mtu: usize,
    /// Size of the flow table, if there is one.
    pub flow_table: Option<FlowTableConfig>,
}

/// The offline core.
#[derive(Debug)]
pub struct OfflineRuntime {
    /// Name of the pool that packets are allocated from.
    pub mempool_name: String,
    /// Its options.
    pub options: OfflineOptions,
    /// The core.
    pub id: CoreId,
}

/// Whether the sockets of some pools ascend, so that each has one pool.
pub open spec fn pools_ascend(mempools: Seq<(SocketId, String)>) -> bool {
    forall|i: int, j: int|
        #![trigger mempools[i], mempools[j]]
        0 <= i < j < mempools.len() ==> mempools[i].0.0 < mempools[j].0.0
}

/// Whether the sockets of some pools ascend, so that each has one pool.
pub fn in_socket_order(mempools: &Vec<(SocketId, String)>) -> (r: bool)
    ensures
        r == pools_ascend(mempools@),
{
    let mut i: usize = 1;
    while i < mempools.len()
        invariant
            1 <= i,
            i <= mempools@.len() || i == 1,
            forall|a: int, b: int|
                #![trigger mempools@[a], mempools@[b]]
                0 <= a < b < i && b < mempools@.len() ==> mempools@[a].0.0 < mempools@[b].0.0,
        decreases mempools@.len() - i,
    {
        if mempools[i - 1].0.0 >= mempools[i].0.0 {
            assert(mempools@[i - 1].0.0 >= mempools@[i as int].0.0);
            return false;
        }
        assert forall|a: int, b: int|
            #![trigger mempools@[a], mempools@[b]]
            0 <= a < b < i + 1 && b < mempools@.len() implies mempools@[a].0.0
            < mempools@[b].0.0 by {
            if b == i && a < i - 1 {
                assert(mempools@[a].0.0 < mempools@[i - 1].0.0);
            }
        }
        i = i + 1;
    }
    true
}

/// The name of the pool of a socket.
pub open spec fn pool_of(mempools: Seq<(SocketId, String)>, socket: SocketId) -> Option<String>
    decreases mempools.len(),
{
    if mempools.len() == 0 {
        None
    } else if mempools[0].0 == socket {
        Some(mempools[0].1)
    } else {
        pool_of(mempools.skip(1), socket)
    }
}

/// The pool of a socket is the one that is listed for it.
pub proof fn law_pool_is_the_listed_one(mempools: Seq<(SocketId, String)>, i: int)
    requires
        pools_ascend(mempools),
        0 <= i < mempools.len(),
    ensures
        pool_of(mempools, mempools[i].0) == Some(mempools[i].1),
    decreases i,
{
    if i > 0 {
        let rest = mempools.skip(1);
        assert forall|a: int, b: int|
            #![trigger rest[a], rest[b]]
            0 <= a < b < rest.len() implies rest[a].0.0 < rest[b].0.0 by {
            assert(rest[a] == mempools[a + 1] && rest[b] == mempools[b + 1]);
        }
        law_pool_is_the_listed_one(rest, i - 1);
        assert(rest[i - 1] == mempools[i]);
        assert(mempools[0].0.0 < mempools[i].0.0);
    }
}

impl OfflineRuntime {
    /// The runtime of a core, which takes its packets from the pool of the core's socket. Returns
    /// `None` if the socket has no pool.
    pub fn new(
        options: OfflineOptions,
        mempools: &Vec<(SocketId, String)>,
        core_id: CoreId,
        socket: SocketId,
    ) -> (r: Option<Self>)
        requires
            pools_ascend(mempools@),
        ensures
            match r {
                Some(rt) => {
                    &&& pool_of(mempools@, socket) == Some(rt.mempool_name)
                    &&& rt.options == options
                    &&& rt.id == core_id
                },
                None => pool_of(mempools@, socket) is None,
            },
    {
        let mut i: usize = 0;
        assert(mempools@.skip(0) =~= mempools@);
        while i < mempools.len()
            invariant
                i <= mempools@.len(),
                pool_of(mempools@, socket) == pool_of(mempools@.skip(i as int), socket),
            decreases mempools@.len() - i,
        {
            assert(mempools@.skip(i as int).skip(1) =~= mempools@.skip(i + 1));
            if mempools[i].0.0 == socket.0 {
                let mempool_name: String = mempools[i].1.clone();
                return Some(OfflineRuntime { mempool_name, options, id: core_id });
            }
            i = i + 1;
        }
        None
    }

    /// The loop before its first frame. `on` says whether flow tables are on, `tap` whether a packet
    /// tap was installed, and `loop_start` is what the cycle counter reads now.
    pub fn run(&self, on: bool, tap: bool, loop_start: u64) -> (r: OfflineRun)
        ensures
            r == OfflineRun::start(
                self.options.mtu,
                on && self.options.flow_table is Some,
                tap,
                loop_start,
            ),
    {
        let mut budget: DatapathBudget = DatapathBudget::new();
        budget.sample_stride = 1;
        OfflineRun {
            mtu: self.options.mtu,
            has_table: on && self.options.flow_table.is_some(),
            has_tap: tap,
            budget,
            loop_start,
            t_cursor: loop_start,
            rdtsc_reads: 1,
            nb_frames: 0,
            nb_pkts: 0,
            nb_bytes: 0,
            len: 0,
            phase: OfflinePhase::Read,
        }
    }
}

/// Where the offline loop stands.
#[derive(Clone, Copy, Debug, PartialEq, Eq, Structural)]
pub enum OfflinePhase {
    /// The next frame is to be read.
    Read,
    /// The frame is to be made into a packet.
    Alloc,
    /// The clock is to be read.
    Clock,
    /// The tap is to see the packet.
    Tap,
    /// Pending flow rules are to be applied.
    Drain,
    /// The packet is to be looked up in the flow table.
    Lookup,
    /// The packet was shed: its ingest span closes.
    ShedTsc,
    /// The ingest span of the packet closes.
    IngestTsc,
    /// The packet filter is to see the packet.
    Filter,
    /// The pipeline is to process the packet.
    Process,
    /// The pipeline span of the packet closes.
    PipelineTsc,
    /// The budget is to be published.
    Publish,
    /// What unfinished connections still hold is to be delivered.
    Deliver,
    /// The analysis is done.
    Done,
}

/// What the offline core is to do next.
#[derive(Clone, Copy, Debug, PartialEq, Eq, Structural)]
pub enum OfflineAction {
    /// Read the next frame.
    ReadFrame,
    /// Make the frame into a packet.
    Alloc,
    /// Refresh the coarse clock.
    ReadClock,
    /// Hand the packet to the tap.
    Tap,
    /// Apply the flow rules that wait in the inbox.
    DrainInbox,
    /// Look the packet up in the flow table.
    Lookup,
    /// Read the cycle counter.
    ReadTsc,
    /// Run the packet through the packet filter.
    Filter,
    /// Run the packet through the pipeline.
    Process,
    /// Publish the budget, for one core.
    Publish,
    /// Deliver what unfinished connections still hold.
    Deliver,
    /// Nothing: the analysis is done.
    Finished,
}

/// What came of an action of the offline core.
#[derive(Clone, Copy, Debug, PartialEq, Eq, Structural)]
pub enum OfflineEvent {
    /// The length of the frame, or none if the file has ended.
    Frame(Option<u32>),
    /// The packet has this length.
    Allocated(u64),
    /// The clock was read.
    ClockRead,
    /// The tap saw the packet.
    Tapped,
    /// The inbox is empty.
    Drained,
    /// The flow table holds this action for the packet, or none.
    LookedUp(Option<FlowAction>),
    /// The cycle counter reads this.
    Tsc(u64),
    /// Whether the packet filter wants the packet.
    Filtered(bool),
    /// The pipeline processed the packet.
    Processed,
    /// The budget was published.
    Published,
    /// The rest was delivered.
    Delivered,
}

/// The loop of the offline core.
#[derive(Clone, Copy, Debug, PartialEq, Eq, Structural)]
pub struct OfflineRun {
    /// Frames longer than this are skipped.
    pub mtu: usize,
    /// Whether there is a flow table.
    pub has_table: bool,
    /// Whether a tap is installed.
    pub has_tap: bool,
    /// The budget.
    pub budget: DatapathBudget,
    /// What the cycle counter read before the loop.
    pub loop_start: u64,
    /// What the cycle counter read last.
    pub t_cursor: u64,
    /// Reads of the cycle counter so far.
    pub rdtsc_reads: u64,
    /// Frames that were not skipped.
    pub nb_frames: u64,
    /// Packets that the flow table let through.
    pub nb_pkts: u64,
    /// Bytes in those packets.
    pub nb_bytes: u64,
    /// Length of the packet at hand.
    pub len: u64,
    /// What is to be done.
    pub phase: OfflinePhase,
}

impl OfflineRun {
    /// The loop before its first frame.
    pub open spec fn start(mtu: usize, has_table: bool, has_tap: bool, loop_start: u64) -> Self {
        OfflineRun {
            mtu,
            has_table,
            has_tap,
            budget: DatapathBudget { sample_stride: 1, ..DatapathBudget::zero() },
            loop_start,
            t_cursor: loop_start,
            rdtsc_reads: 1,
            nb_frames: 0,
            nb_pkts: 0,
            nb_bytes: 0,
            len: 0,
            phase: OfflinePhase::Read,
        }
    }

    /// The cycles of the span that closes when the counter reads `t`.
    pub open spec fn span(self, t: u64) -> u64 {
        elapsed(self.t_cursor, t)
    }

    /// A packet was made of the frame. The clock is refreshed every 1024 frames, for the tap.
    pub open spec fn framed(self, len: u64) -> OfflineRun {
        let frames = (self.nb_frames + 1) as u64;
        let s = OfflineRun { nb_frames: frames, len, ..self };
        if !self.has_tap {
            s.at_table()
        } else if frames % 1024 == 0 {
            OfflineRun { phase: OfflinePhase::Clock, ..s }
        } else {
            OfflineRun { phase: OfflinePhase::Tap, ..s }
        }
    }

    /// The tap, if any, has seen the packet.
    pub open spec fn at_table(self) -> OfflineRun {
        OfflineRun {
            phase: if self.has_table {
                OfflinePhase::Drain
            } else {
                OfflinePhase::IngestTsc
            },
            ..self
        }
    }

    /// A span goes to the ingest bucket.
    pub open spec fn ingested(self, t: u64) -> OfflineRun {
        OfflineRun {
            budget: DatapathBudget {
                poll_busy: (self.budget.poll_busy + self.span(t)) as u64,
                ..self.budget
            },
            t_cursor: t,
            rdtsc_reads: (self.rdtsc_reads + 1) as u64,
            ..self
        }
    }

    /// A packet that was let through is counted.
    pub open spec fn let_through(self) -> OfflineRun {
        OfflineRun {
            nb_pkts: (self.nb_pkts + 1) as u64,
            nb_bytes: (self.nb_bytes + self.len) as u64,
            budget: DatapathBudget {
                bursts: (self.budget.bursts + 1) as u64,
                recv_pkts: (self.budget.recv_pkts + 1) as u64,
                ..self.budget
            },
            phase: OfflinePhase::Filter,
            ..self
        }
    }

    /// A span goes to the pipeline bucket.
    pub open spec fn processed(self, t: u64) -> OfflineRun {
        OfflineRun {
            budget: DatapathBudget {
                pipeline: (self.budget.pipeline + self.span(t)) as u64,
                ..self.budget
            },
            t_cursor: t,
            rdtsc_reads: (self.rdtsc_reads + 1) as u64,
            phase: OfflinePhase::Read,
            ..self
        }
    }

    /// The file has ended. The sampled span is the whole loop, and every frame is an iteration.
    pub open spec fn ended(self) -> OfflineRun {
        let wall = elapsed(self.loop_start, self.t_cursor);
        OfflineRun {
            budget: DatapathBudget {
                wall,
                sampled_wall: wall,
                sampled_iters: self.nb_frames,
                rdtsc_reads: self.rdtsc_reads,
                ..self.budget
            },
            phase: OfflinePhase::Publish,
            ..self
        }
    }

    /// The loop after an event. An event that does not answer the action that was asked for changes
    /// nothing.
    pub open spec fn after(self, ev: OfflineEvent) -> OfflineRun {
        match (self.phase, ev) {
            (OfflinePhase::Read, OfflineEvent::Frame(Some(len))) => if len > self.mtu {
                self
            } else {
                OfflineRun { phase: OfflinePhase::Alloc, ..self }
            },
            (OfflinePhase::Read, OfflineEvent::Frame(None)) => self.ended(),
            (OfflinePhase::Alloc, OfflineEvent::Allocated(len)) => self.framed(len),
            (OfflinePhase::Clock, OfflineEvent::ClockRead) => OfflineRun {
                phase: OfflinePhase::Tap,
                ..self
            },
            (OfflinePhase::Tap, OfflineEvent::Tapped) => self.at_table(),
            (OfflinePhase::Drain, OfflineEvent::Drained) => OfflineRun {
                phase: OfflinePhase::Lookup,
                ..self
            },
            (OfflinePhase::Lookup, OfflineEvent::LookedUp(action)) => OfflineRun {
                phase: match action {
                    Some(FlowAction::Drop) => OfflinePhase::ShedTsc,
                    _ => OfflinePhase::IngestTsc,
                },
                ..self
            },
            (OfflinePhase::ShedTsc, OfflineEvent::Tsc(t)) => OfflineRun {
                phase: OfflinePhase::Read,
                ..self.ingested(t)
            },
            (OfflinePhase::IngestTsc, OfflineEvent::Tsc(t)) => self.ingested(t).let_through(),
            (OfflinePhase::Filter, OfflineEvent::Filtered(cont)) => OfflineRun {
                phase: if cont {
                    OfflinePhase::Process
                } else {
                    OfflinePhase::PipelineTsc
                },
                ..self
            },
            (OfflinePhase::Process, OfflineEvent::Processed) => OfflineRun {
                phase: OfflinePhase::PipelineTsc,
                ..self
            },
            (OfflinePhase::PipelineTsc, OfflineEvent::Tsc(t)) => self.processed(t),
            (OfflinePhase::Publish, OfflineEvent::Published) => OfflineRun {
                phase: OfflinePhase::Deliver,
                ..self
            },
            (OfflinePhase::Deliver, OfflineEvent::Delivered) => OfflineRun {
                phase: OfflinePhase::Done,
                ..self
            },
            _ => self,
        }
    }

    /// What is to be done next.
    pub open spec fn asks(self) -> OfflineAction {
        match self.phase {
            OfflinePhase::Read => OfflineAction::ReadFrame,
            OfflinePhase::Alloc => OfflineAction::Alloc,
            OfflinePhase::Clock => OfflineAction::ReadClock,
            OfflinePhase::Tap => OfflineAction::Tap,
            OfflinePhase::Drain => OfflineAction::DrainInbox,
            OfflinePhase::Lookup => OfflineAction::Lookup,
            OfflinePhase::ShedTsc => OfflineAction::ReadTsc,
            OfflinePhase::IngestTsc => OfflineAction::ReadTsc,
            OfflinePhase::Filter => OfflineAction::Filter,
            OfflinePhase::Process => OfflineAction::Process,
            OfflinePhase::PipelineTsc => OfflineAction::ReadTsc,
            OfflinePhase::Publish => OfflineAction::Publish,
            OfflinePhase::Deliver => OfflineAction::Deliver,
            OfflinePhase::Done => OfflineAction::Finished,
        }
    }

    /// Whether every counter that an event raises has room for it.
    pub open spec fn fits(self, ev: OfflineEvent) -> bool {
        match (self.phase, ev) {
            (OfflinePhase::Alloc, OfflineEvent::Allocated(len)) => self.nb_frames < u64::MAX,
            (OfflinePhase::ShedTsc, OfflineEvent::Tsc(t)) => {
                &&& self.rdtsc_reads < u64::MAX
                &&& self.budget.poll_busy + self.span(t) <= u64::MAX
            },
            (OfflinePhase::IngestTsc, OfflineEvent::Tsc(t)) => {
                &&& self.rdtsc_reads < u64::MAX
                &&& self.budget.poll_busy + self.span(t) <= u64::MAX
                &&& self.nb_pkts < u64::MAX
                &&& self.nb_bytes + self.len <= u64::MAX
                &&& self.budget.bursts < u64::MAX
                &&& self.budget.recv_pkts < u64::MAX
            },
            (OfflinePhase::PipelineTsc, OfflineEvent::Tsc(t)) => {
                &&& self.rdtsc_reads < u64::MAX
                &&& self.budget.pipeline + self.span(t) <= u64::MAX
            },
            _ => true,
        }
    }

    /// What is to be done next.
    pub fn next(&self) -> (r: OfflineAction)
        ensures
            r == self.asks(),
    {
        match self.phase {
            OfflinePhase::Read => OfflineAction::ReadFrame,
            OfflinePhase::Alloc => OfflineAction::Alloc,
            OfflinePhase::Clock => OfflineAction::ReadClock,
            OfflinePhase::Tap => OfflineAction::Tap,
            OfflinePhase::Drain => OfflineAction::DrainInbox,
            OfflinePhase::Lookup => OfflineAction::Lookup,
            OfflinePhase::ShedTsc => OfflineAction::ReadTsc,
            OfflinePhase::IngestTsc => OfflineAction::ReadTsc,
            OfflinePhase::Filter => OfflineAction::Filter,
            OfflinePhase::Process => OfflineAction::Process,
            OfflinePhase::PipelineTsc => OfflineAction::ReadTsc,
            OfflinePhase::Publish => OfflineAction::Publish,
            OfflinePhase::Deliver => OfflineAction::Deliver,
            OfflinePhase::Done => OfflineAction::Finished,
        }
    }

    /// Whether every counter that an event raises has room for it.
    pub fn can_take(&self, ev: &OfflineEvent) -> (r: bool)
        ensures
            r == self.fits(*ev),
    {
        match (self.phase, *ev) {
            (OfflinePhase::Alloc, OfflineEvent::Allocated(_)) => self.nb_frames < u64::MAX,
            (OfflinePhase::ShedTsc, OfflineEvent::Tsc(t)) => {
                let span: u64 = net_span(self.t_cursor, t, 0);
                self.rdtsc_reads < u64::MAX && span <= u64::MAX - self.budget.poll_busy
            },
            (OfflinePhase::IngestTsc, OfflineEvent::Tsc(t)) => {
                let span: u64 = net_span(self.t_cursor, t, 0);
                self.rdtsc_reads < u64::MAX && span <= u64::MAX - self.budget.poll_busy
                    && self.nb_pkts < u64::MAX && self.len <= u64::MAX - self.nb_bytes
                    && self.budget.bursts < u64::MAX && self.budget.recv_pkts < u64::MAX
            },
            (OfflinePhase::PipelineTsc, OfflineEvent::Tsc(t)) => {
                let span: u64 = net_span(self.t_cursor, t, 0);
                self.rdtsc_reads < u64::MAX && span <= u64::MAX - self.budget.pipeline
            },
            _ => true,
        }
    }

    /// Adds a span to the ingest bucket.
    fn close_ingest(&mut self, t: u64)
        requires
            old(self).rdtsc_reads < u64::MAX,
            old(self).budget.poll_busy + old(self).span(t) <= u64::MAX,
        ensures
            *final(self) == old(self).ingested(t),
    {
        let span: u64 = net_span(self.t_cursor, t, 0);
        self.budget.poll_busy = self.budget.poll_busy + span;
        self.t_cursor = t;
        self.rdtsc_reads = self.rdtsc_reads + 1;
    }

    /// Takes note of what came of the action.
    pub fn step(&mut self, ev: OfflineEvent)
        requires
            old(self).fits(ev),
        ensures
            *final(self) == old(self).after(ev),
    {
        match (self.phase, ev) {
            (OfflinePhase::Read, OfflineEvent::Frame(Some(len))) => {
                if len as u64 <= self.mtu as u64 {
                    self.phase = OfflinePhase::Alloc;
                }
            },
            (OfflinePhase::Read, OfflineEvent::Frame(None)) => {
                self.budget.wall = net_span(self.loop_start, self.t_cursor, 0);
                self.budget.sampled_wall = self.budget.wall;
                self.budget.sampled_iters = self.nb_frames;
                self.budget.rdtsc_reads = self.rdtsc_reads;
                self.phase = OfflinePhase::Publish;
            },
            (OfflinePhase::Alloc, OfflineEvent::Allocated(len)) => {
                self.nb_frames = self.nb_frames + 1;
                self.len = len;
                let frames: u64 = self.nb_frames;
                assert(frames & 1023 == frames % 1024) by (bit_vector);
                self.phase = if self.has_tap {
                    if frames & 1023 == 0 {
                        OfflinePhase::Clock
                    } else {
                        OfflinePhase::Tap
                    }
                } else if self.has_table {
                    OfflinePhase::Drain
                } else {
                    OfflinePhase::IngestTsc
                };
            },
            (OfflinePhase::Clock, OfflineEvent::ClockRead) => {
                self.phase = OfflinePhase::Tap;
            },
            (OfflinePhase::Tap, OfflineEvent::Tapped) => {
                self.phase = if self.has_table {
                    OfflinePhase::Drain
                } else {
                    OfflinePhase::IngestTsc
                };
            },
            (OfflinePhase::Drain, OfflineEvent::Drained) => {
                self.phase = OfflinePhase::Lookup;
            },
            (OfflinePhase::Lookup, OfflineEvent::LookedUp(action)) => {
                self.phase = match action {
                    Some(FlowAction::Drop) => OfflinePhase::ShedTsc,
                    // No steering in software: the packet goes on.
                    _ => OfflinePhase::IngestTsc,
                };
            },
            (OfflinePhase::ShedTsc, OfflineEvent::Tsc(t)) => {
                self.close_ingest(t);
                self.phase = OfflinePhase::Read;
            },
            (OfflinePhase::IngestTsc, OfflineEvent::Tsc(t)) => {
                self.close_ingest(t);
                self.nb_pkts = self.nb_pkts + 1;
                self.nb_bytes = self.nb_bytes + self.len;
                self.budget.bursts = self.budget.bursts + 1;
                self.budget.recv_pkts = self.budget.recv_pkts + 1;
                self.phase = OfflinePhase::Filter;
            },
            (OfflinePhase::Filter, OfflineEvent::Filtered(cont)) => {
                self.phase = if cont {
                    OfflinePhase::Process
                } else {
                    OfflinePhase::PipelineTsc
                };
            },
            (OfflinePhase::Process, OfflineEvent::Processed) => {
                self.phase = OfflinePhase::PipelineTsc;
            },
            (OfflinePhase::PipelineTsc, OfflineEvent::Tsc(t)) => {
                let span: u64 = net_span(self.t_cursor, t, 0);
                self.budget.pipeline = self.budget.pipeline + span;
                self.t_cursor = t;
                self.rdtsc_reads = self.rdtsc_reads + 1;
                self.phase = OfflinePhase::Read;
            },
            (OfflinePhase::Publish, OfflineEvent::Published) => {
                self.phase = OfflinePhase::Deliver;
            },
            (OfflinePhase::Deliver, OfflineEvent::Delivered) => {
                self.phase = OfflinePhase::Done;
            },
            _ => {},
        }
    }

    /// The closing report: frames read, packets and bytes processed, CPU time in milliseconds, and
    /// the rules and evictions of the flow table, which are zero where there is no table.
    pub open spec fn report_text(
        self,
        cpu_ms: u128,
        table: Option<(usize, u64)>,
    ) -> Seq<Seq<char>> {
        let (entries, evictions) = match table {
            Some(t) => t,
            None => (0usize, 0u64),
        };
        seq![
            "Frames read: "@ + decimal(self.nb_frames as nat),
            "Processed: "@ + decimal(self.nb_pkts as nat) + " pkts, "@ + decimal(
                self.nb_bytes as nat,
            ) + " bytes"@,
            "CPU time: "@ + decimal(cpu_ms as nat) + "ms"@,
            "Flow table entries: "@ + decimal(entries as nat),
            "Evictions: "@ + decimal(evictions as nat),
        ]
    }

    /// The closing report, given the CPU time and, where there is a flow table, its length and
    /// evictions.
    pub fn report(&self, cpu_ms: u128, table: Option<(usize, u64)>) -> (r: Vec<String>)
        ensures
            r@.map_values(|s: String| s@) == self.report_text(cpu_ms, table),
    {
        let (entries, evictions): (usize, u64) = match table {
            Some(t) => t,
            None => (0, 0),
        };
        let mut frames: String = String::new();
        frames.append("Frames read: ");
        push_decimal(&mut frames, self.nb_frames as u128);
        let mut done: String = String::new();
        done.append("Processed: ");
        push_decimal(&mut done, self.nb_pkts as u128);
        done.append(" pkts, ");
        push_decimal(&mut done, self.nb_bytes as u128);
        done.append(" bytes");
        let mut cpu: String = String::new();
        cpu.append("CPU time: ");
        push_decimal(&mut cpu, cpu_ms);
        cpu.append("ms");
        let mut rules: String = String::new();
        rules.append("Flow table entries: ");
        push_decimal(&mut rules, entries as u128);
        let mut evicted: String = String::new();
        evicted.append("Evictions: ");
        push_decimal(&mut evicted, evictions as u128);
        let mut out: Vec<String> = Vec::new();
        out.push(frames);
        out.push(done);
        out.push(cpu);
        out.push(rules);
        out.push(evicted);
        proof {
            let want = self.report_text(cpu_ms, table);
            assert(out@[0]@ =~= want[0]);
            assert(out@[1]@ =~= want[1]);
            assert(out@[2]@ =~= want[2]);
            assert(out@[3]@ =~= want[3]);
            assert(out@[4]@ =~= want[4]);
            assert(out@.map_values(|s: String| s@) =~= want);
        }
        out
    }
}

/// Whether the buckets hold every cycle since the loop began, and no other bucket holds any.
pub open spec fn balanced(s: OfflineRun) -> bool {
    &&& s.loop_start <= s.t_cursor
    &&& s.budget.attributed() == s.t_cursor - s.loop_start
    &&& s.budget.poll_idle == 0
    &&& s.budget.maint == 0
}

/// Whether the counter did not run backwards. It holds of any event that does not read it.
pub open spec fn clock_moves(s: OfflineRun, ev: OfflineEvent) -> bool {
    ev matches OfflineEvent::Tsc(t) ==> t >= s.t_cursor
}

/// Attribution is exact: as long as the counter does not run backwards, the buckets hold every
/// cycle of the loop, and at its end they sum to the sampled span, which is the whole loop.
pub proof fn law_attribution_is_exact(s: OfflineRun, ev: OfflineEvent)
    requires
        s.fits(ev),
        balanced(s),
        clock_moves(s, ev),
    ensures
        balanced(s.after(ev)),
        s.phase is Read && ev == OfflineEvent::Frame(None) ==> {
            let b = s.after(ev).budget;
            &&& b.attributed() == b.sampled_wall
            &&& b.sampled_wall == b.wall
            &&& b.sampled_iters == s.nb_frames
        },
{
}

/// A new loop is balanced.
pub proof fn law_new_run_is_balanced(mtu: usize, has_table: bool, has_tap: bool, loop_start: u64)
    ensures
        balanced(OfflineRun::start(mtu, has_table, has_tap, loop_start)),
{
}

/// A frame that is longer than the limit leaves no trace.
pub proof fn law_long_frames_are_skipped(s: OfflineRun, len: u32)
    requires
        len > s.mtu,
    ensures
        s.after(OfflineEvent::Frame(Some(len))) == s,
{
}

/// Whether the counts agree: each packet that was let through is one burst of one packet, and there
/// are no more of them than frames.
pub open spec fn accounted(s: OfflineRun) -> bool {
    &&& s.nb_pkts == s.budget.bursts
    &&& s.nb_pkts == s.budget.recv_pkts
    &&& match s.phase {
        OfflinePhase::Clock => s.nb_pkts < s.nb_frames,
        OfflinePhase::Tap => s.nb_pkts < s.nb_frames,
        OfflinePhase::Drain => s.nb_pkts < s.nb_frames,
        OfflinePhase::Lookup => s.nb_pkts < s.nb_frames,
        OfflinePhase::ShedTsc => s.nb_pkts < s.nb_frames,
        OfflinePhase::IngestTsc => s.nb_pkts < s.nb_frames,
        _ => s.nb_pkts <= s.nb_frames,
    }
}

/// The counts agree after every event.
pub proof fn law_frames_are_accounted(s: OfflineRun, ev: OfflineEvent)
    requires
        s.fits(ev),
        accounted(s),
    ensures
        accounted(s.after(ev)),
{
}

/// A frame that a drop rule sheds is charged to the ingest bucket and not counted as a packet; a
/// queue rule has the same effect as no rule.
pub proof fn law_rules_in_the_offline_loop(s: OfflineRun, t: u64, queue: u16)
    requires
        s.phase is Lookup,
        (OfflineRun { phase: OfflinePhase::ShedTsc, ..s }).fits(OfflineEvent::Tsc(t)),
    ensures
        ({
            let shed = s.after(OfflineEvent::LookedUp(Some(FlowAction::Drop))).after(
                OfflineEvent::Tsc(t),
            );
            &&& shed.budget.poll_busy == s.budget.poll_busy + s.span(t)
            &&& shed.nb_pkts == s.nb_pkts
            &&& shed.nb_bytes == s.nb_bytes
            &&& shed.asks() == OfflineAction::ReadFrame
            &&& s.after(OfflineEvent::LookedUp(Some(FlowAction::Queue(queue)))) == s.after(
                OfflineEvent::LookedUp(None),
            )
        }),
{
}

} // verus!
