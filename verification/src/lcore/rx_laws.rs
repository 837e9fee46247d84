//! Laws of the loop of a processing core.

use vstd::prelude::*;

use crate::conn_id::FiveTuple;
use crate::flow_model::{FlowAction, TableModel};
use crate::lcore::rx_core::{RxAction, RxEvent, RxPhase, RxProcess, RX_BURST_SIZE};

verus! {

/// The countdown after so many iterations have begun.
pub open spec fn countdown_after(stride: nat, iterations: nat) -> nat
    decreases iterations,
{
    if iterations == 0 {
        1
    } else {
        let c = countdown_after(stride, (iterations - 1) as nat);
        if c == 1 {
            stride
        } else {
            (c - 1) as nat
        }
    }
}

/// The countdown in closed form.
proof fn lemma_countdown(stride: nat, iterations: nat)
    requires
        stride >= 1,
    ensures
        countdown_after(stride, iterations) == if iterations % stride == 0 {
            1
        } else {
            (stride - iterations % stride + 1) as nat
        },
    decreases iterations,
{
    if iterations == 0 {
        vstd::arithmetic::div_mod::lemma_small_mod(0, stride);
    } else {
        let j = (iterations - 1) as nat;
        lemma_countdown(stride, j);
        let r = j % stride;
        vstd::arithmetic::div_mod::lemma_fundamental_div_mod(j as int, stride as int);
        vstd::arithmetic::div_mod::lemma_mod_bound(j as int, stride as int);
        let d = j as int / stride as int;
        assert((d + 1) * stride == stride * d + stride && d * stride == stride * d)
            by (nonlinear_arith);
        if r + 1 == stride {
            vstd::arithmetic::div_mod::lemma_fundamental_div_mod_converse(
                iterations as int,
                stride as int,
                d + 1,
                0,
            );
        } else {
            vstd::arithmetic::div_mod::lemma_fundamental_div_mod_converse(
                iterations as int,
                stride as int,
                d,
                (r + 1) as int,
            );
        }
        if stride == 1 {
            assert(r == 0);
        }
    }
}

/// Exactly one in every `sample_stride` iterations is sampled, the first one among them: after `k`
/// iterations the next one is sampled if and only if the stride divides `k`. Without attribution
/// the countdown goes on and nothing is sampled.
pub proof fn law_sampling_cadence(s: RxProcess, k: nat)
    requires
        s.wf(),
        s.phase is Running,
        s.countdown == countdown_after(s.sample_stride as nat, k),
    ensures
        ({
            let next = s.after(RxEvent::Running(true));
            &&& next.sampled <==> s.attribute && k % (s.sample_stride as nat) == 0
            &&& next.countdown == countdown_after(s.sample_stride as nat, k + 1)
            &&& next.sample_stride == s.sample_stride
        }),
{
    lemma_countdown(s.sample_stride as nat, k);
    vstd::arithmetic::div_mod::lemma_mod_bound(k as int, s.sample_stride as int);
}

/// Whether a sampled iteration is open.
pub open spec fn iterating(s: RxProcess) -> bool {
    s.sampled && match s.phase {
        RxPhase::Poll { .. } => true,
        RxPhase::PollTsc { .. } => true,
        RxPhase::Drain { .. } => true,
        RxPhase::Clock { .. } => true,
        RxPhase::Report { .. } => true,
        RxPhase::Tap { .. } => true,
        RxPhase::Lookup { .. } => true,
        RxPhase::Filter { .. } => true,
        RxPhase::Process { .. } => true,
        RxPhase::PipelineTsc { .. } => true,
        RxPhase::Maint => true,
        RxPhase::MaintTsc => true,
        _ => false,
    }
}

/// The net cycles that the open iteration has attributed so far.
pub open spec fn open_cycles(s: RxProcess) -> int {
    if iterating(s) {
        s.t_cursor - s.iter_start - s.spans_closed * s.budget.rdtsc_cost
    } else {
        0
    }
}

/// Whether the buckets hold exactly the sampled span and what the open iteration attributed.
pub open spec fn balanced(s: RxProcess) -> bool {
    &&& s.budget.attributed() == s.budget.sampled_wall + open_cycles(s)
    &&& open_cycles(s) >= 0
}

/// Whether the counter moved on by at least the cost of a read since the last span closed. It holds
/// of any event that does not close a span.
pub open spec fn clock_moves(s: RxProcess, ev: RxEvent) -> bool {
    match (s.phase, ev) {
        (RxPhase::PollTsc { .. }, RxEvent::Tsc(t)) => t >= s.t_cursor + s.budget.rdtsc_cost,
        (RxPhase::PipelineTsc { .. }, RxEvent::Tsc(t)) => t >= s.t_cursor + s.budget.rdtsc_cost,
        (RxPhase::MaintTsc, RxEvent::Tsc(t)) => t >= s.t_cursor + s.budget.rdtsc_cost,
        _ => true,
    }
}

/// The four buckets are disjoint and sum to the sampled span: as long as the counter does not run
/// backwards and moves on by at least the cost of a read between two reads, every event keeps the
/// balance.
pub proof fn law_buckets_sum_to_sampled_wall(s: RxProcess, ev: RxEvent)
    requires
        s.wf(),
        s.fits(ev),
        balanced(s),
        clock_moves(s, ev),
    ensures
        balanced(s.after(ev)),
        s.after(ev).phase is Running ==> s.after(ev).budget.attributed() == s.after(
            ev,
        ).budget.sampled_wall,
{
    let cost = s.budget.rdtsc_cost as int;
    let next = s.after(ev);
    assert((s.spans_closed + 1) * cost == s.spans_closed * cost + cost) by (nonlinear_arith);
    assert(0 * cost == 0) by (nonlinear_arith);
    assert(next.budget.rdtsc_cost == cost);
    assert(next.spans_closed == 0 || next.spans_closed == s.spans_closed || next.spans_closed
        == s.spans_closed + 1);
}

/// A new loop is balanced.
pub proof fn law_new_loop_is_balanced(
    n_queues: nat,
    has_table: bool,
    has_tap: bool,
    exports: bool,
    stride: u64,
    rdtsc_cost: u64,
    loop_start: u64,
)
    ensures
        balanced(
            RxProcess::start(
                n_queues,
                has_table,
                has_tap,
                exports,
                stride,
                rdtsc_cost,
                loop_start,
            ),
        ),
{
}

/// Maintenance is quantised to a full burst: it runs at the end of an iteration exactly when that
/// many packets came since it last ran, and the count starts anew with it.
pub proof fn law_maintenance_gate(s: RxProcess, q: usize)
    requires
        s.wf(),
        q + 1 == s.n_queues,
    ensures
        ({
            let next = s.queue_done(q);
            &&& next.phase is Maint <==> s.pkts_since_maint >= RX_BURST_SIZE
            &&& next.phase is Maint ==> next.pkts_since_maint == 0
            &&& !(next.phase is Maint) ==> next.pkts_since_maint == s.pkts_since_maint
        }),
{
}

/// Only packets that are received and maintenance itself change the count that gates maintenance.
pub proof fn law_maintenance_count(s: RxProcess, ev: RxEvent)
    requires
        s.wf(),
        s.fits(ev),
    ensures
        ({
            let next = s.after(ev);
            ||| next.pkts_since_maint == s.pkts_since_maint
            ||| next.phase is Maint && next.pkts_since_maint == 0
            ||| next.pkts_since_maint - s.pkts_since_maint == next.budget.recv_pkts
                - s.budget.recv_pkts
        }),
{
}

/// Without attribution no cycle counter is read in the loop and nothing is attributed.
pub proof fn law_attribution_can_be_off(s: RxProcess, ev: RxEvent)
    requires
        s.wf(),
        s.fits(ev),
        !s.attribute,
    ensures
        s.asks() == RxAction::ReadTsc ==> s.phase is FinalTsc,
        s.after(ev).budget.attributed() == s.budget.attributed(),
        s.after(ev).budget.sampled_wall == s.budget.sampled_wall,
        s.after(ev).budget.sampled_iters == s.budget.sampled_iters,
{
}

/// The counters of polls and packets are exact: whether or not the iteration is sampled, a poll
/// that finds `n` packets is counted once, as idle or as a burst of `n`.
pub proof fn law_counters_are_exact(s: RxProcess, q: usize, n: u64, t: u64)
    requires
        s.wf(),
        s.phase == (RxPhase::Poll { q }),
        s.fits(RxEvent::Received(n)),
        s.sampled ==> s.after(RxEvent::Received(n)).fits(RxEvent::Tsc(t)),
    ensures
        ({
            let polled = s.after(RxEvent::Received(n));
            let next = if s.sampled {
                polled.after(RxEvent::Tsc(t))
            } else {
                polled
            };
            &&& next.budget.recv_pkts == s.budget.recv_pkts + n
            &&& next.budget.bursts == s.budget.bursts + if n > 0 {
                1int
            } else {
                0
            }
            &&& next.budget.idle_polls == s.budget.idle_polls + if n > 0 {
                0int
            } else {
                1
            }
        }),
{
}

/// The tap sits ahead of everything else: a packet comes to the flow table or to the packet filter
/// only after the tap saw it.
pub proof fn law_tap_sees_every_packet(s: RxProcess, q: usize, n: u64, i: u64, ev: RxEvent)
    requires
        s.wf(),
        s.has_tap,
        i < n,
    ensures
        s.at_packet(q, n, i).asks() == RxAction::Tap(i),
        s.at_packet(q, n, i).after(RxEvent::Tapped) == s.at_table(q, n, i),
        s.after(ev).phase is Lookup ==> s.phase is Lookup || (s.phase is Tap && ev is Tapped),
        s.after(ev).phase is Filter && !(s.phase is Filter) ==> (s.phase is Lookup
            && ev is LookedUp) || (s.phase is Tap && ev is Tapped),
{
}

/// A packet that a drop rule matches is shed: it is not counted, and comes neither to the packet
/// filter nor to the pipeline.
pub proof fn law_drop_rule_sheds_the_packet(s: RxProcess, q: usize, n: u64, i: u64)
    requires
        s.wf(),
        s.phase == (RxPhase::Lookup { q, n, i }),
    ensures
        ({
            let next = s.after(RxEvent::LookedUp(Some(FlowAction::Drop)));
            &&& next == s.at_packet(q, n, (i + 1) as u64)
            &&& next.nb_pkts == s.nb_pkts
            &&& next.nb_bytes == s.nb_bytes
            &&& next.stats == s.stats
        }),
{
}

/// There is no steering in software: a queue rule has the same effect as no rule.
pub proof fn law_queue_rule_falls_through(s: RxProcess, queue: u16)
    ensures
        s.after(RxEvent::LookedUp(Some(FlowAction::Queue(queue)))) == s.after(
            RxEvent::LookedUp(None),
        ),
{
}

/// The flow table decides on a packet by its own 5-tuple alone: with a drop rule for it the packet
/// is shed, and without a rule, or with one that was evicted, it falls through to the packet
/// filter.
pub proof fn law_table_decides_on_the_packet(
    s: RxProcess,
    q: usize,
    n: u64,
    i: u64,
    table: TableModel,
    t: FiveTuple,
)
    requires
        s.wf(),
        s.phase == (RxPhase::Lookup { q, n, i }),
    ensures
        ({
            let next = s.after(RxEvent::LookedUp(table.lookup(t)));
            if table.rules.contains_key(t) && table.rules[t].action == FlowAction::Drop {
                next == s.at_packet(q, n, (i + 1) as u64)
            } else {
                next.asks() == RxAction::Filter(i)
            }
        }),
{
}

/// The packets of the current burst that were received and not yet dealt with.
pub open spec fn rest_of_burst(s: RxProcess) -> int {
    match s.phase {
        RxPhase::Drain { q, n } => n as int,
        RxPhase::Clock { q, n } => n as int,
        RxPhase::Report { q, n } => n as int,
        RxPhase::Tap { q, n, i } => n - i,
        RxPhase::Lookup { q, n, i } => n - i,
        RxPhase::Filter { q, n, i } => n - i,
        RxPhase::Process { q, n, i } => n - i - 1,
        _ => 0,
    }
}

/// Whether the counts of packets agree: each packet is counted once, by the core and in its
/// statistics, no more are ignored than counted, and no more are dealt with than received.
pub open spec fn accounted(s: RxProcess) -> bool {
    &&& s.nb_pkts == s.stats.total_pkt.count
    &&& s.nb_bytes == s.stats.total_byte.count
    &&& s.stats.ignored_pkt.count <= s.stats.total_pkt.count
    &&& s.stats.ignored_byte.count <= s.stats.total_byte.count
    &&& s.nb_pkts + rest_of_burst(s) <= s.budget.recv_pkts
}

/// Turning to a packet of the burst leaves that packet and those behind it to be dealt with.
proof fn lemma_at_packet(s: RxProcess, q: usize, n: u64, i: u64)
    requires
        i <= n,
    ensures
        rest_of_burst(s.at_packet(q, n, i)) == n - i,
        s.at_packet(q, n, i).budget == s.budget,
        s.at_packet(q, n, i).stats == s.stats,
        s.at_packet(q, n, i).nb_pkts == s.nb_pkts,
        s.at_packet(q, n, i).nb_bytes == s.nb_bytes,
{
}

/// The counts of packets agree after every event.
#[verifier::rlimit(60)]
#[verifier::spinoff_prover]
pub proof fn law_packets_are_accounted(s: RxProcess, ev: RxEvent)
    requires
        s.wf(),
        s.fits(ev),
        accounted(s),
    ensures
        accounted(s.after(ev)),
{
    match (s.phase, ev) {
        (RxPhase::Clock { q, n }, RxEvent::ClockRead) => {
            lemma_at_packet(s, q, n, 0);
        },
        (RxPhase::Report { q, n }, RxEvent::Reported) => {
            lemma_at_packet(s, q, n, 0);
        },
        (RxPhase::Lookup { q, n, i }, RxEvent::LookedUp(action)) => {
            lemma_at_packet(s, q, n, (i + 1) as u64);
        },
        (RxPhase::Process { q, n, i }, RxEvent::Processed) => {
            lemma_at_packet(s, q, n, (i + 1) as u64);
        },
        _ => {},
    }
}

/// Whether what was published is what the budget held at the last multiple of 1024 sampled
/// iterations, or all of it once the loop has ended.
pub open spec fn publishing(s: RxProcess) -> bool {
    let iters = s.budget.sampled_iters as int;
    match s.phase {
        RxPhase::Publish => iters % 1024 == 0 && iters - s.published.sampled_iters == 1024,
        RxPhase::Deliver => s.published == s.budget,
        RxPhase::Done => s.published == s.budget,
        _ => s.published.sampled_iters == iters - iters % 1024,
    }
}

/// The budget is published every 1024 sampled iterations, and when the loop has ended nothing of it
/// is left unpublished.
pub proof fn law_budget_is_published(s: RxProcess, ev: RxEvent)
    requires
        s.wf(),
        s.fits(ev),
        publishing(s),
    ensures
        publishing(s.after(ev)),
{
}

/// The queue, the size of the burst and the packet that the loop is at, where it is at a packet.
pub open spec fn packet_at(s: RxProcess) -> Option<(usize, u64, u64)> {
    match s.phase {
        RxPhase::Tap { q, n, i } => Some((q, n, i)),
        RxPhase::Lookup { q, n, i } => Some((q, n, i)),
        RxPhase::Filter { q, n, i } => Some((q, n, i)),
        RxPhase::Process { q, n, i } => Some((q, n, i)),
        _ => None,
    }
}

/// The queue and the size of a burst whose packets are still to come.
pub open spec fn burst_at(s: RxProcess) -> Option<(usize, u64)> {
    match s.phase {
        RxPhase::PollTsc { q, n } => Some((q, n)),
        RxPhase::Drain { q, n } => Some((q, n)),
        RxPhase::Clock { q, n } => Some((q, n)),
        RxPhase::Report { q, n } => Some((q, n)),
        _ => None,
    }
}

/// Every packet of a burst is handed to the tap, in order: a burst that was received leads to its
/// first packet, and the loop leaves a packet only for the next one of the burst.
#[verifier::spinoff_prover]
pub proof fn law_packets_are_tapped_in_order(s: RxProcess, ev: RxEvent)
    requires
        s.wf(),
        s.has_tap,
    ensures
        packet_at(s) matches Some((q, n, i)) ==> {
            let next = s.after(ev);
            ||| packet_at(next) == Some((q, n, i))
            ||| i + 1 < n && next.phase == (RxPhase::Tap { q, n, i: (i + 1) as u64 })
            ||| i + 1 == n && packet_at(next) is None
        },
        burst_at(s) matches Some((q, n)) ==> {
            let next = s.after(ev);
            ||| burst_at(next) == Some((q, n))
            ||| n > 0 && next.phase == (RxPhase::Tap { q, n, i: 0 })
            ||| n == 0 && packet_at(next) is None
        },
        s.phase matches RxPhase::Poll { q } ==> ev matches RxEvent::Received(n) ==> {
            let next = s.after(ev);
            ||| burst_at(next) == Some((q, n))
            ||| n > 0 && next.phase == (RxPhase::Tap { q, n, i: 0 })
            ||| n == 0 && packet_at(next) is None
        },
{
}

/// Whether the event answers the action that is asked for.
pub open spec fn answers(s: RxProcess, ev: RxEvent) -> bool {
    match s.asks() {
        RxAction::CheckRunning => ev is Running,
        RxAction::ReadTsc => ev is Tsc,
        RxAction::Burst(_) => ev is Received,
        RxAction::DrainInbox => ev is Drained,
        RxAction::ReadClock => ev is ClockRead,
        RxAction::ReportStats => ev is Reported,
        RxAction::Tap(_) => ev is Tapped,
        RxAction::Lookup(_) => ev is LookedUp,
        RxAction::Filter(_) => ev is Filtered,
        RxAction::Process(_) => ev is Processed,
        RxAction::CheckInactive => ev is Maintained,
        RxAction::Publish => ev is Published,
        RxAction::Deliver => ev is Delivered,
        RxAction::Finished => false,
    }
}

/// How far an iteration, or the end of the loop, still is from its close: queues, steps of the
/// queue, packets of the burst, and steps of the packet.
pub open spec fn distance(s: RxProcess) -> (int, int, int, int) {
    match s.phase {
        RxPhase::Start => (s.n_queues + 1, 0, 0, 0),
        RxPhase::Poll { q } => (s.n_queues - q, 6, 0, 0),
        RxPhase::PollTsc { q, n } => (s.n_queues - q, 5, 0, 0),
        RxPhase::Drain { q, n } => (s.n_queues - q, 4, 0, 0),
        RxPhase::Clock { q, n } => (s.n_queues - q, 3, 0, 0),
        RxPhase::Report { q, n } => (s.n_queues - q, 3, 0, 0),
        RxPhase::Tap { q, n, i } => (s.n_queues - q, 2, n - i, 3),
        RxPhase::Lookup { q, n, i } => (s.n_queues - q, 2, n - i, 2),
        RxPhase::Filter { q, n, i } => (s.n_queues - q, 2, n - i, 1),
        RxPhase::Process { q, n, i } => (s.n_queues - q, 2, n - i, 0),
        RxPhase::PipelineTsc { q } => (s.n_queues - q, 1, 0, 0),
        RxPhase::Maint => (0, 3, 0, 0),
        RxPhase::MaintTsc => (0, 2, 0, 0),
        RxPhase::Publish => (0, 1, 0, 0),
        RxPhase::FinalTsc => (0, 3, 0, 0),
        RxPhase::FinalPublish => (0, 2, 0, 0),
        RxPhase::Deliver => (0, 1, 0, 0),
        _ => (0, 0, 0, 0),
    }
}

/// Whether `a` is nearer than `b`.
pub open spec fn nearer(a: (int, int, int, int), b: (int, int, int, int)) -> bool {
    ||| a.0 < b.0
    ||| a.0 == b.0 && a.1 < b.1
    ||| a.0 == b.0 && a.1 == b.1 && a.2 < b.2
    ||| a.0 == b.0 && a.1 == b.1 && a.2 == b.2 && a.3 < b.3
}

/// Every iteration comes to its close: whatever an action comes to, the answer brings the loop
/// nearer to it.
#[verifier::spinoff_prover]
#[verifier::rlimit(40)]
pub proof fn law_iterations_close(s: RxProcess, ev: RxEvent)
    requires
        s.wf(),
        answers(s, ev),
        !(s.phase is Running),
    ensures
        nearer(distance(s.after(ev)), distance(s)),
        distance(s.after(ev)).0 >= 0,
        distance(s.after(ev)).2 >= 0,
{
}

/// Before the first iteration nothing is counted or published, one read of the cycle counter is,
/// and cycles are attributed unless the stride is zero; without attribution a read costs nothing.
pub proof fn law_loop_begins_empty(
    n_queues: usize,
    has_table: bool,
    has_tap: bool,
    exports: bool,
    stride: u64,
    rdtsc_cost: u64,
    loop_start: u64,
)
    ensures
        ({
            let s = RxProcess::start(
                n_queues as nat,
                has_table,
                has_tap,
                exports,
                stride,
                rdtsc_cost,
                loop_start,
            );
            &&& s.asks() == RxAction::CheckRunning
            &&& s.n_queues == n_queues
            &&& s.has_table == has_table && s.has_tap == has_tap && s.exports == exports
            &&& s.attribute <==> stride != 0
            &&& stride != 0 ==> s.sample_stride == stride && s.budget.rdtsc_cost == rdtsc_cost
            &&& stride == 0 ==> s.sample_stride == 1 && s.budget.rdtsc_cost == 0
            &&& s.budget.sample_stride == stride
            &&& s.loop_start == loop_start && s.rdtsc_reads == 1 && s.countdown == 1
            &&& !s.sampled && s.t_cursor == 0 && s.iter_start == 0 && s.spans_closed == 0
            &&& s.nb_pkts == 0 && s.nb_bytes == 0 && s.pkts_since_maint == 0
            &&& s.budget.poll_busy == 0 && s.budget.poll_idle == 0
            &&& s.budget.pipeline == 0 && s.budget.maint == 0
            &&& s.budget.sampled_wall == 0 && s.budget.sampled_iters == 0 && s.budget.wall == 0
            &&& s.budget.bursts == 0 && s.budget.idle_polls == 0 && s.budget.recv_pkts == 0
            &&& s.stats.total_pkt.count == 0 && s.stats.total_byte.count == 0
            &&& s.stats.ignored_pkt.count == 0 && s.stats.ignored_byte.count == 0
            &&& s.stats.idle_cycles.count == 0 && s.stats.total_cycles.count == 0
            &&& s.published.sampled_iters == 0 && s.published.recv_pkts == 0
        }),
{
}

/// What is asked for first at packet `i` of a burst: the tap where there is one, else the flow
/// table where there is one, else the packet filter.
pub open spec fn first_at_packet(has_tap: bool, has_table: bool, i: u64) -> RxAction {
    if has_tap {
        RxAction::Tap(i)
    } else if has_table {
        RxAction::Lookup(i)
    } else {
        RxAction::Filter(i)
    }
}

/// What is asked for when packet `i` of a burst of `n` is done with: the next packet of the burst;
/// behind the last one, the close of the pipeline span in a sampled iteration, else the next queue;
/// behind the last queue, maintenance if 32 packets or more came since it last ran, else the next
/// iteration.
pub open spec fn first_behind_packet(s: RxProcess, q: usize, n: u64, i: u64) -> RxAction {
    if i + 1 < n {
        first_at_packet(s.has_tap, s.has_table, (i + 1) as u64)
    } else if s.sampled {
        RxAction::ReadTsc
    } else if q + 1 < s.n_queues {
        RxAction::Burst((q + 1) as usize)
    } else if s.pkts_since_maint >= 32 {
        RxAction::CheckInactive
    } else {
        RxAction::CheckRunning
    }
}

/// The packet filter decides which packets the pipeline sees. Every packet that comes to it is
/// counted, with its length; one that it wants is processed, and one that it does not want is
/// counted as ignored and left.
pub proof fn law_filter_decides(s: RxProcess, q: usize, n: u64, i: u64, wanted: bool, len: u64)
    requires
        s.wf(),
        s.phase == (RxPhase::Filter { q, n, i }),
        s.fits(RxEvent::Filtered(wanted, len)),
    ensures
        ({
            let next = s.after(RxEvent::Filtered(wanted, len));
            let done = next.after(RxEvent::Processed);
            &&& s.asks() == RxAction::Filter(i)
            &&& next.asks() == RxAction::Process(i) <==> wanted
            &&& next.nb_pkts == s.nb_pkts + 1 && next.nb_bytes == s.nb_bytes + len
            &&& next.stats.total_pkt.count == s.stats.total_pkt.count + 1
            &&& next.stats.total_byte.count == s.stats.total_byte.count + len
            &&& wanted ==> {
                &&& next.stats.ignored_pkt == s.stats.ignored_pkt
                &&& next.stats.ignored_byte == s.stats.ignored_byte
                &&& done.asks() == first_behind_packet(s, q, n, i)
                &&& done.nb_pkts == next.nb_pkts && done.nb_bytes == next.nb_bytes
                &&& done.stats == next.stats
            }
            &&& !wanted ==> {
                &&& next.stats.ignored_pkt.count == s.stats.ignored_pkt.count + 1
                &&& next.stats.ignored_byte.count == s.stats.ignored_byte.count + len
                &&& next.asks() == first_behind_packet(s, q, n, i)
            }
            &&& next.budget == s.budget && next.stats.total_cycles == s.stats.total_cycles
            &&& next.stats.idle_cycles == s.stats.idle_cycles
        }),
{
}

/// The flow table sheds a packet with a drop rule, which is then counted nowhere, and lets every
/// other packet through to the packet filter.
pub proof fn law_table_sheds_or_lets_through(
    s: RxProcess,
    q: usize,
    n: u64,
    i: u64,
    action: Option<FlowAction>,
)
    requires
        s.wf(),
        s.phase == (RxPhase::Lookup { q, n, i }),
    ensures
        ({
            let next = s.after(RxEvent::LookedUp(action));
            &&& s.asks() == RxAction::Lookup(i)
            &&& action == Some(FlowAction::Drop) ==> next.asks() == first_behind_packet(s, q, n, i)
            &&& action != Some(FlowAction::Drop) ==> next.asks() == RxAction::Filter(i)
            &&& next.nb_pkts == s.nb_pkts && next.nb_bytes == s.nb_bytes
            &&& next.stats == s.stats && next.budget == s.budget
        }),
{
}

/// The tap hands the packet on to the flow table, if there is one, else to the packet filter.
pub proof fn law_tap_hands_the_packet_on(s: RxProcess, q: usize, n: u64, i: u64)
    requires
        s.wf(),
        s.phase == (RxPhase::Tap { q, n, i }),
    ensures
        s.asks() == RxAction::Tap(i),
        s.has_table ==> s.after(RxEvent::Tapped).asks() == RxAction::Lookup(i),
        !s.has_table ==> s.after(RxEvent::Tapped).asks() == RxAction::Filter(i),
{
}

/// What is asked for when the packets of a burst come to their turn, and `pkts` packets came since
/// maintenance last ran.
pub open spec fn first_of_burst(s: RxProcess, pkts: int, q: usize, n: u64) -> RxAction {
    if n > 0 {
        first_at_packet(s.has_tap, s.has_table, 0)
    } else if q + 1 < s.n_queues {
        RxAction::Burst((q + 1) as usize)
    } else if pkts >= 32 {
        RxAction::CheckInactive
    } else if s.sampled {
        RxAction::ReadTsc
    } else {
        RxAction::CheckRunning
    }
}

/// What is asked for when poll number `c` has been counted: every 1024 polls the clock is read, half
/// a turn before the statistics are exported where they are; else the packets have their turn.
pub open spec fn due_with_poll(s: RxProcess, c: int, pkts: int, q: usize, n: u64) -> RxAction {
    if c % 1024 == 512 {
        RxAction::ReadClock
    } else if c % 1024 == 0 && s.exports {
        RxAction::ReportStats
    } else {
        first_of_burst(s, pkts, q, n)
    }
}

/// A poll outside a sampled iteration: an empty one is counted as idle, any other as a burst with
/// its packets. Then the inbox is drained where there is a flow table, and the poll is counted.
pub proof fn law_poll_is_counted(s: RxProcess, q: usize, n: u64)
    requires
        s.wf(),
        s.phase == (RxPhase::Poll { q }),
        !s.sampled,
        s.fits(RxEvent::Received(n)),
        s.stats.total_cycles.count < u64::MAX,
    ensures
        ({
            let next = s.after(RxEvent::Received(n));
            let drained = if s.has_table {
                next.after(RxEvent::Drained)
            } else {
                next
            };
            let c = s.stats.total_cycles.count + 1;
            &&& s.asks() == RxAction::Burst(q)
            &&& n == 0 ==> {
                &&& next.budget.idle_polls == s.budget.idle_polls + 1
                &&& next.stats.idle_cycles.count == s.stats.idle_cycles.count + 1
                &&& next.budget.bursts == s.budget.bursts
                &&& next.budget.recv_pkts == s.budget.recv_pkts
            }
            &&& n > 0 ==> {
                &&& next.budget.idle_polls == s.budget.idle_polls
                &&& next.stats.idle_cycles.count == s.stats.idle_cycles.count
                &&& next.budget.bursts == s.budget.bursts + 1
                &&& next.budget.recv_pkts == s.budget.recv_pkts + n
            }
            &&& s.has_table ==> next.asks() == RxAction::DrainInbox
            &&& drained.stats.total_cycles.count == c
            &&& next.budget.attributed() == s.budget.attributed()
            &&& drained.asks() == due_with_poll(s, c, s.pkts_since_maint + n, q, n)
        }),
{
}

/// When the clock was read or the statistics were exported, the packets have their turn.
pub proof fn law_housekeeping_precedes_packets(s: RxProcess, q: usize, n: u64)
    requires
        s.wf(),
    ensures
        s.phase == (RxPhase::Clock { q, n }) ==> s.after(RxEvent::ClockRead).asks()
            == first_of_burst(s, s.pkts_since_maint as int, q, n),
        s.phase == (RxPhase::Report { q, n }) ==> s.after(RxEvent::Reported).asks()
            == first_of_burst(s, s.pkts_since_maint as int, q, n),
{
}

/// The cycles between two reads of the counter less the cost of so many reads, and not below zero.
pub open spec fn net_cycles(from: u64, to: u64, reads: int, cost: u64) -> int {
    if to - from >= reads * cost {
        to - from - reads * cost
    } else {
        0
    }
}

/// In a sampled iteration the span of a poll goes to the idle bucket if the poll was empty and to
/// the busy bucket if not, and the span of a burst's packets to the pipeline bucket; each is the
/// cycles since the span before, less one read.
pub proof fn law_spans_go_to_their_buckets(s: RxProcess, q: usize, n: u64, t: u64)
    requires
        s.wf(),
        s.fits(RxEvent::Tsc(t)),
        t >= s.t_cursor,
    ensures
        ({
            let next = s.after(RxEvent::Tsc(t));
            let net = net_cycles(s.t_cursor, t, 1, s.budget.rdtsc_cost);
            let b = s.budget;
            &&& s.phase == (RxPhase::PollTsc { q, n }) ==> {
                &&& s.asks() == RxAction::ReadTsc
                &&& n == 0 ==> next.budget.poll_idle == b.poll_idle + net && next.budget.poll_busy
                    == b.poll_busy
                &&& n > 0 ==> next.budget.poll_busy == b.poll_busy + net && next.budget.poll_idle
                    == b.poll_idle
                &&& next.budget.pipeline == b.pipeline && next.budget.maint == b.maint
                &&& next.t_cursor == t && next.rdtsc_reads == s.rdtsc_reads + 1
                &&& next.spans_closed == s.spans_closed + 1
            }
            &&& s.phase == (RxPhase::PipelineTsc { q }) ==> {
                &&& s.asks() == RxAction::ReadTsc
                &&& next.budget.pipeline == b.pipeline + net
                &&& next.budget.poll_idle == b.poll_idle && next.budget.poll_busy == b.poll_busy
                &&& next.budget.maint == b.maint
                &&& next.t_cursor == t && next.rdtsc_reads == s.rdtsc_reads + 1
                &&& next.spans_closed == s.spans_closed + 1
                &&& q + 1 < s.n_queues ==> next.asks() == RxAction::Burst((q + 1) as usize)
                &&& q + 1 == s.n_queues && s.pkts_since_maint >= 32 ==> next.asks()
                    == RxAction::CheckInactive
                &&& q + 1 == s.n_queues && s.pkts_since_maint < 32 ==> next.asks()
                    == RxAction::ReadTsc
            }
        }),
{
    let cost = s.budget.rdtsc_cost as int;
    assert(1 * cost == cost);
}

/// A sampled iteration opens with a read of the counter, and closes with another: the maintenance
/// span goes to the maintenance bucket, and the iteration, less one read for each of its spans, to
/// the sampled span. Every 1024 sampled iterations the budget is published, with the span of the
/// loop so far and the reads of the counter.
pub proof fn law_sampled_iteration_opens_and_closes(s: RxProcess, t: u64)
    requires
        s.wf(),
        s.fits(RxEvent::Tsc(t)),
    ensures
        s.phase is Start ==> {
            let next = s.after(RxEvent::Tsc(t));
            &&& s.asks() == RxAction::ReadTsc
            &&& next.asks() == RxAction::Burst(0)
            &&& next.t_cursor == t && next.iter_start == t
            &&& next.rdtsc_reads == s.rdtsc_reads + 1
            &&& next.budget == s.budget
        },
        s.phase is MaintTsc && t >= s.t_cursor && t >= s.iter_start ==> {
            let next = s.after(RxEvent::Tsc(t));
            let b = s.budget;
            let due = (b.sampled_iters + 1) % 1024 == 0;
            &&& s.asks() == RxAction::ReadTsc
            &&& next.budget.maint == b.maint + net_cycles(s.t_cursor, t, 1, b.rdtsc_cost)
            &&& next.budget.sampled_wall == b.sampled_wall + net_cycles(
                s.iter_start,
                t,
                s.spans_closed + 1,
                b.rdtsc_cost,
            )
            &&& next.budget.sampled_iters == b.sampled_iters + 1
            &&& next.budget.poll_idle == b.poll_idle && next.budget.poll_busy == b.poll_busy
            &&& next.budget.pipeline == b.pipeline
            &&& next.rdtsc_reads == s.rdtsc_reads + 1
            &&& due ==> next.asks() == RxAction::Publish && next.budget.rdtsc_reads
                == next.rdtsc_reads
            &&& due && t >= s.loop_start ==> next.budget.wall == t - s.loop_start
            &&& !due ==> next.asks() == RxAction::CheckRunning && next.budget.wall == b.wall
        },
{
    let cost = s.budget.rdtsc_cost as int;
    assert(1 * cost == cost);
}

/// Maintenance ends an iteration: a sampled one closes its last span, any other is over.
pub proof fn law_maintenance_ends_the_iteration(s: RxProcess)
    requires
        s.wf(),
        s.phase is Maint,
    ensures
        s.asks() == RxAction::CheckInactive,
        s.sampled ==> s.after(RxEvent::Maintained).asks() == RxAction::ReadTsc,
        !s.sampled ==> s.after(RxEvent::Maintained).asks() == RxAction::CheckRunning,
        s.after(RxEvent::Maintained).budget == s.budget,
        RX_BURST_SIZE == 32,
{
}

/// How an iteration begins, and how the loop ends. Going on, a sampled iteration reads the counter
/// first and any other polls the first queue. Stopping, the counter is read once more, the rest of
/// the budget is published with the span of the whole loop, what unfinished connections still hold
/// is delivered, and the core is done.
pub proof fn law_loop_goes_on_or_ends(s: RxProcess, t: u64)
    requires
        s.wf(),
        s.phase is Running,
        s.rdtsc_reads < u64::MAX,
    ensures
        ({
            let go = s.after(RxEvent::Running(true));
            let stop = s.after(RxEvent::Running(false));
            let ended = stop.after(RxEvent::Tsc(t));
            let published = ended.after(RxEvent::Published);
            let delivered = published.after(RxEvent::Delivered);
            &&& s.asks() == RxAction::CheckRunning
            &&& go.sampled ==> go.asks() == RxAction::ReadTsc
            &&& !go.sampled ==> go.asks() == RxAction::Burst(0)
            &&& s.countdown == 1 ==> go.sampled == s.attribute && go.countdown == s.sample_stride
            &&& s.countdown > 1 ==> !go.sampled && go.countdown == s.countdown - 1
            &&& go.spans_closed == 0
            &&& go.budget == s.budget
            &&& stop.asks() == RxAction::ReadTsc
            &&& ended.asks() == RxAction::Publish
            &&& t >= s.loop_start ==> ended.budget.wall == t - s.loop_start
            &&& ended.budget.rdtsc_reads == s.rdtsc_reads + 1
            &&& ended.budget.sampled_wall == s.budget.sampled_wall
            &&& ended.budget.attributed() == s.budget.attributed()
            &&& ended.budget.recv_pkts == s.budget.recv_pkts
            &&& published.asks() == RxAction::Deliver
            &&& published.published == ended.budget
            &&& delivered.asks() == RxAction::Finished
        }),
{
}

/// The loop after some events.
pub open spec fn ran(s: RxProcess, evs: Seq<RxEvent>) -> RxProcess
    decreases evs.len(),
{
    if evs.len() == 0 {
        s
    } else {
        ran(s, evs.drop_last()).after(evs.last())
    }
}

/// Whether every event answers what the loop asks for when it comes, and has room.
pub open spec fn is_run(s: RxProcess, evs: Seq<RxEvent>) -> bool
    decreases evs.len(),
{
    evs.len() == 0 || {
        &&& is_run(s, evs.drop_last())
        &&& answers(ran(s, evs.drop_last()), evs.last())
        &&& ran(s, evs.drop_last()).fits(evs.last())
    }
}

/// What some events come to.
pub struct RxTotals {
    /// Packets that polls found.
    pub received: int,
    /// Packets that the filter wanted.
    pub wanted: int,
    /// Bytes in the packets that the filter saw.
    pub bytes: int,
    /// Packets that the filter did not want.
    pub ignored: int,
    /// Packets that the pipeline processed.
    pub processed: int,
    /// Packets that the tap saw.
    pub tapped: int,
}

/// What some events come to.
pub open spec fn totals(evs: Seq<RxEvent>) -> RxTotals
    decreases evs.len(),
{
    if evs.len() == 0 {
        RxTotals { received: 0, wanted: 0, bytes: 0, ignored: 0, processed: 0, tapped: 0 }
    } else {
        let t = totals(evs.drop_last());
        match evs.last() {
            RxEvent::Received(n) => RxTotals { received: t.received + n, ..t },
            RxEvent::Filtered(true, len) => RxTotals {
                wanted: t.wanted + 1,
                bytes: t.bytes + len,
                ..t
            },
            RxEvent::Filtered(false, len) => RxTotals {
                ignored: t.ignored + 1,
                bytes: t.bytes + len,
                ..t
            },
            RxEvent::Processed => RxTotals { processed: t.processed + 1, ..t },
            RxEvent::Tapped => RxTotals { tapped: t.tapped + 1, ..t },
            _ => t,
        }
    }
}

/// The packets of a poll that is not counted yet.
pub open spec fn uncounted(s: RxProcess) -> int {
    match s.phase {
        RxPhase::PollTsc { q, n } => n as int,
        _ => 0,
    }
}

/// The packets of the current burst that the tap is still to see.
pub open spec fn untapped(s: RxProcess) -> int {
    match s.phase {
        RxPhase::PollTsc { q, n } => n as int,
        RxPhase::Drain { q, n } => n as int,
        RxPhase::Clock { q, n } => n as int,
        RxPhase::Report { q, n } => n as int,
        RxPhase::Tap { q, n, i } => n - i,
        RxPhase::Lookup { q, n, i } => n - i - 1,
        RxPhase::Filter { q, n, i } => n - i - 1,
        RxPhase::Process { q, n, i } => n - i - 1,
        _ => 0,
    }
}

/// What one answer does to the counts.
#[verifier::spinoff_prover]
#[verifier::rlimit(60)]
proof fn lemma_totals_step(b: RxProcess, ev: RxEvent)
    requires
        b.wf(),
        answers(b, ev),
        b.fits(ev),
    ensures
        ({
            let e = b.after(ev);
            let one = |x: bool|
                if x {
                    1int
                } else {
                    0
                };
            &&& e.budget.recv_pkts + uncounted(e) - b.budget.recv_pkts - uncounted(b) == match ev {
                RxEvent::Received(n) => n as int,
                _ => 0,
            }
            &&& e.nb_pkts - b.nb_pkts == one(ev is Filtered)
            &&& e.nb_bytes - b.nb_bytes == match ev {
                RxEvent::Filtered(_, len) => len as int,
                _ => 0,
            }
            &&& e.stats.ignored_pkt.count - b.stats.ignored_pkt.count == match ev {
                RxEvent::Filtered(false, _) => 1int,
                _ => 0,
            }
            &&& one(e.phase is Process) - one(b.phase is Process) == match ev {
                RxEvent::Filtered(true, _) => 1int,
                RxEvent::Processed => -1,
                _ => 0,
            }
            &&& b.has_tap ==> untapped(e) - untapped(b) == match ev {
                RxEvent::Received(n) => n as int,
                RxEvent::Tapped => -1,
                _ => 0,
            }
            &&& !b.has_tap ==> !(ev is Tapped)
            &&& e.has_tap == b.has_tap
        }),
{
}

/// What a run is made of, whatever comes: every packet that a poll finds is counted as received;
/// with a tap, each is handed to it; the packets that are counted are those that the packet filter
/// saw, with their bytes; those that are ignored are the ones that it did not want; and as many are
/// processed as it wanted, one fewer while the pipeline has a packet.
pub proof fn law_counts_of_a_run(s: RxProcess, evs: Seq<RxEvent>)
    requires
        s.wf(),
        s.phase is Running,
        is_run(s, evs),
    ensures
        ({
            let e = ran(s, evs);
            let t = totals(evs);
            &&& e.wf()
            &&& e.has_tap == s.has_tap
            &&& e.budget.recv_pkts + uncounted(e) - s.budget.recv_pkts == t.received
            &&& e.nb_pkts - s.nb_pkts == t.wanted + t.ignored
            &&& e.nb_bytes - s.nb_bytes == t.bytes
            &&& e.stats.ignored_pkt.count - s.stats.ignored_pkt.count == t.ignored
            &&& t.wanted == t.processed + if e.phase is Process {
                1int
            } else {
                0
            }
            &&& s.has_tap ==> t.received == t.tapped + untapped(e)
            &&& !s.has_tap ==> t.tapped == 0
        }),
    decreases evs.len(),
{
    if evs.len() > 0 {
        let b = ran(s, evs.drop_last());
        law_counts_of_a_run(s, evs.drop_last());
        lemma_totals_step(b, evs.last());
        crate::lcore::rx_core::law_loop_keeps_wf(b, evs.last());
    }
}

} // verus!
