//! Laws of the offline loop: the way of a frame, and what a whole run comes to.

use vstd::prelude::*;

use crate::flow_model::FlowAction;
use crate::offline::{OfflineAction, OfflineEvent, OfflineRun};
use crate::text::decimal;

verus! {

/// Before the first frame nothing is counted, one read of the cycle counter is, and a frame is to
/// be read.
pub proof fn law_offline_loop_begins_empty(
    mtu: usize,
    has_table: bool,
    has_tap: bool,
    loop_start: u64,
)
    ensures
        ({
            let s = OfflineRun::start(mtu, has_table, has_tap, loop_start);
            &&& s.asks() == OfflineAction::ReadFrame
            &&& s.mtu == mtu && s.has_table == has_table && s.has_tap == has_tap
            &&& s.loop_start == loop_start && s.t_cursor == loop_start
            &&& s.rdtsc_reads == 1
            &&& s.nb_frames == 0 && s.nb_pkts == 0 && s.nb_bytes == 0
            &&& s.budget.sample_stride == 1
            &&& s.budget.poll_busy == 0 && s.budget.poll_idle == 0
            &&& s.budget.pipeline == 0 && s.budget.maint == 0
            &&& s.budget.bursts == 0 && s.budget.recv_pkts == 0 && s.budget.idle_polls == 0
            &&& s.budget.sampled_iters == 0 && s.budget.rdtsc_cost == 0 && s.budget.cores == 0
        }),
{
}

/// A frame that fits is made into a packet, a longer one is skipped, and the end of the file ends
/// the loop: the budget is published, then what is left is delivered, then the analysis is done.
pub proof fn law_reading_frames(s: OfflineRun, len: u32)
    requires
        s.phase is Read,
    ensures
        ({
            let next = s.after(OfflineEvent::Frame(Some(len)));
            let end = s.after(OfflineEvent::Frame(None));
            let published = end.after(OfflineEvent::Published);
            let delivered = published.after(OfflineEvent::Delivered);
            &&& s.asks() == OfflineAction::ReadFrame
            &&& len <= s.mtu ==> next.asks() == OfflineAction::Alloc
            &&& len > s.mtu ==> next.asks() == OfflineAction::ReadFrame
            &&& next.nb_frames == s.nb_frames && next.nb_pkts == s.nb_pkts
            &&& next.nb_bytes == s.nb_bytes && next.budget == s.budget
            &&& end.asks() == OfflineAction::Publish
            &&& published.asks() == OfflineAction::Deliver
            &&& delivered.asks() == OfflineAction::Finished
            &&& delivered.budget == end.budget
            &&& delivered.nb_frames == s.nb_frames && delivered.nb_pkts == s.nb_pkts
            &&& delivered.nb_bytes == s.nb_bytes
        }),
{
}

/// At the end of the file the budget gets the span of the whole loop, the number of frames and the
/// reads of the cycle counter; what was counted before stays.
pub proof fn law_end_of_the_file(s: OfflineRun)
    requires
        s.phase is Read,
        s.loop_start <= s.t_cursor,
    ensures
        ({
            let b = s.after(OfflineEvent::Frame(None)).budget;
            &&& b.wall == s.t_cursor - s.loop_start
            &&& b.sampled_wall == s.t_cursor - s.loop_start
            &&& b.sampled_iters == s.nb_frames
            &&& b.rdtsc_reads == s.rdtsc_reads
            &&& b.poll_busy == s.budget.poll_busy && b.poll_idle == s.budget.poll_idle
            &&& b.pipeline == s.budget.pipeline && b.maint == s.budget.maint
            &&& b.bursts == s.budget.bursts && b.idle_polls == s.budget.idle_polls
            &&& b.recv_pkts == s.budget.recv_pkts && b.cores == s.budget.cores
            &&& b.sample_stride == s.budget.sample_stride
            &&& b.rdtsc_cost == s.budget.rdtsc_cost
        }),
{
}

/// A packet goes to the tap first, if there is one; every 1024 frames the clock is read before
/// that. Then it goes to the flow table, if there is one, with the inbox drained before it.
pub proof fn law_packet_goes_to_tap_then_table(s: OfflineRun, len: u64)
    requires
        s.phase is Alloc,
        s.nb_frames < u64::MAX,
    ensures
        ({
            let framed = s.after(OfflineEvent::Allocated(len));
            let clocked = framed.after(OfflineEvent::ClockRead);
            let at_tap = if (s.nb_frames + 1) % 1024 == 0 {
                clocked
            } else {
                framed
            };
            let at_table = if s.has_tap {
                at_tap.after(OfflineEvent::Tapped)
            } else {
                framed
            };
            let drained = at_table.after(OfflineEvent::Drained);
            &&& framed.nb_frames == s.nb_frames + 1
            &&& framed.len == len
            &&& s.has_tap && (s.nb_frames + 1) % 1024 == 0 ==> framed.asks()
                == OfflineAction::ReadClock
            &&& s.has_tap ==> at_tap.asks() == OfflineAction::Tap
            &&& s.has_table ==> at_table.asks() == OfflineAction::DrainInbox && drained.asks()
                == OfflineAction::Lookup && drained.phase is Lookup
            &&& !s.has_table ==> at_table.asks() == OfflineAction::ReadTsc && at_table.phase
                is IngestTsc
            &&& at_table.len == len && at_table.nb_pkts == s.nb_pkts && at_table.nb_bytes
                == s.nb_bytes && at_table.budget == s.budget
        }),
{
}

/// A packet that a drop rule matches is shed: its span goes to the ingest bucket, it is counted
/// neither as a packet nor in bytes, and the next frame is read. Any other packet is counted, its
/// span goes to the same bucket, and the packet filter sees it.
pub proof fn law_table_sheds_or_lets_through(s: OfflineRun, action: Option<FlowAction>, t: u64)
    requires
        s.phase is Lookup,
        t >= s.t_cursor,
        s.after(OfflineEvent::LookedUp(action)).fits(OfflineEvent::Tsc(t)),
    ensures
        ({
            let decided = s.after(OfflineEvent::LookedUp(action));
            let next = decided.after(OfflineEvent::Tsc(t));
            &&& decided.asks() == OfflineAction::ReadTsc
            &&& next.budget.poll_busy == s.budget.poll_busy + (t - s.t_cursor)
            &&& next.budget.pipeline == s.budget.pipeline
            &&& next.t_cursor == t
            &&& next.rdtsc_reads == s.rdtsc_reads + 1
            &&& action == Some(FlowAction::Drop) ==> {
                &&& next.asks() == OfflineAction::ReadFrame
                &&& next.nb_pkts == s.nb_pkts && next.nb_bytes == s.nb_bytes
                &&& next.budget.bursts == s.budget.bursts
                &&& next.budget.recv_pkts == s.budget.recv_pkts
            }
            &&& action != Some(FlowAction::Drop) ==> {
                &&& next.asks() == OfflineAction::Filter
                &&& next.nb_pkts == s.nb_pkts + 1 && next.nb_bytes == s.nb_bytes + s.len
                &&& next.budget.bursts == s.budget.bursts + 1
                &&& next.budget.recv_pkts == s.budget.recv_pkts + 1
            }
        }),
{
}

/// Without a flow table every packet is let through.
pub proof fn law_without_table_all_go_through(s: OfflineRun, t: u64)
    requires
        s.phase is IngestTsc,
        t >= s.t_cursor,
        s.fits(OfflineEvent::Tsc(t)),
    ensures
        ({
            let next = s.after(OfflineEvent::Tsc(t));
            &&& next.asks() == OfflineAction::Filter
            &&& next.nb_pkts == s.nb_pkts + 1 && next.nb_bytes == s.nb_bytes + s.len
            &&& next.budget.bursts == s.budget.bursts + 1
            &&& next.budget.recv_pkts == s.budget.recv_pkts + 1
            &&& next.budget.poll_busy == s.budget.poll_busy + (t - s.t_cursor)
        }),
{
}

/// The packet filter decides which packets the pipeline sees: one that it wants is processed, and
/// one that it does not want goes straight to the close of its pipeline span. Either way that span
/// goes to the pipeline bucket and the next frame is read.
pub proof fn law_filter_decides(s: OfflineRun, wanted: bool, t: u64)
    requires
        s.phase is Filter,
        t >= s.t_cursor,
        s.budget.pipeline + (t - s.t_cursor) <= u64::MAX,
        s.rdtsc_reads < u64::MAX,
    ensures
        ({
            let next = s.after(OfflineEvent::Filtered(wanted));
            let at_close = if wanted {
                next.after(OfflineEvent::Processed)
            } else {
                next
            };
            let closed = at_close.after(OfflineEvent::Tsc(t));
            &&& s.asks() == OfflineAction::Filter
            &&& next.asks() == OfflineAction::Process <==> wanted
            &&& at_close.asks() == OfflineAction::ReadTsc
            &&& closed.asks() == OfflineAction::ReadFrame
            &&& closed.budget.pipeline == s.budget.pipeline + (t - s.t_cursor)
            &&& closed.budget.poll_busy == s.budget.poll_busy
            &&& closed.t_cursor == t && closed.rdtsc_reads == s.rdtsc_reads + 1
            &&& closed.nb_pkts == s.nb_pkts && closed.nb_bytes == s.nb_bytes
            &&& closed.nb_frames == s.nb_frames
        }),
{
}

/// Whether the event is the answer to an action.
pub open spec fn answers(a: OfflineAction, ev: OfflineEvent) -> bool {
    match a {
        OfflineAction::ReadFrame => ev is Frame,
        OfflineAction::Alloc => ev is Allocated,
        OfflineAction::ReadClock => ev is ClockRead,
        OfflineAction::Tap => ev is Tapped,
        OfflineAction::DrainInbox => ev is Drained,
        OfflineAction::Lookup => ev is LookedUp,
        OfflineAction::ReadTsc => ev is Tsc,
        OfflineAction::Filter => ev is Filtered,
        OfflineAction::Process => ev is Processed,
        OfflineAction::Publish => ev is Published,
        OfflineAction::Deliver => ev is Delivered,
        OfflineAction::Finished => false,
    }
}

/// The loop after some events.
pub open spec fn ran(s: OfflineRun, evs: Seq<OfflineEvent>) -> OfflineRun
    decreases evs.len(),
{
    if evs.len() == 0 {
        s
    } else {
        ran(s, evs.drop_last()).after(evs.last())
    }
}

/// Whether every event answers what the loop asks for when it comes, and has room.
pub open spec fn is_run(s: OfflineRun, evs: Seq<OfflineEvent>) -> bool
    decreases evs.len(),
{
    evs.len() == 0 || {
        &&& is_run(s, evs.drop_last())
        &&& answers(ran(s, evs.drop_last()).asks(), evs.last())
        &&& ran(s, evs.drop_last()).fits(evs.last())
    }
}

/// What is counted over a run.
pub enum Tally {
    /// Packets that the filter wants.
    Wanted,
    /// Packets that the filter saw.
    Filtered,
    /// Packets that the pipeline processed.
    Processed,
    /// Frames that were made into packets.
    Allocated,
    /// Packets that the tap saw.
    Tapped,
    /// Packets that were looked up in the flow table.
    LookedUp,
    /// Reads of the cycle counter.
    Tsc,
}

/// Whether an event is one of those that are counted.
pub open spec fn is_counted(ev: OfflineEvent, k: Tally) -> bool {
    match k {
        Tally::Wanted => ev == OfflineEvent::Filtered(true),
        Tally::Filtered => ev is Filtered,
        Tally::Processed => ev is Processed,
        Tally::Allocated => ev is Allocated,
        Tally::Tapped => ev is Tapped,
        Tally::LookedUp => ev is LookedUp,
        Tally::Tsc => ev is Tsc,
    }
}

/// How many of some events are counted.
pub open spec fn count(evs: Seq<OfflineEvent>, k: Tally) -> nat
    decreases evs.len(),
{
    if evs.len() == 0 {
        0
    } else if is_counted(evs.last(), k) {
        count(evs.drop_last(), k) + 1
    } else {
        count(evs.drop_last(), k)
    }
}

/// Whether the loop is only where its equipment takes it.
pub open spec fn equipped(s: OfflineRun) -> bool {
    &&& s.phase is Tap || s.phase is Clock ==> s.has_tap
    &&& s.phase is Drain || s.phase is Lookup || s.phase is ShedTsc ==> s.has_table
}

/// An event that is no answer changes nothing.
pub proof fn law_only_answers_count(s: OfflineRun, ev: OfflineEvent)
    requires
        !answers(s.asks(), ev),
    ensures
        s.after(ev) == s,
{
}

/// What a run is made of, whatever the capture and the rules: as many packets are processed as the
/// filter wants, one fewer while the pipeline has a packet; as many packets are counted as the
/// filter is asked about; frames are those that were made into packets; the cycle counter was read
/// as often as it answered; the tap sees every packet, if there is one; and without a flow table
/// nothing is looked up.
pub proof fn law_counts_of_a_run(s: OfflineRun, evs: Seq<OfflineEvent>)
    requires
        is_run(s, evs),
        s.phase is Read,
    ensures
        ({
            let e = ran(s, evs);
            let one = |x: bool|
                if x {
                    1int
                } else {
                    0
                };
            &&& equipped(e)
            &&& count(evs, Tally::Wanted) == count(evs, Tally::Processed) + one(
                e.asks() == OfflineAction::Process,
            )
            &&& e.nb_pkts - s.nb_pkts == count(evs, Tally::Filtered) + one(
                e.asks() == OfflineAction::Filter,
            )
            &&& e.nb_frames - s.nb_frames == count(evs, Tally::Allocated)
            &&& e.rdtsc_reads - s.rdtsc_reads == count(evs, Tally::Tsc)
            &&& s.has_tap ==> count(evs, Tally::Allocated) == count(evs, Tally::Tapped) + one(
                e.asks() == OfflineAction::Tap || e.asks() == OfflineAction::ReadClock,
            )
            &&& !s.has_tap ==> count(evs, Tally::Tapped) == 0
            &&& !s.has_table ==> count(evs, Tally::LookedUp) == 0
            &&& e.has_tap == s.has_tap && e.has_table == s.has_table && e.mtu == s.mtu
            &&& e.loop_start == s.loop_start
        }),
    decreases evs.len(),
{
    if evs.len() > 0 {
        let b = ran(s, evs.drop_last());
        let ev = evs.last();
        law_counts_of_a_run(s, evs.drop_last());
        lemma_counts_step(b, ev);
        assert(ran(s, evs) == b.after(ev));
        assert forall|k: Tally| #[trigger] count(evs, k) == count(evs.drop_last(), k) + if is_counted(
            ev,
            k,
        ) {
            1nat
        } else {
            0
        } by {}
    }
}

/// What one answer does to the counts.
proof fn lemma_counts_step(b: OfflineRun, ev: OfflineEvent)
    requires
        equipped(b),
        answers(b.asks(), ev),
        b.fits(ev),
    ensures
        ({
            let e = b.after(ev);
            let one = |x: bool|
                if x {
                    1int
                } else {
                    0
                };
            &&& equipped(e)
            &&& one(ev == OfflineEvent::Filtered(true)) == one(ev is Processed) + one(
                e.asks() == OfflineAction::Process,
            ) - one(b.asks() == OfflineAction::Process)
            &&& e.nb_pkts - b.nb_pkts == one(ev is Filtered) + one(
                e.asks() == OfflineAction::Filter,
            ) - one(b.asks() == OfflineAction::Filter)
            &&& e.nb_frames - b.nb_frames == one(ev is Allocated)
            &&& e.rdtsc_reads - b.rdtsc_reads == one(ev is Tsc)
            &&& b.has_tap ==> one(ev is Allocated) == one(ev is Tapped) + one(
                e.asks() == OfflineAction::Tap || e.asks() == OfflineAction::ReadClock,
            ) - one(b.asks() == OfflineAction::Tap || b.asks() == OfflineAction::ReadClock)
            &&& !b.has_tap ==> !(ev is Tapped)
            &&& !b.has_table ==> !(ev is LookedUp)
            &&& e.has_tap == b.has_tap && e.has_table == b.has_table && e.mtu == b.mtu
            &&& e.loop_start == b.loop_start
        }),
{
}

/// The closing report names each figure: the frames read, the packets and bytes let through, the
/// CPU time, and the rules and evictions of the table, which are zero without one.
pub proof fn law_report_names_its_figures(s: OfflineRun, cpu_ms: u128, entries: usize, gone: u64)
    ensures
        s.report_text(cpu_ms, Some((entries, gone))).len() == 5,
        s.report_text(cpu_ms, Some((entries, gone)))[0] =~= "Frames read: "@ + decimal(
            s.nb_frames as nat,
        ),
        s.report_text(cpu_ms, Some((entries, gone)))[1] =~= "Processed: "@ + decimal(
            s.nb_pkts as nat,
        ) + " pkts, "@ + decimal(s.nb_bytes as nat) + " bytes"@,
        s.report_text(cpu_ms, Some((entries, gone)))[2] =~= "CPU time: "@ + decimal(cpu_ms as nat)
            + "ms"@,
        s.report_text(cpu_ms, Some((entries, gone)))[3] =~= "Flow table entries: "@ + decimal(
            entries as nat,
        ),
        s.report_text(cpu_ms, Some((entries, gone)))[4] =~= "Evictions: "@ + decimal(gone as nat),
        s.report_text(cpu_ms, None) == s.report_text(cpu_ms, Some((0, 0))),
{
}

} // verus!
