//! Where the cycles of a receive core go.
//!
//! The cycles of a sampled iteration are split into four buckets: polls that found packets, polls
//! that found none, the packet pipeline, and maintenance. The counters of bursts, idle polls and
//! packets are exact.

use vstd::prelude::*;

verus! {

/// Cycle budget of a core, or of several cores together.
#[derive(Clone, Copy, Debug, PartialEq, Eq, Structural)]
pub struct DatapathBudget {
    /// Cycles are attributed on one in every this many iterations; zero if they are not.
    pub sample_stride: u64,
    /// Cycles that one read of the cycle counter takes.
    pub rdtsc_cost: u64,
    /// Cycles in polls that found packets.
    pub poll_busy: u64,
    /// Cycles in polls that found none.
    pub poll_idle: u64,
    /// Cycles in the packet pipeline.
    pub pipeline: u64,
    /// Cycles in maintenance.
    pub maint: u64,
    /// Span that the buckets were attributed over.
    pub sampled_wall: u64,
    /// Iterations that were sampled.
    pub sampled_iters: u64,
    /// Span of the whole loop.
    pub wall: u64,
    /// Reads of the cycle counter.
    pub rdtsc_reads: u64,
    /// Polls that found packets.
    pub bursts: u64,
    /// Polls that found none.
    pub idle_polls: u64,
    /// Packets received.
    pub recv_pkts: u64,
    /// Receive cores.
    pub cores: u64,
}

impl DatapathBudget {
    /// A budget with nothing in it.
    pub open spec fn zero() -> DatapathBudget {
        DatapathBudget {
            sample_stride: 0,
            rdtsc_cost: 0,
            poll_busy: 0,
            poll_idle: 0,
            pipeline: 0,
            maint: 0,
            sampled_wall: 0,
            sampled_iters: 0,
            wall: 0,
            rdtsc_reads: 0,
            bursts: 0,
            idle_polls: 0,
            recv_pkts: 0,
            cores: 0,
        }
    }

    /// A budget with nothing in it.
    pub fn new() -> (r: Self)
        ensures
            r == DatapathBudget::zero(),
    {
        DatapathBudget {
            sample_stride: 0,
            rdtsc_cost: 0,
            poll_busy: 0,
            poll_idle: 0,
            pipeline: 0,
            maint: 0,
            sampled_wall: 0,
            sampled_iters: 0,
            wall: 0,
            rdtsc_reads: 0,
            bursts: 0,
            idle_polls: 0,
            recv_pkts: 0,
            cores: 0,
        }
    }

    /// The cycles in the four buckets together.
    pub open spec fn attributed(self) -> int {
        self.poll_busy + self.poll_idle + self.pipeline + self.maint
    }
}

/// The cycles from `from` to `to` on a counter that wraps at 2^64.
pub open spec fn elapsed(from: u64, to: u64) -> u64 {
    if to >= from {
        (to - from) as u64
    } else {
        (to + 0x1_0000_0000_0000_0000 - from) as u64
    }
}

/// A span less a correction, and not below zero.
pub open spec fn less(span: u64, by: int) -> u64 {
    if span >= by {
        (span - by) as u64
    } else {
        0
    }
}

/// The cycles of a span that ends with one read of the counter, less the cost of that read.
pub fn net_span(from: u64, to: u64, cost: u64) -> (r: u64)
    ensures
        r == less(elapsed(from, to), cost as int),
{
    to.wrapping_sub(from).saturating_sub(cost)
}

/// A span leads from where it begins to where it ends, on a counter that wraps at 2^64; a
/// correction is taken off it, and what would fall below zero is zero.
pub proof fn law_spans(from: u64, to: u64, span: u64, by: int)
    ensures
        (from + elapsed(from, to)) % 0x1_0000_0000_0000_0000 == to,
        by <= span && 0 <= by ==> less(span, by) + by == span,
        by > span ==> less(span, by) == 0,
        ({
            let z = DatapathBudget::zero();
            &&& z.sample_stride == 0 && z.rdtsc_cost == 0 && z.poll_busy == 0 && z.poll_idle == 0
            &&& z.pipeline == 0 && z.maint == 0 && z.sampled_wall == 0 && z.sampled_iters == 0
            &&& z.wall == 0 && z.rdtsc_reads == 0 && z.bursts == 0 && z.idle_polls == 0
            &&& z.recv_pkts == 0 && z.cores == 0
        }),
{
}

} // verus!
