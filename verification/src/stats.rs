//! Counters of the receive datapath.

use vstd::prelude::*;

verus! {

/// A counter of a core.
#[derive(Clone, Copy, Debug, PartialEq, Eq, Structural)]
pub struct Counter {
    /// What was counted so far.
    pub count: u64,
}

impl Counter {
    /// A counter at zero.
    pub fn new() -> (r: Self)
        ensures
            r.count == 0,
    {
        Counter { count: 0 }
    }

    /// What was counted so far.
    pub fn get(&self) -> (r: u64)
        ensures
            r == self.count,
    {
        self.count
    }

    /// Counts one.
    pub fn inc(&mut self)
        requires
            old(self).count < u64::MAX,
        ensures
            final(self).count == old(self).count + 1,
    {
        self.inc_by(1);
    }

    /// Counts `val`.
    pub fn inc_by(&mut self, val: u64)
        requires
            old(self).count + val <= u64::MAX,
        ensures
            final(self).count == old(self).count + val,
    {
        self.count = self.count + val;
    }
}

/// Datapath busy cycles and received packets, summed across RX cores. Only non-empty bursts are
/// counted, so idle polling is left out.
#[derive(Clone, Copy, Debug, PartialEq, Eq, Structural)]
pub struct DatapathBusy {
    /// Busy cycles.
    pub cycles: u64,
    /// Received packets.
    pub pkts: u64,
}

impl DatapathBusy {
    /// Nothing counted yet.
    pub fn new() -> (r: Self)
        ensures
            r.cycles == 0,
            r.pkts == 0,
    {
        DatapathBusy { cycles: 0, pkts: 0 }
    }
}

/// Adds a core's busy cycles and received packets. The sums are kept modulo 2^64.
pub fn add_datapath_busy(total: &mut DatapathBusy, cycles: u64, pkts: u64)
    ensures
        final(total).cycles == (old(total).cycles + cycles) % 0x1_0000_0000_0000_0000,
        final(total).pkts == (old(total).pkts + pkts) % 0x1_0000_0000_0000_0000,
{
    total.cycles = total.cycles.wrapping_add(cycles);
    total.pkts = total.pkts.wrapping_add(pkts);
}

/// Total busy cycles and received packets across RX cores.
pub fn datapath_busy(total: &DatapathBusy) -> (r: (u64, u64))
    ensures
        r == (total.cycles, total.pkts),
{
    (total.cycles, total.pkts)
}

/// The order in which cores report does not matter to the totals.
pub proof fn law_busy_order(total: int, a: int, b: int)
    ensures
        ((total + a) % 0x1_0000_0000_0000_0000 + b) % 0x1_0000_0000_0000_0000 == ((total + b)
            % 0x1_0000_0000_0000_0000 + a) % 0x1_0000_0000_0000_0000,
{
    vstd::arithmetic::div_mod::lemma_add_mod_noop(total + a, b, 0x1_0000_0000_0000_0000);
    vstd::arithmetic::div_mod::lemma_add_mod_noop(total + b, a, 0x1_0000_0000_0000_0000);
    vstd::arithmetic::div_mod::lemma_add_mod_noop(total, a, 0x1_0000_0000_0000_0000);
    vstd::arithmetic::div_mod::lemma_add_mod_noop(total, b, 0x1_0000_0000_0000_0000);
}

} // verus!
