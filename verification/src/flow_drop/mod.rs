//! Drop and steering rules for NICs.
//!
//! A rule is computed here and handed to the driver as plain data; what the driver answers comes
//! back as an event. Flow rules and counters that the driver created are known by the number it
//! gave them, where zero stands for none.

pub mod five_tuple_drop;
pub mod pattern;
pub mod raw_drop;
pub mod teardown;

use vstd::prelude::*;

verus! {

/// Where a rule stands in the tables of a port.
#[derive(Clone, Copy, Debug, PartialEq, Eq, Structural)]
pub struct FlowAttr {
    /// Whether the rule applies to received packets.
    pub ingress: bool,
    /// Table that holds the rule.
    pub group: u32,
    /// Precedence within the table; lower values come first.
    pub priority: u32,
}

/// One step of what a rule does to a packet.
#[derive(Clone, Copy, Debug, PartialEq, Eq, Structural)]
pub enum RuleAction {
    /// Run the shared action with this number (here: a counter).
    Indirect(u64),
    /// Drop the packet.
    Drop,
    /// Steer the packet to a queue.
    Queue(u16),
    /// End of the list.
    End,
}

} // verus!
