//! What a software flow table is, apart from how it is laid out in memory.
//!
//! A table is a map from 5-tuples to rules. The tuples are spread over sets by their hash; each
//! set has room for `ways` rules. Every rule carries the tick of its last use, and ticks are never
//! reused, so within a full set there is exactly one rule that was used least recently.

use vstd::arithmetic::power2::pow2;
use vstd::prelude::*;

use crate::conn_id::{FiveTuple, L4Context};
use crate::fx_hash::fx_tuple;

verus! {

/// Action to apply to packets matching a rule (subset of `rte_flow` actions).
#[derive(Clone, Copy, Debug, PartialEq, Eq, Structural)]
pub enum FlowAction {
    Drop,
    Queue(u16),
}

/// A control-plane request to modify a core's flow table.
#[derive(Clone, Copy, Debug)]
pub enum FlowCommand {
    Install(FiveTuple, FlowAction),
    Uninstall(FiveTuple),
}

/// An installed rule: what to do, and when the rule was last used.
pub struct Rule {
    pub action: FlowAction,
    pub last_used: nat,
}

/// The contents of a flow table.
#[verifier::ext_equal]
pub struct TableModel {
    /// Number of sets; a power of two.
    pub n_sets: nat,
    /// Rules that one set can hold.
    pub ways: nat,
    /// The installed rules.
    pub rules: Map<FiveTuple, Rule>,
    /// Number of uses (installs and hits) so far.
    pub tick: nat,
    /// Number of rules that were evicted so far.
    pub evictions: nat,
}

/// The smallest power of two that is at least `n`.
pub open spec fn next_pow2(n: nat) -> nat
    decreases n,
{
    if n <= 1 {
        1
    } else {
        2 * next_pow2((n + 1) / 2)
    }
}

/// The larger of two numbers.
pub open spec fn max_nat(a: nat, b: nat) -> nat {
    if a >= b {
        a
    } else {
        b
    }
}

/// An operation on a table.
pub enum TableOp {
    /// A rule is installed.
    Insert(FiveTuple, FlowAction),
    /// A tuple is looked up.
    Get(FiveTuple),
    /// A rule is uninstalled.
    Remove(FiveTuple),
}

/// The action that the operations on `t` leave behind where nothing is evicted: that of the latest
/// install, or none if there was no install or an uninstall came after it.
pub open spec fn latest(ops: Seq<TableOp>, t: FiveTuple) -> Option<FlowAction>
    decreases ops.len(),
{
    if ops.len() == 0 {
        None
    } else {
        match ops.last() {
            TableOp::Insert(u, action) if u == t => Some(action),
            TableOp::Remove(u) if u == t => None,
            _ => latest(ops.drop_last(), t),
        }
    }
}

impl TableModel {
    /// An empty table for about `capacity` rules in sets of `ways`.
    pub open spec fn with_capacity(capacity: nat, ways: nat) -> TableModel {
        let w = max_nat(ways, 1);
        TableModel {
            n_sets: next_pow2(max_nat(capacity / w, 1)),
            ways: w,
            rules: Map::empty(),
            tick: 0,
            evictions: 0,
        }
    }

    /// The set that a tuple belongs to.
    pub open spec fn set_of(self, t: FiveTuple) -> nat {
        (fx_tuple(t) as nat) % self.n_sets
    }

    /// The installed tuples that share a set with `t`.
    pub open spec fn neighbours(self, t: FiveTuple) -> Set<FiveTuple> {
        self.rules.dom().filter(|k: FiveTuple| self.set_of(k) == self.set_of(t))
    }

    /// Whether the set of `t` has no room left.
    pub open spec fn set_full(self, t: FiveTuple) -> bool {
        self.neighbours(t).len() >= self.ways
    }

    /// Whether `v` is the least recently used rule of the set of `t`.
    pub open spec fn is_lru(self, t: FiveTuple, v: FiveTuple) -> bool {
        &&& self.neighbours(t).contains(v)
        &&& forall|k: FiveTuple| #[trigger]
            self.neighbours(t).contains(k) && k != v ==> self.rules[v].last_used
                < self.rules[k].last_used
    }

    /// The least recently used rule of the set of `t`.
    pub open spec fn lru(self, t: FiveTuple) -> FiveTuple {
        choose|v: FiveTuple| self.is_lru(t, v)
    }

    /// Whether installing `t` displaces another rule.
    pub open spec fn evicts(self, t: FiveTuple) -> bool {
        !self.rules.contains_key(t) && self.set_full(t)
    }

    /// The table after the rule `t -> action` is installed.
    ///
    /// A tuple that is already present gets the new action. Otherwise the rule takes a free place
    /// of its set, or the place of the least recently used rule if the set is full.
    pub open spec fn insert(self, t: FiveTuple, action: FlowAction) -> TableModel {
        let fresh = Rule { action, last_used: self.tick + 1 };
        if self.evicts(t) {
            TableModel {
                rules: self.rules.remove(self.lru(t)).insert(t, fresh),
                tick: self.tick + 1,
                evictions: self.evictions + 1,
                ..self
            }
        } else {
            TableModel { rules: self.rules.insert(t, fresh), tick: self.tick + 1, ..self }
        }
    }

    /// The action installed for `t`.
    pub open spec fn lookup(self, t: FiveTuple) -> Option<FlowAction> {
        if self.rules.contains_key(t) {
            Some(self.rules[t].action)
        } else {
            None
        }
    }

    /// The table after `t` was looked up: a hit makes the rule the most recently used one.
    pub open spec fn touch(self, t: FiveTuple) -> TableModel {
        if self.rules.contains_key(t) {
            TableModel {
                rules: self.rules.insert(
                    t,
                    Rule { action: self.rules[t].action, last_used: self.tick + 1 },
                ),
                tick: self.tick + 1,
                ..self
            }
        } else {
            self
        }
    }

    /// The table after the rule for `t` is uninstalled.
    pub open spec fn remove(self, t: FiveTuple) -> TableModel {
        TableModel { rules: self.rules.remove(t), ..self }
    }

    /// The table after a control-plane command.
    pub open spec fn apply(self, cmd: FlowCommand) -> TableModel {
        match cmd {
            FlowCommand::Install(t, action) => self.insert(t, action),
            FlowCommand::Uninstall(t) => self.remove(t),
        }
    }

    /// The action for a packet with this transport header.
    pub open spec fn matched(self, ctxt: Option<L4Context>) -> Option<FlowAction> {
        match ctxt {
            Some(c) => self.lookup(c.five_tuple()),
            None => None,
        }
    }

    /// The table after a packet with this transport header was looked up.
    pub open spec fn after_match(self, ctxt: Option<L4Context>) -> TableModel {
        match ctxt {
            Some(c) => self.touch(c.five_tuple()),
            None => self,
        }
    }

    /// The table after one operation.
    pub open spec fn step(self, op: TableOp) -> TableModel {
        match op {
            TableOp::Insert(t, action) => self.insert(t, action),
            TableOp::Get(t) => self.touch(t),
            TableOp::Remove(t) => self.remove(t),
        }
    }

    /// The table after some operations, the first of them first.
    pub open spec fn run(self, ops: Seq<TableOp>) -> TableModel
        decreases ops.len(),
    {
        if ops.len() == 0 {
            self
        } else {
            self.run(ops.drop_last()).step(ops.last())
        }
    }

    /// The table after some control-plane commands, the first of them first.
    pub open spec fn apply_all(self, cmds: Seq<FlowCommand>) -> TableModel
        decreases cmds.len(),
    {
        if cmds.len() == 0 {
            self
        } else {
            self.apply_all(cmds.drop_last()).apply(cmds.last())
        }
    }

    /// What holds of every table that can come about.
    pub open spec fn wf(self) -> bool {
        &&& self.ways >= 1
        &&& exists|k: nat| self.n_sets == #[trigger] pow2(k)
        &&& self.rules.dom().finite()
        &&& forall|t: FiveTuple| #[trigger] self.neighbours(t).len() <= self.ways
        &&& forall|t: FiveTuple| #[trigger]
            self.rules.contains_key(t) ==> self.rules[t].last_used <= self.tick
        &&& forall|t: FiveTuple, u: FiveTuple|
            #![trigger self.rules[t], self.rules[u]]
            self.rules.contains_key(t) && self.rules.contains_key(u) && t != u
                ==> self.rules[t].last_used != self.rules[u].last_used
        &&& self.evictions <= self.tick
    }
}

} // verus!
