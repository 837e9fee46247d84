//! Hardware drop and steering rules for single connections.
//!
//! For each port a rule is installed for both directions of a connection, and every rule has a
//! counter of its own. The rules of all ports for the forward direction come first, then those for
//! the reverse direction.

use vstd::prelude::*;

use crate::conn_id::{port, port_of, FiveTuple};
use crate::flow_drop::pattern::{
    build_pattern, is_pattern_for, law_pattern_is_exact, law_reverse_is_matchable, matchable,
    pattern_matches, same_endpoint, same_family, FlowItem,
};
use crate::flow_drop::{FlowAttr, RuleAction};
use crate::net::SocketAddr;
use crate::port::PortId;
use crate::text::{decimal, push_decimal};

verus! {

/// First table for per-connection rules.
pub const BASE_GROUP: u32 = 2;

/// Last table for per-connection rules.
pub const LAST_GROUP: u32 = 14;

/// Number of tables for per-connection rules.
pub const NUM_GROUPS: u32 = 13;

/// The low nibble of a port.
pub const L4_LSB_MASK: u16 = 0x000F;

/// The table that the rules of a 5-tuple would be spread to: by the low nibble of the destination
/// port for TCP and UDP (as told by the low byte of the protocol), else the first table.
pub open spec fn table_of(t: FiveTuple) -> nat {
    let low = t.proto as u8;
    let nibble = if low == 6 || low == 17 {
        (port_of(t.resp) % 16) as nat
    } else {
        0
    };
    BASE_GROUP as nat + nibble % (NUM_GROUPS as nat)
}

/// Returns a table in [2..=14] using dest port low nibble for TCP/UDP. Non-TCP/UDP fall back to the
/// first table.
pub fn find_table(tuple: &FiveTuple) -> (r: u32)
    ensures
        r == table_of(*tuple),
        BASE_GROUP <= r <= LAST_GROUP,
{
    let low: u8 = tuple.proto as u8;
    let p: u16 = port(&tuple.resp);
    let nibble: u32 = if low == 6 || low == 17 {
        assert(p & 0x000F == p % 16) by (bit_vector);
        (p & L4_LSB_MASK) as u32
    } else {
        0
    };
    BASE_GROUP + (nibble % NUM_GROUPS)
}

/// The attributes of a rule for received packets.
pub fn ingress_attr(group: u32, priority: u32) -> (r: FlowAttr)
    ensures
        r == (FlowAttr { ingress: true, group, priority }),
{
    FlowAttr { ingress: true, group, priority }
}

/// Why a rule could not be installed, removed or read.
#[derive(Debug, PartialEq, Eq)]
pub enum FlowDropError {
    /// The endpoints are of different address families.
    MismatchedIpVersions,
    /// The protocol is neither TCP nor UDP.
    UnsupportedProtocol(usize),
    /// The driver did not create a counter.
    CountHandle(PortId, String),
    /// The driver did not create a rule.
    Install(PortId, String),
    /// There are not two rules for each port.
    FlowCount(usize, usize),
    /// There is not one counter for each rule.
    HandleCount(usize, usize),
    /// The driver did not remove a rule.
    Uninstall(PortId, String),
    /// The driver did not read a counter.
    Query(PortId, String),
}

impl FlowDropError {
    /// The message for an error.
    pub open spec fn text(self) -> Seq<char> {
        match self {
            FlowDropError::MismatchedIpVersions => "Mismatched IP versions"@,
            FlowDropError::UnsupportedProtocol(p) => "Unsupported protocol "@ + decimal(p as nat),
            FlowDropError::CountHandle(p, m) => on_port(
                "rte_flow_action_handle_create failed on port "@,
                p,
                m@,
            ),
            FlowDropError::Install(p, m) => on_port("Failed to install flow on port "@, p, m@),
            FlowDropError::FlowCount(p, f) => "Mismatched lengths: "@ + decimal(p as nat)
                + " ports but "@ + decimal(f as nat) + " flows"@,
            FlowDropError::HandleCount(f, h) => "Mismatched lengths: "@ + decimal(f as nat)
                + " flows but "@ + decimal(h as nat) + " handles"@,
            FlowDropError::Uninstall(p, m) => on_port("Failed to uninstall flow on port "@, p, m@),
            FlowDropError::Query(p, m) => on_port(
                "rte_flow_action_handle_query failed on port "@,
                p,
                m@,
            ),
        }
    }

    /// The message for an error.
    pub fn message(&self) -> (r: String)
        ensures
            r@ == self.text(),
    {
        let mut out: String = String::new();
        match self {
            FlowDropError::MismatchedIpVersions => out.append("Mismatched IP versions"),
            FlowDropError::UnsupportedProtocol(p) => {
                out.append("Unsupported protocol ");
                push_decimal(&mut out, *p as u128);
            },
            FlowDropError::CountHandle(p, m) => {
                out.append("rte_flow_action_handle_create failed on port ");
                push_port_message(&mut out, *p, m);
            },
            FlowDropError::Install(p, m) => {
                out.append("Failed to install flow on port ");
                push_port_message(&mut out, *p, m);
            },
            FlowDropError::FlowCount(p, f) => {
                out.append("Mismatched lengths: ");
                push_decimal(&mut out, *p as u128);
                out.append(" ports but ");
                push_decimal(&mut out, *f as u128);
                out.append(" flows");
            },
            FlowDropError::HandleCount(f, h) => {
                out.append("Mismatched lengths: ");
                push_decimal(&mut out, *f as u128);
                out.append(" flows but ");
                push_decimal(&mut out, *h as u128);
                out.append(" handles");
            },
            FlowDropError::Uninstall(p, m) => {
                out.append("Failed to uninstall flow on port ");
                push_port_message(&mut out, *p, m);
            },
            FlowDropError::Query(p, m) => {
                out.append("rte_flow_action_handle_query failed on port ");
                push_port_message(&mut out, *p, m);
            },
        }
        assert(out@ =~= self.text());
        out
    }
}

/// A message about a port.
pub open spec fn on_port(what: Seq<char>, p: PortId, msg: Seq<char>) -> Seq<char> {
    what + decimal(p.0 as nat) + ": "@ + msg
}

/// Appends a port number and what the driver said of it.
fn push_port_message(out: &mut String, p: PortId, msg: &String)
    ensures
        final(out)@ == old(out)@ + decimal(p.0 as nat) + ": "@ + msg@,
{
    push_decimal(out, p.0 as u128);
    out.append(": ");
    out.append(msg.as_str());
}

/// What the rules for a connection do to its packets.
#[derive(Clone, Copy, Debug, PartialEq, Eq, Structural)]
pub enum RuleKind {
    /// Drop them.
    Drop,
    /// Steer them to a queue.
    Split(u16),
}

/// The action list of a rule: count, then drop or steer.
pub open spec fn rule_actions(kind: RuleKind, handle: u64) -> Seq<RuleAction> {
    seq![
        RuleAction::Indirect(handle),
        match kind {
            RuleKind::Drop => RuleAction::Drop,
            RuleKind::Split(q) => RuleAction::Queue(q),
        },
        RuleAction::End,
    ]
}

/// The action list of a rule.
fn make_actions(kind: RuleKind, handle: u64) -> (r: Vec<RuleAction>)
    ensures
        r@ == rule_actions(kind, handle),
{
    let mut out: Vec<RuleAction> = Vec::new();
    out.push(RuleAction::Indirect(handle));
    match kind {
        RuleKind::Drop => out.push(RuleAction::Drop),
        RuleKind::Split(q) => out.push(RuleAction::Queue(q)),
    }
    out.push(RuleAction::End);
    assert(out@ =~= rule_actions(kind, handle));
    out
}

/// The port of rule number `i`: the ports in order for the forward direction, and again for the
/// reverse direction.
pub open spec fn rule_port(ports: Seq<PortId>, i: int) -> PortId {
    ports[i % (ports.len() as int)]
}

/// Where an installation stands.
#[derive(Clone, Copy, Debug, PartialEq, Eq, Structural)]
pub enum InstallPhase {
    /// The next rule needs a counter.
    NeedHandle,
    /// The next rule has this counter and is to be created.
    NeedFlow(u64),
    /// The next rule failed; this counter, which was made for it, is to be destroyed.
    Cleanup(u64),
    /// All rules are installed.
    Done,
    /// The installation failed.
    Failed,
}

/// What is to be done next for an installation.
#[derive(Debug, PartialEq, Eq)]
pub enum InstallAction {
    /// Create a counter on a port.
    CreateHandle(PortId),
    /// Create a rule on a port, for the forward or the reverse pattern, with these actions.
    CreateFlow { port: PortId, reverse: bool, actions: Vec<RuleAction> },
    /// Destroy a counter on a port.
    DestroyHandle(PortId, u64),
    /// Nothing: the rules are installed.
    Finished,
    /// Nothing: the installation failed.
    Aborted,
}

/// What came of an action of an installation.
#[derive(Debug)]
pub enum InstallEvent {
    /// A counter was created; 0 stands for none and is no answer.
    HandleCreated(u64),
    /// No counter was created, for the reason given.
    HandleFailed(String),
    /// A rule was created; 0 stands for none and is no answer.
    FlowCreated(u64),
    /// No rule was created, for the reason given.
    FlowFailed(String),
    /// A counter was destroyed, or could not be.
    HandleDestroyed,
}

/// The installation of the rules for a connection.
pub struct FlowInstaller {
    ports: Vec<PortId>,
    tuple: FiveTuple,
    forward: Vec<FlowItem>,
    reverse: Vec<FlowItem>,
    attr: FlowAttr,
    kind: RuleKind,
    flows: Vec<u64>,
    handles: Vec<u64>,
    phase: InstallPhase,
    error: Option<FlowDropError>,
}

/// What an installation is, apart from its layout in memory.
pub struct InstallModel {
    /// The ports that get rules.
    pub ports: Seq<PortId>,
    /// The connection.
    pub tuple: FiveTuple,
    /// What the rules do.
    pub kind: RuleKind,
    /// The rules that were created.
    pub flows: Seq<u64>,
    /// The counters of the rules that were created.
    pub handles: Seq<u64>,
    /// What is to be done for the next rule.
    pub phase: InstallPhase,
    /// Why the installation failed.
    pub error: Option<FlowDropError>,
}

impl InstallModel {
    /// The installation before anything was done.
    pub open spec fn start(ports: Seq<PortId>, tuple: FiveTuple, kind: RuleKind) -> InstallModel {
        InstallModel {
            ports,
            tuple,
            kind,
            flows: Seq::empty(),
            handles: Seq::empty(),
            phase: if ports.len() == 0 {
                InstallPhase::Done
            } else {
                InstallPhase::NeedHandle
            },
            error: None,
        }
    }

    /// The port of the next rule.
    pub open spec fn port(self) -> PortId {
        rule_port(self.ports, self.flows.len() as int)
    }

    /// The installation after an event. An event that does not answer the action that was asked for
    /// changes nothing.
    pub open spec fn step(self, ev: InstallEvent) -> InstallModel {
        match (self.phase, ev) {
            (InstallPhase::NeedHandle, InstallEvent::HandleCreated(h)) if h != 0 => InstallModel {
                phase: InstallPhase::NeedFlow(h),
                ..self
            },
            (InstallPhase::NeedHandle, InstallEvent::HandleFailed(msg)) => InstallModel {
                phase: InstallPhase::Failed,
                error: Some(FlowDropError::CountHandle(self.port(), msg)),
                ..self
            },
            (InstallPhase::NeedFlow(h), InstallEvent::FlowCreated(f)) if f != 0 => InstallModel {
                flows: self.flows.push(f),
                handles: self.handles.push(h),
                phase: if self.flows.len() + 1 == 2 * self.ports.len() {
                    InstallPhase::Done
                } else {
                    InstallPhase::NeedHandle
                },
                ..self
            },
            (InstallPhase::NeedFlow(h), InstallEvent::FlowFailed(msg)) => InstallModel {
                phase: InstallPhase::Cleanup(h),
                error: Some(FlowDropError::Install(self.port(), msg)),
                ..self
            },
            (InstallPhase::Cleanup(_), InstallEvent::HandleDestroyed) => InstallModel {
                phase: InstallPhase::Failed,
                ..self
            },
            _ => self,
        }
    }

    /// What is to be done next.
    pub open spec fn asks(self, a: InstallAction) -> bool {
        match self.phase {
            InstallPhase::NeedHandle => a == InstallAction::CreateHandle(self.port()),
            InstallPhase::NeedFlow(h) => a matches InstallAction::CreateFlow {
                port,
                reverse,
                actions,
            } && {
                &&& port == self.port()
                &&& reverse == (self.flows.len() >= self.ports.len())
                &&& actions@ == rule_actions(self.kind, h)
            },
            InstallPhase::Cleanup(h) => a == InstallAction::DestroyHandle(self.port(), h),
            InstallPhase::Done => a is Finished,
            InstallPhase::Failed => a is Aborted,
        }
    }

    /// Whether the event answers the action that is asked for.
    pub open spec fn awaits(self, ev: InstallEvent) -> bool {
        match self.phase {
            InstallPhase::NeedHandle => match ev {
                InstallEvent::HandleCreated(h) => h != 0,
                _ => ev is HandleFailed,
            },
            InstallPhase::NeedFlow(_) => match ev {
                InstallEvent::FlowCreated(f) => f != 0,
                _ => ev is FlowFailed,
            },
            InstallPhase::Cleanup(_) => ev is HandleDestroyed,
            _ => false,
        }
    }

    /// How much is left to be asked for at most.
    pub open spec fn left(self) -> int {
        let rest = 2 * (2 * self.ports.len() - self.flows.len());
        match self.phase {
            InstallPhase::NeedHandle => rest + 1,
            InstallPhase::NeedFlow(_) => rest,
            InstallPhase::Cleanup(_) => 1,
            _ => 0,
        }
    }

    /// What holds of every installation.
    pub open spec fn wf(self) -> bool {
        &&& matchable(self.tuple)
        &&& self.flows.len() == self.handles.len()
        &&& self.flows.len() <= 2 * self.ports.len()
        &&& self.phase is Done <==> self.flows.len() == 2 * self.ports.len()
        &&& self.error is Some <==> (self.phase is Cleanup || self.phase is Failed)
        &&& !self.flows.contains(0)
        &&& !self.handles.contains(0)
        &&& match self.phase {
            InstallPhase::NeedFlow(h) | InstallPhase::Cleanup(h) => h != 0,
            _ => true,
        }
    }
}

impl FlowInstaller {
    /// What the installation is.
    pub closed spec fn view(&self) -> InstallModel {
        InstallModel {
            ports: self.ports@,
            tuple: self.tuple,
            kind: self.kind,
            flows: self.flows@,
            handles: self.handles@,
            phase: self.phase,
            error: self.error,
        }
    }

    /// What every step keeps.
    pub closed spec fn wf(self) -> bool {
        &&& self@.wf()
        &&& is_pattern_for(self.forward@, self.tuple)
        &&& is_pattern_for(self.reverse@, self.tuple.reversed())
        &&& self.attr == (FlowAttr { ingress: true, group: 1, priority: 0 })
    }

    /// A well-formed installation is one that can come about.
    pub proof fn law_wf(self)
        requires
            self.wf(),
        ensures
            self@.wf(),
    {
    }

    /// Starts the installation of rules for both directions of a connection on each port.
    pub fn install(port_ids: Vec<PortId>, tuple: &FiveTuple, kind: RuleKind) -> (r: Result<
        FlowInstaller,
        FlowDropError,
    >)
        ensures
            r is Ok <==> matchable(*tuple),
            match r {
                Ok(i) => i.wf() && i@ == InstallModel::start(port_ids@, *tuple, kind),
                Err(e) => e == if same_family(*tuple) {
                    FlowDropError::UnsupportedProtocol(tuple.proto)
                } else {
                    FlowDropError::MismatchedIpVersions
                },
            },
    {
        proof {
            law_reverse_is_matchable(*tuple);
        }
        let forward: Vec<FlowItem> = match build_pattern(tuple) {
            Ok(items) => items,
            Err(e) => {
                return Err(e);
            },
        };
        let reverse: Vec<FlowItem> = match build_pattern(&tuple.reverse()) {
            Ok(items) => items,
            Err(e) => {
                return Err(e);
            },
        };
        let phase: InstallPhase = if port_ids.len() == 0 {
            InstallPhase::Done
        } else {
            InstallPhase::NeedHandle
        };
        Ok(
            FlowInstaller {
                ports: port_ids,
                tuple: *tuple,
                forward,
                reverse,
                attr: ingress_attr(1, 0),
                kind,
                flows: Vec::new(),
                handles: Vec::new(),
                phase,
                error: None,
            },
        )
    }

    /// The attributes of the rules.
    pub fn attr(&self) -> (r: FlowAttr)
        requires
            self.wf(),
        ensures
            r == (FlowAttr { ingress: true, group: 1, priority: 0 }),
    {
        self.attr
    }

    /// The pattern of the rules for one direction.
    pub fn pattern(&self, reverse: bool) -> (r: &Vec<FlowItem>)
        requires
            self.wf(),
        ensures
            is_pattern_for(
                r@,
                if reverse {
                    self@.tuple.reversed()
                } else {
                    self@.tuple
                },
            ),
    {
        if reverse {
            &self.reverse
        } else {
            &self.forward
        }
    }

    /// The port of the next rule.
    fn port(&self) -> (r: PortId)
        requires
            self.ports@.len() > 0,
        ensures
            r == self@.port(),
    {
        self.ports[self.flows.len() % self.ports.len()]
    }

    /// What is to be done next.
    pub fn next(&self) -> (r: InstallAction)
        requires
            self.wf(),
        ensures
            self@.asks(r),
    {
        match self.phase {
            InstallPhase::NeedHandle => InstallAction::CreateHandle(self.port()),
            InstallPhase::NeedFlow(h) => InstallAction::CreateFlow {
                port: self.port(),
                reverse: self.flows.len() >= self.ports.len(),
                actions: make_actions(self.kind, h),
            },
            InstallPhase::Cleanup(h) => InstallAction::DestroyHandle(self.port(), h),
            InstallPhase::Done => InstallAction::Finished,
            InstallPhase::Failed => InstallAction::Aborted,
        }
    }

    /// Takes note of what came of the action.
    pub fn step(&mut self, ev: InstallEvent)
        requires
            old(self).wf(),
        ensures
            final(self).wf(),
            final(self)@ == old(self)@.step(ev),
    {
        match (self.phase, ev) {
            (InstallPhase::NeedHandle, InstallEvent::HandleCreated(h)) if h != 0 => {
                self.phase = InstallPhase::NeedFlow(h);
            },
            (InstallPhase::NeedHandle, InstallEvent::HandleFailed(msg)) => {
                let p: PortId = self.port();
                self.phase = InstallPhase::Failed;
                self.error = Some(FlowDropError::CountHandle(p, msg));
            },
            (InstallPhase::NeedFlow(h), InstallEvent::FlowCreated(f)) if f != 0 => {
                proof {
                    lemma_push_keeps_nonzero(self.flows@, f);
                    lemma_push_keeps_nonzero(self.handles@, h);
                }
                self.flows.push(f);
                self.handles.push(h);
                let n: usize = self.flows.len();
                if n % 2 == 0 && n / 2 == self.ports.len() {
                    self.phase = InstallPhase::Done;
                } else {
                    self.phase = InstallPhase::NeedHandle;
                }
            },
            (InstallPhase::NeedFlow(h), InstallEvent::FlowFailed(msg)) => {
                let p: PortId = self.port();
                self.phase = InstallPhase::Cleanup(h);
                self.error = Some(FlowDropError::Install(p, msg));
            },
            (InstallPhase::Cleanup(_), InstallEvent::HandleDestroyed) => {
                self.phase = InstallPhase::Failed;
            },
            _ => {},
        }
    }

    /// The rules and their counters, or why the installation failed.
    pub fn finish(self) -> (r: Result<(Vec<u64>, Vec<u64>), FlowDropError>)
        requires
            self.wf(),
            self@.phase is Done || self@.phase is Failed,
        ensures
            match r {
                Ok(x) => self@.phase is Done && x.0@ == self@.flows && x.1@ == self@.handles,
                Err(e) => self@.phase is Failed && self@.error == Some(e),
            },
    {
        match self.error {
            Some(e) => Err(e),
            None => Ok((self.flows, self.handles)),
        }
    }
}

/// Starts the installation of drop rules for both directions of a connection on each port.
pub fn install_drop_flow(port_ids: Vec<PortId>, tuple: &FiveTuple) -> (r: Result<
    FlowInstaller,
    FlowDropError,
>)
    ensures
        r is Ok <==> matchable(*tuple),
        match r {
            Ok(i) => i.wf() && i@ == InstallModel::start(port_ids@, *tuple, RuleKind::Drop),
            Err(e) => e == if same_family(*tuple) {
                FlowDropError::UnsupportedProtocol(tuple.proto)
            } else {
                FlowDropError::MismatchedIpVersions
            },
        },
{
    FlowInstaller::install(port_ids, tuple, RuleKind::Drop)
}

/// Starts the installation of rules that steer both directions of a connection to a queue, on each
/// port.
pub fn install_split_flow(port_ids: Vec<PortId>, tuple: &FiveTuple, queue_id: u16) -> (r: Result<
    FlowInstaller,
    FlowDropError,
>)
    ensures
        r is Ok <==> matchable(*tuple),
        match r {
            Ok(i) => i.wf() && i@ == InstallModel::start(
                port_ids@,
                *tuple,
                RuleKind::Split(queue_id),
            ),
            Err(e) => e == if same_family(*tuple) {
                FlowDropError::UnsupportedProtocol(tuple.proto)
            } else {
                FlowDropError::MismatchedIpVersions
            },
        },
{
    FlowInstaller::install(port_ids, tuple, RuleKind::Split(queue_id))
}

/// Every step of an installation keeps its invariant: the created rules and their counters are
/// parallel lists that hold no empty place, and the installation is done when there are two rules
/// for each port. Each answer brings it nearer to its end.
pub proof fn law_install_keeps_wf(m: InstallModel, ev: InstallEvent)
    requires
        m.wf(),
    ensures
        m.step(ev).wf(),
        m.awaits(ev) ==> 0 <= m.step(ev).left() < m.left(),
        !m.awaits(ev) ==> m.step(ev) == m,
        m.step(ev).ports == m.ports,
        m.step(ev).tuple == m.tuple,
        m.step(ev).kind == m.kind,
{
    if let (InstallPhase::NeedFlow(h), InstallEvent::FlowCreated(f)) = (m.phase, ev) {
        if f != 0 {
            lemma_push_keeps_nonzero(m.flows, f);
            lemma_push_keeps_nonzero(m.handles, h);
        }
    }
}

/// A list without 0 that grows by another number is still without 0.
proof fn lemma_push_keeps_nonzero(s: Seq<u64>, x: u64)
    requires
        !s.contains(0),
        x != 0,
    ensures
        !s.push(x).contains(0),
{
    if s.push(x).contains(0) {
        let i = choose|i: int| 0 <= i < s.push(x).len() && s.push(x)[i] == 0;
        assert(i < s.len() && s[i] == 0);
    }
}

/// A new installation has its invariant.
pub proof fn law_install_start_wf(ports: Seq<PortId>, tuple: FiveTuple, kind: RuleKind)
    requires
        matchable(tuple),
    ensures
        InstallModel::start(ports, tuple, kind).wf(),
{
}

/// A counter that was created either becomes the counter of a rule or is destroyed on the port that
/// it was created on: a rule that the driver refuses leaves no counter behind.
pub proof fn law_no_counter_is_left_behind(m: InstallModel, h: u64, f: u64, msg: String)
    requires
        m.wf(),
        m.phase is NeedHandle,
        h != 0,
        f != 0,
    ensures
        ({
            let created = m.step(InstallEvent::HandleCreated(h));
            let ok = created.step(InstallEvent::FlowCreated(f));
            let refused = created.step(InstallEvent::FlowFailed(msg));
            &&& ok.flows == m.flows.push(f) && ok.handles == m.handles.push(h)
            &&& refused.flows == m.flows && refused.handles == m.handles
            &&& refused.asks(InstallAction::DestroyHandle(m.port(), h))
            &&& refused.step(InstallEvent::HandleDestroyed).phase is Failed
            &&& refused.step(InstallEvent::HandleDestroyed).error == Some(
                FlowDropError::Install(m.port(), msg),
            )
        }),
{
}

/// The rules of all ports for the forward direction come first, then those for the reverse
/// direction.
pub proof fn law_forward_then_reverse(ports: Seq<PortId>, i: int)
    requires
        0 <= i < 2 * ports.len(),
    ensures
        rule_port(ports, i) == if i < ports.len() {
            ports[i]
        } else {
            ports[i - ports.len()]
        },
{
    let n = ports.len() as int;
    if i < n {
        vstd::arithmetic::div_mod::lemma_small_mod(i as nat, n as nat);
    } else {
        vstd::arithmetic::div_mod::lemma_fundamental_div_mod_converse(i, n, 1, i - n);
    }
}

/// An installation after the driver created so many counters and rules, one after the other.
pub open spec fn fed(m: InstallModel, handles: Seq<u64>, flows: Seq<u64>, n: nat) -> InstallModel
    decreases n,
{
    if n == 0 {
        m
    } else {
        fed(m, handles, flows, (n - 1) as nat).step(
            InstallEvent::HandleCreated(handles[n - 1]),
        ).step(InstallEvent::FlowCreated(flows[n - 1]))
    }
}

/// An installation that the driver does not refuse comes to its end with two rules for each port,
/// rule `i` on port `i` modulo the number of ports, and each rule has the counter that was created
/// for it.
pub proof fn law_unrefused_installation(
    ports: Seq<PortId>,
    tuple: FiveTuple,
    kind: RuleKind,
    handles: Seq<u64>,
    flows: Seq<u64>,
)
    requires
        matchable(tuple),
        handles.len() == 2 * ports.len(),
        flows.len() == 2 * ports.len(),
        !handles.contains(0),
        !flows.contains(0),
    ensures
        ({
            let end = fed(
                InstallModel::start(ports, tuple, kind),
                handles,
                flows,
                2 * ports.len(),
            );
            &&& end.phase is Done
            &&& end.flows == flows
            &&& end.handles == handles
        }),
        forall|n: nat|
            n < 2 * ports.len() ==> (#[trigger] fed(
                InstallModel::start(ports, tuple, kind),
                handles,
                flows,
                n,
            )).asks(InstallAction::CreateHandle(rule_port(ports, n as int))),
{
    let m = InstallModel::start(ports, tuple, kind);
    lemma_fed(m, handles, flows, 2 * ports.len());
    assert(flows.take(flows.len() as int) =~= flows);
    assert(handles.take(handles.len() as int) =~= handles);
    assert forall|n: nat| n < 2 * ports.len() implies (#[trigger] fed(m, handles, flows, n)).asks(
        InstallAction::CreateHandle(rule_port(ports, n as int)),
    ) by {
        lemma_fed(m, handles, flows, n);
    }
}

/// What an installation has created so far.
proof fn lemma_fed(m: InstallModel, handles: Seq<u64>, flows: Seq<u64>, n: nat)
    requires
        m == InstallModel::start(m.ports, m.tuple, m.kind),
        n <= 2 * m.ports.len(),
        handles.len() == 2 * m.ports.len(),
        flows.len() == 2 * m.ports.len(),
        !handles.contains(0),
        !flows.contains(0),
    ensures
        ({
            let s = fed(m, handles, flows, n);
            &&& s.ports == m.ports
            &&& s.kind == m.kind
            &&& s.flows == flows.take(n as int)
            &&& s.handles == handles.take(n as int)
            &&& s.phase == if n == 2 * m.ports.len() {
                InstallPhase::Done
            } else {
                InstallPhase::NeedHandle
            }
        }),
    decreases n,
{
    if n > 0 {
        lemma_fed(m, handles, flows, (n - 1) as nat);
        assert(handles.contains(handles[n - 1]) && flows.contains(flows[n - 1]));
        assert(flows.take(n as int) =~= flows.take(n - 1).push(flows[n - 1]));
        assert(handles.take(n as int) =~= handles.take(n - 1).push(handles[n - 1]));
    } else {
        assert(flows.take(0) =~= Seq::empty());
        assert(handles.take(0) =~= Seq::empty());
    }
}

/// Both directions of a connection get a rule on each port: of the rules that an installation asks
/// for, rule `n` is a forward rule on port `n` of the list as long as there are such ports, and
/// behind those the reverse rules come, on the same ports in the same order. Every rule counts with
/// the counter that was created for it, and then drops the packet or steers it to the queue.
pub proof fn law_both_directions_on_each_port(
    ports: Seq<PortId>,
    tuple: FiveTuple,
    kind: RuleKind,
    handles: Seq<u64>,
    flows: Seq<u64>,
    n: nat,
    a: InstallAction,
)
    requires
        matchable(tuple),
        handles.len() == 2 * ports.len(),
        flows.len() == 2 * ports.len(),
        !handles.contains(0),
        !flows.contains(0),
        n < 2 * ports.len(),
        fed(InstallModel::start(ports, tuple, kind), handles, flows, n).step(
            InstallEvent::HandleCreated(handles[n as int]),
        ).asks(a),
    ensures
        a matches InstallAction::CreateFlow { port, reverse, actions } && {
            &&& n < ports.len() ==> !reverse && port == ports[n as int]
            &&& n >= ports.len() ==> reverse && port == ports[n - ports.len()]
            &&& actions@.len() == 3
            &&& actions@[0] == RuleAction::Indirect(handles[n as int])
            &&& kind is Drop ==> actions@[1] == RuleAction::Drop
            &&& kind matches RuleKind::Split(q) ==> actions@[1] == RuleAction::Queue(q)
            &&& actions@[2] == RuleAction::End
        },
{
    let before = fed(InstallModel::start(ports, tuple, kind), handles, flows, n);
    let s = before.step(InstallEvent::HandleCreated(handles[n as int]));
    lemma_fed(InstallModel::start(ports, tuple, kind), handles, flows, n);
    law_forward_then_reverse(ports, n as int);
    assert(handles.contains(handles[n as int]));
    assert(before.flows.len() == n);
    assert(s.phase == InstallPhase::NeedFlow(handles[n as int]));
    assert(s.kind == kind && s.ports == ports && s.flows.len() == n);
    match a {
        InstallAction::CreateFlow { port, reverse, actions } => {
            assert(actions@ == rule_actions(kind, handles[n as int]));
        },
        _ => {},
    }
}

/// What is asked for before a rule, and what follows a refusal: a counter is created on the port of
/// the rule, a counter that is refused ends the installation with the port and the reason, and so
/// does a rule that is refused, once its counter is destroyed on that port.
pub proof fn law_refusals_name_the_port(
    ports: Seq<PortId>,
    tuple: FiveTuple,
    kind: RuleKind,
    handles: Seq<u64>,
    flows: Seq<u64>,
    n: nat,
    msg: String,
    a: InstallAction,
)
    requires
        matchable(tuple),
        handles.len() == 2 * ports.len(),
        flows.len() == 2 * ports.len(),
        !handles.contains(0),
        !flows.contains(0),
        n < 2 * ports.len(),
    ensures
        ({
            let s = fed(InstallModel::start(ports, tuple, kind), handles, flows, n);
            let port = if n < ports.len() {
                ports[n as int]
            } else {
                ports[n - ports.len()]
            };
            let no_counter = s.step(InstallEvent::HandleFailed(msg));
            let no_rule = s.step(InstallEvent::HandleCreated(handles[n as int])).step(
                InstallEvent::FlowFailed(msg),
            );
            let gone = no_rule.step(InstallEvent::HandleDestroyed);
            &&& s.asks(a) ==> a == InstallAction::CreateHandle(port)
            &&& no_counter.asks(a) ==> a is Aborted
            &&& no_counter.error == Some(FlowDropError::CountHandle(port, msg))
            &&& no_rule.asks(a) ==> a == InstallAction::DestroyHandle(port, handles[n as int])
            &&& gone.asks(a) ==> a is Aborted
            &&& gone.error == Some(FlowDropError::Install(port, msg))
        }),
{
    lemma_fed(InstallModel::start(ports, tuple, kind), handles, flows, n);
    law_forward_then_reverse(ports, n as int);
    assert(handles.contains(handles[n as int]));
}

/// Without ports there is nothing to install.
pub proof fn law_no_ports_no_rules(tuple: FiveTuple, kind: RuleKind, a: InstallAction)
    requires
        InstallModel::start(Seq::empty(), tuple, kind).asks(a),
    ensures
        a is Finished,
{
}

/// The two patterns of an installation match the packets of the connection, each direction with its
/// own pattern, and no others.
pub proof fn law_patterns_cover_the_connection(
    forward: Seq<FlowItem>,
    reverse: Seq<FlowItem>,
    t: FiveTuple,
    p: FiveTuple,
)
    requires
        is_pattern_for(forward, t),
        is_pattern_for(reverse, t.reversed()),
    ensures
        pattern_matches(forward, p) <==> same_endpoint(p.orig, t.orig) && same_endpoint(
            p.resp,
            t.resp,
        ) && p.proto == t.proto,
        pattern_matches(reverse, p) <==> same_endpoint(p.orig, t.resp) && same_endpoint(
            p.resp,
            t.orig,
        ) && p.proto == t.proto,
{
    law_pattern_is_exact(forward, t, p);
    law_pattern_is_exact(reverse, t.reversed(), p);
}

/// Rules are spread over the tables 2 to 14 by the low nibble of the destination port, where the
/// nibbles 13 to 15 share the first three tables; the source does not matter, and a protocol other
/// than TCP and UDP goes to the first table.
pub proof fn law_tables_by_destination_port(t: FiveTuple, u: FiveTuple)
    ensures
        2 <= table_of(t) <= 14,
        ({
            let dst = match t.resp {
                SocketAddr::V4(v) => v.port,
                SocketAddr::V6(v) => v.port,
            };
            let transport = t.proto as u8 == 6 || t.proto as u8 == 17;
            &&& transport && dst % 16 < 13 ==> table_of(t) == 2 + dst % 16
            &&& transport && dst % 16 >= 13 ==> table_of(t) == dst % 16 - 11
            &&& !transport ==> table_of(t) == 2
        }),
        t.resp == u.resp && t.proto == u.proto ==> table_of(t) == table_of(u),
{
}

/// Every error says what failed: one that the driver caused names the port and ends in what the
/// driver said, and one about lengths names both of them, the one that was counted first in front.
pub proof fn law_messages_say_what_failed(p: PortId, m: String, a: usize, b: usize)
    ensures
        FlowDropError::MismatchedIpVersions.text() == "Mismatched IP versions"@,
        FlowDropError::UnsupportedProtocol(a).text() =~= "Unsupported protocol "@ + decimal(
            a as nat,
        ),
        FlowDropError::CountHandle(p, m).text()
            =~= "rte_flow_action_handle_create failed on port "@ + decimal(p.0 as nat) + ": "@ + m@,
        FlowDropError::Install(p, m).text() =~= "Failed to install flow on port "@ + decimal(
            p.0 as nat,
        ) + ": "@ + m@,
        FlowDropError::Uninstall(p, m).text() =~= "Failed to uninstall flow on port "@ + decimal(
            p.0 as nat,
        ) + ": "@ + m@,
        FlowDropError::Query(p, m).text() =~= "rte_flow_action_handle_query failed on port "@
            + decimal(p.0 as nat) + ": "@ + m@,
        FlowDropError::FlowCount(a, b).text() =~= "Mismatched lengths: "@ + decimal(a as nat)
            + " ports but "@ + decimal(b as nat) + " flows"@,
        FlowDropError::HandleCount(a, b).text() =~= "Mismatched lengths: "@ + decimal(a as nat)
            + " flows but "@ + decimal(b as nat) + " handles"@,
{
}

} // verus!
