//! Removal of the rules for a connection, and the tally of what their counters read.
//!
//! The rules and counters are the parallel lists that an installation left. A null rule is passed
//! over; a counter is read before its rule is destroyed and is destroyed after it.

use vstd::prelude::*;

use crate::flow_drop::five_tuple_drop::{
    law_forward_then_reverse, rule_port, FlowDropError, InstallModel,
};
use crate::port::PortId;

verus! {

/// Packets and bytes that the counters of removed and resident rules read, in total.
#[derive(Clone, Copy, Debug, PartialEq, Eq, Structural)]
pub struct Discarded {
    /// Number of packets.
    pub packets: u64,
    /// Number of bytes.
    pub bytes: u64,
}

impl Discarded {
    /// Nothing read yet.
    pub open spec fn zero() -> Discarded {
        Discarded { packets: 0, bytes: 0 }
    }

    /// The totals with one more reading, modulo 2^64.
    pub open spec fn plus(self, hits: u64, bytes: u64) -> Discarded {
        Discarded {
            packets: ((self.packets + hits) % 0x1_0000_0000_0000_0000) as u64,
            bytes: ((self.bytes + bytes) % 0x1_0000_0000_0000_0000) as u64,
        }
    }

    /// Nothing read yet.
    pub fn new() -> (r: Self)
        ensures
            r == Discarded::zero(),
    {
        Discarded { packets: 0, bytes: 0 }
    }

    /// Adds one reading.
    pub fn record(&mut self, hits: u64, bytes: u64)
        ensures
            *final(self) == old(self).plus(hits, bytes),
    {
        self.packets = self.packets.wrapping_add(hits);
        self.bytes = self.bytes.wrapping_add(bytes);
    }
}

/// What the driver answers when a counter is read.
#[derive(Clone, Copy, Debug, PartialEq, Eq, Structural)]
pub struct CountData {
    /// Whether `hits` was filled in.
    pub hits_set: bool,
    /// Whether `bytes` was filled in.
    pub bytes_set: bool,
    /// Number of packets that matched.
    pub hits: u64,
    /// Number of bytes in them.
    pub bytes: u64,
}

impl CountData {
    /// The packets and bytes that were read; zero for what was not filled in.
    pub open spec fn reading(self) -> (u64, u64) {
        (
            if self.hits_set {
                self.hits
            } else {
                0
            },
            if self.bytes_set {
                self.bytes
            } else {
                0
            },
        )
    }
}

/// The packets and bytes that a counter on a port read.
pub fn query_flow_stats(port_id: PortId, reply: Result<CountData, String>) -> (r: Result<
    (u64, u64),
    FlowDropError,
>)
    ensures
        r == match reply {
            Ok(data) => Ok::<(u64, u64), FlowDropError>(data.reading()),
            Err(msg) => Err(FlowDropError::Query(port_id, msg)),
        },
{
    match reply {
        Ok(data) => {
            let hits: u64 = if data.hits_set {
                data.hits
            } else {
                0
            };
            let bytes: u64 = if data.bytes_set {
                data.bytes
            } else {
                0
            };
            Ok((hits, bytes))
        },
        Err(msg) => Err(FlowDropError::Query(port_id, msg)),
    }
}

/// The totals after the driver answered a read: a reading is added, an error adds nothing.
pub open spec fn tallied(total: Discarded, reply: Result<CountData, String>) -> Discarded {
    match reply {
        Ok(data) => total.plus(data.reading().0, data.reading().1),
        Err(_) => total,
    }
}

/// Adds what a counter on a port read to the totals. Returns the error where there is no reading.
fn tally(total: &mut Discarded, port_id: PortId, reply: Result<CountData, String>) -> (r: Option<
    FlowDropError,
>)
    ensures
        *final(total) == tallied(*old(total), reply),
        r == match reply {
            Ok(_) => None::<FlowDropError>,
            Err(msg) => Some(FlowDropError::Query(port_id, msg)),
        },
{
    match query_flow_stats(port_id, reply) {
        Ok((hits, bytes)) => {
            total.record(hits, bytes);
            None
        },
        Err(e) => Some(e),
    }
}

/// What is wrong with lists of rules and counters for so many ports: there must be two rules for
/// each port and one counter for each rule.
pub open spec fn length_error(ports: nat, flows: nat, handles: nat) -> Option<FlowDropError> {
    if 2 * ports != flows {
        Some(FlowDropError::FlowCount(ports as usize, flows as usize))
    } else if flows != handles {
        Some(FlowDropError::HandleCount(flows as usize, handles as usize))
    } else {
        None
    }
}

/// What is wrong with the lengths of the lists.
fn check_lengths(ports: usize, flows: usize, handles: usize) -> (r: Option<FlowDropError>)
    ensures
        r == length_error(ports as nat, flows as nat, handles as nat),
{
    if flows % 2 != 0 || flows / 2 != ports {
        return Some(FlowDropError::FlowCount(ports, flows));
    }
    if flows != handles {
        return Some(FlowDropError::HandleCount(flows, handles));
    }
    None
}

/// Where a removal stands with its current rule.
#[derive(Clone, Copy, Debug, PartialEq, Eq, Structural)]
pub enum RemovePhase {
    /// The counter is to be read.
    Query,
    /// The rule is to be destroyed.
    Destroy,
    /// The counter is to be destroyed.
    Release,
    /// All rules are removed.
    Done,
    /// A rule could not be removed.
    Failed,
}

/// What is to be done next for a removal.
#[derive(Clone, Copy, Debug, PartialEq, Eq, Structural)]
pub enum RemoveAction {
    /// Read a counter on a port.
    Query(PortId, u64),
    /// Destroy a rule on a port.
    DestroyFlow(PortId, u64),
    /// Destroy a counter on a port.
    DestroyHandle(PortId, u64),
    /// Nothing: the rules are removed.
    Finished,
    /// Nothing: a rule could not be removed.
    Aborted,
}

/// What came of an action of a removal.
#[derive(Debug)]
pub enum RemoveEvent {
    /// A counter was read, or could not be for the reason given.
    Counted(Result<CountData, String>),
    /// A rule was destroyed.
    FlowDestroyed,
    /// A rule was not destroyed, for the reason given.
    FlowKept(String),
    /// A counter was destroyed, or could not be.
    HandleDestroyed,
}

/// The first index from `i` on with a rule, or the length of the list.
pub open spec fn next_rule(flows: Seq<u64>, i: nat) -> nat
    decreases flows.len() - i,
{
    if i >= flows.len() {
        flows.len()
    } else if flows[i as int] != 0 {
        i
    } else {
        next_rule(flows, i + 1)
    }
}

/// What a removal is, apart from its layout in memory.
pub struct RemoveModel {
    /// The ports that have the rules.
    pub ports: Seq<PortId>,
    /// The rules.
    pub flows: Seq<u64>,
    /// The counters of the rules.
    pub handles: Seq<u64>,
    /// Index of the current rule.
    pub at: nat,
    /// What is to be done with it.
    pub phase: RemovePhase,
    /// What the counters read so far.
    pub total: Discarded,
    /// Why the removal failed.
    pub error: Option<FlowDropError>,
}

impl RemoveModel {
    /// The removal before anything was done.
    pub open spec fn start(ports: Seq<PortId>, flows: Seq<u64>, handles: Seq<u64>) -> RemoveModel {
        (RemoveModel {
            ports,
            flows,
            handles,
            at: 0,
            phase: RemovePhase::Done,
            total: Discarded::zero(),
            error: None,
        }).enter(0)
    }

    /// The removal as it turns to the first rule from `i` on.
    pub open spec fn enter(self, i: nat) -> RemoveModel {
        let at = next_rule(self.flows, i);
        RemoveModel {
            at,
            phase: if at >= self.flows.len() {
                RemovePhase::Done
            } else if self.handles[at as int] != 0 {
                RemovePhase::Query
            } else {
                RemovePhase::Destroy
            },
            ..self
        }
    }

    /// The port of the current rule.
    pub open spec fn port(self) -> PortId {
        rule_port(self.ports, self.at as int)
    }

    /// The removal after an event. An event that does not answer the action that was asked for
    /// changes nothing.
    pub open spec fn step(self, ev: RemoveEvent) -> RemoveModel {
        match (self.phase, ev) {
            (RemovePhase::Query, RemoveEvent::Counted(reply)) => RemoveModel {
                total: tallied(self.total, reply),
                phase: RemovePhase::Destroy,
                ..self
            },
            (RemovePhase::Destroy, RemoveEvent::FlowDestroyed) => if self.handles[self.at as int]
                != 0 {
                RemoveModel { phase: RemovePhase::Release, ..self }
            } else {
                self.enter(self.at + 1)
            },
            (RemovePhase::Destroy, RemoveEvent::FlowKept(msg)) => RemoveModel {
                phase: RemovePhase::Failed,
                error: Some(FlowDropError::Uninstall(self.port(), msg)),
                ..self
            },
            (RemovePhase::Release, RemoveEvent::HandleDestroyed) => self.enter(self.at + 1),
            _ => self,
        }
    }

    /// What is to be done next.
    pub open spec fn asks(self) -> RemoveAction {
        match self.phase {
            RemovePhase::Query => RemoveAction::Query(self.port(), self.handles[self.at as int]),
            RemovePhase::Destroy => RemoveAction::DestroyFlow(
                self.port(),
                self.flows[self.at as int],
            ),
            RemovePhase::Release => RemoveAction::DestroyHandle(
                self.port(),
                self.handles[self.at as int],
            ),
            RemovePhase::Done => RemoveAction::Finished,
            RemovePhase::Failed => RemoveAction::Aborted,
        }
    }

    /// Whether the event answers the action that is asked for.
    pub open spec fn awaits(self, ev: RemoveEvent) -> bool {
        match self.phase {
            RemovePhase::Query => ev is Counted,
            RemovePhase::Destroy => ev is FlowDestroyed || ev is FlowKept,
            RemovePhase::Release => ev is HandleDestroyed,
            _ => false,
        }
    }

    /// What holds of every removal.
    pub open spec fn wf(self) -> bool {
        &&& self.flows.len() == 2 * self.ports.len()
        &&& self.handles.len() == self.flows.len()
        &&& self.at <= self.flows.len()
        &&& self.phase is Done <==> self.at == self.flows.len()
        &&& self.error is Some <==> self.phase is Failed
        &&& !(self.phase is Done) ==> self.flows[self.at as int] != 0
        &&& (self.phase is Query || self.phase is Release) ==> self.handles[self.at as int] != 0
    }

    /// How much is left to be asked for at most.
    pub open spec fn left(self) -> nat {
        let rest = 3 * (self.flows.len() - self.at) as nat;
        match self.phase {
            RemovePhase::Query => rest,
            RemovePhase::Destroy => (rest - 1) as nat,
            RemovePhase::Release => (rest - 2) as nat,
            RemovePhase::Done => 0,
            RemovePhase::Failed => 0,
        }
    }
}

/// The removal of the rules for a connection.
pub struct FlowRemover {
    ports: Vec<PortId>,
    flows: Vec<u64>,
    handles: Vec<u64>,
    at: usize,
    phase: RemovePhase,
    total: Discarded,
    error: Option<FlowDropError>,
}

impl FlowRemover {
    /// What the removal is.
    pub closed spec fn view(&self) -> RemoveModel {
        RemoveModel {
            ports: self.ports@,
            flows: self.flows@,
            handles: self.handles@,
            at: self.at as nat,
            phase: self.phase,
            total: self.total,
            error: self.error,
        }
    }

    /// What every step keeps.
    pub open spec fn wf(self) -> bool {
        self@.wf()
    }

    /// Turns to the first rule from `i` on.
    fn enter(&mut self, i: usize)
        requires
            i <= old(self).flows@.len(),
            old(self).handles@.len() == old(self).flows@.len(),
        ensures
            final(self)@ == old(self)@.enter(i as nat),
    {
        let mut at: usize = i;
        while at < self.flows.len() && self.flows[at] == 0
            invariant
                i <= at <= self.flows@.len(),
                next_rule(self.flows@, i as nat) == next_rule(self.flows@, at as nat),
            decreases self.flows@.len() - at,
        {
            at = at + 1;
        }
        self.at = at;
        self.phase = if at >= self.flows.len() {
            RemovePhase::Done
        } else if self.handles[at] != 0 {
            RemovePhase::Query
        } else {
            RemovePhase::Destroy
        };
    }

    /// The port of the current rule.
    fn port(&self) -> (r: PortId)
        requires
            self.ports@.len() > 0,
        ensures
            r == self@.port(),
    {
        self.ports[self.at % self.ports.len()]
    }

    /// What is to be done next.
    pub fn next(&self) -> (r: RemoveAction)
        requires
            self.wf(),
        ensures
            r == self@.asks(),
    {
        match self.phase {
            RemovePhase::Query => RemoveAction::Query(self.port(), self.handles[self.at]),
            RemovePhase::Destroy => RemoveAction::DestroyFlow(self.port(), self.flows[self.at]),
            RemovePhase::Release => RemoveAction::DestroyHandle(
                self.port(),
                self.handles[self.at],
            ),
            RemovePhase::Done => RemoveAction::Finished,
            RemovePhase::Failed => RemoveAction::Aborted,
        }
    }

    /// Takes note of what came of the action. Returns the error of a counter that could not be
    /// read.
    pub fn step(&mut self, ev: RemoveEvent) -> (r: Option<FlowDropError>)
        requires
            old(self).wf(),
        ensures
            final(self).wf(),
            final(self)@ == old(self)@.step(ev),
            r == match (old(self)@.phase, ev) {
                (RemovePhase::Query, RemoveEvent::Counted(Err(msg))) => Some(
                    FlowDropError::Query(old(self)@.port(), msg),
                ),
                _ => None::<FlowDropError>,
            },
    {
        proof {
            law_removal_keeps_wf(self@, ev);
        }
        assert(!(self.phase is Done) ==> self.at < self.flows.len());
        match (self.phase, ev) {
            (RemovePhase::Query, RemoveEvent::Counted(reply)) => {
                let p: PortId = self.port();
                let e: Option<FlowDropError> = tally(&mut self.total, p, reply);
                self.phase = RemovePhase::Destroy;
                e
            },
            (RemovePhase::Destroy, RemoveEvent::FlowDestroyed) => {
                if self.handles[self.at] != 0 {
                    self.phase = RemovePhase::Release;
                } else {
                    let i: usize = self.at + 1;
                    self.enter(i);
                }
                None
            },
            (RemovePhase::Destroy, RemoveEvent::FlowKept(msg)) => {
                let p: PortId = self.port();
                self.phase = RemovePhase::Failed;
                self.error = Some(FlowDropError::Uninstall(p, msg));
                None
            },
            (RemovePhase::Release, RemoveEvent::HandleDestroyed) => {
                let i: usize = self.at + 1;
                self.enter(i);
                None
            },
            _ => None,
        }
    }

    /// What the counters read.
    pub fn total(&self) -> (r: Discarded)
        ensures
            r == self@.total,
    {
        self.total
    }

    /// Whether all rules are removed, or why not.
    pub fn finish(self) -> (r: Result<(), FlowDropError>)
        requires
            self.wf(),
            self@.phase is Done || self@.phase is Failed,
        ensures
            match r {
                Ok(_) => self@.phase is Done,
                Err(e) => self@.phase is Failed && self@.error == Some(e),
            },
    {
        match self.error {
            Some(e) => Err(e),
            None => Ok(()),
        }
    }
}

/// Starts the removal of rules that were installed, reading their counters first.
pub fn uninstall_flow(port_ids: Vec<PortId>, flows: Vec<u64>, handles: Vec<u64>) -> (r: Result<
    FlowRemover,
    FlowDropError,
>)
    ensures
        match r {
            Ok(m) => {
                &&& length_error(port_ids@.len(), flows@.len(), handles@.len()) is None
                &&& m.wf()
                &&& m@ == RemoveModel::start(port_ids@, flows@, handles@)
            },
            Err(e) => length_error(port_ids@.len(), flows@.len(), handles@.len()) == Some(e),
        },
{
    match check_lengths(port_ids.len(), flows.len(), handles.len()) {
        Some(e) => Err(e),
        None => {
            proof {
                lemma_next_rule(flows@, 0);
            }
            let mut m: FlowRemover = FlowRemover {
                ports: port_ids,
                flows,
                handles,
                at: 0,
                phase: RemovePhase::Done,
                total: Discarded::new(),
                error: None,
            };
            m.enter(0);
            Ok(m)
        },
    }
}

/// The first index from `i` on with a rule and a counter, or the length of the list.
pub open spec fn next_counted(flows: Seq<u64>, handles: Seq<u64>, i: nat) -> nat
    decreases flows.len() - i,
{
    if i >= flows.len() {
        flows.len()
    } else if flows[i as int] != 0 && handles[i as int] != 0 {
        i
    } else {
        next_counted(flows, handles, i + 1)
    }
}

/// What is to be done next for a tally of resident rules.
#[derive(Clone, Copy, Debug, PartialEq, Eq, Structural)]
pub enum ResidentAction {
    /// Read a counter on a port.
    Query(PortId, u64),
    /// Nothing: every counter was read.
    Finished,
}

/// What a tally of resident rules is, apart from its layout in memory.
pub struct ResidentModel {
    /// The ports that have the rules.
    pub ports: Seq<PortId>,
    /// The rules.
    pub flows: Seq<u64>,
    /// The counters of the rules.
    pub handles: Seq<u64>,
    /// Index of the counter to be read.
    pub at: nat,
    /// What the counters read so far.
    pub total: Discarded,
}

impl ResidentModel {
    /// The tally before anything was read.
    pub open spec fn start(ports: Seq<PortId>, flows: Seq<u64>, handles: Seq<u64>) -> Self {
        ResidentModel {
            ports,
            flows,
            handles,
            at: next_counted(flows, handles, 0),
            total: Discarded::zero(),
        }
    }

    /// What is to be done next.
    pub open spec fn asks(self) -> ResidentAction {
        if self.at < self.flows.len() {
            ResidentAction::Query(
                rule_port(self.ports, self.at as int),
                self.handles[self.at as int],
            )
        } else {
            ResidentAction::Finished
        }
    }

    /// The tally after the driver answered. When every counter was read, an answer changes nothing.
    pub open spec fn step(self, reply: Result<CountData, String>) -> ResidentModel {
        if self.at < self.flows.len() {
            ResidentModel {
                total: tallied(self.total, reply),
                at: next_counted(self.flows, self.handles, self.at + 1),
                ..self
            }
        } else {
            self
        }
    }

    /// What holds of every tally.
    pub open spec fn wf(self) -> bool {
        &&& self.flows.len() == 2 * self.ports.len()
        &&& self.handles.len() == self.flows.len()
        &&& self.at <= self.flows.len()
        &&& self.at < self.flows.len() ==> {
            &&& self.flows[self.at as int] != 0
            &&& self.handles[self.at as int] != 0
        }
    }
}

/// A tally of the counters of rules that stay installed.
pub struct ResidentQuery {
    ports: Vec<PortId>,
    flows: Vec<u64>,
    handles: Vec<u64>,
    at: usize,
    total: Discarded,
}

impl ResidentQuery {
    /// What the tally is.
    pub closed spec fn view(&self) -> ResidentModel {
        ResidentModel {
            ports: self.ports@,
            flows: self.flows@,
            handles: self.handles@,
            at: self.at as nat,
            total: self.total,
        }
    }

    /// What every step keeps.
    pub open spec fn wf(self) -> bool {
        self@.wf()
    }

    /// Turns to the first counter from `i` on.
    fn enter(&mut self, i: usize)
        requires
            i <= old(self).flows@.len(),
            old(self).handles@.len() == old(self).flows@.len(),
        ensures
            final(self)@ == (ResidentModel {
                at: next_counted(old(self)@.flows, old(self)@.handles, i as nat),
                ..old(self)@
            }),
    {
        let mut at: usize = i;
        while at < self.flows.len() && (self.flows[at] == 0 || self.handles[at] == 0)
            invariant
                i <= at <= self.flows@.len(),
                self.handles@.len() == self.flows@.len(),
                next_counted(self.flows@, self.handles@, i as nat) == next_counted(
                    self.flows@,
                    self.handles@,
                    at as nat,
                ),
            decreases self.flows@.len() - at,
        {
            at = at + 1;
        }
        self.at = at;
    }

    /// What is to be done next.
    pub fn next(&self) -> (r: ResidentAction)
        requires
            self.wf(),
        ensures
            r == self@.asks(),
    {
        if self.at < self.flows.len() {
            ResidentAction::Query(self.ports[self.at % self.ports.len()], self.handles[self.at])
        } else {
            ResidentAction::Finished
        }
    }

    /// Takes note of what the driver answered. Returns the error of a counter that could not be
    /// read.
    pub fn step(&mut self, reply: Result<CountData, String>) -> (r: Option<FlowDropError>)
        requires
            old(self).wf(),
        ensures
            final(self).wf(),
            final(self)@ == old(self)@.step(reply),
            r == if old(self)@.at < old(self)@.flows.len() && reply is Err {
                Some(
                    FlowDropError::Query(
                        rule_port(old(self)@.ports, old(self)@.at as int),
                        reply->Err_0,
                    ),
                )
            } else {
                None
            },
    {
        if self.at < self.flows.len() {
            proof {
                lemma_next_counted(self.flows@, self.handles@, (self.at + 1) as nat);
            }
            let p: PortId = self.ports[self.at % self.ports.len()];
            let e: Option<FlowDropError> = tally(&mut self.total, p, reply);
            let i: usize = self.at + 1;
            self.enter(i);
            e
        } else {
            None
        }
    }

    /// What the counters read.
    pub fn total(&self) -> (r: Discarded)
        ensures
            r == self@.total,
    {
        self.total
    }
}

/// Starts a tally of the counters of rules that stay installed.
pub fn query_resident_flow(port_ids: Vec<PortId>, flows: Vec<u64>, handles: Vec<u64>) -> (r: Result<
    ResidentQuery,
    FlowDropError,
>)
    ensures
        match r {
            Ok(m) => {
                &&& length_error(port_ids@.len(), flows@.len(), handles@.len()) is None
                &&& m.wf()
                &&& m@ == ResidentModel::start(port_ids@, flows@, handles@)
            },
            Err(e) => length_error(port_ids@.len(), flows@.len(), handles@.len()) == Some(e),
        },
{
    match check_lengths(port_ids.len(), flows.len(), handles.len()) {
        Some(e) => Err(e),
        None => {
            proof {
                lemma_next_counted(flows@, handles@, 0);
            }
            let mut m: ResidentQuery = ResidentQuery {
                ports: port_ids,
                flows,
                handles,
                at: 0,
                total: Discarded::new(),
            };
            m.enter(0);
            Ok(m)
        },
    }
}

/// The next rule is a rule, and nothing that comes before it is.
pub proof fn lemma_next_rule(flows: Seq<u64>, i: nat)
    requires
        i <= flows.len(),
    ensures
        i <= next_rule(flows, i) <= flows.len(),
        next_rule(flows, i) < flows.len() ==> flows[next_rule(flows, i) as int] != 0,
        forall|j: int| i <= j < next_rule(flows, i) ==> flows[j] == 0,
    decreases flows.len() - i,
{
    if i < flows.len() && flows[i as int] == 0 {
        lemma_next_rule(flows, i + 1);
    }
}

/// The next counter belongs to a rule, and nothing that comes before it is both.
pub proof fn lemma_next_counted(flows: Seq<u64>, handles: Seq<u64>, i: nat)
    requires
        i <= flows.len(),
    ensures
        i <= next_counted(flows, handles, i) <= flows.len(),
        next_counted(flows, handles, i) < flows.len() ==> {
            &&& flows[next_counted(flows, handles, i) as int] != 0
            &&& handles[next_counted(flows, handles, i) as int] != 0
        },
        forall|j: int|
            i <= j < next_counted(flows, handles, i) ==> #[trigger] flows[j] == 0 || handles[j]
                == 0,
    decreases flows.len() - i,
{
    if i < flows.len() && (flows[i as int] == 0 || handles[i as int] == 0) {
        lemma_next_counted(flows, handles, i + 1);
    }
}

/// Every step of a removal keeps its invariant, and each answer brings it nearer to its end: a
/// removal asks for at most three things for each rule.
pub proof fn law_removal_keeps_wf(m: RemoveModel, ev: RemoveEvent)
    requires
        m.wf(),
    ensures
        m.step(ev).wf(),
        m.awaits(ev) ==> m.step(ev).left() < m.left(),
        !m.awaits(ev) ==> m.step(ev) == m,
{
    if m.at < m.flows.len() {
        lemma_next_rule(m.flows, m.at + 1);
    }
}

/// A counter is read before its rule is destroyed and is destroyed after the rule, all on the port
/// of the rule.
pub proof fn law_counter_outlives_its_rule(
    m: RemoveModel,
    reply: Result<CountData, String>,
)
    requires
        m.wf(),
        m.phase is Query,
    ensures
        ({
            let i = m.at as int;
            let port = rule_port(m.ports, i);
            let read = m.step(RemoveEvent::Counted(reply));
            let gone = read.step(RemoveEvent::FlowDestroyed);
            &&& m.asks() == RemoveAction::Query(port, m.handles[i])
            &&& read.asks() == RemoveAction::DestroyFlow(port, m.flows[i])
            &&& gone.asks() == RemoveAction::DestroyHandle(port, m.handles[i])
            &&& gone.step(RemoveEvent::HandleDestroyed).at > m.at
        }),
{
    lemma_next_rule(m.flows, m.at + 1);
}

/// A rule that the driver does not remove ends the removal at once: neither its counter nor any
/// later rule is touched.
pub proof fn law_refused_removal_stops(m: RemoveModel, msg: String, ev: RemoveEvent)
    requires
        m.wf(),
        m.phase is Destroy,
    ensures
        ({
            let kept = m.step(RemoveEvent::FlowKept(msg));
            &&& kept.asks() == RemoveAction::Aborted
            &&& kept.error == Some(FlowDropError::Uninstall(m.port(), msg))
            &&& kept.step(ev) == kept
        }),
{
}

/// Only null rules are passed over: between the current rule and the one that a removal turns to
/// next there is no rule.
pub proof fn law_no_rule_is_passed_over(m: RemoveModel, ev: RemoveEvent)
    requires
        m.wf(),
    ensures
        m.at <= m.step(ev).at,
        forall|j: int| m.at < j < m.step(ev).at ==> m.flows[j] == 0,
{
    if m.at < m.flows.len() {
        lemma_next_rule(m.flows, m.at + 1);
    }
}

/// What an installation leaves can be removed and tallied: the lists have the lengths that are
/// asked for.
pub proof fn law_installed_rules_can_be_removed(m: InstallModel)
    requires
        m.wf(),
        m.phase is Done,
    ensures
        length_error(m.ports.len(), m.flows.len(), m.handles.len()) is None,
        RemoveModel::start(m.ports, m.flows, m.handles).wf(),
        ResidentModel::start(m.ports, m.flows, m.handles).wf(),
{
    lemma_next_rule(m.flows, 0);
    lemma_next_counted(m.flows, m.handles, 0);
}

/// A tally of resident rules keeps its invariant, changes neither list, and passes over nothing
/// that has both a rule and a counter.
pub proof fn law_resident_tally(m: ResidentModel, reply: Result<CountData, String>)
    requires
        m.wf(),
    ensures
        m.step(reply).wf(),
        m.step(reply).flows == m.flows,
        m.step(reply).handles == m.handles,
        m.at < m.flows.len() ==> m.at < m.step(reply).at,
        forall|j: int|
            m.at < j < m.step(reply).at ==> #[trigger] m.flows[j] == 0 || m.handles[j] == 0,
{
    if m.at < m.flows.len() {
        lemma_next_counted(m.flows, m.handles, m.at + 1);
    }
}

/// The totals after the counters from index `i` on were read, where `replies` holds the driver's
/// answer for each rule. Only counters of rules are read.
pub open spec fn tally_from(
    total: Discarded,
    flows: Seq<u64>,
    handles: Seq<u64>,
    replies: Seq<Result<CountData, String>>,
    i: nat,
) -> Discarded
    decreases flows.len() - i,
{
    if i >= flows.len() {
        total
    } else if flows[i as int] != 0 && handles[i as int] != 0 {
        tally_from(tallied(total, replies[i as int]), flows, handles, replies, i + 1)
    } else {
        tally_from(total, flows, handles, replies, i + 1)
    }
}

/// A removal carried on to its end, where the driver destroys whatever it is asked to.
pub open spec fn removed(m: RemoveModel, replies: Seq<Result<CountData, String>>) -> RemoveModel
    decreases m.left(),
    when m.wf()
    via removed_decreases
{
    match m.phase {
        RemovePhase::Query => removed(m.step(RemoveEvent::Counted(replies[m.at as int])), replies),
        RemovePhase::Destroy => removed(m.step(RemoveEvent::FlowDestroyed), replies),
        RemovePhase::Release => removed(m.step(RemoveEvent::HandleDestroyed), replies),
        _ => m,
    }
}

#[via_fn]
proof fn removed_decreases(m: RemoveModel, replies: Seq<Result<CountData, String>>) {
    law_removal_keeps_wf(m, RemoveEvent::Counted(replies[m.at as int]));
    law_removal_keeps_wf(m, RemoveEvent::FlowDestroyed);
    law_removal_keeps_wf(m, RemoveEvent::HandleDestroyed);
}

/// A tally of resident rules carried on to its end.
pub open spec fn read_out(m: ResidentModel, replies: Seq<Result<CountData, String>>) -> ResidentModel
    decreases m.flows.len() - m.at,
    when m.wf()
    via read_out_decreases
{
    if m.at < m.flows.len() {
        read_out(m.step(replies[m.at as int]), replies)
    } else {
        m
    }
}

#[via_fn]
proof fn read_out_decreases(m: ResidentModel, replies: Seq<Result<CountData, String>>) {
    law_resident_tally(m, replies[m.at as int]);
}

/// Null rules and null counters add nothing to the totals.
proof fn lemma_tally_skips(
    total: Discarded,
    flows: Seq<u64>,
    handles: Seq<u64>,
    replies: Seq<Result<CountData, String>>,
    i: nat,
    j: nat,
)
    requires
        i <= j <= flows.len(),
        forall|k: int| i <= k < j ==> #[trigger] flows[k] == 0 || handles[k] == 0,
    ensures
        tally_from(total, flows, handles, replies, i) == tally_from(
            total,
            flows,
            handles,
            replies,
            j,
        ),
    decreases j - i,
{
    if i < j {
        assert(flows[i as int] == 0 || handles[i as int] == 0);
        lemma_tally_skips(total, flows, handles, replies, i + 1, j);
    }
}

/// What a removal that is carried on to its end has tallied.
proof fn lemma_removed(m: RemoveModel, replies: Seq<Result<CountData, String>>)
    requires
        m.wf(),
        !(m.phase is Failed),
    ensures
        removed(m, replies).phase is Done,
        removed(m, replies).total == match m.phase {
            RemovePhase::Query => tally_from(m.total, m.flows, m.handles, replies, m.at),
            RemovePhase::Done => m.total,
            _ => tally_from(m.total, m.flows, m.handles, replies, m.at + 1),
        },
    decreases m.left(),
{
    let i = m.at;
    match m.phase {
        RemovePhase::Query => {
            let ev = RemoveEvent::Counted(replies[i as int]);
            law_removal_keeps_wf(m, ev);
            lemma_removed(m.step(ev), replies);
        },
        RemovePhase::Destroy => {
            let ev = RemoveEvent::FlowDestroyed;
            law_removal_keeps_wf(m, ev);
            lemma_removed(m.step(ev), replies);
            if m.handles[i as int] == 0 {
                lemma_entered(m, replies);
            }
        },
        RemovePhase::Release => {
            let ev = RemoveEvent::HandleDestroyed;
            law_removal_keeps_wf(m, ev);
            lemma_removed(m.step(ev), replies);
            lemma_entered(m, replies);
        },
        _ => {},
    }
}

/// What is left to be tallied when a removal turns to the next rule.
proof fn lemma_entered(m: RemoveModel, replies: Seq<Result<CountData, String>>)
    requires
        m.wf(),
        m.at < m.flows.len(),
    ensures
        ({
            let n = m.enter(m.at + 1);
            tally_from(m.total, m.flows, m.handles, replies, m.at + 1) == match n.phase {
                RemovePhase::Query => tally_from(n.total, n.flows, n.handles, replies, n.at),
                RemovePhase::Done => n.total,
                _ => tally_from(n.total, n.flows, n.handles, replies, n.at + 1),
            }
        }),
{
    lemma_next_rule(m.flows, m.at + 1);
    lemma_tally_skips(
        m.total,
        m.flows,
        m.handles,
        replies,
        m.at + 1,
        next_rule(m.flows, m.at + 1),
    );
}

/// What a tally of resident rules that is carried on to its end has tallied.
proof fn lemma_read_out(m: ResidentModel, replies: Seq<Result<CountData, String>>)
    requires
        m.wf(),
    ensures
        read_out(m, replies).at == m.flows.len(),
        read_out(m, replies).total == tally_from(m.total, m.flows, m.handles, replies, m.at),
    decreases m.flows.len() - m.at,
{
    if m.at < m.flows.len() {
        let r = replies[m.at as int];
        law_resident_tally(m, r);
        lemma_read_out(m.step(r), replies);
        lemma_next_counted(m.flows, m.handles, m.at + 1);
        lemma_tally_skips(
            m.step(r).total,
            m.flows,
            m.handles,
            replies,
            m.at + 1,
            m.step(r).at,
        );
    }
}

/// Removing the rules of a connection and tallying them while they stay read the same counters and
/// come to the same totals; a removal that the driver does not refuse removes all of them.
pub proof fn law_removal_and_tally_agree(
    ports: Seq<PortId>,
    flows: Seq<u64>,
    handles: Seq<u64>,
    replies: Seq<Result<CountData, String>>,
)
    requires
        length_error(ports.len(), flows.len(), handles.len()) is None,
    ensures
        removed(RemoveModel::start(ports, flows, handles), replies).phase is Done,
        removed(RemoveModel::start(ports, flows, handles), replies).total == tally_from(
            Discarded::zero(),
            flows,
            handles,
            replies,
            0,
        ),
        read_out(ResidentModel::start(ports, flows, handles), replies).total == tally_from(
            Discarded::zero(),
            flows,
            handles,
            replies,
            0,
        ),
{
    let m = RemoveModel::start(ports, flows, handles);
    let q = ResidentModel::start(ports, flows, handles);
    lemma_next_rule(flows, 0);
    lemma_next_counted(flows, handles, 0);
    lemma_removed(m, replies);
    lemma_read_out(q, replies);
    lemma_tally_skips(Discarded::zero(), flows, handles, replies, 0, m.at);
    lemma_tally_skips(Discarded::zero(), flows, handles, replies, 0, q.at);
}

/// What a reading adds to the totals: the packets where the driver filled them in, and
/// independently of that the bytes; an error adds nothing. The totals wrap at 2^64.
pub proof fn law_reading_is_added(total: Discarded, data: CountData, msg: String)
    ensures
        ({
            let next = tallied(total, Ok(data));
            let hits = if data.hits_set {
                data.hits as int
            } else {
                0
            };
            let bytes = if data.bytes_set {
                data.bytes as int
            } else {
                0
            };
            &&& total.packets + hits < 0x1_0000_0000_0000_0000 ==> next.packets == total.packets
                + hits
            &&& total.packets + hits >= 0x1_0000_0000_0000_0000 ==> next.packets == total.packets
                + hits - 0x1_0000_0000_0000_0000
            &&& total.bytes + bytes < 0x1_0000_0000_0000_0000 ==> next.bytes == total.bytes + bytes
            &&& total.bytes + bytes >= 0x1_0000_0000_0000_0000 ==> next.bytes == total.bytes + bytes
                - 0x1_0000_0000_0000_0000
        }),
        tallied(total, Err(msg)) == total,
        Discarded::zero().packets == 0,
        Discarded::zero().bytes == 0,
{
}

/// The lists that a removal or a tally takes: two rules for each port and one counter for each
/// rule. What is wrong is told with the two lengths that disagree, the rules first.
pub proof fn law_lengths_that_agree(ports: usize, flows: usize, handles: usize)
    ensures
        length_error(ports as nat, flows as nat, handles as nat) is None <==> flows == 2 * ports
            && handles == flows,
        flows != 2 * ports ==> length_error(ports as nat, flows as nat, handles as nat) == Some(
            FlowDropError::FlowCount(ports, flows),
        ),
        flows == 2 * ports && handles != flows ==> length_error(
            ports as nat,
            flows as nat,
            handles as nat,
        ) == Some(FlowDropError::HandleCount(flows, handles)),
{
}

/// What a removal does to the first rule of its list: a rule with a counter is read, destroyed and
/// its counter released, and a rule without a counter is only destroyed, on the first port; a null
/// rule is passed over.
pub proof fn law_removal_of_the_first_rule(
    ports: Seq<PortId>,
    flows: Seq<u64>,
    handles: Seq<u64>,
    reply: Result<CountData, String>,
)
    requires
        ports.len() > 0,
        flows.len() == 2 * ports.len(),
        handles.len() == flows.len(),
    ensures
        ({
            let m = RemoveModel::start(ports, flows, handles);
            let read = m.step(RemoveEvent::Counted(reply));
            let gone = read.step(RemoveEvent::FlowDestroyed);
            &&& flows[0] != 0 && handles[0] != 0 ==> {
                &&& m.asks() == RemoveAction::Query(ports[0], handles[0])
                &&& read.asks() == RemoveAction::DestroyFlow(ports[0], flows[0])
                &&& gone.asks() == RemoveAction::DestroyHandle(ports[0], handles[0])
            }
            &&& flows[0] != 0 && handles[0] == 0 ==> {
                &&& m.asks() == RemoveAction::DestroyFlow(ports[0], flows[0])
                &&& m.step(RemoveEvent::FlowDestroyed).at >= 1
            }
            &&& flows[0] == 0 ==> m.at >= 1
            &&& m.total.packets == 0 && m.total.bytes == 0
            &&& (forall|i: int| 0 <= i < flows.len() ==> flows[i] == 0) ==> m.asks()
                == RemoveAction::Finished
        }),
{
    lemma_next_rule(flows, 0);
    lemma_next_rule(flows, 1);
    vstd::arithmetic::div_mod::lemma_small_mod(0, ports.len());
}

/// Rule `i` of a removal and of a tally is on the port that it was installed on: the ports in order
/// for the first half of the list, and again for the second half.
pub proof fn law_rules_are_met_on_their_ports(
    m: RemoveModel,
    q: ResidentModel,
    reply: Result<CountData, String>,
)
    requires
        m.wf(),
        q.wf(),
    ensures
        ({
            let i = m.at as int;
            let n = m.ports.len();
            let port = if i < n {
                m.ports[i]
            } else {
                m.ports[i - n]
            };
            &&& m.phase is Query ==> m.asks() == RemoveAction::Query(port, m.handles[i])
            &&& m.phase is Destroy ==> m.asks() == RemoveAction::DestroyFlow(port, m.flows[i])
            &&& m.phase is Release ==> m.asks() == RemoveAction::DestroyHandle(port, m.handles[i])
            &&& m.phase is Done ==> m.asks() == RemoveAction::Finished
            &&& m.phase is Failed ==> m.asks() == RemoveAction::Aborted
        }),
        ({
            let i = q.at as int;
            let n = q.ports.len();
            &&& i < n ==> q.asks() == ResidentAction::Query(q.ports[i], q.handles[i])
            &&& n <= i < 2 * n ==> q.asks() == ResidentAction::Query(q.ports[i - n], q.handles[i])
            &&& i == 2 * n ==> q.asks() == ResidentAction::Finished
        }),
{
    if m.at < m.flows.len() {
        law_forward_then_reverse(m.ports, m.at as int);
    }
    if q.at < q.flows.len() {
        law_forward_then_reverse(q.ports, q.at as int);
    }
}

/// The sums of the packets and bytes that some readings hold, over the rules that have a counter.
pub open spec fn read_sums(
    flows: Seq<u64>,
    handles: Seq<u64>,
    replies: Seq<Result<CountData, String>>,
    i: nat,
) -> (int, int)
    decreases flows.len() - i,
{
    if i >= flows.len() {
        (0, 0)
    } else {
        let rest = read_sums(flows, handles, replies, i + 1);
        match replies[i as int] {
            Ok(d) if flows[i as int] != 0 && handles[i as int] != 0 => (
                rest.0 + if d.hits_set {
                    d.hits as int
                } else {
                    0
                },
                rest.1 + if d.bytes_set {
                    d.bytes as int
                } else {
                    0
                },
            ),
            _ => rest,
        }
    }
}

/// What the totals come to where they do not wrap.
proof fn lemma_tally_is_a_sum(
    total: Discarded,
    flows: Seq<u64>,
    handles: Seq<u64>,
    replies: Seq<Result<CountData, String>>,
    i: nat,
)
    requires
        i <= flows.len(),
        total.packets + read_sums(flows, handles, replies, i).0 <= u64::MAX,
        total.bytes + read_sums(flows, handles, replies, i).1 <= u64::MAX,
    ensures
        read_sums(flows, handles, replies, i).0 >= 0,
        read_sums(flows, handles, replies, i).1 >= 0,
        tally_from(total, flows, handles, replies, i).packets == total.packets + read_sums(
            flows,
            handles,
            replies,
            i,
        ).0,
        tally_from(total, flows, handles, replies, i).bytes == total.bytes + read_sums(
            flows,
            handles,
            replies,
            i,
        ).1,
    decreases flows.len() - i,
{
    lemma_read_sums(flows, handles, replies, i);
    if i < flows.len() {
        lemma_read_sums(flows, handles, replies, i + 1);
        if flows[i as int] != 0 && handles[i as int] != 0 {
            lemma_tally_is_a_sum(
                tallied(total, replies[i as int]),
                flows,
                handles,
                replies,
                i + 1,
            );
        } else {
            lemma_tally_is_a_sum(total, flows, handles, replies, i + 1);
        }
    }
}

/// Sums of readings are not negative.
proof fn lemma_read_sums(
    flows: Seq<u64>,
    handles: Seq<u64>,
    replies: Seq<Result<CountData, String>>,
    i: nat,
)
    ensures
        read_sums(flows, handles, replies, i).0 >= 0,
        read_sums(flows, handles, replies, i).1 >= 0,
    decreases flows.len() - i,
{
    if i < flows.len() {
        lemma_read_sums(flows, handles, replies, i + 1);
    }
}

/// The totals of a removal that the driver does not refuse, and of a tally, are the sums of what
/// the counters read.
pub proof fn law_totals_are_sums(
    ports: Seq<PortId>,
    flows: Seq<u64>,
    handles: Seq<u64>,
    replies: Seq<Result<CountData, String>>,
)
    requires
        flows.len() == 2 * ports.len(),
        handles.len() == flows.len(),
        read_sums(flows, handles, replies, 0).0 <= u64::MAX,
        read_sums(flows, handles, replies, 0).1 <= u64::MAX,
    ensures
        ({
            let (packets, bytes) = read_sums(flows, handles, replies, 0);
            let gone = removed(RemoveModel::start(ports, flows, handles), replies);
            let read = read_out(ResidentModel::start(ports, flows, handles), replies);
            &&& gone.phase is Done
            &&& gone.total.packets == packets && gone.total.bytes == bytes
            &&& read.total.packets == packets && read.total.bytes == bytes
        }),
{
    law_removal_and_tally_agree(ports, flows, handles, replies);
    lemma_tally_is_a_sum(Discarded::zero(), flows, handles, replies, 0);
}

} // verus!
