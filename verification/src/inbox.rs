//! The control plane: how rules reach the flow table of each core.
//!
//! Every RX core owns its table and drains its own inbox. The control plane holds the sending ends
//! and pushes commands to one core or to all of them.

use crossbeam::channel::{unbounded, Receiver, Sender};
use std::collections::HashMap;
use vstd::prelude::*;

use crate::conn_id::FiveTuple;
use crate::flow_model::{FlowAction, FlowCommand, TableModel};
use crate::lcore::CoreId;
use crate::sw_flow::FlowTable;
use crate::text::{ascii_lower, eq_ignore_ascii_case, same_ignoring_ascii_case, same_text};

verus! {

broadcast use vstd::std_specs::hash::group_hash_axioms;

/// The sending end of a channel of the crate `crossbeam`.
#[verifier::external_type_specification]
#[verifier::external_body]
#[verifier::reject_recursive_types(T)]
pub struct ExSender<T>(crossbeam::channel::Sender<T>);

/// The receiving end of a channel of the crate `crossbeam`.
#[verifier::external_type_specification]
#[verifier::external_body]
#[verifier::reject_recursive_types(T)]
pub struct ExReceiver<T>(crossbeam::channel::Receiver<T>);

/// The commands that were handed to a sending end, the oldest first, each with whether the channel
/// took it.
pub uninterp spec fn handed(tx: Sender<FlowCommand>) -> Seq<(FlowCommand, bool)>;

/// What asking a receiving end for a command gave each time, the first time first: the command that
/// was taken out of the channel, or `None` if there was none.
pub uninterp spec fn polled(rx: Receiver<FlowCommand>) -> Seq<Option<FlowCommand>>;

/// All commands that the channel of a sending end ever takes in, in that order.
pub uninterp spec fn carried_in(tx: Sender<FlowCommand>) -> Seq<FlowCommand>;

/// All commands that the channel of a receiving end ever takes in, in that order.
pub uninterp spec fn carried_out(rx: Receiver<FlowCommand>) -> Seq<FlowCommand>;

/// The commands that a channel took, out of those that were handed to it.
pub open spec fn taken(history: Seq<(FlowCommand, bool)>) -> Seq<FlowCommand>
    decreases history.len(),
{
    if history.len() == 0 {
        Seq::empty()
    } else if history.last().1 {
        taken(history.drop_last()).push(history.last().0)
    } else {
        taken(history.drop_last())
    }
}

/// The commands that a channel gave, out of the answers that asking it brought.
pub open spec fn given(answers: Seq<Option<FlowCommand>>) -> Seq<FlowCommand>
    decreases answers.len(),
{
    if answers.len() == 0 {
        Seq::empty()
    } else {
        match answers.last() {
            Some(cmd) => given(answers.drop_last()).push(cmd),
            None => given(answers.drop_last()),
        }
    }
}

/// Whether `cmd` is the command at place `n` of what a channel carries.
pub open spec fn carries(stream: Seq<FlowCommand>, n: nat, cmd: FlowCommand) -> bool {
    n < stream.len() && stream[n as int] == cmd
}

/// `crossbeam::channel::unbounded`: creates a channel that can hold any number of commands, and
/// returns its two ends. Nothing was handed to the sending end yet, and the receiving end was not
/// asked yet. The ends belong to one channel: what goes in at the one comes out at the other.
#[verifier::external_body]
fn new_channel() -> (r: (Sender<FlowCommand>, Receiver<FlowCommand>))
    ensures
        handed(r.0) == Seq::<(FlowCommand, bool)>::empty(),
        polled(r.1) == Seq::<Option<FlowCommand>>::empty(),
        carried_in(r.0) == carried_out(r.1),
{
    unbounded()
}

/// `crossbeam::channel::Sender::send`, on an unbounded channel: puts the command into the channel
/// and returns `true`, or leaves the channel as it is and returns `false`. The latter happens when
/// the receiving end is gone, which is up to the receiving core; nothing is said of when that is.
/// A channel has one sending end here, which is never cloned: a command that is taken stands
/// directly behind those that this end had brought in before.
#[verifier::external_body]
fn send(tx: &mut Sender<FlowCommand>, cmd: FlowCommand) -> (ok: bool)
    ensures
        handed(*final(tx)) == handed(*old(tx)).push((cmd, ok)),
        carried_in(*final(tx)) == carried_in(*old(tx)),
        ok ==> carries(carried_in(*old(tx)), taken(handed(*old(tx))).len(), cmd),
{
    tx.send(cmd).is_ok()
}

/// Whether the value of the switch turns the software flow table on.
///
/// The table is on by default; `0` and any spelling of `false` turn it off.
pub open spec fn switched_on(value: Option<Seq<char>>) -> bool {
    match value {
        Some(v) => v != "0"@ && !same_ignoring_ascii_case(v, "false"@),
        None => true,
    }
}

/// Whether the software flow table is enabled, given the value of its environment variable.
///
/// When disabled, installs are no-ops and the datapath skips the lookup entirely.
pub fn enabled(value: Option<&str>) -> (r: bool)
    ensures
        r == switched_on(match value {
            Some(v) => Some(v@),
            None => None,
        }),
{
    match value {
        Some(v) => !same_text(v, "0") && !eq_ignore_ascii_case(v, "false"),
        None => true,
    }
}

/// Registry of the per-core inboxes.
pub struct Inboxes {
    senders: HashMap<u32, Sender<FlowCommand>>,
}

impl View for Inboxes {
    type V = Map<u32, Seq<(FlowCommand, bool)>>;

    /// For each registered core, the commands that were handed to its inbox, each with whether the
    /// inbox took it.
    closed spec fn view(&self) -> Map<u32, Seq<(FlowCommand, bool)>> {
        self.senders@.map_values(|tx: Sender<FlowCommand>| handed(tx))
    }
}

/// The receiving end of a core's inbox. The core that registered is its only owner.
pub struct Inbox {
    rx: Receiver<FlowCommand>,
}

impl View for Inbox {
    type V = Seq<Option<FlowCommand>>;

    /// What asking the inbox for a command gave each time, the first time first.
    closed spec fn view(&self) -> Seq<Option<FlowCommand>> {
        polled(self.rx)
    }
}

impl Inbox {
    /// All commands that the inbox ever takes in, in that order.
    pub closed spec fn carried(self) -> Seq<FlowCommand> {
        carried_out(self.rx)
    }
}

impl Inboxes {
    /// For each registered core, all commands that its inbox ever takes in, in that order.
    pub closed spec fn carried(self) -> Map<u32, Seq<FlowCommand>> {
        self.senders@.map_values(|tx: Sender<FlowCommand>| carried_in(tx))
    }

    /// A registry without any core.
    pub fn new() -> (r: Self)
        ensures
            r@ == Map::<u32, Seq<(FlowCommand, bool)>>::empty(),
            r.carried() == Map::<u32, Seq<FlowCommand>>::empty(),
    {
        let r = Inboxes { senders: HashMap::new() };
        assert(r@ =~= Map::empty());
        assert(r.carried() =~= Map::empty());
        r
    }

    /// Pushes a command to one core. Returns `false` if disabled, or if that core has no
    /// registered inbox, or if the core is gone.
    fn push(&mut self, on: bool, core: CoreId, cmd: FlowCommand) -> (r: bool)
        ensures
            pushed_to_one(old(self)@, final(self)@, old(self).carried(), on, core, cmd, r),
            final(self).carried() == old(self).carried(),
    {
        if !on {
            return false;
        }
        match self.senders.remove(&core.0) {
            Some(mut tx) => {
                let ok: bool = send(&mut tx, cmd);
                self.senders.insert(core.0, tx);
                assert(self@ =~= old(self)@.insert(core.0, old(self)@[core.0].push((cmd, ok))));
                assert(self.carried() =~= old(self).carried());
                ok
            },
            None => {
                assert(self@ =~= old(self)@);
                assert(self.carried() =~= old(self).carried());
                false
            },
        }
    }

    /// The registered cores, each once.
    fn cores(&self) -> (r: Vec<u32>)
        ensures
            r@.no_duplicates(),
            forall|k: u32| r@.contains(k) <==> self@.contains_key(k),
    {
        let mut out: Vec<u32> = Vec::new();
        for k in it: self.senders.keys()
            invariant
                it.seq().no_duplicates(),
                it.seq().unref().to_set() == self.senders@.dom(),
                out@ == it.seq().unref().take(it.index() as int),
                out@.no_duplicates(),
                it.index() == it.seq().len() ==> out@.to_set() == self.senders@.dom(),
        {
            out.push(*k);
            assert(out@ =~= it.seq().unref().take(it.index() + 1));
            assert forall|i: int, j: int| 0 <= i < out@.len() && 0 <= j < out@.len() && i
                != j implies out@[i] != out@[j] by {
                assert(it.seq()[i] != it.seq()[j]);
            }
            assert(it.index() + 1 == it.seq().len() ==> out@ =~= it.seq().unref());
        }
        assert forall|k: u32| out@.contains(k) <==> self@.contains_key(k) by {
            assert(out@.contains(k) <==> out@.to_set().contains(k));
        }
        out
    }

    /// Pushes a command to every registered core: all queues honor a rule, whichever of them the
    /// flow is steered to. A core that is gone is skipped.
    fn push_all(&mut self, on: bool, cmd: FlowCommand)
        ensures
            pushed_to_all(old(self)@, final(self)@, old(self).carried(), on, cmd),
            final(self).carried() == old(self).carried(),
    {
        if !on {
            return;
        }
        let ids: Vec<u32> = self.cores();
        let ghost before = self@;
        let ghost carried = self.carried();
        let mut i: usize = 0;
        while i < ids.len()
            invariant
                on,
                i <= ids.len(),
                ids@.no_duplicates(),
                forall|k: u32| ids@.contains(k) <==> before.contains_key(k),
                self@.dom() == before.dom(),
                self.carried() == carried,
                forall|j: int|
                    #![trigger ids@[j]]
                    0 <= j < i ==> offered(
                        before[ids@[j]],
                        self@[ids@[j]],
                        carried[ids@[j]],
                        cmd,
                    ),
                forall|j: int|
                    #![trigger ids@[j]]
                    i <= j < ids.len() ==> self@[ids@[j]] == before[ids@[j]],
            decreases ids.len() - i,
        {
            assert(ids@.contains(ids@[i as int]));
            let _ok: bool = self.push(on, CoreId(ids[i]), cmd);
            assert(self@.dom() =~= before.dom());
            i = i + 1;
        }
        proof {
            assert forall|k: u32| #[trigger] before.contains_key(k) implies offered(
                before[k],
                self@[k],
                carried[k],
                cmd,
            ) by {
                assert(ids@.contains(k));
                let j = choose|j: int| 0 <= j < ids@.len() && ids@[j] == k;
                assert(ids@[j] == k);
            }
        }
    }
}

/// Whether `after` is `before` with `cmd` handed over once more, taken or not. A command that is
/// taken is the next one of the `stream` that the inbox carries.
pub open spec fn offered(
    before: Seq<(FlowCommand, bool)>,
    after: Seq<(FlowCommand, bool)>,
    stream: Seq<FlowCommand>,
    cmd: FlowCommand,
) -> bool {
    ||| after == before.push((cmd, true)) && carries(stream, taken(before).len(), cmd)
    ||| after == before.push((cmd, false))
}

/// What a push of `cmd` to one core does to the inboxes, where `r` is the answer.
///
/// If the flow table is on and the core is registered, the command is handed to that core's inbox,
/// and the answer is whether the inbox took it; a command that it took is the next one that it
/// carries. Otherwise nothing happens.
pub open spec fn pushed_to_one(
    before: Map<u32, Seq<(FlowCommand, bool)>>,
    after: Map<u32, Seq<(FlowCommand, bool)>>,
    carried: Map<u32, Seq<FlowCommand>>,
    on: bool,
    core: CoreId,
    cmd: FlowCommand,
    r: bool,
) -> bool {
    if on && before.contains_key(core.0) {
        &&& after == before.insert(core.0, before[core.0].push((cmd, r)))
        &&& r ==> carries(carried[core.0], taken(before[core.0]).len(), cmd)
    } else {
        !r && after == before
    }
}

/// What a push of `cmd` to all cores does to the inboxes: if the flow table is on, the command is
/// handed once to the inbox of every registered core, and otherwise nothing happens.
pub open spec fn pushed_to_all(
    before: Map<u32, Seq<(FlowCommand, bool)>>,
    after: Map<u32, Seq<(FlowCommand, bool)>>,
    carried: Map<u32, Seq<FlowCommand>>,
    on: bool,
    cmd: FlowCommand,
) -> bool {
    if on {
        &&& after.dom() == before.dom()
        &&& forall|k: u32| #[trigger]
            before.contains_key(k) ==> offered(before[k], after[k], carried[k], cmd)
    } else {
        after == before
    }
}

/// Control-plane API: install a rule on a specific core's table.
///
/// Returns whether the rule was handed to the core; it is not if the flow table is disabled or the
/// core has no inbox.
pub fn install(
    inboxes: &mut Inboxes,
    on: bool,
    core: CoreId,
    tuple: FiveTuple,
    action: FlowAction,
) -> (r: bool)
    ensures
        pushed_to_one(
            old(inboxes)@,
            final(inboxes)@,
            old(inboxes).carried(),
            on,
            core,
            FlowCommand::Install(tuple, action),
            r,
        ),
        final(inboxes).carried() == old(inboxes).carried(),
{
    inboxes.push(on, core, FlowCommand::Install(tuple, action))
}

/// Control-plane API: remove a rule from a specific core's table.
///
/// Returns whether the request was handed to the core; it is not if the flow table is disabled or
/// the core has no inbox.
pub fn uninstall(inboxes: &mut Inboxes, on: bool, core: CoreId, tuple: FiveTuple) -> (r: bool)
    ensures
        pushed_to_one(
            old(inboxes)@,
            final(inboxes)@,
            old(inboxes).carried(),
            on,
            core,
            FlowCommand::Uninstall(tuple),
            r,
        ),
        final(inboxes).carried() == old(inboxes).carried(),
{
    inboxes.push(on, core, FlowCommand::Uninstall(tuple))
}

/// Control-plane API: install a rule on every core.
pub fn install_all(inboxes: &mut Inboxes, on: bool, tuple: FiveTuple, action: FlowAction)
    ensures
        pushed_to_all(
            old(inboxes)@,
            final(inboxes)@,
            old(inboxes).carried(),
            on,
            FlowCommand::Install(tuple, action),
        ),
        final(inboxes).carried() == old(inboxes).carried(),
{
    inboxes.push_all(on, FlowCommand::Install(tuple, action));
}

/// Control-plane API: remove a rule from every core.
pub fn uninstall_all(inboxes: &mut Inboxes, on: bool, tuple: FiveTuple)
    ensures
        pushed_to_all(
            old(inboxes)@,
            final(inboxes)@,
            old(inboxes).carried(),
            on,
            FlowCommand::Uninstall(tuple),
        ),
        final(inboxes).carried() == old(inboxes).carried(),
{
    inboxes.push_all(on, FlowCommand::Uninstall(tuple));
}

/// `crossbeam::channel::Receiver::try_recv`: takes the oldest command out of the channel without
/// waiting, or `None` if there is none or if every sending end is gone. The receiving end was asked
/// once more, and the result is what it gave. A channel has one receiving end here, which is never
/// cloned: a command that comes is the one that the channel took in directly behind those that
/// came before. Whether one is there depends on what other threads have sent so far; nothing is
/// said of that.
#[verifier::external_body]
fn try_recv(rx: &mut Receiver<FlowCommand>) -> (r: Option<FlowCommand>)
    ensures
        polled(*final(rx)) == polled(*old(rx)).push(r),
        carried_out(*final(rx)) == carried_out(*old(rx)),
        r matches Some(cmd) ==> carries(
            carried_out(*old(rx)),
            given(polled(*old(rx))).len(),
            cmd,
        ),
{
    rx.try_recv().ok()
}

/// Asks a core's inbox once for the next command that waits in it, applies the command to the
/// core's table and returns it; `None`, with the table as it was, if no command waits. The commands
/// come in the order in which the inbox took them. A core calls this until it returns `None`.
pub fn apply_next(table: &mut FlowTable, inbox: &mut Inbox) -> (r: Option<FlowCommand>)
    requires
        old(table).wf(),
        old(table)@.tick < u64::MAX,
    ensures
        final(table).wf(),
        final(table)@ == match r {
            Some(cmd) => old(table)@.apply(cmd),
            None => old(table)@,
        },
        final(inbox)@ == old(inbox)@.push(r),
        final(inbox).carried() == old(inbox).carried(),
        r matches Some(cmd) ==> carries(old(inbox).carried(), given(old(inbox)@).len(), cmd),
{
    match try_recv(&mut inbox.rx) {
        Some(cmd) => {
            table.apply(cmd);
            Some(cmd)
        },
        None => None,
    }
}

/// Registers an inbox for `core` and returns the receiving end that the core drains at the top of
/// its RX loop. An earlier inbox of that core is replaced.
pub fn register_core(inboxes: &mut Inboxes, core: CoreId) -> (inbox: Inbox)
    ensures
        final(inboxes)@ == old(inboxes)@.insert(core.0, Seq::<(FlowCommand, bool)>::empty()),
        inbox@ == Seq::<Option<FlowCommand>>::empty(),
        final(inboxes).carried() == old(inboxes).carried().insert(core.0, inbox.carried()),
{
    let (tx, rx) = new_channel();
    inboxes.senders.insert(core.0, tx);
    assert(inboxes@ =~= old(inboxes)@.insert(core.0, Seq::<(FlowCommand, bool)>::empty()));
    assert(inboxes.carried() =~= old(inboxes).carried().insert(core.0, carried_out(rx)));
    Inbox { rx }
}

/// While the flow table is disabled, the control plane does nothing: no core is handed anything.
pub proof fn law_disabled_control_plane_is_idle(
    before: Map<u32, Seq<(FlowCommand, bool)>>,
    after: Map<u32, Seq<(FlowCommand, bool)>>,
    carried: Map<u32, Seq<FlowCommand>>,
    core: CoreId,
    cmd: FlowCommand,
    r: bool,
)
    ensures
        pushed_to_one(before, after, carried, false, core, cmd, r) ==> !r && after == before,
        pushed_to_all(before, after, carried, false, cmd) ==> after == before,
{
}

/// A push to all cores hands the command once to every registered core and keeps what each of them
/// was handed before; a push to one core leaves all others alone.
pub proof fn law_pushes_reach_the_cores(
    before: Map<u32, Seq<(FlowCommand, bool)>>,
    after: Map<u32, Seq<(FlowCommand, bool)>>,
    carried: Map<u32, Seq<FlowCommand>>,
    core: CoreId,
    cmd: FlowCommand,
    r: bool,
    k: u32,
)
    requires
        before.contains_key(k),
    ensures
        pushed_to_all(before, after, carried, true, cmd) ==> {
            &&& after.contains_key(k)
            &&& after[k].len() == before[k].len() + 1
            &&& after[k].drop_last() == before[k]
            &&& after[k].last().0 == cmd
        },
        pushed_to_one(before, after, carried, true, core, cmd, r) && k != core.0
            ==> after.contains_key(k) && after[k] == before[k],
        pushed_to_one(before, after, carried, true, core, cmd, r) && k == core.0
            ==> after.contains_key(k) && after[k] == before[k].push((cmd, r)),
{
    if pushed_to_all(before, after, carried, true, cmd) {
        assert(after.dom().contains(k));
        assert(offered(before[k], after[k], carried[k], cmd));
        assert(after[k].drop_last() =~= before[k]);
    }
}

/// Whether `part` is the beginning of `stream`.
pub open spec fn begins_with(stream: Seq<FlowCommand>, part: Seq<FlowCommand>) -> bool {
    &&& part.len() <= stream.len()
    &&& forall|i: int| #![trigger part[i]] 0 <= i < part.len() ==> stream[i] == part[i]
}

/// Whether every inbox took its commands in the order in which it carries them.
pub open spec fn in_order(
    histories: Map<u32, Seq<(FlowCommand, bool)>>,
    carried: Map<u32, Seq<FlowCommand>>,
) -> bool {
    forall|k: u32| #[trigger]
        histories.contains_key(k) ==> begins_with(carried[k], taken(histories[k]))
}

/// What a history of pushes holds once it grows by one.
proof fn lemma_taken(history: Seq<(FlowCommand, bool)>, cmd: FlowCommand, ok: bool)
    ensures
        taken(history.push((cmd, ok))) == (if ok {
            taken(history).push(cmd)
        } else {
            taken(history)
        }),
{
    assert(history.push((cmd, ok)).drop_last() =~= history);
}

/// What a list of answers holds once it grows by one.
proof fn lemma_given(answers: Seq<Option<FlowCommand>>, r: Option<FlowCommand>)
    ensures
        given(answers.push(r)) == (match r {
            Some(cmd) => given(answers).push(cmd),
            None => given(answers),
        }),
{
    assert(answers.push(r).drop_last() =~= answers);
}

/// Every inbox takes its commands in order, whatever the control plane does: this holds of an empty
/// registry, and neither registering a core nor pushing to one core or to all of them changes it.
pub proof fn law_inboxes_take_in_order(
    before: Map<u32, Seq<(FlowCommand, bool)>>,
    after: Map<u32, Seq<(FlowCommand, bool)>>,
    carried: Map<u32, Seq<FlowCommand>>,
    stream: Seq<FlowCommand>,
    on: bool,
    core: CoreId,
    cmd: FlowCommand,
    r: bool,
)
    requires
        in_order(before, carried),
    ensures
        in_order(Map::empty(), Map::empty()),
        in_order(before.insert(core.0, Seq::empty()), carried.insert(core.0, stream)),
        pushed_to_one(before, after, carried, on, core, cmd, r) ==> in_order(after, carried),
        pushed_to_all(before, after, carried, on, cmd) ==> in_order(after, carried),
{
    let fresh = before.insert(core.0, Seq::empty());
    assert forall|k: u32| #[trigger] fresh.contains_key(k) implies begins_with(
        carried.insert(core.0, stream)[k],
        taken(fresh[k]),
    ) by {
        if k != core.0 {
            assert(before.contains_key(k));
        }
    }
    if pushed_to_one(before, after, carried, on, core, cmd, r) && on && before.contains_key(
        core.0,
    ) {
        assert forall|k: u32| #[trigger] after.contains_key(k) implies begins_with(
            carried[k],
            taken(after[k]),
        ) by {
            assert(before.contains_key(k));
            if k == core.0 {
                lemma_taken(before[k], cmd, r);
            }
        }
    }
    if pushed_to_all(before, after, carried, on, cmd) && on {
        assert forall|k: u32| #[trigger] after.contains_key(k) implies begins_with(
            carried[k],
            taken(after[k]),
        ) by {
            assert(before.dom().contains(k));
            assert(offered(before[k], after[k], carried[k], cmd));
            lemma_taken(before[k], cmd, true);
            lemma_taken(before[k], cmd, false);
        }
    }
}

/// An inbox gives its commands in the order in which it carries them: this holds before it was
/// asked, and asking once more does not change it.
pub proof fn law_inbox_gives_in_order(
    stream: Seq<FlowCommand>,
    answers: Seq<Option<FlowCommand>>,
    r: Option<FlowCommand>,
)
    requires
        begins_with(stream, given(answers)),
        r matches Some(cmd) ==> carries(stream, given(answers).len(), cmd),
    ensures
        begins_with(stream, given(Seq::empty())),
        begins_with(stream, given(answers.push(r))),
{
    lemma_given(answers, r);
}

/// Delivery: what a core's inbox gives is, in order, what was handed to it and taken. Command for
/// command the two agree, as far as both have come; an inbox that gave as many commands as it took
/// gave exactly those.
pub proof fn law_delivery(
    stream: Seq<FlowCommand>,
    history: Seq<(FlowCommand, bool)>,
    answers: Seq<Option<FlowCommand>>,
)
    requires
        begins_with(stream, taken(history)),
        begins_with(stream, given(answers)),
    ensures
        forall|i: int|
            #![trigger taken(history)[i]]
            #![trigger given(answers)[i]]
            0 <= i < taken(history).len() && i < given(answers).len() ==> given(answers)[i]
                == taken(history)[i],
        given(answers).len() == taken(history).len() ==> given(answers) == taken(history),
        given(answers).len() <= taken(history).len() ==> given(answers) == taken(history).take(
            given(answers).len() as int,
        ),
{
    assert forall|i: int|
        #![trigger taken(history)[i]]
        #![trigger given(answers)[i]]
        0 <= i < taken(history).len() && i < given(answers).len() implies given(answers)[i]
        == taken(history)[i] by {
        assert(stream[i] == taken(history)[i]);
        assert(stream[i] == given(answers)[i]);
    }
    assert(given(answers).len() == taken(history).len() ==> given(answers) =~= taken(history));
    assert(given(answers).len() <= taken(history).len() ==> given(answers) =~= taken(history).take(
        given(answers).len() as int,
    ));
}

/// A core that asks its inbox and applies what comes has the table that the given commands make,
/// applied one after the other.
pub proof fn law_table_follows_the_inbox(
    m: TableModel,
    answers: Seq<Option<FlowCommand>>,
    r: Option<FlowCommand>,
)
    ensures
        m.apply_all(given(Seq::empty())) == m,
        m.apply_all(given(answers.push(r))) == match r {
            Some(cmd) => m.apply_all(given(answers)).apply(cmd),
            None => m.apply_all(given(answers)),
        },
{
    lemma_given(answers, r);
    if let Some(cmd) = r {
        assert(given(answers).push(cmd).drop_last() =~= given(answers));
    }
}

/// An installed rule is what the table answers: once a core has drained its inbox up to an install
/// that was taken, a lookup of that tuple gives the action that was installed; after an uninstall
/// that was taken, it gives nothing.
pub proof fn law_installed_rule_is_answered(
    m: TableModel,
    stream: Seq<FlowCommand>,
    history: Seq<(FlowCommand, bool)>,
    answers: Seq<Option<FlowCommand>>,
    tuple: FiveTuple,
    action: FlowAction,
)
    requires
        begins_with(stream, taken(history)),
        begins_with(stream, given(answers)),
        given(answers).len() == taken(history).len(),
        history.len() > 0,
        history.last().1,
    ensures
        m.apply_all(given(answers)) == m.apply_all(taken(history)),
        history.last().0 == FlowCommand::Install(tuple, action) ==> m.apply_all(
            given(answers),
        ).lookup(tuple) == Some(action),
        history.last().0 == FlowCommand::Uninstall(tuple) ==> m.apply_all(given(answers)).lookup(
            tuple,
        ) is None,
{
    law_delivery(stream, history, answers);
    let cmds = taken(history);
    assert(cmds.len() > 0 && cmds.last() == history.last().0);
    assert(m.apply_all(cmds) == m.apply_all(cmds.drop_last()).apply(cmds.last()));
}

/// The switch: without a value the table is on; `0` turns it off, and so does `false` in whatever
/// case its letters are; nothing else does.
pub proof fn law_what_turns_the_table_off(v: Seq<char>)
    ensures
        switched_on(None),
        !switched_on(Some(v)) <==> {
            ||| v == seq!['0']
            ||| {
                &&& v.len() == 5
                &&& v[0] == 'f' || v[0] == 'F'
                &&& v[1] == 'a' || v[1] == 'A'
                &&& v[2] == 'l' || v[2] == 'L'
                &&& v[3] == 's' || v[3] == 'S'
                &&& v[4] == 'e' || v[4] == 'E'
            }
        },
{
    reveal_strlit("0");
    reveal_strlit("false");
    assert("0"@ =~= seq!['0']);
    let f = "false"@;
    if same_ignoring_ascii_case(v, f) {
        assert(ascii_lower(v[0]) == ascii_lower(f[0]));
        assert(ascii_lower(v[1]) == ascii_lower(f[1]));
        assert(ascii_lower(v[2]) == ascii_lower(f[2]));
        assert(ascii_lower(v[3]) == ascii_lower(f[3]));
        assert(ascii_lower(v[4]) == ascii_lower(f[4]));
    }
}

/// A push to a core that has no inbox is refused and changes nothing, and no push registers a core
/// or forgets one.
pub proof fn law_unknown_core_gets_nothing(
    before: Map<u32, Seq<(FlowCommand, bool)>>,
    after: Map<u32, Seq<(FlowCommand, bool)>>,
    carried: Map<u32, Seq<FlowCommand>>,
    on: bool,
    core: CoreId,
    cmd: FlowCommand,
    r: bool,
)
    ensures
        pushed_to_one(before, after, carried, on, core, cmd, r) && !before.contains_key(core.0)
            ==> !r && after == before,
        pushed_to_one(before, after, carried, on, core, cmd, r) ==> after.dom() == before.dom(),
        pushed_to_all(before, after, carried, on, cmd) ==> after.dom() == before.dom(),
{
    if before.contains_key(core.0) {
        assert(before.insert(core.0, before[core.0].push((cmd, r))).dom() =~= before.dom());
    }
}

} // verus!
