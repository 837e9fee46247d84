//! Laws of the flow table.

use vstd::arithmetic::power2::pow2;
use vstd::prelude::*;

use crate::conn_id::{FiveTuple, L4Context};
use crate::flow_model::{latest, max_nat, FlowAction, FlowCommand, TableModel, TableOp};
use crate::fx_hash::fx_tuple;

verus! {

/// A finite non-empty part of the rules has a member that was used before all the others.
proof fn lemma_oldest(m: TableModel, s: Set<FiveTuple>)
    requires
        m.wf(),
        s.finite(),
        s.len() > 0,
        s.subset_of(m.rules.dom()),
    ensures
        exists|v: FiveTuple| #[trigger]
            s.contains(v) && forall|k: FiveTuple| #[trigger]
                s.contains(k) && k != v ==> m.rules[v].last_used < m.rules[k].last_used,
    decreases s.len(),
{
    let a = s.choose();
    assert(m.rules.contains_key(a));
    let rest = s.remove(a);
    if rest.len() == 0 {
        assert forall|k: FiveTuple| #[trigger] s.contains(k) implies k == a by {
            if k != a {
                assert(rest.contains(k));
            }
        }
        assert(s.contains(a));
    } else {
        lemma_oldest(m, rest);
        let v = choose|v: FiveTuple| #[trigger]
            rest.contains(v) && forall|k: FiveTuple| #[trigger]
                rest.contains(k) && k != v ==> m.rules[v].last_used < m.rules[k].last_used;
        assert(s.contains(v) && m.rules.contains_key(v));
        if m.rules[a].last_used < m.rules[v].last_used {
            assert forall|k: FiveTuple| #[trigger] s.contains(k) && k
                != a implies m.rules[a].last_used < m.rules[k].last_used by {
                assert(rest.contains(k));
            }
            assert(s.contains(a));
        } else {
            assert forall|k: FiveTuple| #[trigger] s.contains(k) && k
                != v implies m.rules[v].last_used < m.rules[k].last_used by {
                if k != a {
                    assert(rest.contains(k));
                }
            }
            assert(s.contains(v));
        }
    }
}

/// The neighbours of a tuple are finitely many installed tuples.
proof fn lemma_neighbours_finite(m: TableModel, t: FiveTuple)
    requires
        m.wf(),
    ensures
        m.neighbours(t).finite(),
        m.neighbours(t).subset_of(m.rules.dom()),
{
    m.rules.dom().lemma_len_filter(|k: FiveTuple| m.set_of(k) == m.set_of(t));
}

/// When a set is full, the rule to be evicted is well determined: it is installed, it shares the
/// set with the new tuple, and it was used before every other rule of that set.
pub proof fn law_victim_is_least_recently_used(m: TableModel, t: FiveTuple)
    requires
        m.wf(),
        m.set_full(t),
    ensures
        m.rules.contains_key(m.lru(t)),
        m.set_of(m.lru(t)) == m.set_of(t),
        forall|k: FiveTuple|
            #![trigger m.rules[k]]
            m.rules.contains_key(k) && m.set_of(k) == m.set_of(t) && k != m.lru(t)
                ==> m.rules[m.lru(t)].last_used < m.rules[k].last_used,
        forall|v: FiveTuple| #[trigger] m.is_lru(t, v) ==> v == m.lru(t),
{
    lemma_neighbours_finite(m, t);
    lemma_oldest(m, m.neighbours(t));
    let v = choose|v: FiveTuple| #[trigger]
        m.neighbours(t).contains(v) && forall|k: FiveTuple| #[trigger]
            m.neighbours(t).contains(k) && k != v ==> m.rules[v].last_used < m.rules[k].last_used;
    assert(m.is_lru(t, v));
    let l = m.lru(t);
    assert(m.is_lru(t, l));
    assert(m.neighbours(t).contains(l));
    assert forall|k: FiveTuple|
        #![trigger m.rules[k]]
        m.rules.contains_key(k) && m.set_of(k) == m.set_of(t) && k
            != l implies m.rules[l].last_used < m.rules[k].last_used by {
        assert(m.neighbours(t).contains(k));
    }
    assert forall|u: FiveTuple| #[trigger] m.is_lru(t, u) implies u == l by {
        assert(m.neighbours(t).contains(u));
    }
}

/// The installed tuples whose set is below `j`.
spec fn below(m: TableModel, j: nat) -> Set<FiveTuple> {
    m.rules.dom().filter(|k: FiveTuple| m.set_of(k) < j)
}

/// The first `j` sets hold at most `j * ways` rules.
proof fn lemma_below(m: TableModel, j: nat)
    requires
        m.wf(),
    ensures
        below(m, j).finite(),
        below(m, j).len() <= j * m.ways,
    decreases j,
{
    m.rules.dom().lemma_len_filter(|k: FiveTuple| m.set_of(k) < j);
    if j == 0 {
        assert(below(m, j) =~= Set::empty());
    } else {
        let i = (j - 1) as nat;
        lemma_below(m, i);
        let last = m.rules.dom().filter(|k: FiveTuple| m.set_of(k) == i);
        m.rules.dom().lemma_len_filter(|k: FiveTuple| m.set_of(k) == i);
        assert(last.len() <= m.ways) by {
            if last.len() > 0 {
                let k = last.choose();
                assert(last.contains(k));
                assert(last =~= m.neighbours(k));
            }
        }
        assert(below(m, j) =~= below(m, i).union(last));
        vstd::set_lib::lemma_set_disjoint_lens(below(m, i), last);
        assert(i * m.ways + m.ways == j * m.ways) by (nonlinear_arith)
            requires
                j == i + 1,
        ;
    }
}

/// The table is bounded: it never holds more rules than it has places.
pub proof fn law_capacity(m: TableModel)
    requires
        m.wf(),
    ensures
        m.rules.len() <= m.n_sets * m.ways,
{
    lemma_below(m, m.n_sets);
    let k = choose|k: nat| m.n_sets == #[trigger] vstd::arithmetic::power2::pow2(k);
    vstd::arithmetic::power2::lemma_pow2_pos(k);
    assert(below(m, m.n_sets) =~= m.rules.dom());
}

/// A new table is empty, and has room for `next_pow2(capacity / ways) * ways` rules, which is at
/// least `capacity` rounded down to whole sets. An associativity of 0 counts as 1.
pub proof fn law_true_capacity(capacity: nat, ways: nat)
    ensures
        ({
            let m = TableModel::with_capacity(capacity, ways);
            let w = max_nat(ways, 1);
            &&& m.wf()
            &&& m.rules.len() == 0
            &&& m.ways == w
            &&& m.n_sets * m.ways >= (capacity / w) * w
        }),
{
    let m = TableModel::with_capacity(capacity, ways);
    let w = max_nat(ways, 1);
    crate::sw_flow::lemma_next_pow2(max_nat(capacity / w, 1));
    assert(m.n_sets * m.ways >= (capacity / w) * w) by (nonlinear_arith)
        requires
            m.n_sets >= capacity / w,
            m.ways == w,
    ;
    assert forall|t: FiveTuple| #[trigger] m.neighbours(t).len() <= m.ways by {
        assert(m.neighbours(t) =~= Set::empty());
    }
}

/// Every operation turns a proper table into a proper table.
pub proof fn law_operations_keep_wf(m: TableModel, t: FiveTuple, action: FlowAction)
    requires
        m.wf(),
    ensures
        m.insert(t, action).wf(),
        m.touch(t).wf(),
        m.remove(t).wf(),
{
    lemma_neighbours_finite(m, t);
    let n = m.insert(t, action);
    if m.evicts(t) {
        law_victim_is_least_recently_used(m, t);
    }
    assert forall|u: FiveTuple| #[trigger] n.neighbours(u).len() <= n.ways by {
        lemma_neighbours_finite(m, u);
        assert(m.neighbours(u).len() <= m.ways);
        if m.set_of(u) != m.set_of(t) {
            assert(n.neighbours(u) =~= m.neighbours(u));
        } else if m.rules.contains_key(t) {
            assert(n.neighbours(u) =~= m.neighbours(u));
        } else if m.evicts(t) {
            assert(m.neighbours(u) =~= m.neighbours(t));
            assert(n.neighbours(u) =~= m.neighbours(u).remove(m.lru(t)).insert(t));
        } else {
            assert(m.neighbours(u) =~= m.neighbours(t));
            assert(n.neighbours(u) =~= m.neighbours(u).insert(t));
        }
    }
    let h = m.touch(t);
    assert forall|u: FiveTuple| #[trigger] h.neighbours(u).len() <= h.ways by {
        assert(m.neighbours(u).len() <= m.ways);
        assert(h.neighbours(u) =~= m.neighbours(u));
    }
    let r = m.remove(t);
    assert forall|u: FiveTuple| #[trigger] r.neighbours(u).len() <= r.ways by {
        lemma_neighbours_finite(m, u);
        assert(m.neighbours(u).len() <= m.ways);
        assert(r.neighbours(u) =~= m.neighbours(u).remove(t));
    }
}

/// A rule that was just installed is found, with its action.
pub proof fn law_lookup_after_insert(m: TableModel, t: FiveTuple, action: FlowAction)
    ensures
        m.insert(t, action).lookup(t) == Some(action),
{
}

/// Installing a rule changes the answer for no other tuple, but for the one that had to make room.
pub proof fn law_insert_frame(m: TableModel, t: FiveTuple, action: FlowAction, u: FiveTuple)
    requires
        u != t,
    ensures
        m.insert(t, action).lookup(u) == (if m.evicts(t) && u == m.lru(t) {
            None
        } else {
            m.lookup(u)
        }),
{
}

/// Installing a rule leaves the rules of all other sets as they are, their recency included.
pub proof fn law_sets_are_independent(
    m: TableModel,
    t: FiveTuple,
    action: FlowAction,
    u: FiveTuple,
)
    requires
        m.wf(),
        m.set_of(u) != m.set_of(t),
    ensures
        m.insert(t, action).rules.contains_key(u) == m.rules.contains_key(u),
        m.rules.contains_key(u) ==> m.insert(t, action).rules[u] == m.rules[u],
{
    if m.evicts(t) {
        law_victim_is_least_recently_used(m, t);
    }
}

/// Installing a tuple again updates its rule in place: nothing is evicted, and no rule is added.
pub proof fn law_update_in_place(m: TableModel, t: FiveTuple, action: FlowAction)
    requires
        m.rules.contains_key(t),
    ensures
        m.insert(t, action).evictions == m.evictions,
        m.insert(t, action).rules.len() == m.rules.len(),
        m.insert(t, action).rules.dom() == m.rules.dom(),
        forall|u: FiveTuple| u != t ==> #[trigger] m.insert(t, action).lookup(u) == m.lookup(u),
{
    assert(m.insert(t, action).rules.dom() =~= m.rules.dom());
}

/// Every install of a new tuple either adds a rule or evicts one.
pub proof fn law_install_adds_or_evicts(m: TableModel, t: FiveTuple, action: FlowAction)
    requires
        m.wf(),
        !m.rules.contains_key(t),
    ensures
        m.insert(t, action).rules.len() + m.insert(t, action).evictions == m.rules.len()
            + m.evictions + 1,
        m.set_full(t) ==> m.insert(t, action).evictions == m.evictions + 1,
        !m.set_full(t) ==> m.insert(t, action).evictions == m.evictions,
{
    if m.evicts(t) {
        law_victim_is_least_recently_used(m, t);
    }
}

/// Looking a tuple up changes no answer, evicts nothing and adds nothing.
pub proof fn law_lookup_keeps_rules(m: TableModel, t: FiveTuple, u: FiveTuple)
    ensures
        m.touch(t).lookup(u) == m.lookup(u),
        m.touch(t).rules.dom() == m.rules.dom(),
        m.touch(t).evictions == m.evictions,
{
    assert(m.touch(t).rules.dom() =~= m.rules.dom());
}

/// A rule that was just hit is the most recently used one: the next eviction takes another rule of
/// the set, if there is one.
pub proof fn law_hit_rule_is_kept(m: TableModel, t: FiveTuple, u: FiveTuple, other: FiveTuple)
    requires
        m.wf(),
        m.rules.contains_key(t),
        m.rules.contains_key(other),
        other != t,
        m.set_of(other) == m.set_of(u),
        m.touch(t).set_full(u),
    ensures
        m.touch(t).lru(u) != t,
{
    let n = m.touch(t);
    law_operations_keep_wf(m, t, FlowAction::Drop);
    law_victim_is_least_recently_used(n, u);
    assert(n.set_of(other) == n.set_of(u));
    if n.lru(u) == t {
        assert(n.rules.contains_key(other));
        assert(n.rules[t].last_used < n.rules[other].last_used);
        assert(m.rules[other].last_used <= m.tick);
    }
}

/// An uninstalled rule is not found any more, and no other rule is touched.
pub proof fn law_lookup_after_remove(m: TableModel, t: FiveTuple, u: FiveTuple)
    ensures
        m.remove(t).lookup(t).is_none(),
        u != t ==> m.remove(t).lookup(u) == m.lookup(u),
        m.remove(t).evictions == m.evictions,
{
}

/// Uninstalling undoes an install that found room.
pub proof fn law_remove_undoes_insert(m: TableModel, t: FiveTuple, action: FlowAction)
    requires
        !m.rules.contains_key(t),
        !m.set_full(t),
    ensures
        m.insert(t, action).remove(t).rules == m.rules,
{
    assert(m.insert(t, action).remove(t).rules =~= m.rules);
}

/// A direct-mapped table keeps the newest of two rules that share a set.
pub proof fn law_direct_mapped_collision(
    m: TableModel,
    t: FiveTuple,
    u: FiveTuple,
    action: FlowAction,
)
    requires
        m.wf(),
        m.ways == 1,
        m.rules.contains_key(u),
        u != t,
        m.set_of(u) == m.set_of(t),
        !m.rules.contains_key(t),
    ensures
        m.insert(t, action).lookup(u).is_none(),
        m.insert(t, action).lookup(t) == Some(action),
        m.insert(t, action).evictions == m.evictions + 1,
{
    lemma_neighbours_finite(m, t);
    let n = m.neighbours(t);
    assert(n.contains(u));
    assert(n.len() >= 1) by {
        if n.len() == 0 {
            assert(n =~= Set::empty());
        }
    }
    law_victim_is_least_recently_used(m, t);
    let v = m.lru(t);
    if v != u {
        assert(n.contains(v));
        assert(n.remove(v).contains(u));
        assert(n.remove(v).len() == 0);
        assert(n.remove(v) =~= Set::empty());
    }
}

/// A run of operations on a new table.
pub open spec fn reached(capacity: nat, ways: nat, ops: Seq<TableOp>) -> TableModel {
    TableModel::with_capacity(capacity, ways).run(ops)
}

/// Every table that any operations make of a new one is proper: it never holds more rules than it
/// has places, and its shape is the one that it was made with.
pub proof fn law_every_run_keeps_wf(capacity: nat, ways: nat, ops: Seq<TableOp>)
    ensures
        reached(capacity, ways, ops).wf(),
        reached(capacity, ways, ops).n_sets == TableModel::with_capacity(capacity, ways).n_sets,
        reached(capacity, ways, ops).ways == TableModel::with_capacity(capacity, ways).ways,
        reached(capacity, ways, ops).rules.len() <= reached(capacity, ways, ops).n_sets * reached(
            capacity,
            ways,
            ops,
        ).ways,
    decreases ops.len(),
{
    if ops.len() == 0 {
        law_true_capacity(capacity, ways);
    } else {
        law_every_run_keeps_wf(capacity, ways, ops.drop_last());
        let m = reached(capacity, ways, ops.drop_last());
        match ops.last() {
            TableOp::Insert(t, action) => law_operations_keep_wf(m, t, action),
            TableOp::Get(t) => law_operations_keep_wf(m, t, FlowAction::Drop),
            TableOp::Remove(t) => law_operations_keep_wf(m, t, FlowAction::Drop),
        }
    }
    law_capacity(reached(capacity, ways, ops));
}

/// An install does its books on every table that can be reached: the rule is there; neither the
/// rules nor the evictions get fewer; together they grow by one for a new tuple and not at all for
/// a tuple that was there; and a rule is evicted only for a new tuple whose set had all its places
/// taken.
pub proof fn law_insert_does_its_books(
    capacity: nat,
    ways: nat,
    ops: Seq<TableOp>,
    t: FiveTuple,
    action: FlowAction,
)
    ensures
        ({
            let m = reached(capacity, ways, ops);
            let n = m.insert(t, action);
            &&& n.rules.contains_key(t)
            &&& n.rules[t].action == action
            &&& n.rules.len() >= m.rules.len()
            &&& n.evictions >= m.evictions
            &&& (n.rules.len() - m.rules.len()) + (n.evictions - m.evictions)
                == if m.rules.contains_key(t) {
                0int
            } else {
                1int
            }
            &&& n.evictions > m.evictions ==> !m.rules.contains_key(t) && m.neighbours(t).len()
                == m.ways
        }),
{
    law_every_run_keeps_wf(capacity, ways, ops);
    let m = reached(capacity, ways, ops);
    assert(m.neighbours(t).len() <= m.ways);
    if m.rules.contains_key(t) {
        law_update_in_place(m, t, action);
    } else {
        law_install_adds_or_evicts(m, t, action);
    }
}

/// A tuple is found only with the action of its latest install, and only if it was not uninstalled
/// since: what else happened to the table, an eviction included, can at most turn the answer into
/// none.
pub proof fn law_answer_is_the_latest_install(
    capacity: nat,
    ways: nat,
    ops: Seq<TableOp>,
    t: FiveTuple,
)
    ensures
        reached(capacity, ways, ops).lookup(t) is None || reached(capacity, ways, ops).lookup(t)
            == latest(ops, t),
    decreases ops.len(),
{
    if ops.len() > 0 {
        law_answer_is_the_latest_install(capacity, ways, ops.drop_last(), t);
        let m = reached(capacity, ways, ops.drop_last());
        match ops.last() {
            TableOp::Insert(u, action) => {
                if u != t {
                    law_insert_frame(m, u, action, t);
                }
            },
            TableOp::Get(u) => law_lookup_keeps_rules(m, u, t),
            TableOp::Remove(u) => law_lookup_after_remove(m, u, t),
        }
    }
}

/// Matching a packet acts on the table as getting the packet's own tuple does; a packet without a
/// transport header matches nothing and leaves the table, the recency of its rules included, as it
/// is. No match changes what any tuple is answered.
pub proof fn law_match_is_a_get(m: TableModel, ctxt: Option<L4Context>, u: FiveTuple)
    ensures
        ctxt matches Some(c) ==> m.matched(ctxt) == m.lookup(c.five_tuple()) && m.after_match(ctxt)
            == m.step(TableOp::Get(c.five_tuple())),
        ctxt is None ==> m.matched(ctxt) is None && m.after_match(ctxt) == m,
        m.after_match(ctxt).lookup(u) == m.lookup(u),
{
}

/// Control-plane commands take effect: a rule that is installed is found, one that is uninstalled
/// is not.
pub proof fn law_commands_take_effect(m: TableModel, t: FiveTuple, action: FlowAction)
    ensures
        m.apply(FlowCommand::Install(t, action)).lookup(t) == Some(action),
        m.apply(FlowCommand::Uninstall(t)).lookup(t) is None,
{
}

/// The shape of a new table: as many sets as the least power of two that gives every `ways` rules
/// of the capacity a set of their own, so fewer than twice as many as are needed; no rule, no use
/// and no eviction yet.
pub proof fn law_shape_of_a_new_table(capacity: nat, ways: nat, needed: nat)
    requires
        needed >= 1,
        ways >= 1 ==> needed * ways <= capacity < (needed + 1) * ways || needed == 1 && capacity
            < ways,
        ways == 0 ==> needed == capacity || needed == 1 && capacity == 0,
    ensures
        ({
            let m = TableModel::with_capacity(capacity, ways);
            &&& needed <= m.n_sets < 2 * needed
            &&& exists|k: nat| m.n_sets == #[trigger] pow2(k)
            &&& forall|k: nat| #[trigger] pow2(k) >= needed ==> pow2(k) >= m.n_sets
            &&& ways >= 1 ==> m.ways == ways
            &&& ways == 0 ==> m.ways == 1
            &&& m.rules.dom() == Set::<FiveTuple>::empty()
            &&& m.tick == 0 && m.evictions == 0
        }),
{
    let m = TableModel::with_capacity(capacity, ways);
    let w = max_nat(ways, 1);
    assert(max_nat(capacity / w, 1) == needed) by {
        if ways == 0 {
            assert(capacity / 1 == capacity);
        } else if capacity < ways {
            vstd::arithmetic::div_mod::lemma_basic_div(capacity as int, ways as int);
            if needed != 1 {
                assert(needed * ways >= ways) by (nonlinear_arith)
                    requires
                        needed >= 1,
                ;
            }
        } else {
            assert((needed + 1) * ways == needed * ways + ways) by (nonlinear_arith);
            vstd::arithmetic::div_mod::lemma_fundamental_div_mod_converse(
                capacity as int,
                ways as int,
                needed as int,
                capacity - needed * ways,
            );
        }
    }
    crate::sw_flow::lemma_next_pow2(needed);
    let k = choose|k: nat| m.n_sets == #[trigger] pow2(k);
    if m.n_sets >= 2 * needed {
        if k == 0 {
            vstd::arithmetic::power2::lemma2_to64();
        } else {
            vstd::arithmetic::power2::lemma_pow2_unfold(k);
            assert(pow2((k - 1) as nat) >= needed);
        }
    }
    assert(m.rules.dom() =~= Set::<FiveTuple>::empty());
}

/// A tuple belongs to the set that its hash gives modulo the number of sets.
pub proof fn law_set_of_a_tuple(m: TableModel, t: FiveTuple, q: nat, s: nat)
    requires
        fx_tuple(t) == q * m.n_sets + s,
        s < m.n_sets,
    ensures
        m.set_of(t) == s,
{
    assert(q * m.n_sets == m.n_sets * q) by (nonlinear_arith);
    vstd::arithmetic::div_mod::lemma_fundamental_div_mod_converse(
        fx_tuple(t) as int,
        m.n_sets as int,
        q as int,
        s as int,
    );
}

/// A use makes a rule the most recent of all: after an install or a hit no other rule was used as
/// late, and all others keep the time of their last use. A lookup that finds nothing, and an
/// uninstall, leave every time as it is.
pub proof fn law_use_is_the_most_recent(
    m: TableModel,
    t: FiveTuple,
    action: FlowAction,
    u: FiveTuple,
)
    requires
        m.wf(),
        u != t,
    ensures
        ({
            let n = m.insert(t, action);
            &&& n.rules.contains_key(t)
            &&& n.rules.contains_key(u) ==> {
                &&& m.rules.contains_key(u)
                &&& n.rules[u].last_used == m.rules[u].last_used
                &&& n.rules[u].last_used < n.rules[t].last_used
            }
            &&& n.rules[t].last_used > m.tick
            &&& n.tick == m.tick + 1
            &&& n.n_sets == m.n_sets && n.ways == m.ways
        }),
        ({
            let n = m.touch(t);
            &&& m.rules.contains_key(t) ==> n.rules[t].last_used > m.tick && n.rules[t].action
                == m.rules[t].action
            &&& m.rules.contains_key(t) && m.rules.contains_key(u) ==> n.rules[u] == m.rules[u]
                && n.rules[u].last_used < n.rules[t].last_used
            &&& m.rules.contains_key(t) ==> n.tick == m.tick + 1
            &&& !m.rules.contains_key(t) ==> n == m
            &&& n.n_sets == m.n_sets && n.ways == m.ways
        }),
        ({
            let n = m.remove(t);
            &&& !n.rules.contains_key(t)
            &&& n.rules.contains_key(u) == m.rules.contains_key(u)
            &&& m.rules.contains_key(u) ==> n.rules[u] == m.rules[u]
            &&& n.n_sets == m.n_sets && n.ways == m.ways && n.tick == m.tick
        }),
{
}

/// A rule gives way only to a new tuple whose set is full, and only if it is the rule of that set
/// that was used least recently.
pub proof fn law_who_gives_way(m: TableModel, t: FiveTuple, action: FlowAction, v: FiveTuple)
    requires
        m.wf(),
        m.rules.contains_key(v),
        v != t,
    ensures
        !m.insert(t, action).rules.contains_key(v) <==> {
            &&& !m.rules.contains_key(t)
            &&& m.neighbours(t).len() == m.ways
            &&& m.set_of(v) == m.set_of(t)
            &&& forall|k: FiveTuple|
                #![trigger m.rules[k]]
                m.rules.contains_key(k) && m.set_of(k) == m.set_of(t) && k != v
                    ==> m.rules[v].last_used < m.rules[k].last_used
        },
        forall|k: FiveTuple| #[trigger]
            m.neighbours(t).contains(k) <==> m.rules.contains_key(k) && m.set_of(k) == m.set_of(t),
{
    assert(m.neighbours(t).len() <= m.ways);
    if m.set_full(t) {
        law_victim_is_least_recently_used(m, t);
        let l = m.lru(t);
        if v != l && m.set_of(v) == m.set_of(t) {
            assert(m.rules[l].last_used < m.rules[v].last_used);
        }
    }
}

} // verus!
