//! Software flow table: an `rte_flow`-style match-action lookup in software.
//!
//! Maps a [`FiveTuple`] to an action so packets can be matched against
//! installed rules the way a NIC matches `rte_flow` rules, but on the CPU.
//! One table is owned per RX core (sharded, no locking) and consulted right
//! after a receive burst, so matched packets are handled before any parsing or
//! connection tracking.
//!
//! The table is a bounded, set-associative cache, backed by flat arrays so that a lookup touches
//! one contiguous set of `ways` slots. When a set is full, its least recently used way is evicted.
//! An evicted rule simply means that those packets fall through to the normal pipeline.

use vstd::arithmetic::power2::{lemma_pow2_pos, pow2};
use vstd::prelude::*;

use crate::conn_id::{FiveTuple, L4Context};
use crate::flow_model::{max_nat, next_pow2, FlowAction, FlowCommand, Rule, TableModel};
use crate::fx_hash::{fx_tuple, fxhash};
use crate::net::{SocketAddr, SocketAddrV4};

verus! {

/// Bounded, set-associative software flow table keyed on 5-tuples.
///
/// Slots are laid out as sets of `ways` slots each. A 5-tuple maps to one set via its hash; within
/// that set, lookups compare a fingerprint (fast reject) and then the full key (no false matches).
pub struct FlowTable {
    /// Number of sets minus one; the number of sets is a power of two so indexing is a mask.
    mask: usize,
    /// Associativity (slots per set). `1` means direct-mapped.
    ways: usize,
    /// Fingerprint per slot; `0` marks an empty slot (real fingerprints are forced odd).
    fp: Vec<u64>,
    /// Authoritative key per slot.
    key: Vec<FiveTuple>,
    /// Action per slot.
    act: Vec<FlowAction>,
    /// Recency tick per slot (larger means more recently used).
    age: Vec<u64>,
    /// Monotonic use counter feeding `age`.
    tick: u64,
    /// Number of live rules.
    entries: usize,
    /// Number of evictions.
    evictions: u64,
}

/// Where a rule goes within its set.
enum Probe {
    /// The slot that already holds the key.
    Found(usize),
    /// An empty slot of a set without the key.
    Free(usize),
    /// The least recently used slot of a full set without the key.
    Full(usize),
}

/// Placeholder key for empty slots; never compared, since an empty slot is told by its
/// fingerprint.
fn placeholder_tuple() -> (r: FiveTuple)
    ensures
        r == (FiveTuple {
            orig: SocketAddr::V4(SocketAddrV4 { ip: 0, port: 0 }),
            resp: SocketAddr::V4(SocketAddrV4 { ip: 0, port: 0 }),
            proto: 0,
        }),
{
    let a: SocketAddr = SocketAddr::V4(SocketAddrV4 { ip: 0, port: 0 });
    FiveTuple { orig: a, resp: a, proto: 0 }
}

/// `h | 1` is odd, so it is never the mark of an empty slot.
proof fn lemma_fingerprint(h: u64)
    ensures
        (h | 1) != 0,
        (h | 1) % 2 == 1,
{
    assert((h | 1) != 0 && (h | 1) % 2 == 1) by (bit_vector);
}

/// Two ranges of `w` numbers that start at multiples of `w` and share a number are one range.
proof fn lemma_same_range(a: nat, b: nat, w: nat, i: int)
    requires
        a * w <= i < a * w + w,
        b * w <= i < b * w + w,
    ensures
        a == b,
{
    assert(a == b) by (nonlinear_arith)
        requires
            a * w <= i < a * w + w,
            b * w <= i < b * w + w,
    ;
}

/// Set number `s` of `n` lies within the slots.
proof fn lemma_range_fits(s: nat, n: nat, w: nat)
    requires
        s < n,
    ensures
        s * w + w <= n * w,
{
    assert(s * w + w <= n * w) by (nonlinear_arith)
        requires
            s < n,
    ;
}

/// Keeping the low bits is taking the remainder by a power of two.
#[verifier::spinoff_prover]
proof fn lemma_mask_is_mod(h: u64, mask: u64, k: nat)
    requires
        mask + 1 == pow2(k),
    ensures
        (h & mask) == (h as nat) % pow2(k),
{
    if k >= 64 {
        assert(pow2(64) == 0x1_0000_0000_0000_0000) by {
            vstd::arithmetic::power2::lemma2_to64();
        }
        if k > 64 {
            vstd::arithmetic::power2::lemma_pow2_strictly_increases(64, k);
        }
        assert(k == 64 && mask == 0xffff_ffff_ffff_ffff);
        assert(h & 0xffff_ffff_ffff_ffff == h) by (bit_vector);
        vstd::arithmetic::div_mod::lemma_small_mod(h as nat, pow2(64));
    } else {
        vstd::bits::lemma_u64_pow2_no_overflow(k);
        vstd::bits::lemma_u64_low_bits_mask_is_mod(h, k);
        assert(vstd::bits::low_bits_mask(k) as u64 == mask);
        assert(pow2(k) as u64 == pow2(k));
        assert(h & mask == h % (pow2(k) as u64));
    }
}

/// `next_pow2(n)` is the smallest power of two that is at least `n`.
pub proof fn lemma_next_pow2(n: nat)
    ensures
        exists|k: nat| next_pow2(n) == #[trigger] pow2(k),
        next_pow2(n) >= n,
        next_pow2(n) >= 1,
        forall|k: nat| #[trigger] pow2(k) >= n ==> pow2(k) >= next_pow2(n),
    decreases n,
{
    if n <= 1 {
        vstd::arithmetic::power2::lemma2_to64();
        assert(next_pow2(n) == pow2(0));
        assert forall|k: nat| #[trigger] pow2(k) >= 1 by {
            lemma_pow2_pos(k);
        }
    } else {
        let m = (n + 1) / 2;
        lemma_next_pow2(m);
        let k = choose|k: nat| next_pow2(m) == #[trigger] pow2(k);
        vstd::arithmetic::power2::lemma_pow2_unfold(k + 1);
        assert(next_pow2(n) == pow2(k + 1));
        assert forall|j: nat| #[trigger] pow2(j) >= n implies pow2(j) >= next_pow2(n) by {
            vstd::arithmetic::power2::lemma2_to64();
            assert(j != 0);
            vstd::arithmetic::power2::lemma_pow2_unfold(j);
            assert(pow2((j - 1) as nat) >= m);
        }
    }
}

/// The smallest power of two that is at least `n`.
fn next_power_of_two(n: usize) -> (r: usize)
    requires
        next_pow2(n as nat) <= usize::MAX,
    ensures
        r == next_pow2(n as nat),
    decreases n,
{
    if n <= 1 {
        1
    } else {
        2 * next_power_of_two((n - 1) / 2 + 1)
    }
}

/// Whether a table of this capacity and associativity can be built: the true capacity must be a
/// number of slots.
pub fn capacity_fits(capacity: usize, ways: usize) -> (r: bool)
    ensures
        r == (TableModel::with_capacity(capacity as nat, ways as nat).n_sets * max_nat(
            ways as nat,
            1,
        ) <= usize::MAX),
{
    let w: usize = if ways >= 1 {
        ways
    } else {
        1
    };
    let q: usize = capacity / w;
    let want: usize = if q >= 1 {
        q
    } else {
        1
    };
    let ghost n = next_pow2(want as nat);
    let mut p: u128 = 1;
    let ghost mut k: nat = 0;
    proof {
        vstd::arithmetic::power2::lemma2_to64();
        lemma_next_pow2(want as nat);
    }
    while p < want as u128
        invariant
            want <= usize::MAX,
            p == pow2(k),
            p <= n,
            n == next_pow2(want as nat),
            p >= 1,
            p <= 2 * want,
        decreases 2 * want - p,
    {
        proof {
            lemma_next_pow2(want as nat);
            let j = choose|j: nat| next_pow2(want as nat) == #[trigger] pow2(j);
            vstd::arithmetic::power2::lemma_pow2_unfold(k + 1);
            assert(pow2(j) > pow2(k));
            if j <= k {
                if j < k {
                    vstd::arithmetic::power2::lemma_pow2_strictly_increases(j, k);
                }
                assert(false);
            }
            if j > k + 1 {
                vstd::arithmetic::power2::lemma_pow2_strictly_increases(k + 1, j);
            }
            k = k + 1;
        }
        p = 2 * p;
    }
    proof {
        lemma_next_pow2(want as nat);
        assert(p == n);
        assert(n <= n * w) by (nonlinear_arith)
            requires
                w >= 1,
                n >= 0,
        ;
    }
    if p > usize::MAX as u128 {
        return false;
    }
    assert(p * w <= 0xffff_ffff_ffff_ffff * 0xffff_ffff_ffff_ffff) by (nonlinear_arith)
        requires
            0 <= p <= 0xffff_ffff_ffff_ffff,
            0 <= w <= 0xffff_ffff_ffff_ffff,
    ;
    p * w as u128 <= usize::MAX as u128
}

impl FlowTable {
    /// Number of sets.
    spec fn n_sets(self) -> nat {
        (self.mask + 1) as nat
    }

    /// Number of slots.
    spec fn slots(self) -> nat {
        self.n_sets() * (self.ways as nat)
    }

    /// Whether slot `i` holds a rule.
    spec fn live(self, i: int) -> bool {
        0 <= i < self.fp@.len() && self.fp@[i] != 0
    }

    /// Whether slot `i` holds the rule for `t`.
    spec fn holds(self, i: int, t: FiveTuple) -> bool {
        self.live(i) && self.key@[i] == t
    }

    /// Whether some slot holds the rule for `t`.
    spec fn has(self, t: FiveTuple) -> bool {
        exists|i: int| self.holds(i, t)
    }

    /// The slot that holds the rule for `t`.
    spec fn slot_of(self, t: FiveTuple) -> int {
        choose|i: int| self.holds(i, t)
    }

    /// The rule in slot `i`.
    spec fn rule_at(self, i: int) -> Rule {
        Rule { action: self.act@[i], last_used: self.age@[i] as nat }
    }

    /// The first slot of the set of `t`.
    spec fn base_of(self, t: FiveTuple) -> nat {
        ((fx_tuple(t) as nat) % self.n_sets()) * (self.ways as nat)
    }

    /// The contents of the table.
    pub closed spec fn view(&self) -> TableModel {
        TableModel {
            n_sets: self.n_sets(),
            ways: self.ways as nat,
            rules: Map::new(|t: FiveTuple| self.has(t), |t: FiveTuple| self.rule_at(self.slot_of(t))),
            tick: self.tick as nat,
            evictions: self.evictions as nat,
        }
    }

    /// The layout of the arrays.
    spec fn layout(self) -> bool {
        &&& self.ways >= 1
        &&& exists|k: nat| self.n_sets() == #[trigger] pow2(k)
        &&& self.slots() <= usize::MAX
        &&& self.fp@.len() == self.slots()
        &&& self.key@.len() == self.slots()
        &&& self.act@.len() == self.slots()
        &&& self.age@.len() == self.slots()
    }

    /// Live slots lie in the set of their key and carry its fingerprint, and no key occurs twice.
    spec fn placed(self) -> bool {
        &&& forall|i: int| #[trigger]
            self.live(i) ==> {
                &&& self.fp@[i] == fx_tuple(self.key@[i]) | 1
                &&& self.base_of(self.key@[i]) <= i < self.base_of(self.key@[i]) + self.ways
            }
        &&& forall|i: int, j: int| #[trigger]
            self.live(i) && #[trigger] self.live(j) && i != j ==> self.key@[i] != self.key@[j]
    }

    /// No two live slots were last used at the same tick.
    spec fn aged(self) -> bool {
        &&& forall|i: int| #[trigger] self.live(i) ==> self.age@[i] <= self.tick
        &&& forall|i: int, j: int| #[trigger]
            self.live(i) && #[trigger] self.live(j) && i != j ==> self.age@[i] != self.age@[j]
    }

    /// What every operation keeps.
    pub closed spec fn wf(self) -> bool {
        &&& self.layout()
        &&& self.placed()
        &&& self.aged()
        &&& self.entries == self@.rules.len()
        &&& self.evictions <= self.tick
    }

    /// The keys held in the slots `lo..hi`.
    spec fn keys_in(self, lo: int, hi: int) -> Set<FiveTuple> {
        Set::new(|t: FiveTuple| exists|i: int| lo <= i < hi && self.holds(i, t))
    }

    /// A range of slots holds as many keys as it has live slots.
    proof fn lemma_keys_in(self, lo: int, hi: int)
        requires
            self.placed(),
            lo <= hi,
        ensures
            self.keys_in(lo, hi).finite(),
            self.keys_in(lo, hi).len() <= hi - lo,
            (forall|i: int| lo <= i < hi ==> self.live(i)) ==> self.keys_in(lo, hi).len() == hi
                - lo,
            (exists|i: int| lo <= i < hi && !self.live(i)) ==> self.keys_in(lo, hi).len() < hi
                - lo,
        decreases hi - lo,
    {
        if lo == hi {
            assert(self.keys_in(lo, hi) =~= Set::empty());
        } else {
            let last = hi - 1;
            self.lemma_keys_in(lo, last);
            let prev = self.keys_in(lo, last);
            if self.live(last) {
                let k = self.key@[last];
                assert(self.holds(last, k));
                assert(!prev.contains(k)) by {
                    if prev.contains(k) {
                        let i = choose|i: int| lo <= i < last && self.holds(i, k);
                        assert(self.live(i) && self.live(last));
                    }
                }
                assert(self.keys_in(lo, hi) =~= prev.insert(k)) by {
                    assert forall|t: FiveTuple| self.keys_in(lo, hi).contains(t) implies prev.insert(
                        k,
                    ).contains(t) by {
                        let i = choose|i: int| lo <= i < hi && self.holds(i, t);
                        if i != last {
                            assert(lo <= i < last && self.holds(i, t));
                        }
                    }
                    assert forall|t: FiveTuple| prev.contains(t) implies self.keys_in(
                        lo,
                        hi,
                    ).contains(t) by {
                        let i = choose|i: int| lo <= i < last && self.holds(i, t);
                        assert(lo <= i < hi && self.holds(i, t));
                    }
                }
            } else {
                assert(self.keys_in(lo, hi) =~= prev) by {
                    assert forall|t: FiveTuple| self.keys_in(lo, hi).contains(t) implies prev.contains(
                        t,
                    ) by {
                        let i = choose|i: int| lo <= i < hi && self.holds(i, t);
                        assert(lo <= i < last && self.holds(i, t));
                    }
                    assert forall|t: FiveTuple| prev.contains(t) implies self.keys_in(
                        lo,
                        hi,
                    ).contains(t) by {
                        let i = choose|i: int| lo <= i < last && self.holds(i, t);
                        assert(lo <= i < hi && self.holds(i, t));
                    }
                }
            }
        }
    }

    /// The installed tuples that share a set with `t` are the keys of the slots of that set.
    proof fn lemma_neighbours(self, t: FiveTuple)
        requires
            self.layout(),
            self.placed(),
        ensures
            self@.neighbours(t) == self.keys_in(
                self.base_of(t) as int,
                self.base_of(t) + self.ways,
            ),
    {
        let base = self.base_of(t) as int;
        let keys = self.keys_in(base, base + self.ways);
        assert forall|k: FiveTuple| self@.neighbours(t).contains(k) implies keys.contains(k) by {
            let i = self.slot_of(k);
            assert(self.holds(i, k));
        }
        assert forall|k: FiveTuple| keys.contains(k) implies self@.neighbours(t).contains(k) by {
            let i = choose|i: int| base <= i < base + self.ways && self.holds(i, k);
            assert(self.live(i));
            lemma_same_range(self@.set_of(k), self@.set_of(t), self.ways as nat, i);
        }
        assert(self@.neighbours(t) =~= keys);
    }

    /// The installed tuples are the keys of all slots.
    proof fn lemma_dom(self)
        requires
            self.placed(),
        ensures
            self@.rules.dom() == self.keys_in(0, self.fp@.len() as int),
    {
        let keys = self.keys_in(0, self.fp@.len() as int);
        assert forall|k: FiveTuple| self@.rules.dom().contains(k) implies keys.contains(k) by {
            let i = self.slot_of(k);
            assert(self.holds(i, k));
        }
        assert(self@.rules.dom() =~= keys);
    }

    /// A slot that holds `t` is the slot of `t`.
    proof fn lemma_slot(self, i: int, t: FiveTuple)
        requires
            self.placed(),
            self.holds(i, t),
        ensures
            self.has(t),
            self.slot_of(t) == i,
            self@.rules.contains_key(t),
            self@.rules[t] == self.rule_at(i),
    {
        let j = self.slot_of(t);
        assert(self.holds(j, t));
        assert(self.live(i) && self.live(j));
    }

    /// Whether `new` is this table with the rule for `t` written into slot `e`, which is free to
    /// take it.
    spec fn writes(self, new: FlowTable, e: int, t: FiveTuple, action: FlowAction) -> bool {
        &&& 0 <= e < self.slots()
        &&& self.base_of(t) <= e < self.base_of(t) + self.ways
        &&& forall|j: int| j != e ==> !#[trigger] self.holds(j, t)
        &&& new.mask == self.mask
        &&& new.ways == self.ways
        &&& new.tick == self.tick + 1
        &&& new.fp@ == self.fp@.update(e, fx_tuple(t) | 1)
        &&& new.key@ == self.key@.update(e, t)
        &&& new.act@ == self.act@.update(e, action)
        &&& new.age@ == self.age@.update(e, new.tick)
    }

    /// Writing a rule changes no other slot.
    proof fn lemma_write_slots(self, new: FlowTable, e: int, t: FiveTuple, action: FlowAction)
        requires
            self.layout(),
            self.writes(new, e, t, action),
        ensures
            new.layout(),
            new.holds(e, t),
            new.rule_at(e) == (Rule { action, last_used: (self.tick + 1) as nat }),
            forall|i: int| #![trigger new.live(i)] i != e ==> new.live(i) == self.live(i),
            forall|i: int|
                #![trigger new.key@[i]]
                #![trigger new.rule_at(i)]
                #![trigger new.age@[i]]
                #![trigger new.fp@[i]]
                0 <= i < self.fp@.len() && i != e ==> {
                    &&& new.key@[i] == self.key@[i]
                    &&& new.rule_at(i) == self.rule_at(i)
                    &&& new.age@[i] == self.age@[i]
                    &&& new.fp@[i] == self.fp@[i]
                },
            forall|k: FiveTuple| #[trigger] new.base_of(k) == self.base_of(k),
    {
        lemma_fingerprint(fx_tuple(t));
        let k = choose|k: nat| self.n_sets() == #[trigger] pow2(k);
        assert(new.n_sets() == pow2(k));
    }

    /// Writing a rule keeps the slots in their sets, the keys apart and the ages apart.
    proof fn lemma_write_placed(self, new: FlowTable, e: int, t: FiveTuple, action: FlowAction)
        requires
            self.layout(),
            self.placed(),
            self.aged(),
            self.tick < u64::MAX,
            self.writes(new, e, t, action),
        ensures
            new.placed(),
            new.aged(),
    {
        self.lemma_write_slots(new, e, t, action);
        assert forall|i: int| #[trigger] new.live(i) implies {
            &&& new.fp@[i] == fx_tuple(new.key@[i]) | 1
            &&& new.base_of(new.key@[i]) <= i < new.base_of(new.key@[i]) + new.ways
            &&& new.age@[i] <= new.tick
        } by {
            if i != e {
                assert(self.live(i));
            }
        }
        assert forall|i: int, j: int| #[trigger]
            new.live(i) && #[trigger] new.live(j) && i != j implies new.key@[i] != new.key@[j]
            && new.age@[i] != new.age@[j] by {
            if i == e {
                assert(self.live(j) && !self.holds(j, t));
            } else if j == e {
                assert(self.live(i) && !self.holds(i, t));
            } else {
                assert(self.live(i) && self.live(j));
            }
        }
    }

    /// Writing the rule for `t` into slot `e`, which is free to take it, replaces whatever rule the
    /// slot held and leaves all others.
    #[verifier::spinoff_prover]
    proof fn lemma_write(self, new: FlowTable, e: int, t: FiveTuple, action: FlowAction)
        requires
            self.layout(),
            self.placed(),
            self.aged(),
            self.tick < u64::MAX,
            self.writes(new, e, t, action),
        ensures
            new.layout(),
            new.placed(),
            new.aged(),
            new@.rules == (if self.live(e) {
                self@.rules.remove(self.key@[e])
            } else {
                self@.rules
            }).insert(t, Rule { action, last_used: (self.tick + 1) as nat }),
    {
        self.lemma_write_slots(new, e, t, action);
        self.lemma_write_placed(new, e, t, action);
        let before = if self.live(e) {
            self@.rules.remove(self.key@[e])
        } else {
            self@.rules
        };
        let after = before.insert(t, Rule { action, last_used: (self.tick + 1) as nat });
        assert forall|k: FiveTuple| new@.rules.contains_key(k) == after.contains_key(k) by {
            if new.has(k) {
                let i = new.slot_of(k);
                assert(new.holds(i, k));
                if i != e {
                    assert(self.holds(i, k));
                    self.lemma_slot(i, k);
                    if self.live(e) {
                        assert(self.live(i) && self.key@[e] != k);
                    }
                }
            }
            if after.contains_key(k) {
                if k == t {
                    assert(new.holds(e, t));
                } else {
                    let i = self.slot_of(k);
                    assert(self.holds(i, k));
                    assert(i != e);
                    assert(new.live(i) && new.key@[i] == k);
                    assert(new.holds(i, k));
                }
            }
        }
        assert forall|k: FiveTuple| new@.rules.contains_key(k) implies new@.rules[k] == after[k] by {
            let i = new.slot_of(k);
            assert(new.holds(i, k));
            new.lemma_slot(i, k);
            if i == e {
                assert(k == t);
            } else {
                assert(self.holds(i, k));
                self.lemma_slot(i, k);
                assert(new.rule_at(i) == self.rule_at(i));
                assert(!self.holds(i, t));
            }
        }
        assert(new@.rules =~= after);
    }

    /// The index of a tuple's set lies within the sets, and so do the slots of the set.
    proof fn lemma_base(self, t: FiveTuple)
        requires
            self.layout(),
        ensures
            self.base_of(t) + self.ways <= self.slots(),
    {
        lemma_range_fits((fx_tuple(t) as nat) % self.n_sets(), self.n_sets(), self.ways as nat);
    }

    /// The contents of a table are those of a bounded cache: no set ever holds more than its ways,
    /// and no two rules were last used at the same tick.
    pub proof fn law_contents_wf(self)
        requires
            self.wf(),
        ensures
            self@.wf(),
    {
        self.lemma_dom();
        self.lemma_keys_in(0, self.fp@.len() as int);
        assert forall|t: FiveTuple| #[trigger] self@.neighbours(t).len() <= self@.ways by {
            self.lemma_neighbours(t);
            let base = self.base_of(t) as int;
            self.lemma_keys_in(base, base + self.ways);
        }
        assert forall|t: FiveTuple| #[trigger]
            self@.rules.contains_key(t) implies self@.rules[t].last_used <= self@.tick by {
            let i = self.slot_of(t);
            assert(self.holds(i, t));
            assert(self.live(i));
        }
        assert forall|t: FiveTuple, u: FiveTuple|
            #![trigger self@.rules[t], self@.rules[u]]
            self@.rules.contains_key(t) && self@.rules.contains_key(u) && t
                != u implies self@.rules[t].last_used != self@.rules[u].last_used by {
            let i = self.slot_of(t);
            let j = self.slot_of(u);
            assert(self.holds(i, t) && self.holds(j, u));
            assert(self.live(i) && self.live(j));
        }
    }

    /// First slot of the set that a hash maps to.
    fn set_base(&self, h: u64) -> (r: usize)
        requires
            self.layout(),
        ensures
            r == ((h as nat) % self.n_sets()) * (self.ways as nat),
            r + self.ways <= self.slots(),
    {
        proof {
            let k = choose|k: nat| self.n_sets() == #[trigger] pow2(k);
            lemma_mask_is_mod(h, self.mask as u64, k);
            lemma_range_fits((h as nat) % self.n_sets(), self.n_sets(), self.ways as nat);
        }
        let set: usize = (h & (self.mask as u64)) as usize;
        set * self.ways
    }

    /// A minimal 1-slot table.
    pub fn new() -> (r: Self)
        ensures
            r.wf(),
            r@ == TableModel::with_capacity(1, 1),
    {
        proof {
            lemma_next_pow2(1);
        }
        Self::with_capacity_ways(1, 1)
    }

    /// Builds a table holding up to about `capacity` rules with associativity `ways`.
    ///
    /// The set count is rounded up to a power of two, so the true capacity is
    /// `next_pow2(capacity / ways) * ways`.
    pub fn with_capacity_ways(capacity: usize, ways: usize) -> (r: Self)
        requires
            TableModel::with_capacity(capacity as nat, ways as nat).n_sets * max_nat(
                ways as nat,
                1,
            ) <= usize::MAX,
        ensures
            r.wf(),
            r@ == TableModel::with_capacity(capacity as nat, ways as nat),
    {
        let w: usize = if ways >= 1 {
            ways
        } else {
            1
        };
        let q: usize = capacity / w;
        let want: usize = if q >= 1 {
            q
        } else {
            1
        };
        proof {
            lemma_next_pow2(want as nat);
            let n = next_pow2(want as nat);
            assert(n <= n * (w as nat)) by (nonlinear_arith)
                requires
                    w >= 1,
            ;
        }
        let n_sets: usize = next_power_of_two(want);
        let slots: usize = n_sets * w;
        let r = FlowTable {
            mask: n_sets - 1,
            ways: w,
            fp: vec![0u64; slots],
            key: vec![placeholder_tuple(); slots],
            act: vec![FlowAction::Drop; slots],
            age: vec![0u64; slots],
            tick: 0,
            entries: 0,
            evictions: 0,
        };
        proof {
            assert forall|i: int| !r.live(i) by {
                if 0 <= i < r.fp@.len() {
                    assert(cloned(0u64, r.fp@[i]));
                }
            }
            assert(r@.rules =~= Map::empty());
        }
        r
    }

    /// A tuple that no slot of its set holds is not installed.
    proof fn lemma_absent(self, t: FiveTuple)
        requires
            self.layout(),
            self.placed(),
            forall|j: int|
                self.base_of(t) <= j < self.base_of(t) + self.ways ==> !#[trigger] self.holds(j, t),
        ensures
            forall|j: int| !#[trigger] self.holds(j, t),
            !self@.rules.contains_key(t),
    {
        assert forall|j: int| !#[trigger] self.holds(j, t) by {
            if self.holds(j, t) {
                assert(self.live(j));
            }
        }
    }

    /// The slots of a full set hold the least recently used rule where the smallest age is.
    proof fn lemma_lru(self, t: FiveTuple, v: int)
        requires
            self.layout(),
            self.placed(),
            self.aged(),
            self.base_of(t) <= v < self.base_of(t) + self.ways,
            forall|j: int|
                self.base_of(t) <= j < self.base_of(t) + self.ways ==> #[trigger] self.live(j)
                    && self.age@[v] <= self.age@[j],
        ensures
            self@.set_full(t),
            self@.lru(t) == self.key@[v],
    {
        let base = self.base_of(t) as int;
        self.lemma_neighbours(t);
        self.lemma_keys_in(base, base + self.ways);
        assert(self.live(v));
        let k = self.key@[v];
        assert(self.holds(v, k));
        self.lemma_slot(v, k);
        assert forall|u: FiveTuple| #[trigger]
            self@.neighbours(t).contains(u) && u != k implies self@.rules[k].last_used
            < self@.rules[u].last_used by {
            let j = choose|j: int| base <= j < base + self.ways && self.holds(j, u);
            self.lemma_slot(j, u);
            assert(self.live(j) && self.live(v));
        }
        assert(self@.is_lru(t, k));
        let l = self@.lru(t);
        assert(self@.is_lru(t, l));
        if l != k {
            assert(self@.neighbours(t).contains(l) && self@.neighbours(t).contains(k));
            assert(false);
        }
    }

    /// Scans the set of `tuple` once for the slot that a rule for it goes to.
    fn probe(&self, tuple: &FiveTuple, h: u64) -> (r: Probe)
        requires
            self.wf(),
            self.tick < u64::MAX,
            h == fx_tuple(*tuple),
        ensures
            match r {
                Probe::Found(i) => self.holds(i as int, *tuple),
                Probe::Free(i) => {
                    &&& self.base_of(*tuple) <= i < self.base_of(*tuple) + self.ways
                    &&& !self.live(i as int)
                    &&& forall|j: int| !#[trigger] self.holds(j, *tuple)
                },
                Probe::Full(i) => {
                    &&& self.base_of(*tuple) <= i < self.base_of(*tuple) + self.ways
                    &&& forall|j: int| !#[trigger] self.holds(j, *tuple)
                    &&& forall|j: int|
                        self.base_of(*tuple) <= j < self.base_of(*tuple) + self.ways
                            ==> #[trigger] self.live(j) && self.age@[i as int] <= self.age@[j]
                },
            },
    {
        let fp: u64 = h | 1;
        let base: usize = self.set_base(h);
        let end: usize = base + self.ways;
        let mut empty: Option<usize> = None;
        let mut lru: usize = base;
        let mut lru_age: u64 = u64::MAX;
        let mut i: usize = base;
        while i < end
            invariant
                self.wf(),
                self.tick < u64::MAX,
                fp == fx_tuple(*tuple) | 1,
                base == self.base_of(*tuple),
                end == base + self.ways,
                end <= self.slots(),
                base <= i <= end,
                base <= lru < end,
                forall|j: int| base <= j < i ==> !#[trigger] self.holds(j, *tuple),
                match empty {
                    Some(e) => base <= e < end && !self.live(e as int),
                    None => forall|j: int| base <= j < i ==> #[trigger] self.live(j),
                },
                forall|j: int|
                    base <= j < i && #[trigger] self.live(j) ==> lru_age <= self.age@[j],
                lru_age < u64::MAX ==> lru_age == self.age@[lru as int],
                empty.is_none() && i > base ==> lru_age < u64::MAX,
            decreases end - i,
        {
            if self.fp[i] == 0 {
                if empty.is_none() {
                    empty = Some(i);
                }
            } else {
                assert(self.live(i as int));
                if self.fp[i] == fp && self.key[i] == *tuple {
                    assert(self.holds(i as int, *tuple));
                    return Probe::Found(i);
                }
                if self.age[i] < lru_age {
                    lru_age = self.age[i];
                    lru = i;
                }
            }
            i = i + 1;
        }
        proof {
            self.lemma_absent(*tuple);
        }
        match empty {
            Some(e) => Probe::Free(e),
            None => Probe::Full(lru),
        }
    }

    /// The slot that holds the rule for `tuple`.
    fn find(&self, tuple: &FiveTuple) -> (r: Option<usize>)
        requires
            self.wf(),
        ensures
            match r {
                Some(i) => self.holds(i as int, *tuple),
                None => forall|j: int| !#[trigger] self.holds(j, *tuple),
            },
    {
        let h: u64 = fxhash(tuple);
        let fp: u64 = h | 1;
        let base: usize = self.set_base(h);
        let end: usize = base + self.ways;
        let mut i: usize = base;
        while i < end
            invariant
                self.wf(),
                fp == fx_tuple(*tuple) | 1,
                base == self.base_of(*tuple),
                end == base + self.ways,
                end <= self.slots(),
                base <= i <= end,
                forall|j: int| base <= j < i ==> !#[trigger] self.holds(j, *tuple),
            decreases end - i,
        {
            proof {
                lemma_fingerprint(fx_tuple(*tuple));
            }
            if self.fp[i] == fp && self.key[i] == *tuple {
                assert(self.holds(i as int, *tuple));
                return Some(i);
            }
            assert(self.live(i as int) ==> self.fp@[i as int] == fx_tuple(self.key@[i as int]) | 1);
            i = i + 1;
        }
        proof {
            self.lemma_absent(*tuple);
        }
        None
    }

    /// Writing to the slot that already holds `t` changes only the rule for `t`.
    proof fn lemma_rewrite(self, new: FlowTable, i: int, t: FiveTuple, action: FlowAction)
        requires
            self.wf(),
            self.tick < u64::MAX,
            self.holds(i, t),
            new.mask == self.mask,
            new.ways == self.ways,
            new.tick == self.tick + 1,
            new.entries == self.entries,
            new.evictions == self.evictions,
            new.fp@ == self.fp@,
            new.key@ == self.key@,
            new.act@ == self.act@.update(i, action),
            new.age@ == self.age@.update(i, new.tick),
        ensures
            new.wf(),
            self@.rules.contains_key(t),
            self@.rules[t].action == self.act@[i],
            new@.rules == self@.rules.insert(
                t,
                Rule { action, last_used: (self.tick + 1) as nat },
            ),
    {
        self.lemma_slot(i, t);
        assert(self.live(i));
        assert forall|j: int| j != i implies !#[trigger] self.holds(j, t) by {
            if self.holds(j, t) {
                assert(self.live(j) && self.live(i));
            }
        }
        assert(new.fp@ =~= self.fp@.update(i, fx_tuple(t) | 1));
        assert(new.key@ =~= self.key@.update(i, t));
        self.lemma_base(t);
        self.lemma_write(new, i, t, action);
        let fresh = Rule { action, last_used: (self.tick + 1) as nat };
        assert(self@.rules.remove(t).insert(t, fresh) =~= self@.rules.insert(t, fresh));
        assert(self@.rules.insert(t, fresh).dom() =~= self@.rules.dom());
    }

    /// Install a rule (updates in place if the key is already present; else fills an empty way, or
    /// evicts the least recently used way of the set).
    pub fn insert(&mut self, tuple: FiveTuple, action: FlowAction)
        requires
            old(self).wf(),
            old(self)@.tick < u64::MAX,
        ensures
            final(self).wf(),
            final(self)@ == old(self)@.insert(tuple, action),
    {
        let ghost before = *self;
        let h: u64 = fxhash(&tuple);
        let at: Probe = self.probe(&tuple, h);
        let tick: u64 = self.tick + 1;
        self.tick = tick;
        proof {
            before.lemma_base(tuple);
            before.lemma_neighbours(tuple);
            let base = before.base_of(tuple) as int;
            before.lemma_keys_in(base, base + before.ways);
            before.lemma_dom();
            before.lemma_keys_in(0, before.fp@.len() as int);
        }
        let slot: usize = match at {
            Probe::Found(i) => {
                self.act[i] = action;
                self.age[i] = tick;
                proof {
                    before.lemma_rewrite(*self, i as int, tuple, action);
                    assert(self@ =~= before@.insert(tuple, action));
                }
                return;
            },
            Probe::Free(i) => {
                self.entries = self.entries + 1;
                i
            },
            Probe::Full(i) => {
                self.evictions = self.evictions + 1;
                i
            },
        };
        self.fp[slot] = h | 1;
        self.key[slot] = tuple;
        self.act[slot] = action;
        self.age[slot] = tick;
        proof {
            before.lemma_absent(tuple);
            before.lemma_write(*self, slot as int, tuple, action);
            if at is Full {
                assert(before.live(slot as int));
                before.lemma_lru(tuple, slot as int);
                assert(before.holds(slot as int, before.key@[slot as int]));
                before.lemma_slot(slot as int, before.key@[slot as int]);
            }
            assert(self@ =~= before@.insert(tuple, action));
        }
    }

    /// Look up the action for a 5-tuple, making its rule the most recently used one on a hit.
    pub fn get(&mut self, tuple: &FiveTuple) -> (r: Option<FlowAction>)
        requires
            old(self).wf(),
            old(self)@.rules.contains_key(*tuple) ==> old(self)@.tick < u64::MAX,
        ensures
            final(self).wf(),
            r == old(self)@.lookup(*tuple),
            final(self)@ == old(self)@.touch(*tuple),
    {
        let ghost before = *self;
        match self.find(tuple) {
            Some(i) => {
                self.tick = self.tick + 1;
                self.age[i] = self.tick;
                let action: FlowAction = self.act[i];
                proof {
                    assert(self.act@ =~= before.act@.update(i as int, action));
                    before.lemma_rewrite(*self, i as int, *tuple, action);
                    assert(self@ =~= before@.touch(*tuple));
                }
                Some(action)
            },
            None => {
                proof {
                    before.lemma_absent(*tuple);
                }
                None
            },
        }
    }

    /// Match a packet by its transport header. Returns the action to apply, or `None` if it does
    /// not match a rule or is not TCP/UDP (no transport header was found).
    pub fn lookup(&mut self, ctxt: &Option<L4Context>) -> (r: Option<FlowAction>)
        requires
            old(self).wf(),
            *ctxt matches Some(c) ==> old(self)@.rules.contains_key(c.five_tuple()) ==> old(
                self,
            )@.tick < u64::MAX,
        ensures
            final(self).wf(),
            r == old(self)@.matched(*ctxt),
            final(self)@ == old(self)@.after_match(*ctxt),
    {
        match ctxt {
            Some(c) => self.get(&FiveTuple::from_ctxt(c)),
            None => None,
        }
    }

    /// Uninstall a rule.
    pub fn remove(&mut self, tuple: &FiveTuple)
        requires
            old(self).wf(),
        ensures
            final(self).wf(),
            final(self)@ == old(self)@.remove(*tuple),
    {
        let ghost before = *self;
        match self.find(tuple) {
            Some(i) => {
                proof {
                    before.lemma_slot(i as int, *tuple);
                    before.lemma_dom();
                    before.lemma_keys_in(0, before.fp@.len() as int);
                    assert(before@.rules.dom().contains(*tuple));
                }
                self.fp[i] = 0;
                self.entries = self.entries - 1;
                proof {
                    before.lemma_clear(*self, i as int, *tuple);
                    assert(self@ =~= before@.remove(*tuple));
                }
            },
            None => {
                proof {
                    before.lemma_absent(*tuple);
                    assert(before@.rules.remove(*tuple) =~= before@.rules);
                    assert(self@ =~= before@.remove(*tuple));
                }
            },
        }
    }

    /// Emptying the slot of `t` uninstalls `t` and leaves all others.
    proof fn lemma_clear(self, new: FlowTable, e: int, t: FiveTuple)
        requires
            self.layout(),
            self.placed(),
            self.aged(),
            self.holds(e, t),
            new.mask == self.mask,
            new.ways == self.ways,
            new.tick == self.tick,
            new.fp@ == self.fp@.update(e, 0),
            new.key@ == self.key@,
            new.act@ == self.act@,
            new.age@ == self.age@,
        ensures
            new.layout(),
            new.placed(),
            new.aged(),
            new@.rules == self@.rules.remove(t),
    {
        assert forall|i: int| #[trigger] new.live(i) implies self.live(i) && i != e by {}
        assert forall|i: int| #[trigger] self.live(i) && i != e implies new.live(i) by {}
        let after = self@.rules.remove(t);
        assert forall|k: FiveTuple| new@.rules.contains_key(k) == after.contains_key(k) by {
            if new.has(k) {
                let i = new.slot_of(k);
                assert(new.holds(i, k));
                assert(new.live(i) && self.live(e));
                self.lemma_slot(i, k);
            }
            if after.contains_key(k) {
                let i = self.slot_of(k);
                assert(self.holds(i, k));
                assert(new.holds(i, k));
            }
        }
        assert forall|k: FiveTuple| new@.rules.contains_key(k) implies new@.rules[k] == after[k] by {
            let i = new.slot_of(k);
            assert(new.holds(i, k));
            assert(new.live(i));
            self.lemma_slot(i, k);
        }
        assert(new@.rules =~= after);
    }

    /// Apply a control-plane command drained from this core's inbox.
    pub fn apply(&mut self, cmd: FlowCommand)
        requires
            old(self).wf(),
            cmd is Install ==> old(self)@.tick < u64::MAX,
        ensures
            final(self).wf(),
            final(self)@ == old(self)@.apply(cmd),
    {
        match cmd {
            FlowCommand::Install(tuple, action) => self.insert(tuple, action),
            FlowCommand::Uninstall(tuple) => self.remove(&tuple),
        }
    }

    /// Number of live rules.
    pub fn len(&self) -> (r: usize)
        requires
            self.wf(),
        ensures
            r == self@.rules.len(),
    {
        self.entries
    }

    /// Whether no rule is installed.
    pub fn is_empty(&self) -> (r: bool)
        requires
            self.wf(),
        ensures
            r == (self@.rules == Map::<FiveTuple, Rule>::empty()),
    {
        proof {
            self.lemma_dom();
            self.lemma_keys_in(0, self.fp@.len() as int);
            if self.entries == 0 {
                assert(self@.rules.dom() =~= Set::empty());
                assert(self@.rules =~= Map::empty());
            }
        }
        self.entries == 0
    }

    /// Whether the uses of the table can still be told apart: another install or hit can be counted.
    pub fn has_ticks(&self) -> (r: bool)
        ensures
            r == (self@.tick < u64::MAX),
    {
        self.tick < u64::MAX
    }

    /// Total number of evictions since construction.
    pub fn evictions(&self) -> (r: u64)
        ensures
            r == self@.evictions,
    {
        self.evictions
    }
}

} // verus!
