//! Statistics of NIC ports, and their sums over all ports.

use vstd::prelude::*;

use crate::port::{PortId, RxQueue, RxQueueType};
use crate::text::{
    comes_before, contains, decimal, is_before, lemma_before_is_transitive, lemma_not_before_itself,
    lemma_one_comes_first, occurs, push_decimal, same_text,
};

verus! {

/// Preamble + Start Frame Delimiter
pub const PSFD_SIZE: u64 = 8;

/// Interpacket Gap
pub const IPG_SIZE: u64 = 12;

/// Frame Checksum
pub const FCS_SIZE: u64 = 4;

/// The statistics that a port reports, each under its label. The labels ascend, and each occurs
/// once.
#[derive(Debug)]
pub struct PortStats {
    stats: Vec<(String, u64)>,
}

/// The value under a label.
pub open spec fn stat(stats: Seq<(String, u64)>, label: Seq<char>) -> Option<u64>
    decreases stats.len(),
{
    if stats.len() == 0 {
        None
    } else if stats[0].0@ == label {
        Some(stats[0].1)
    } else {
        stat(stats.skip(1), label)
    }
}

/// A value that counts as zero where it is missing.
pub open spec fn or_zero(v: Option<u64>) -> u64 {
    match v {
        Some(n) => n,
        None => 0,
    }
}

/// Whether labels ascend, so that each occurs once.
pub open spec fn labels_ascend(stats: Seq<(String, u64)>) -> bool {
    forall|i: int, j: int|
        #![trigger stats[i], stats[j]]
        0 <= i < j < stats.len() ==> comes_before(stats[i].0@, stats[j].0@)
}

/// The value that was put under a label last.
pub open spec fn last_put(entries: Seq<(String, u64)>, label: Seq<char>) -> Option<u64>
    decreases entries.len(),
{
    if entries.len() == 0 {
        None
    } else if entries.last().0@ == label {
        Some(entries.last().1)
    } else {
        last_put(entries.drop_last(), label)
    }
}

/// The value under a label is that of its first entry.
proof fn lemma_stat_at(stats: Seq<(String, u64)>, i: int)
    requires
        0 <= i < stats.len(),
        forall|j: int| 0 <= j < i ==> (#[trigger] stats[j]).0@ != stats[i].0@,
    ensures
        stat(stats, stats[i].0@) == Some(stats[i].1),
    decreases i,
{
    if i > 0 {
        let rest = stats.skip(1);
        assert forall|j: int| 0 <= j < i - 1 implies (#[trigger] rest[j]).0@ != rest[i - 1].0@ by {
            assert(rest[j] == stats[j + 1]);
        }
        assert(stats[0].0@ != stats[i].0@);
        lemma_stat_at(rest, i - 1);
    }
}

/// There is no value under a label without an entry.
proof fn lemma_stat_none(stats: Seq<(String, u64)>, label: Seq<char>)
    requires
        forall|j: int| 0 <= j < stats.len() ==> (#[trigger] stats[j]).0@ != label,
    ensures
        stat(stats, label) is None,
    decreases stats.len(),
{
    if stats.len() > 0 {
        let rest = stats.skip(1);
        assert forall|j: int| 0 <= j < rest.len() implies (#[trigger] rest[j]).0@ != label by {
            assert(rest[j] == stats[j + 1]);
        }
        assert(stats[0].0@ != label);
        lemma_stat_none(rest, label);
    }
}

/// Labels that ascend name their values: the value under a label is that of the one entry with the
/// label.
pub proof fn law_labels_name_values(stats: Seq<(String, u64)>, label: Seq<char>)
    requires
        labels_ascend(stats),
    ensures
        forall|i: int|
            0 <= i < stats.len() && (#[trigger] stats[i]).0@ == label ==> stat(stats, label)
                == Some(stats[i].1),
        stat(stats, label) is None <==> forall|i: int|
            0 <= i < stats.len() ==> (#[trigger] stats[i]).0@ != label,
        forall|i: int, j: int|
            #![trigger stats[i], stats[j]]
            0 <= i < stats.len() && 0 <= j < stats.len() && stats[i].0@ == stats[j].0@ ==> i == j,
{
    assert forall|i: int, j: int|
        #![trigger stats[i], stats[j]]
        0 <= i < stats.len() && 0 <= j < stats.len() && stats[i].0@ == stats[j].0@ implies i
        == j by {
        lemma_not_before_itself(stats[i].0@);
    }
    assert forall|i: int| 0 <= i < stats.len() && (#[trigger] stats[i]).0@ == label implies stat(
        stats,
        label,
    ) == Some(stats[i].1) by {
        lemma_stat_at(stats, i);
    }
    if forall|i: int| 0 <= i < stats.len() ==> (#[trigger] stats[i]).0@ != label {
        lemma_stat_none(stats, label);
    }
}

/// Where an entry that was in a list stands after another was put into it at place `p`.
spec fn moved(i: int, p: int, replaced: bool) -> int {
    if replaced || i < p {
        i
    } else {
        i + 1
    }
}

/// Putting an entry where it belongs keeps the labels ascending and changes the value under its
/// label alone.
proof fn lemma_put(
    before: Seq<(String, u64)>,
    after: Seq<(String, u64)>,
    p: int,
    e: (String, u64),
    replaced: bool,
)
    requires
        labels_ascend(before),
        0 <= p <= before.len(),
        replaced ==> p < before.len() && before[p].0@ == e.0@ && after == before.update(p, e),
        !replaced ==> after == before.insert(p, e),
        forall|j: int| 0 <= j < p ==> comes_before((#[trigger] before[j]).0@, e.0@),
        forall|j: int|
            p <= j < before.len() && !(replaced && j == p) ==> comes_before(
                e.0@,
                (#[trigger] before[j]).0@,
            ),
    ensures
        labels_ascend(after),
        forall|l: Seq<char>| #[trigger]
            stat(after, l) == if l == e.0@ {
                Some(e.1)
            } else {
                stat(before, l)
            },
{
    assert(after[p] == e);
    assert forall|i: int| 0 <= i < before.len() && !(replaced && i == p) implies after[moved(
        i,
        p,
        replaced,
    )] == #[trigger] before[i] by {}
    assert forall|i: int, j: int|
        #![trigger after[i], after[j]]
        0 <= i < j < after.len() implies comes_before(after[i].0@, after[j].0@) by {
        let a = if replaced || i <= p {
            i
        } else {
            i - 1
        };
        let b = if replaced || j <= p {
            j
        } else {
            j - 1
        };
        assert(i != p ==> after[i] == before[a]);
        assert(j != p ==> after[j] == before[b]);
        if i != p && j != p {
            assert(comes_before(before[a].0@, before[b].0@));
        }
    }
    assert forall|l: Seq<char>| #[trigger]
        stat(after, l) == if l == e.0@ {
            Some(e.1)
        } else {
            stat(before, l)
        } by {
        law_labels_name_values(after, l);
        law_labels_name_values(before, l);
        if l == e.0@ {
            assert(after[p].0@ == l);
        } else if stat(before, l) is Some {
            let i = choose|i: int| 0 <= i < before.len() && (#[trigger] before[i]).0@ == l;
            assert(after[moved(i, p, replaced)] == before[i]);
        } else {
            assert forall|i: int| 0 <= i < after.len() implies (#[trigger] after[i]).0@ != l by {
                let a = if replaced || i < p {
                    i
                } else {
                    i - 1
                };
                if i != p {
                    assert(after[i] == before[a]);
                }
            }
        }
    }
}

/// Puts a value under a label, in the place of the value that was there.
fn put(stats: &mut Vec<(String, u64)>, label: String, value: u64)
    requires
        labels_ascend(old(stats)@),
    ensures
        labels_ascend(final(stats)@),
        forall|l: Seq<char>| #[trigger]
            stat(final(stats)@, l) == if l == label@ {
                Some(value)
            } else {
                stat(old(stats)@, l)
            },
{
    let ghost before = stats@;
    let mut p: usize = 0;
    while p < stats.len() && is_before(stats[p].0.as_str(), label.as_str())
        invariant
            stats@ == before,
            p <= stats@.len(),
            forall|j: int| 0 <= j < p ==> comes_before((#[trigger] before[j]).0@, label@),
        decreases stats@.len() - p,
    {
        p = p + 1;
    }
    proof {
        lemma_not_before_itself(label@);
        assert forall|j: int| p < j < before.len() implies comes_before(
            label@,
            (#[trigger] before[j]).0@,
        ) by {
            lemma_one_comes_first(before[p as int].0@, label@);
            if before[p as int].0@ != label@ {
                assert(comes_before(before[p as int].0@, before[j].0@));
                lemma_before_is_transitive(label@, before[p as int].0@, before[j].0@);
            }
        }
    }
    if p < stats.len() && same_text(stats[p].0.as_str(), label.as_str()) {
        stats.set(p, (label, value));
        proof {
            lemma_put(before, stats@, p as int, (label, value), true);
        }
    } else {
        proof {
            if p < before.len() {
                lemma_one_comes_first(before[p as int].0@, label@);
            }
        }
        stats.insert(p, (label, value));
        proof {
            lemma_put(before, stats@, p as int, (label, value), false);
        }
    }
}

impl View for PortStats {
    type V = Seq<(String, u64)>;

    /// Labels and values.
    closed spec fn view(&self) -> Seq<(String, u64)> {
        self.stats@
    }
}

impl PortStats {
    /// What holds of the statistics of every port.
    #[verifier::type_invariant]
    closed spec fn ordered(self) -> bool {
        labels_ascend(self.stats@)
    }

    /// The statistics in some entries, in the order of their labels. Of several entries with one
    /// label the last counts.
    pub fn new(entries: Vec<(String, u64)>) -> (r: Self)
        ensures
            labels_ascend(r@),
            forall|l: Seq<char>| #[trigger] stat(r@, l) == last_put(entries@, l),
    {
        let mut stats: Vec<(String, u64)> = Vec::new();
        let mut i: usize = 0;
        while i < entries.len()
            invariant
                i <= entries@.len(),
                labels_ascend(stats@),
                forall|l: Seq<char>| #[trigger]
                    stat(stats@, l) == last_put(entries@.take(i as int), l),
            decreases entries@.len() - i,
        {
            assert(entries@.take(i + 1).drop_last() =~= entries@.take(i as int));
            put(&mut stats, entries[i].0.clone(), entries[i].1);
            i = i + 1;
        }
        assert(entries@.take(i as int) =~= entries@);
        PortStats { stats }
    }

    /// The statistics, in the order of their labels.
    pub fn entries(&self) -> (r: &Vec<(String, u64)>)
        ensures
            r@ == self@,
            labels_ascend(r@),
    {
        proof {
            use_type_invariant(self);
        }
        &self.stats
    }

    /// The value under a label.
    pub fn get(&self, label: &str) -> (r: Option<u64>)
        ensures
            r == stat(self@, label@),
    {
        let mut i: usize = 0;
        assert(self.stats@.skip(0) =~= self.stats@);
        while i < self.stats.len()
            invariant
                i <= self.stats@.len(),
                stat(self.stats@, label@) == stat(self.stats@.skip(i as int), label@),
            decreases self.stats@.len() - i,
        {
            assert(self.stats@.skip(i as int).skip(1) =~= self.stats@.skip(i + 1));
            if same_text(self.stats[i].0.as_str(), label) {
                return Some(self.stats[i].1);
            }
            i = i + 1;
        }
        None
    }

    /// The value under a label, zero where it is missing.
    pub fn get_or_zero(&self, label: &str) -> (r: u64)
        ensures
            r == or_zero(stat(self@, label@)),
    {
        match self.get(label) {
            Some(v) => v,
            None => 0,
        }
    }
}

/// Whether ports ascend, so that each occurs once.
pub open spec fn ports_ascend(ports: Seq<(PortId, Vec<RxQueue>)>) -> bool {
    forall|i: int, j: int|
        #![trigger ports[i], ports[j]]
        0 <= i < j < ports.len() ==> ports[i].0.0 < ports[j].0.0
}

/// Whether ports ascend, so that each occurs once.
pub fn in_port_order(ports: &Vec<(PortId, Vec<RxQueue>)>) -> (r: bool)
    ensures
        r == ports_ascend(ports@),
{
    let mut i: usize = 1;
    while i < ports.len()
        invariant
            1 <= i,
            i <= ports@.len() || i == 1,
            forall|a: int, b: int|
                #![trigger ports@[a], ports@[b]]
                0 <= a < b < i && b < ports@.len() ==> ports@[a].0.0 < ports@[b].0.0,
        decreases ports@.len() - i,
    {
        if ports[i - 1].0.0 >= ports[i].0.0 {
            assert(ports@[i - 1].0.0 >= ports@[i as int].0.0);
            return false;
        }
        assert forall|a: int, b: int|
            #![trigger ports@[a], ports@[b]]
            0 <= a < b < i + 1 && b < ports@.len() implies ports@[a].0.0 < ports@[b].0.0 by {
            if b == i && a < i - 1 {
                assert(ports@[a].0.0 < ports@[i - 1].0.0);
            }
        }
        i = i + 1;
    }
    true
}

/// Whether a label holds one of the keywords.
pub open spec fn wanted(label: Seq<char>, keywords: Seq<String>) -> bool {
    exists|k: int| 0 <= k < keywords.len() && #[trigger] occurs(label, keywords[k]@)
}

/// Whether a label holds one of the keywords.
pub fn is_wanted(label: &str, keywords: &Vec<String>) -> (r: bool)
    ensures
        r == wanted(label@, keywords@),
{
    let mut k: usize = 0;
    while k < keywords.len()
        invariant
            k <= keywords@.len(),
            forall|j: int| 0 <= j < k ==> !#[trigger] occurs(label@, keywords@[j]@),
        decreases keywords@.len() - k,
    {
        if contains(label, keywords[k].as_str()) {
            return true;
        }
        k = k + 1;
    }
    false
}

/// Label of a statistic of one queue.
pub open spec fn queue_label(qid: u16, what: Seq<char>) -> Seq<char> {
    "rx_q"@ + decimal(qid as nat) + what
}

/// Label of a statistic of one queue.
fn queue_label_of(qid: u16, what: &str) -> (r: String)
    ensures
        r@ == queue_label(qid, what@),
{
    let mut out: String = String::new();
    out.append("rx_q");
    push_decimal(&mut out, qid as u128);
    out.append(what);
    assert(out@ =~= queue_label(qid, what@));
    out
}

/// What a port steered to its sink queues; a queue without the statistic counts as zero.
pub open spec fn sunk(stats: Seq<(String, u64)>, queues: Seq<RxQueue>, what: Seq<char>) -> int
    decreases queues.len(),
{
    if queues.len() == 0 {
        0
    } else {
        let q = queues.last();
        sunk(stats, queues.drop_last(), what) + if q.ty == RxQueueType::Sink {
            or_zero(stat(stats, queue_label(q.qid.0, what))) as int
        } else {
            0
        }
    }
}

/// A sum, or the largest 64-bit number where the sum is larger.
pub open spec fn capped(n: int) -> int {
    if n <= u64::MAX {
        n
    } else {
        u64::MAX as int
    }
}

/// `a` less `b`, and not below zero.
pub open spec fn minus(a: int, b: int) -> int {
    if a >= b {
        a - b
    } else {
        0
    }
}

/// What a port steered to its sink queues, at most the largest 64-bit number.
fn sunk_of(stats: &PortStats, queues: &Vec<RxQueue>, what: &str) -> (r: u64)
    ensures
        r == capped(sunk(stats@, queues@, what@)),
        0 <= sunk(stats@, queues@, what@),
{
    let mut sum: u64 = 0;
    let mut i: usize = 0;
    while i < queues.len()
        invariant
            i <= queues@.len(),
            sum == capped(sunk(stats@, queues@.take(i as int), what@)),
            0 <= sunk(stats@, queues@.take(i as int), what@),
        decreases queues@.len() - i,
    {
        assert(queues@.take(i + 1).drop_last() =~= queues@.take(i as int));
        match queues[i].ty {
            RxQueueType::Sink => {
                let label: String = queue_label_of(queues[i].qid.0, what);
                let v: u64 = stats.get_or_zero(label.as_str());
                sum = sum.saturating_add(v);
            },
            RxQueueType::Receive => {},
        }
        i = i + 1;
    }
    assert(queues@.take(i as int) =~= queues@);
    sum
}

/// Sums of the statistics of some ports.
#[verifier::ext_equal]
pub struct RxTotals {
    /// Bytes that reached the NIC.
    pub ingress_bytes: int,
    /// Packets that reached the NIC.
    pub ingress_pkts: int,
    /// Bytes that reached software.
    pub good_bytes: int,
    /// Packets that reached software.
    pub good_pkts: int,
    /// Bytes that reached the workers: those that reached software less those steered to sinks.
    pub process_bytes: int,
    /// Packets that reached the workers.
    pub process_pkts: int,
    /// Packets that the NIC dropped.
    pub hw_dropped_pkts: int,
    /// Packets that software was too slow for.
    pub sw_dropped_pkts: int,
}

impl RxTotals {
    /// The sums over no port.
    pub open spec fn zero() -> RxTotals {
        RxTotals {
            ingress_bytes: 0,
            ingress_pkts: 0,
            good_bytes: 0,
            good_pkts: 0,
            process_bytes: 0,
            process_pkts: 0,
            hw_dropped_pkts: 0,
            sw_dropped_pkts: 0,
        }
    }

    /// The sums with those of other ports.
    pub open spec fn plus(self, o: RxTotals) -> RxTotals {
        RxTotals {
            ingress_bytes: self.ingress_bytes + o.ingress_bytes,
            ingress_pkts: self.ingress_pkts + o.ingress_pkts,
            good_bytes: self.good_bytes + o.good_bytes,
            good_pkts: self.good_pkts + o.good_pkts,
            process_bytes: self.process_bytes + o.process_bytes,
            process_pkts: self.process_pkts + o.process_pkts,
            hw_dropped_pkts: self.hw_dropped_pkts + o.hw_dropped_pkts,
            sw_dropped_pkts: self.sw_dropped_pkts + o.sw_dropped_pkts,
        }
    }

    /// Whether no sum is above that of another.
    pub open spec fn within(self, o: RxTotals) -> bool {
        &&& self.ingress_bytes <= o.ingress_bytes
        &&& self.ingress_pkts <= o.ingress_pkts
        &&& self.good_bytes <= o.good_bytes
        &&& self.good_pkts <= o.good_pkts
        &&& self.process_bytes <= o.process_bytes
        &&& self.process_pkts <= o.process_pkts
        &&& self.hw_dropped_pkts <= o.hw_dropped_pkts
        &&& self.sw_dropped_pkts <= o.sw_dropped_pkts
    }

    /// Bits on the wire of what reached the NIC: its byte count leaves out preamble and gap.
    pub open spec fn ingress_bits(self) -> int {
        (self.ingress_bytes + 20 * self.ingress_pkts) * 8
    }

    /// Bits on the wire of what reached software: its byte count leaves out preamble, gap and
    /// checksum.
    pub open spec fn good_bits(self) -> int {
        (self.good_bytes + 24 * self.good_pkts) * 8
    }

    /// Bits on the wire of what reached the workers.
    pub open spec fn process_bits(self) -> int {
        (self.process_bytes + 24 * self.process_pkts) * 8
    }

    /// Whether every sum and every number of bits is a 64-bit number.
    pub open spec fn fits(self) -> bool {
        &&& self.ingress_bits() <= u64::MAX
        &&& self.good_bits() <= u64::MAX
        &&& self.process_bits() <= u64::MAX
        &&& self.hw_dropped_pkts <= u64::MAX
        &&& self.sw_dropped_pkts <= u64::MAX
    }
}

/// The statistics of one port. What the device does not report counts as zero.
pub open spec fn port_totals(stats: Seq<(String, u64)>, queues: Seq<RxQueue>) -> RxTotals {
    let good_bytes = or_zero(stat(stats, "rx_good_bytes"@)) as int;
    let good_pkts = or_zero(stat(stats, "rx_good_packets"@)) as int;
    RxTotals {
        ingress_bytes: or_zero(stat(stats, "rx_phy_bytes"@)) as int,
        ingress_pkts: or_zero(stat(stats, "rx_phy_packets"@)) as int,
        good_bytes,
        good_pkts,
        process_bytes: minus(good_bytes, sunk(stats, queues, "_bytes"@)),
        process_pkts: minus(good_pkts, sunk(stats, queues, "_packets"@)),
        hw_dropped_pkts: or_zero(stat(stats, "rx_phy_discard_packets"@)) as int,
        sw_dropped_pkts: or_zero(stat(stats, "rx_missed_errors"@)) as int,
    }
}

/// The sums over the ports that could be read.
pub open spec fn all_totals(
    ports: Seq<(PortId, Vec<RxQueue>)>,
    reads: Seq<Result<PortStats, String>>,
) -> RxTotals
    decreases reads.len(),
{
    if reads.len() == 0 {
        RxTotals::zero()
    } else {
        let rest = all_totals(ports, reads.drop_last());
        match reads.last() {
            Ok(s) => rest.plus(port_totals(s@, ports[reads.len() - 1].1@)),
            Err(_) => rest,
        }
    }
}

/// Why statistics could not be collected.
#[derive(Debug, PartialEq, Eq)]
pub enum CollectError {
    /// A port could not be read, for the reason given.
    Port(String),
    /// A port does not report what software was too slow for.
    NoSwDropped,
}

impl CollectError {
    /// The message for an error.
    pub open spec fn text(self) -> Seq<char> {
        match self {
            CollectError::Port(msg) => msg@,
            CollectError::NoSwDropped => "Failed retrieving sw_dropped_pkts"@,
        }
    }

    /// The message for an error.
    pub fn message(&self) -> (r: String)
        ensures
            r@ == self.text(),
    {
        match self {
            CollectError::Port(msg) => msg.clone(),
            CollectError::NoSwDropped => {
                let mut out: String = String::new();
                out.append("Failed retrieving sw_dropped_pkts");
                assert(out@ =~= self.text());
                out
            },
        }
    }
}

/// What is wrong with the first port that cannot be used.
pub open spec fn first_error(reads: Seq<Result<PortStats, String>>) -> Option<CollectError>
    decreases reads.len(),
{
    if reads.len() == 0 {
        None
    } else {
        match first_error(reads.drop_last()) {
            Some(e) => Some(e),
            None => match reads.last() {
                Err(msg) => Some(CollectError::Port(msg)),
                Ok(s) => if stat(s@, "rx_missed_errors"@) is None {
                    Some(CollectError::NoSwDropped)
                } else {
                    None
                },
            },
        }
    }
}

/// An error stays the first one when more ports are read.
proof fn lemma_first_error(reads: Seq<Result<PortStats, String>>, n: int)
    requires
        0 <= n <= reads.len(),
        first_error(reads.take(n)) is Some,
    ensures
        first_error(reads) == first_error(reads.take(n)),
    decreases reads.len(),
{
    if n < reads.len() {
        assert(reads.drop_last().take(n) =~= reads.take(n));
        lemma_first_error(reads.drop_last(), n);
    } else {
        assert(reads.take(n) =~= reads);
    }
}

/// What is wrong with the first port that cannot be used.
fn find_error(reads: &Vec<Result<PortStats, String>>) -> (r: Option<CollectError>)
    ensures
        r == first_error(reads@),
{
    let mut i: usize = 0;
    while i < reads.len()
        invariant
            i <= reads@.len(),
            first_error(reads@.take(i as int)) is None,
        decreases reads@.len() - i,
    {
        let ghost upto = reads@.take(i + 1);
        assert(upto.drop_last() =~= reads@.take(i as int));
        assert(upto.last() == reads@[i as int]);
        match &reads[i] {
            Err(msg) => {
                proof {
                    lemma_first_error(reads@, i + 1);
                }
                return Some(CollectError::Port(msg.clone()));
            },
            Ok(s) => {
                if s.get("rx_missed_errors").is_none() {
                    proof {
                        lemma_first_error(reads@, i + 1);
                    }
                    return Some(CollectError::NoSwDropped);
                }
            },
        }
        i = i + 1;
    }
    assert(reads@.take(i as int) =~= reads@);
    None
}

/// The sums never become smaller as ports are added, and are never negative.
proof fn lemma_totals_grow(
    ports: Seq<(PortId, Vec<RxQueue>)>,
    reads: Seq<Result<PortStats, String>>,
    n: int,
)
    requires
        0 <= n <= reads.len(),
    ensures
        RxTotals::zero().within(all_totals(ports, reads.take(n))),
        all_totals(ports, reads.take(n)).within(all_totals(ports, reads)),
    decreases reads.len(),
{
    if reads.len() == 0 {
        assert(reads.take(n) =~= reads);
    } else {
        lemma_totals_grow(ports, reads.drop_last(), reads.len() - 1);
        assert(reads.drop_last().take(reads.len() - 1) =~= reads.drop_last());
        if n == reads.len() {
            assert(reads.take(n) =~= reads);
        } else {
            lemma_totals_grow(ports, reads.drop_last(), n);
            assert(reads.drop_last().take(n) =~= reads.take(n));
        }
    }
}

/// Aggregate RX port statistics at time of collection.
#[derive(Clone, Copy, Debug, PartialEq, Eq, Structural)]
pub struct AggRxStats {
    /// Bits on the wire that reached the NIC.
    pub ingress_bits: u64,
    /// Bytes that reached the NIC, without preamble and gap.
    pub ingress_bytes: u64,
    /// Packets that reached the NIC.
    pub ingress_pkts: u64,
    /// Bits on the wire that reached software.
    pub good_bits: u64,
    /// Packets that reached software.
    pub good_pkts: u64,
    /// Bits on the wire that reached the workers.
    pub process_bits: u64,
    /// Packets that reached the workers.
    pub process_pkts: u64,
    /// Packets that the NIC dropped.
    pub hw_dropped_pkts: u64,
    /// Packets that software was too slow for.
    pub sw_dropped_pkts: u64,
}

/// The aggregate of some sums.
pub open spec fn aggregate(t: RxTotals) -> AggRxStats {
    AggRxStats {
        ingress_bits: t.ingress_bits() as u64,
        ingress_bytes: t.ingress_bytes as u64,
        ingress_pkts: t.ingress_pkts as u64,
        good_bits: t.good_bits() as u64,
        good_pkts: t.good_pkts as u64,
        process_bits: t.process_bits() as u64,
        process_pkts: t.process_pkts as u64,
        hw_dropped_pkts: t.hw_dropped_pkts as u64,
        sw_dropped_pkts: t.sw_dropped_pkts as u64,
    }
}

/// Sums of the statistics of some ports, as 64-bit numbers.
#[derive(Clone, Copy)]
struct RxSums {
    ingress_bytes: u64,
    ingress_pkts: u64,
    good_bytes: u64,
    good_pkts: u64,
    process_bytes: u64,
    process_pkts: u64,
    hw_dropped_pkts: u64,
    sw_dropped_pkts: u64,
}

/// Bits on the wire of some packets with so many bytes of overhead each, if a 64-bit number.
fn wire_bits(bytes: u64, overhead: u64, pkts: u64) -> (r: Option<u64>)
    requires
        overhead <= 24,
    ensures
        match r {
            Some(n) => n == (bytes + overhead * pkts) * 8,
            None => (bytes + overhead * pkts) * 8 > u64::MAX,
        },
{
    assert(overhead * pkts <= 24 * u64::MAX) by (nonlinear_arith)
        requires
            overhead <= 24,
            pkts <= u64::MAX,
    ;
    let bits: u128 = (bytes as u128 + overhead as u128 * pkts as u128) * 8;
    if bits <= u64::MAX as u128 {
        Some(bits as u64)
    } else {
        None
    }
}

impl RxSums {
    spec fn view(&self) -> RxTotals {
        RxTotals {
            ingress_bytes: self.ingress_bytes as int,
            ingress_pkts: self.ingress_pkts as int,
            good_bytes: self.good_bytes as int,
            good_pkts: self.good_pkts as int,
            process_bytes: self.process_bytes as int,
            process_pkts: self.process_pkts as int,
            hw_dropped_pkts: self.hw_dropped_pkts as int,
            sw_dropped_pkts: self.sw_dropped_pkts as int,
        }
    }

    /// The statistics of one port.
    fn of_port(s: &PortStats, queues: &Vec<RxQueue>) -> (r: Self)
        ensures
            r@ == port_totals(s@, queues@),
    {
        let good_bytes: u64 = s.get_or_zero("rx_good_bytes");
        let good_pkts: u64 = s.get_or_zero("rx_good_packets");
        let sink_bytes: u64 = sunk_of(s, queues, "_bytes");
        let sink_pkts: u64 = sunk_of(s, queues, "_packets");
        RxSums {
            ingress_bytes: s.get_or_zero("rx_phy_bytes"),
            ingress_pkts: s.get_or_zero("rx_phy_packets"),
            good_bytes,
            good_pkts,
            process_bytes: good_bytes.saturating_sub(sink_bytes),
            process_pkts: good_pkts.saturating_sub(sink_pkts),
            hw_dropped_pkts: s.get_or_zero("rx_phy_discard_packets"),
            sw_dropped_pkts: s.get_or_zero("rx_missed_errors"),
        }
    }

    /// The sums with those of other ports, if they are 64-bit numbers.
    fn plus(&self, o: &RxSums) -> (r: Option<Self>)
        ensures
            match r {
                Some(t) => t@ == self@.plus(o@),
                None => !self@.plus(o@).fits(),
            },
    {
        Some(
            RxSums {
                ingress_bytes: self.ingress_bytes.checked_add(o.ingress_bytes)?,
                ingress_pkts: self.ingress_pkts.checked_add(o.ingress_pkts)?,
                good_bytes: self.good_bytes.checked_add(o.good_bytes)?,
                good_pkts: self.good_pkts.checked_add(o.good_pkts)?,
                process_bytes: self.process_bytes.checked_add(o.process_bytes)?,
                process_pkts: self.process_pkts.checked_add(o.process_pkts)?,
                hw_dropped_pkts: self.hw_dropped_pkts.checked_add(o.hw_dropped_pkts)?,
                sw_dropped_pkts: self.sw_dropped_pkts.checked_add(o.sw_dropped_pkts)?,
            },
        )
    }

    /// The aggregate of the sums, if it consists of 64-bit numbers.
    fn aggregate(&self) -> (r: Option<AggRxStats>)
        ensures
            match r {
                Some(a) => self@.fits() && a == aggregate(self@),
                None => !self@.fits(),
            },
    {
        Some(
            AggRxStats {
                ingress_bits: wire_bits(
                    self.ingress_bytes,
                    PSFD_SIZE + IPG_SIZE,
                    self.ingress_pkts,
                )?,
                ingress_bytes: self.ingress_bytes,
                ingress_pkts: self.ingress_pkts,
                good_bits: wire_bits(
                    self.good_bytes,
                    PSFD_SIZE + IPG_SIZE + FCS_SIZE,
                    self.good_pkts,
                )?,
                good_pkts: self.good_pkts,
                process_bits: wire_bits(
                    self.process_bytes,
                    PSFD_SIZE + IPG_SIZE + FCS_SIZE,
                    self.process_pkts,
                )?,
                process_pkts: self.process_pkts,
                hw_dropped_pkts: self.hw_dropped_pkts,
                sw_dropped_pkts: self.sw_dropped_pkts,
            },
        )
    }
}

/// The sums over the ports that could be read, if they are 64-bit numbers.
fn sum_up(ports: &Vec<(PortId, Vec<RxQueue>)>, reads: &Vec<Result<PortStats, String>>) -> (r:
    Option<RxSums>)
    requires
        ports@.len() == reads@.len(),
    ensures
        match r {
            Some(t) => t@ == all_totals(ports@, reads@),
            None => !all_totals(ports@, reads@).fits(),
        },
{
    let mut sums: RxSums = RxSums {
        ingress_bytes: 0,
        ingress_pkts: 0,
        good_bytes: 0,
        good_pkts: 0,
        process_bytes: 0,
        process_pkts: 0,
        hw_dropped_pkts: 0,
        sw_dropped_pkts: 0,
    };
    let mut i: usize = 0;
    while i < reads.len()
        invariant
            i <= reads@.len(),
            ports@.len() == reads@.len(),
            sums@ == all_totals(ports@, reads@.take(i as int)),
        decreases reads@.len() - i,
    {
        proof {
            let upto = reads@.take(i + 1);
            assert(upto.drop_last() =~= reads@.take(i as int));
            assert(upto.last() == reads@[i as int]);
            lemma_totals_grow(ports@, reads@, i + 1);
        }
        match &reads[i] {
            Ok(s) => {
                let port: RxSums = RxSums::of_port(s, &ports[i].1);
                match sums.plus(&port) {
                    Some(t) => {
                        sums = t;
                    },
                    None => {
                        return None;
                    },
                }
            },
            Err(_) => {},
        }
        i = i + 1;
    }
    assert(reads@.take(i as int) =~= reads@);
    Some(sums)
}

/// Counters that the aggregate statistics are exported to.
#[derive(Clone, Copy, Debug, PartialEq, Eq, Structural)]
pub struct DpdkStats {
    pub ingress_pkts: u64,
    pub ingress_bits: u64,
    pub good_pkts: u64,
    pub good_bits: u64,
    pub process_pkts: u64,
    pub process_bits: u64,
    pub hw_dropped_pkts: u64,
    pub sw_dropped_pkts: u64,
}

/// What was counted between two collections, as far as rates are made of it.
#[derive(Clone, Copy, Debug, PartialEq, Eq, Structural)]
pub struct RxRates {
    pub ingress_bits: u64,
    pub ingress_pkts: u64,
    pub good_bits: u64,
    pub good_pkts: u64,
    pub process_bits: u64,
    pub process_pkts: u64,
    pub dropped_pkts: u64,
}

/// What was dropped between two collections, and what came in.
#[derive(Clone, Copy, Debug, PartialEq, Eq, Structural)]
pub struct RxDrops {
    pub hw_dropped_pkts: u64,
    pub sw_dropped_pkts: u64,
    pub dropped_pkts: u64,
    pub ingress_pkts: u64,
}

/// Raises a counter to a reading.
fn raise(counter: &mut u64, reading: u64)
    requires
        *old(counter) <= reading,
    ensures
        *final(counter) == reading,
{
    let by: u64 = reading - *counter;
    *counter = *counter + by;
}

impl AggRxStats {
    /// Nothing collected yet.
    pub open spec fn zero() -> AggRxStats {
        aggregate(RxTotals::zero())
    }

    /// Nothing collected yet.
    pub fn new() -> (r: Self)
        ensures
            r == AggRxStats::zero(),
    {
        AggRxStats {
            ingress_bits: 0,
            ingress_bytes: 0,
            ingress_pkts: 0,
            good_bits: 0,
            good_pkts: 0,
            process_bits: 0,
            process_pkts: 0,
            hw_dropped_pkts: 0,
            sw_dropped_pkts: 0,
        }
    }

    /// Collects aggregate statistics, given the queues of each port and what reading each port
    /// gave. Returns `None` if they are not 64-bit numbers.
    pub fn try_collect(
        ports: &Vec<(PortId, Vec<RxQueue>)>,
        reads: &Vec<Result<PortStats, String>>,
    ) -> (r: Option<Result<Self, CollectError>>)
        requires
            ports_ascend(ports@),
            ports@.len() == reads@.len(),
        ensures
            match r {
                Some(Ok(a)) => {
                    &&& first_error(reads@) is None
                    &&& all_totals(ports@, reads@).fits()
                    &&& a == aggregate(all_totals(ports@, reads@))
                },
                Some(Err(e)) => first_error(reads@) == Some(e),
                None => first_error(reads@) is None && !all_totals(ports@, reads@).fits(),
            },
    {
        match find_error(reads) {
            Some(e) => Some(Err(e)),
            None => match sum_up(ports, reads) {
                Some(t) => match t.aggregate() {
                    Some(a) => Some(Ok(a)),
                    None => None,
                },
                None => None,
            },
        }
    }

    /// Collects aggregate statistics, given the queues of each port and what reading each port
    /// gave.
    pub fn collect(
        ports: &Vec<(PortId, Vec<RxQueue>)>,
        reads: &Vec<Result<PortStats, String>>,
    ) -> (r: Result<Self, CollectError>)
        requires
            ports_ascend(ports@),
            ports@.len() == reads@.len(),
            first_error(reads@) is None ==> all_totals(ports@, reads@).fits(),
        ensures
            match r {
                Ok(a) => {
                    &&& first_error(reads@) is None
                    &&& a == aggregate(all_totals(ports@, reads@))
                },
                Err(e) => first_error(reads@) == Some(e),
            },
    {
        Self::try_collect(ports, reads).unwrap()
    }

    /// Packets that were dropped anywhere.
    pub fn dropped_pkts(&self) -> (r: u64)
        requires
            self.dropped() <= u64::MAX,
        ensures
            r == self.dropped(),
    {
        self.hw_dropped_pkts + self.sw_dropped_pkts
    }

    /// Packets that were dropped anywhere.
    pub open spec fn dropped(self) -> int {
        self.hw_dropped_pkts + self.sw_dropped_pkts
    }

    /// Whether nothing that the rates are made of was larger in an earlier collection.
    pub open spec fn rates_follow(self, prev: AggRxStats) -> bool {
        &&& prev.ingress_bits <= self.ingress_bits
        &&& prev.ingress_pkts <= self.ingress_pkts
        &&& prev.good_bits <= self.good_bits
        &&& prev.good_pkts <= self.good_pkts
        &&& prev.process_bits <= self.process_bits
        &&& prev.process_pkts <= self.process_pkts
        &&& prev.dropped() <= self.dropped() <= u64::MAX
    }

    /// Whether the rates since an earlier collection can be taken.
    pub fn has_rates_since(&self, prev: &AggRxStats) -> (r: bool)
        ensures
            r == self.rates_follow(*prev),
    {
        match (
            prev.hw_dropped_pkts.checked_add(prev.sw_dropped_pkts),
            self.hw_dropped_pkts.checked_add(self.sw_dropped_pkts),
        ) {
            (Some(before), Some(now)) => prev.ingress_bits <= self.ingress_bits
                && prev.ingress_pkts <= self.ingress_pkts && prev.good_bits <= self.good_bits
                && prev.good_pkts <= self.good_pkts && prev.process_bits <= self.process_bits
                && prev.process_pkts <= self.process_pkts && before <= now,
            _ => false,
        }
    }

    /// What was counted since an earlier collection, as far as the rates are made of it.
    pub open spec fn rates(self, prev: AggRxStats) -> RxRates {
        RxRates {
            ingress_bits: (self.ingress_bits - prev.ingress_bits) as u64,
            ingress_pkts: (self.ingress_pkts - prev.ingress_pkts) as u64,
            good_bits: (self.good_bits - prev.good_bits) as u64,
            good_pkts: (self.good_pkts - prev.good_pkts) as u64,
            process_bits: (self.process_bits - prev.process_bits) as u64,
            process_pkts: (self.process_pkts - prev.process_pkts) as u64,
            dropped_pkts: (self.dropped() - prev.dropped()) as u64,
        }
    }

    /// What was counted since an earlier collection, as far as the rates are made of it.
    pub fn rates_since(&self, prev: &AggRxStats) -> (r: RxRates)
        requires
            self.rates_follow(*prev),
        ensures
            r == self.rates(*prev),
    {
        RxRates {
            ingress_bits: self.ingress_bits - prev.ingress_bits,
            ingress_pkts: self.ingress_pkts - prev.ingress_pkts,
            good_bits: self.good_bits - prev.good_bits,
            good_pkts: self.good_pkts - prev.good_pkts,
            process_bits: self.process_bits - prev.process_bits,
            process_pkts: self.process_pkts - prev.process_pkts,
            dropped_pkts: self.dropped_pkts() - prev.dropped_pkts(),
        }
    }

    /// Whether neither kind of drop was larger in an earlier collection, nor what came in.
    pub open spec fn drops_follow(self, prev: AggRxStats) -> bool {
        &&& prev.hw_dropped_pkts <= self.hw_dropped_pkts
        &&& prev.sw_dropped_pkts <= self.sw_dropped_pkts
        &&& self.dropped() <= u64::MAX
        &&& prev.ingress_pkts <= self.ingress_pkts
    }

    /// Whether the drops since an earlier collection can be taken.
    pub fn has_drops_since(&self, prev: &AggRxStats) -> (r: bool)
        ensures
            r == self.drops_follow(*prev),
    {
        prev.hw_dropped_pkts <= self.hw_dropped_pkts && prev.sw_dropped_pkts
            <= self.sw_dropped_pkts && self.hw_dropped_pkts <= u64::MAX - self.sw_dropped_pkts
            && prev.ingress_pkts <= self.ingress_pkts
    }

    /// The drops since an earlier collection, of what came in since.
    pub open spec fn drops(self, prev: AggRxStats) -> RxDrops {
        RxDrops {
            hw_dropped_pkts: (self.hw_dropped_pkts - prev.hw_dropped_pkts) as u64,
            sw_dropped_pkts: (self.sw_dropped_pkts - prev.sw_dropped_pkts) as u64,
            dropped_pkts: (self.dropped() - prev.dropped()) as u64,
            ingress_pkts: (self.ingress_pkts - prev.ingress_pkts) as u64,
        }
    }

    /// The drops since an earlier collection, of what came in since.
    pub fn drops_since(&self, prev: &AggRxStats) -> (r: RxDrops)
        requires
            self.drops_follow(*prev),
        ensures
            r == self.drops(*prev),
            r.dropped_pkts == r.hw_dropped_pkts + r.sw_dropped_pkts,
    {
        RxDrops {
            hw_dropped_pkts: self.hw_dropped_pkts - prev.hw_dropped_pkts,
            sw_dropped_pkts: self.sw_dropped_pkts - prev.sw_dropped_pkts,
            dropped_pkts: self.dropped_pkts() - prev.dropped_pkts(),
            ingress_pkts: self.ingress_pkts - prev.ingress_pkts,
        }
    }

    /// Whether no exported counter is above what was collected.
    pub open spec fn exceeds(self, out: DpdkStats) -> bool {
        &&& out.ingress_pkts <= self.ingress_pkts
        &&& out.ingress_bits <= self.ingress_bits
        &&& out.good_pkts <= self.good_pkts
        &&& out.good_bits <= self.good_bits
        &&& out.process_pkts <= self.process_pkts
        &&& out.process_bits <= self.process_bits
        &&& out.hw_dropped_pkts <= self.hw_dropped_pkts
        &&& out.sw_dropped_pkts <= self.sw_dropped_pkts
    }

    /// Whether no exported counter is above what was collected.
    pub fn can_export(&self, out: &DpdkStats) -> (r: bool)
        ensures
            r == self.exceeds(*out),
    {
        out.ingress_pkts <= self.ingress_pkts && out.ingress_bits <= self.ingress_bits
            && out.good_pkts <= self.good_pkts && out.good_bits <= self.good_bits
            && out.process_pkts <= self.process_pkts && out.process_bits <= self.process_bits
            && out.hw_dropped_pkts <= self.hw_dropped_pkts && out.sw_dropped_pkts
            <= self.sw_dropped_pkts
    }

    /// The counters that show what was collected.
    pub open spec fn exported(self) -> DpdkStats {
        DpdkStats {
            ingress_pkts: self.ingress_pkts,
            ingress_bits: self.ingress_bits,
            good_pkts: self.good_pkts,
            good_bits: self.good_bits,
            process_pkts: self.process_pkts,
            process_bits: self.process_bits,
            hw_dropped_pkts: self.hw_dropped_pkts,
            sw_dropped_pkts: self.sw_dropped_pkts,
        }
    }

    /// Raises each exported counter to what was collected.
    pub fn update_prometheus_stats(&self, out: &mut DpdkStats)
        requires
            self.exceeds(*old(out)),
        ensures
            *final(out) == self.exported(),
    {
        raise(&mut out.ingress_pkts, self.ingress_pkts);
        raise(&mut out.ingress_bits, self.ingress_bits);
        raise(&mut out.good_pkts, self.good_pkts);
        raise(&mut out.good_bits, self.good_bits);
        raise(&mut out.process_pkts, self.process_pkts);
        raise(&mut out.process_bits, self.process_bits);
        raise(&mut out.hw_dropped_pkts, self.hw_dropped_pkts);
        raise(&mut out.sw_dropped_pkts, self.sw_dropped_pkts);
    }
}

/// What reached the workers is at most what reached software, in packets and in bits.
pub proof fn law_process_is_within_good(
    ports: Seq<(PortId, Vec<RxQueue>)>,
    reads: Seq<Result<PortStats, String>>,
)
    ensures
        all_totals(ports, reads).process_bytes <= all_totals(ports, reads).good_bytes,
        all_totals(ports, reads).process_pkts <= all_totals(ports, reads).good_pkts,
        all_totals(ports, reads).process_bits() <= all_totals(ports, reads).good_bits(),
    decreases reads.len(),
{
    if reads.len() > 0 {
        law_process_is_within_good(ports, reads.drop_last());
        match reads.last() {
            Ok(s) => {
                lemma_sunk(s@, ports[reads.len() - 1].1@, "_bytes"@);
                lemma_sunk(s@, ports[reads.len() - 1].1@, "_packets"@);
            },
            Err(_) => {},
        }
    }
}

/// What was steered to sinks is not negative.
proof fn lemma_sunk(stats: Seq<(String, u64)>, queues: Seq<RxQueue>, what: Seq<char>)
    ensures
        sunk(stats, queues, what) >= 0,
    decreases queues.len(),
{
    if queues.len() > 0 {
        lemma_sunk(stats, queues.drop_last(), what);
    }
}

/// A port without sink queues hands everything that reached software to the workers.
pub proof fn law_without_sinks_all_is_processed(stats: Seq<(String, u64)>, queues: Seq<RxQueue>)
    requires
        forall|i: int| 0 <= i < queues.len() ==> (#[trigger] queues[i]).ty != RxQueueType::Sink,
    ensures
        port_totals(stats, queues).process_bytes == port_totals(stats, queues).good_bytes,
        port_totals(stats, queues).process_pkts == port_totals(stats, queues).good_pkts,
{
    lemma_no_sinks(stats, queues, "_bytes"@);
    lemma_no_sinks(stats, queues, "_packets"@);
}

/// Nothing is steered to sinks where there are none.
proof fn lemma_no_sinks(stats: Seq<(String, u64)>, queues: Seq<RxQueue>, what: Seq<char>)
    requires
        forall|i: int| 0 <= i < queues.len() ==> (#[trigger] queues[i]).ty != RxQueueType::Sink,
    ensures
        sunk(stats, queues, what) == 0,
    decreases queues.len(),
{
    if queues.len() > 0 {
        assert(queues.last() == queues[queues.len() - 1]);
        assert forall|i: int| 0 <= i < queues.drop_last().len() implies (
        #[trigger] queues.drop_last()[i]).ty != RxQueueType::Sink by {
            assert(queues.drop_last()[i] == queues[i]);
        }
        lemma_no_sinks(stats, queues.drop_last(), what);
    }
}

/// What was counted over successive intervals adds up to what was counted over the whole.
pub proof fn law_gains_add_up(a: AggRxStats, b: AggRxStats, c: AggRxStats)
    ensures
        b.rates_follow(a) && c.rates_follow(b) ==> {
            &&& c.rates_follow(a)
            &&& c.rates(a).ingress_bits == c.rates(b).ingress_bits + b.rates(a).ingress_bits
            &&& c.rates(a).ingress_pkts == c.rates(b).ingress_pkts + b.rates(a).ingress_pkts
            &&& c.rates(a).good_bits == c.rates(b).good_bits + b.rates(a).good_bits
            &&& c.rates(a).good_pkts == c.rates(b).good_pkts + b.rates(a).good_pkts
            &&& c.rates(a).process_bits == c.rates(b).process_bits + b.rates(a).process_bits
            &&& c.rates(a).process_pkts == c.rates(b).process_pkts + b.rates(a).process_pkts
            &&& c.rates(a).dropped_pkts == c.rates(b).dropped_pkts + b.rates(a).dropped_pkts
        },
        b.drops_follow(a) && c.drops_follow(b) ==> {
            &&& c.drops_follow(a)
            &&& c.drops(a).hw_dropped_pkts == c.drops(b).hw_dropped_pkts + b.drops(
                a,
            ).hw_dropped_pkts
            &&& c.drops(a).sw_dropped_pkts == c.drops(b).sw_dropped_pkts + b.drops(
                a,
            ).sw_dropped_pkts
            &&& c.drops(a).dropped_pkts == c.drops(b).dropped_pkts + b.drops(a).dropped_pkts
            &&& c.drops(a).ingress_pkts == c.drops(b).ingress_pkts + b.drops(a).ingress_pkts
        },
{
}

} // verus!
