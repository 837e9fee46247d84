//! What the monitor writes to its log files: one file per port, and the cycle budget.

use vstd::prelude::*;

use crate::lcore::datapath_budget::DatapathBudget;
use crate::lcore::port_stats::{
    is_wanted, labels_ascend, minus, or_zero, stat, wanted, PortStats,
};
use crate::lcore::SocketId;
use crate::port::PortId;
use crate::text::{comes_before, decimal, push_decimal};
use crate::time::Duration;

verus! {

/// The texts of some strings.
pub open spec fn texts(v: Seq<String>) -> Seq<Seq<char>> {
    v.map_values(|s: String| s@)
}

/// A number in decimal.
pub fn decimal_string(n: u128) -> (r: String)
    ensures
        r@ == decimal(n as nat),
{
    let mut out: String = String::new();
    push_decimal(&mut out, n);
    assert(out@ =~= decimal(n as nat));
    out
}

/// A string with a given text.
fn string_of(s: &str) -> (r: String)
    ensures
        r@ == s@,
{
    let mut out: String = String::new();
    out.append(s);
    assert(out@ =~= s@);
    out
}

/// Appends a string to a list.
fn push_text(out: &mut Vec<String>, s: String)
    ensures
        texts(final(out)@) == texts(old(out)@).push(s@),
{
    out.push(s);
    assert(texts(out@) =~= texts(old(out)@).push(s@));
}

/// Name of the log file of a port.
pub open spec fn port_file_text(port: PortId) -> Seq<char> {
    "port"@ + decimal(port.0 as nat) + ".csv"@
}

/// Name of the log file of a port.
pub fn port_file_name(port: PortId) -> (r: String)
    ensures
        r@ == port_file_text(port),
{
    let mut out: String = String::new();
    out.append("port");
    push_decimal(&mut out, port.0 as u128);
    out.append(".csv");
    assert(out@ =~= port_file_text(port));
    out
}

/// Name of a packet pool of a socket.
pub open spec fn mempool_text(prefix: Seq<char>, socket: SocketId) -> Seq<char> {
    "mempool_"@ + prefix + "_"@ + decimal(socket.0 as nat)
}

/// Name of a packet pool of a socket.
pub fn mempool_name(prefix: &str, socket: SocketId) -> (r: String)
    ensures
        r@ == mempool_text(prefix@, socket),
{
    let mut out: String = String::new();
    out.append("mempool_");
    out.append(prefix);
    out.append("_");
    push_decimal(&mut out, socket.0 as u128);
    assert(out@ =~= mempool_text(prefix@, socket));
    out
}

/// The statistics whose labels hold one of the keywords.
pub open spec fn selected(stats: Seq<(String, u64)>, keywords: Seq<String>) -> Seq<(String, u64)> {
    stats.filter(|s: (String, u64)| wanted(s.0@, keywords))
}

/// The labels of some statistics.
pub open spec fn labels(stats: Seq<(String, u64)>) -> Seq<Seq<char>> {
    stats.map_values(|s: (String, u64)| s.0@)
}

/// The values of some statistics, in decimal.
pub open spec fn values(stats: Seq<(String, u64)>) -> Seq<Seq<char>> {
    stats.map_values(|s: (String, u64)| decimal(s.1 as nat))
}

/// The header of the log file of a port: time, the selected statistics, and the packet pool.
pub open spec fn header_text(stats: Seq<(String, u64)>, keywords: Seq<String>) -> Seq<Seq<char>> {
    seq!["ts"@] + labels(selected(stats, keywords)) + seq![
        "mempool_avail_cnt"@,
        "mempool_inuse_cnt"@,
    ]
}

/// A row of the log file of a port: time, the selected statistics, and the packet pool. Where the
/// port could not be read, the packet pool only.
pub open spec fn row_text(
    elapsed: Duration,
    read: Result<PortStats, String>,
    keywords: Seq<String>,
    avail: u32,
    inuse: u32,
) -> Seq<Seq<char>> {
    let pool = seq![decimal(avail as nat), decimal(inuse as nat)];
    match read {
        Ok(s) => seq![decimal((elapsed.nanos as int / 1_000_000) as nat)] + values(
            selected(s@, keywords),
        ) + pool,
        Err(_) => pool,
    }
}

/// Filtering one item more.
proof fn lemma_filter_step(stats: Seq<(String, u64)>, keywords: Seq<String>, i: int)
    requires
        0 <= i < stats.len(),
    ensures
        selected(stats.take(i + 1), keywords) == if wanted(stats[i].0@, keywords) {
            selected(stats.take(i), keywords).push(stats[i])
        } else {
            selected(stats.take(i), keywords)
        },
{
    reveal(Seq::filter);
    assert(stats.take(i + 1).drop_last() =~= stats.take(i));
    assert(stats.take(i + 1).last() == stats[i]);
}

/// What is selected was there.
proof fn lemma_selected(stats: Seq<(String, u64)>, keywords: Seq<String>)
    ensures
        forall|i: int|
            0 <= i < selected(stats, keywords).len() ==> stats.contains(
                #[trigger] selected(stats, keywords)[i],
            ),
    decreases stats.len(),
{
    if stats.len() > 0 {
        let n = stats.len() - 1;
        let init = stats.take(n);
        lemma_selected(init, keywords);
        lemma_filter_step(stats, keywords, n);
        assert(stats.take(n + 1) =~= stats);
        let all = selected(stats, keywords);
        assert forall|i: int| 0 <= i < all.len() implies stats.contains(#[trigger] all[i]) by {
            if i < selected(init, keywords).len() {
                assert(init.contains(selected(init, keywords)[i]));
                let j = choose|j: int| 0 <= j < init.len() && init[j] == all[i];
                assert(stats[j] == all[i]);
            } else {
                assert(stats[n] == all[i]);
            }
        }
    } else {
        assert(selected(stats, keywords).len() == 0) by {
            reveal(Seq::filter);
        }
    }
}

/// The columns of the log file of a port ascend, as the labels of its statistics do.
pub proof fn law_columns_ascend(stats: Seq<(String, u64)>, keywords: Seq<String>)
    requires
        labels_ascend(stats),
    ensures
        labels_ascend(selected(stats, keywords)),
    decreases stats.len(),
{
    if stats.len() > 0 {
        let n = stats.len() - 1;
        let init = stats.take(n);
        assert(labels_ascend(init)) by {
            assert forall|i: int, j: int|
                #![trigger init[i], init[j]]
                0 <= i < j < init.len() implies comes_before(init[i].0@, init[j].0@) by {
                assert(init[i] == stats[i] && init[j] == stats[j]);
            }
        }
        law_columns_ascend(init, keywords);
        lemma_filter_step(stats, keywords, n);
        assert(stats.take(n + 1) =~= stats);
        lemma_selected(init, keywords);
        let before = selected(init, keywords);
        assert forall|i: int| 0 <= i < before.len() implies comes_before(
            (#[trigger] before[i]).0@,
            stats[n].0@,
        ) by {
            assert(init.contains(before[i]));
            let j = choose|j: int| 0 <= j < init.len() && init[j] == before[i];
            assert(stats[j] == before[i]);
        }
    } else {
        assert(selected(stats, keywords).len() == 0) by {
            reveal(Seq::filter);
        }
    }
}

/// The header of the log file of a port.
pub fn port_header(stats: &PortStats, keywords: &Vec<String>) -> (r: Vec<String>)
    ensures
        texts(r@) == header_text(stats@, keywords@),
{
    let mut out: Vec<String> = Vec::new();
    push_text(&mut out, string_of("ts"));
    let mut i: usize = 0;
    assert(selected(stats@.take(0), keywords@) =~= Seq::empty()) by {
        reveal(Seq::filter);
    }
    assert(texts(out@) =~= seq!["ts"@] + labels(selected(stats@.take(0), keywords@)));
    let entries: &Vec<(String, u64)> = stats.entries();
    while i < entries.len()
        invariant
            entries@ == stats@,
            i <= stats@.len(),
            texts(out@) == seq!["ts"@] + labels(selected(stats@.take(i as int), keywords@)),
        decreases stats@.len() - i,
    {
        proof {
            lemma_filter_step(stats@, keywords@, i as int);
        }
        let ghost before = selected(stats@.take(i as int), keywords@);
        if is_wanted(entries[i].0.as_str(), keywords) {
            push_text(&mut out, entries[i].0.clone());
            assert(labels(before.push(stats@[i as int])) =~= labels(before).push(
                stats@[i as int].0@,
            ));
            assert(texts(out@) =~= seq!["ts"@] + labels(before.push(stats@[i as int])));
        }
        i = i + 1;
    }
    assert(stats@.take(i as int) =~= stats@);
    push_text(&mut out, string_of("mempool_avail_cnt"));
    push_text(&mut out, string_of("mempool_inuse_cnt"));
    assert(texts(out@) =~= header_text(stats@, keywords@));
    out
}

/// A row of the log file of a port.
pub fn port_row(
    elapsed: &Duration,
    read: &Result<PortStats, String>,
    keywords: &Vec<String>,
    avail: u32,
    inuse: u32,
) -> (r: Vec<String>)
    ensures
        texts(r@) == row_text(*elapsed, *read, keywords@, avail, inuse),
{
    let mut out: Vec<String> = Vec::new();
    match read {
        Ok(s) => {
            let ghost ms = decimal((elapsed.nanos as int / 1_000_000) as nat);
            push_text(&mut out, decimal_string(elapsed.as_millis()));
            let mut i: usize = 0;
            assert(selected(s@.take(0), keywords@) =~= Seq::empty()) by {
                reveal(Seq::filter);
            }
            assert(texts(out@) =~= seq![ms] + values(selected(s@.take(0), keywords@)));
            let entries: &Vec<(String, u64)> = s.entries();
            while i < entries.len()
                invariant
                    entries@ == s@,
                    i <= s@.len(),
                    texts(out@) == seq![ms] + values(selected(s@.take(i as int), keywords@)),
                decreases s@.len() - i,
            {
                proof {
                    lemma_filter_step(s@, keywords@, i as int);
                }
                let ghost before = selected(s@.take(i as int), keywords@);
                if is_wanted(entries[i].0.as_str(), keywords) {
                    push_text(&mut out, decimal_string(entries[i].1 as u128));
                    assert(values(before.push(s@[i as int])) =~= values(before).push(
                        decimal(s@[i as int].1 as nat),
                    ));
                    assert(texts(out@) =~= seq![ms] + values(before.push(s@[i as int])));
                }
                i = i + 1;
            }
            assert(s@.take(i as int) =~= s@);
        },
        Err(_) => {},
    }
    push_text(&mut out, decimal_string(avail as u128));
    push_text(&mut out, decimal_string(inuse as u128));
    assert(texts(out@) =~= row_text(*elapsed, *read, keywords@, avail, inuse));
    out
}

/// Which columns a log file has depends on the labels of the statistics only, so every row has the
/// columns of the header as long as the port reports the same labels.
pub proof fn law_rows_fit_the_header(
    first: Seq<(String, u64)>,
    later: PortStats,
    keywords: Seq<String>,
    elapsed: Duration,
    avail: u32,
    inuse: u32,
)
    requires
        labels(first) == labels(later@),
    ensures
        row_text(elapsed, Ok(later), keywords, avail, inuse).len() == header_text(
            first,
            keywords,
        ).len(),
{
    lemma_same_labels(first, later@, keywords);
}

/// Statistics with the same labels have the same ones selected.
proof fn lemma_same_labels(
    a: Seq<(String, u64)>,
    b: Seq<(String, u64)>,
    keywords: Seq<String>,
)
    requires
        labels(a) == labels(b),
    ensures
        selected(a, keywords).len() == selected(b, keywords).len(),
    decreases a.len(),
{
    reveal(Seq::filter);
    assert(a.len() == labels(a).len() && b.len() == labels(b).len());
    if a.len() > 0 {
        assert(labels(a)[a.len() - 1] == a.last().0@);
        assert(labels(b)[b.len() - 1] == b.last().0@);
        assert(labels(a.drop_last()) =~= labels(a).drop_last());
        assert(labels(b.drop_last()) =~= labels(b).drop_last());
        lemma_same_labels(a.drop_last(), b.drop_last(), keywords);
    }
}

/// Packets and bytes that were offered to the ports.
#[derive(Clone, Copy, Debug, PartialEq, Eq, Structural)]
pub struct PhyLoad {
    /// Packets.
    pub pkts: u64,
    /// Bytes.
    pub bytes: u64,
    /// Whether a port does not count what reached the NIC, so that what reached software stands in.
    pub missing_phy: bool,
    /// Whether every port could be read.
    pub ok: bool,
}

/// Whether a port counts what reached the NIC.
pub open spec fn has_phy(stats: Seq<(String, u64)>) -> bool {
    stat(stats, "rx_phy_packets"@) is Some && stat(stats, "rx_phy_bytes"@) is Some
}

/// Packets and bytes that were offered to one port; what reached software where the port does not
/// count what reached the NIC.
pub open spec fn offered(stats: Seq<(String, u64)>) -> (int, int) {
    if has_phy(stats) {
        (
            or_zero(stat(stats, "rx_phy_packets"@)) as int,
            or_zero(stat(stats, "rx_phy_bytes"@)) as int,
        )
    } else {
        (
            or_zero(stat(stats, "rx_good_packets"@)) as int,
            or_zero(stat(stats, "rx_good_bytes"@)) as int,
        )
    }
}

/// Packets and bytes that were offered to the ports that could be read.
pub open spec fn all_offered(reads: Seq<Result<PortStats, String>>) -> (int, int)
    decreases reads.len(),
{
    if reads.len() == 0 {
        (0, 0)
    } else {
        let (pkts, bytes) = all_offered(reads.drop_last());
        match reads.last() {
            Ok(s) => (pkts + offered(s@).0, bytes + offered(s@).1),
            Err(_) => (pkts, bytes),
        }
    }
}

/// What was offered does not become less as ports are added.
proof fn lemma_offered_grows(reads: Seq<Result<PortStats, String>>, n: int)
    requires
        0 <= n <= reads.len(),
    ensures
        0 <= all_offered(reads.take(n)).0 <= all_offered(reads).0,
        0 <= all_offered(reads.take(n)).1 <= all_offered(reads).1,
    decreases reads.len(),
{
    if n == reads.len() {
        assert(reads.take(n) =~= reads);
        if reads.len() > 0 {
            lemma_offered_grows(reads.drop_last(), reads.len() - 1);
            assert(reads.drop_last().take(reads.len() - 1) =~= reads.drop_last());
        }
    } else {
        lemma_offered_grows(reads.drop_last(), n);
        assert(reads.drop_last().take(n) =~= reads.take(n));
    }
}

/// Whether a load is what was offered to some ports.
pub open spec fn is_load(load: PhyLoad, reads: Seq<Result<PortStats, String>>) -> bool {
    &&& (load.pkts as int, load.bytes as int) == all_offered(reads)
    &&& load.missing_phy <==> exists|i: int|
        0 <= i < reads.len() && (#[trigger] reads[i] matches Ok(s) && !has_phy(s@))
    &&& load.ok <==> forall|i: int| 0 <= i < reads.len() ==> #[trigger] reads[i] is Ok
}

/// Packets and bytes that were offered to the ports, given what reading each port gave. Returns
/// `None` if they are not 64-bit numbers.
pub fn phy_load(reads: &Vec<Result<PortStats, String>>) -> (r: Option<PhyLoad>)
    ensures
        match r {
            Some(load) => is_load(load, reads@),
            None => all_offered(reads@).0 > u64::MAX || all_offered(reads@).1 > u64::MAX,
        },
{
    let mut pkts: u64 = 0;
    let mut bytes: u64 = 0;
    let mut missing_phy: bool = false;
    let mut ok: bool = true;
    let mut i: usize = 0;
    while i < reads.len()
        invariant
            i <= reads@.len(),
            (pkts as int, bytes as int) == all_offered(reads@.take(i as int)),
            missing_phy <==> exists|j: int|
                0 <= j < i && (#[trigger] reads@[j] matches Ok(s) && !has_phy(s@)),
            ok <==> forall|j: int| 0 <= j < i ==> #[trigger] reads@[j] is Ok,
        decreases reads@.len() - i,
    {
        proof {
            assert(reads@.take(i + 1).drop_last() =~= reads@.take(i as int));
            assert(reads@.take(i + 1).last() == reads@[i as int]);
            lemma_offered_grows(reads@, i + 1);
        }
        match &reads[i] {
            Ok(s) => {
                let (p, b): (u64, u64) = match (s.get("rx_phy_packets"), s.get("rx_phy_bytes")) {
                    (Some(p), Some(b)) => (p, b),
                    _ => {
                        missing_phy = true;
                        (s.get_or_zero("rx_good_packets"), s.get_or_zero("rx_good_bytes"))
                    },
                };
                assert((p as int, b as int) == offered(s@));
                match (pkts.checked_add(p), bytes.checked_add(b)) {
                    (Some(ps), Some(bs)) => {
                        pkts = ps;
                        bytes = bs;
                    },
                    _ => {
                        return None;
                    },
                }
            },
            Err(_) => {
                ok = false;
            },
        }
        i = i + 1;
    }
    assert(reads@.take(i as int) =~= reads@);
    Some(PhyLoad { pkts, bytes, missing_phy, ok })
}

/// The columns of the cycle budget that are whole numbers. Every one except the time, the cores and
/// the cost of a read is a gain over the logging interval.
#[derive(Clone, Copy, Debug, PartialEq, Eq, Structural)]
pub struct CycleRow {
    /// Milliseconds since logging began.
    pub ts_ms: u128,
    /// Cycles in polls that found packets.
    pub poll_busy: u64,
    /// Cycles in polls that found none.
    pub poll_idle: u64,
    /// Cycles in the packet pipeline.
    pub pipeline: u64,
    /// Cycles in maintenance.
    pub maint: u64,
    /// Span that the buckets were attributed over.
    pub sampled_wall: u64,
    /// Span of the interval.
    pub wall: u64,
    /// Polls that found packets.
    pub bursts: u64,
    /// Polls that found none.
    pub idle_polls: u64,
    /// Packets received.
    pub recv_pkts: u64,
    /// Packets offered.
    pub ingress_pkts: u64,
    /// Bytes offered.
    pub ingress_bytes: u64,
    /// Receive cores.
    pub cores: u64,
    /// Cycles that one read of the cycle counter takes.
    pub rdtsc_cost: u64,
}

/// The row for an interval, given the budget and the load at its end and at its start.
pub open spec fn interval(
    elapsed: Duration,
    now: DatapathBudget,
    prev: DatapathBudget,
    pkts: (u64, u64),
    bytes: (u64, u64),
) -> CycleRow {
    CycleRow {
        ts_ms: (elapsed.nanos as int / 1_000_000) as u128,
        poll_busy: minus(now.poll_busy as int, prev.poll_busy as int) as u64,
        poll_idle: minus(now.poll_idle as int, prev.poll_idle as int) as u64,
        pipeline: minus(now.pipeline as int, prev.pipeline as int) as u64,
        maint: minus(now.maint as int, prev.maint as int) as u64,
        sampled_wall: minus(now.sampled_wall as int, prev.sampled_wall as int) as u64,
        wall: minus(now.wall as int, prev.wall as int) as u64,
        bursts: minus(now.bursts as int, prev.bursts as int) as u64,
        idle_polls: minus(now.idle_polls as int, prev.idle_polls as int) as u64,
        recv_pkts: minus(now.recv_pkts as int, prev.recv_pkts as int) as u64,
        ingress_pkts: minus(pkts.0 as int, pkts.1 as int) as u64,
        ingress_bytes: minus(bytes.0 as int, bytes.1 as int) as u64,
        cores: now.cores,
        rdtsc_cost: now.rdtsc_cost,
    }
}

impl CycleRow {
    /// Cycles in which work was done, if a 64-bit number.
    pub fn busy(&self) -> (r: Option<u64>)
        ensures
            match r {
                Some(n) => n == self.poll_busy + self.pipeline + self.maint,
                None => self.poll_busy + self.pipeline + self.maint > u64::MAX,
            },
    {
        self.poll_busy.checked_add(self.pipeline)?.checked_add(self.maint)
    }

    /// The columns, in decimal.
    pub open spec fn columns_text(self) -> Seq<Seq<char>> {
        seq![
            decimal(self.ts_ms as nat),
            decimal(self.poll_busy as nat),
            decimal(self.poll_idle as nat),
            decimal(self.pipeline as nat),
            decimal(self.maint as nat),
            decimal(self.sampled_wall as nat),
            decimal(self.wall as nat),
            decimal(self.bursts as nat),
            decimal(self.idle_polls as nat),
            decimal(self.recv_pkts as nat),
            decimal(self.ingress_pkts as nat),
            decimal(self.ingress_bytes as nat),
            decimal(self.cores as nat),
            decimal(self.rdtsc_cost as nat),
        ]
    }

    /// The columns, in decimal.
    pub fn columns(&self) -> (r: Vec<String>)
        ensures
            texts(r@) == self.columns_text(),
    {
        let mut out: Vec<String> = Vec::new();
        push_text(&mut out, decimal_string(self.ts_ms));
        push_text(&mut out, decimal_string(self.poll_busy as u128));
        push_text(&mut out, decimal_string(self.poll_idle as u128));
        push_text(&mut out, decimal_string(self.pipeline as u128));
        push_text(&mut out, decimal_string(self.maint as u128));
        push_text(&mut out, decimal_string(self.sampled_wall as u128));
        push_text(&mut out, decimal_string(self.wall as u128));
        push_text(&mut out, decimal_string(self.bursts as u128));
        push_text(&mut out, decimal_string(self.idle_polls as u128));
        push_text(&mut out, decimal_string(self.recv_pkts as u128));
        push_text(&mut out, decimal_string(self.ingress_pkts as u128));
        push_text(&mut out, decimal_string(self.ingress_bytes as u128));
        push_text(&mut out, decimal_string(self.cores as u128));
        push_text(&mut out, decimal_string(self.rdtsc_cost as u128));
        assert(texts(out@) =~= self.columns_text());
        out
    }
}

/// The header of the cycle budget.
pub open spec fn budget_header_text() -> Seq<Seq<char>> {
    seq![
        "ts_ms"@,
        "poll_busy_cycles"@,
        "poll_idle_cycles"@,
        "pipeline_cycles"@,
        "maint_cycles"@,
        "sampled_wall_cycles"@,
        "wall_cycles"@,
        "bursts_cnt"@,
        "idle_polls_cnt"@,
        "recv_pkts"@,
        "ingress_pkts"@,
        "ingress_bytes"@,
        "rx_cores_cnt"@,
        "rdtsc_cost_cycles"@,
        "idle_fraction"@,
        "busy_fraction"@,
        "cycles_per_ingress_pkt"@,
    ]
}

/// The header of the cycle budget: the columns that are whole numbers, then three ratios.
pub fn budget_header() -> (r: Vec<String>)
    ensures
        texts(r@) == budget_header_text(),
{
    let mut out: Vec<String> = Vec::new();
    push_text(&mut out, string_of("ts_ms"));
    push_text(&mut out, string_of("poll_busy_cycles"));
    push_text(&mut out, string_of("poll_idle_cycles"));
    push_text(&mut out, string_of("pipeline_cycles"));
    push_text(&mut out, string_of("maint_cycles"));
    push_text(&mut out, string_of("sampled_wall_cycles"));
    push_text(&mut out, string_of("wall_cycles"));
    push_text(&mut out, string_of("bursts_cnt"));
    push_text(&mut out, string_of("idle_polls_cnt"));
    push_text(&mut out, string_of("recv_pkts"));
    push_text(&mut out, string_of("ingress_pkts"));
    push_text(&mut out, string_of("ingress_bytes"));
    push_text(&mut out, string_of("rx_cores_cnt"));
    push_text(&mut out, string_of("rdtsc_cost_cycles"));
    push_text(&mut out, string_of("idle_fraction"));
    push_text(&mut out, string_of("busy_fraction"));
    push_text(&mut out, string_of("cycles_per_ingress_pkt"));
    assert(texts(out@) =~= budget_header_text());
    out
}

/// What one round of the log came to.
#[derive(Clone, Copy, Debug, PartialEq, Eq, Structural)]
pub struct LogRound {
    /// The load that was offered.
    pub load: PhyLoad,
    /// Whether it is to be said that a port does not count what reached the NIC.
    pub warn: bool,
    /// The row of the cycle budget.
    pub row: Option<CycleRow>,
}

/// What the log of the cycle budget remembers from one interval to the next.
#[derive(Clone, Copy, Debug, PartialEq, Eq, Structural)]
pub struct BudgetLog {
    /// The budget at the end of the last interval.
    pub last_budget: DatapathBudget,
    /// Packets offered up to then.
    pub last_ingress_pkts: u64,
    /// Bytes offered up to then.
    pub last_ingress_bytes: u64,
    /// Whether it was said that a port does not count what reached the NIC; once is enough.
    pub warned_no_phy: bool,
}

impl BudgetLog {
    /// Nothing logged yet.
    pub fn new() -> (r: Self)
        ensures
            r == (BudgetLog {
                last_budget: DatapathBudget::zero(),
                last_ingress_pkts: 0,
                last_ingress_bytes: 0,
                warned_no_phy: false,
            }),
    {
        BudgetLog {
            last_budget: DatapathBudget::new(),
            last_ingress_pkts: 0,
            last_ingress_bytes: 0,
            warned_no_phy: false,
        }
    }

    /// Whether a load makes it due to say that a port does not count what reached the NIC.
    pub open spec fn warns(self, load: PhyLoad) -> bool {
        load.missing_phy && !self.warned_no_phy
    }

    /// The log after a load was looked at.
    pub open spec fn warned(self, load: PhyLoad) -> BudgetLog {
        BudgetLog { warned_no_phy: self.warned_no_phy || load.missing_phy, ..self }
    }

    /// Whether it is to be said now that a port does not count what reached the NIC.
    pub fn should_warn(&mut self, load: &PhyLoad) -> (r: bool)
        ensures
            r == old(self).warns(*load),
            *final(self) == old(self).warned(*load),
    {
        let warn: bool = load.missing_phy && !self.warned_no_phy;
        if warn {
            self.warned_no_phy = true;
        }
        warn
    }

    /// The row for the interval that ends with this budget and load.
    pub open spec fn row(self, elapsed: Duration, load: PhyLoad, now: DatapathBudget) -> CycleRow {
        interval(
            elapsed,
            now,
            self.last_budget,
            (load.pkts, self.last_ingress_pkts),
            (load.bytes, self.last_ingress_bytes),
        )
    }

    /// The log after the row for this budget and load was written.
    pub open spec fn noted(self, load: PhyLoad, now: DatapathBudget) -> BudgetLog {
        BudgetLog {
            last_budget: now,
            last_ingress_pkts: load.pkts,
            last_ingress_bytes: load.bytes,
            ..self
        }
    }

    /// The row for the interval that ends with this budget and load.
    pub fn log_cycle_budget(&self, elapsed: &Duration, load: &PhyLoad, now: &DatapathBudget) -> (r:
        CycleRow)
        ensures
            r == self.row(*elapsed, *load, *now),
    {
        let prev: DatapathBudget = self.last_budget;
        CycleRow {
            ts_ms: elapsed.as_millis(),
            poll_busy: now.poll_busy.saturating_sub(prev.poll_busy),
            poll_idle: now.poll_idle.saturating_sub(prev.poll_idle),
            pipeline: now.pipeline.saturating_sub(prev.pipeline),
            maint: now.maint.saturating_sub(prev.maint),
            sampled_wall: now.sampled_wall.saturating_sub(prev.sampled_wall),
            wall: now.wall.saturating_sub(prev.wall),
            bursts: now.bursts.saturating_sub(prev.bursts),
            idle_polls: now.idle_polls.saturating_sub(prev.idle_polls),
            recv_pkts: now.recv_pkts.saturating_sub(prev.recv_pkts),
            ingress_pkts: load.pkts.saturating_sub(self.last_ingress_pkts),
            ingress_bytes: load.bytes.saturating_sub(self.last_ingress_bytes),
            cores: now.cores,
            rdtsc_cost: now.rdtsc_cost,
        }
    }

    /// One round of the log, given what reading each port gave and the budget at that time: the
    /// load that was offered, whether it is to be said that a port does not count what reached the
    /// NIC, and the row of the cycle budget. There is no row if a port could not be read, rather
    /// than one with too small a load. Returns `None` if the load is not made of 64-bit numbers.
    pub fn log_stats(
        &mut self,
        elapsed: &Duration,
        reads: &Vec<Result<PortStats, String>>,
        now: &DatapathBudget,
    ) -> (r: Option<LogRound>)
        ensures
            match r {
                Some(round) => {
                    &&& is_load(round.load, reads@)
                    &&& round.warn == old(self).warns(round.load)
                    &&& round.row == if round.load.ok {
                        Some(old(self).row(*elapsed, round.load, *now))
                    } else {
                        None
                    }
                    &&& *final(self) == old(self).warned(round.load)
                },
                None => {
                    &&& all_offered(reads@).0 > u64::MAX || all_offered(reads@).1 > u64::MAX
                    &&& *final(self) == *old(self)
                },
            },
    {
        match phy_load(reads) {
            Some(load) => {
                let warn: bool = self.should_warn(&load);
                let row: Option<CycleRow> = if load.ok {
                    Some(self.log_cycle_budget(elapsed, &load, now))
                } else {
                    None
                };
                Some(LogRound { load, warn, row })
            },
            None => None,
        }
    }

    /// Takes note that the row for this budget and load was written.
    pub fn written(&mut self, load: &PhyLoad, now: &DatapathBudget)
        ensures
            *final(self) == old(self).noted(*load, *now),
    {
        self.last_budget = *now;
        self.last_ingress_pkts = load.pkts;
        self.last_ingress_bytes = load.bytes;
    }
}

/// The columns of the cycle budget that are gains over the logging interval.
pub enum GainColumn {
    PollBusy,
    PollIdle,
    Pipeline,
    Maint,
    SampledWall,
    Wall,
    Bursts,
    IdlePolls,
    RecvPkts,
    IngressPkts,
    IngressBytes,
}

impl GainColumn {
    /// The value of the column in a row.
    pub open spec fn of_row(self, row: CycleRow) -> int {
        match self {
            GainColumn::PollBusy => row.poll_busy as int,
            GainColumn::PollIdle => row.poll_idle as int,
            GainColumn::Pipeline => row.pipeline as int,
            GainColumn::Maint => row.maint as int,
            GainColumn::SampledWall => row.sampled_wall as int,
            GainColumn::Wall => row.wall as int,
            GainColumn::Bursts => row.bursts as int,
            GainColumn::IdlePolls => row.idle_polls as int,
            GainColumn::RecvPkts => row.recv_pkts as int,
            GainColumn::IngressPkts => row.ingress_pkts as int,
            GainColumn::IngressBytes => row.ingress_bytes as int,
        }
    }

    /// The counter that the column shows the gain of, in a budget and a load.
    pub open spec fn of_counters(self, now: DatapathBudget, pkts: u64, bytes: u64) -> int {
        match self {
            GainColumn::PollBusy => now.poll_busy as int,
            GainColumn::PollIdle => now.poll_idle as int,
            GainColumn::Pipeline => now.pipeline as int,
            GainColumn::Maint => now.maint as int,
            GainColumn::SampledWall => now.sampled_wall as int,
            GainColumn::Wall => now.wall as int,
            GainColumn::Bursts => now.bursts as int,
            GainColumn::IdlePolls => now.idle_polls as int,
            GainColumn::RecvPkts => now.recv_pkts as int,
            GainColumn::IngressPkts => pkts as int,
            GainColumn::IngressBytes => bytes as int,
        }
    }

    /// The counter where the last row that was written ends.
    pub open spec fn of_log(self, log: BudgetLog) -> int {
        self.of_counters(log.last_budget, log.last_ingress_pkts, log.last_ingress_bytes)
    }

    /// The counter at one round of the log.
    pub open spec fn of_round(self, round: BudgetRound) -> int {
        self.of_counters(round.now, round.load.pkts, round.load.bytes)
    }

    /// The sum of the column over some rows.
    pub open spec fn sum(self, rows: Seq<CycleRow>) -> int
        decreases rows.len(),
    {
        if rows.len() == 0 {
            0
        } else {
            self.sum(rows.drop_last()) + self.of_row(rows.last())
        }
    }

    /// The counter as it was read last: in the last round, or where the log stood before.
    pub open spec fn latest(self, log: BudgetLog, rounds: Seq<BudgetRound>) -> int {
        if rounds.len() == 0 {
            self.of_log(log)
        } else {
            self.of_round(rounds.last())
        }
    }

    /// Whether the counter never falls from one round to the next.
    pub open spec fn never_falls(self, log: BudgetLog, rounds: Seq<BudgetRound>) -> bool
        decreases rounds.len(),
    {
        rounds.len() == 0 || (self.never_falls(log, rounds.drop_last()) && self.latest(
            log,
            rounds.drop_last(),
        ) <= self.of_round(rounds.last()))
    }
}

/// One round of the cycle budget: when it was, what was read, and whether its row was written. A
/// row is not written where a port could not be read, or where the file refused it.
pub struct BudgetRound {
    pub elapsed: Duration,
    pub load: PhyLoad,
    pub now: DatapathBudget,
    pub written: bool,
}

/// The log after some rounds.
pub open spec fn log_after(log: BudgetLog, rounds: Seq<BudgetRound>) -> BudgetLog
    decreases rounds.len(),
{
    if rounds.len() == 0 {
        log
    } else {
        let before = log_after(log, rounds.drop_last());
        let round = rounds.last();
        if round.written {
            before.noted(round.load, round.now)
        } else {
            before
        }
    }
}

/// The rows that some rounds write.
pub open spec fn rows_of(log: BudgetLog, rounds: Seq<BudgetRound>) -> Seq<CycleRow>
    decreases rounds.len(),
{
    if rounds.len() == 0 {
        Seq::empty()
    } else {
        let rows = rows_of(log, rounds.drop_last());
        let round = rounds.last();
        if round.written {
            rows.push(
                log_after(log, rounds.drop_last()).row(round.elapsed, round.load, round.now),
            )
        } else {
            rows
        }
    }
}

/// No counter of the log is ahead of what was read last.
proof fn lemma_log_is_behind(c: GainColumn, log: BudgetLog, rounds: Seq<BudgetRound>)
    requires
        c.never_falls(log, rounds),
    ensures
        c.of_log(log_after(log, rounds)) <= c.latest(log, rounds),
    decreases rounds.len(),
{
    if rounds.len() > 0 {
        lemma_log_is_behind(c, log, rounds.drop_last());
    }
}

/// The gains of a row are those of the counters.
proof fn lemma_row_gain(c: GainColumn, log: BudgetLog, round: BudgetRound)
    requires
        c.of_log(log) <= c.of_round(round),
    ensures
        c.of_row(log.row(round.elapsed, round.load, round.now)) == c.of_round(round) - c.of_log(
            log,
        ),
{
}

/// Where a counter never falls, the rows sum to it: over any rounds, the rows that were written sum
/// to what the counter gained up to the last of them, and a round whose row was not written is made
/// up for by the next row. If the last round was written, and the log started from nothing, the sum
/// is the latest counter.
pub proof fn law_rows_sum_to_the_counters(
    c: GainColumn,
    log: BudgetLog,
    rounds: Seq<BudgetRound>,
)
    requires
        c.never_falls(log, rounds),
    ensures
        c.sum(rows_of(log, rounds)) == c.of_log(log_after(log, rounds)) - c.of_log(log),
        rounds.len() > 0 && rounds.last().written ==> c.sum(rows_of(log, rounds)) == c.latest(
            log,
            rounds,
        ) - c.of_log(log),
        rounds.len() > 0 && !rounds.last().written ==> log_after(log, rounds) == log_after(
            log,
            rounds.drop_last(),
        ),
    decreases rounds.len(),
{
    if rounds.len() > 0 {
        let init = rounds.drop_last();
        law_rows_sum_to_the_counters(c, log, init);
        if rounds.last().written {
            lemma_log_is_behind(c, log, init);
            let before = log_after(log, init);
            lemma_row_gain(c, before, rounds.last());
            let row = before.row(rounds.last().elapsed, rounds.last().load, rounds.last().now);
            assert(rows_of(log, rounds).drop_last() =~= rows_of(log, init));
            assert(rows_of(log, rounds).last() == row);
        }
    }
}

/// Where the buckets of both budgets sum to their sampled spans and no counter runs backwards, the
/// buckets of the row sum to its sampled span.
pub proof fn law_row_buckets_sum(
    elapsed: Duration,
    now: DatapathBudget,
    prev: DatapathBudget,
    pkts: (u64, u64),
    bytes: (u64, u64),
)
    requires
        now.attributed() == now.sampled_wall,
        prev.attributed() == prev.sampled_wall,
        prev.poll_busy <= now.poll_busy,
        prev.poll_idle <= now.poll_idle,
        prev.pipeline <= now.pipeline,
        prev.maint <= now.maint,
    ensures
        ({
            let row = interval(elapsed, now, prev, pkts, bytes);
            row.poll_busy + row.poll_idle + row.pipeline + row.maint == row.sampled_wall
        }),
{
}

/// The warning about ports that do not count what reached the NIC is given once: after it was
/// given, no later load gives it again.
pub proof fn law_warning_is_given_once(log: BudgetLog, load: PhyLoad, later: PhyLoad)
    requires
        log.warns(load),
    ensures
        !log.warned(load).warns(later),
        log.warned(load).warned(later) == log.warned(load),
{
}

/// The columns of a row are those of the header, but for the three ratios at its end.
pub proof fn law_budget_columns(row: CycleRow)
    ensures
        row.columns_text().len() + 3 == budget_header_text().len(),
{
}

} // verus!
