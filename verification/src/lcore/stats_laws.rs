//! Laws of port statistics and of the log: which label feeds which figure, and which figure stands
//! under which name.

use vstd::prelude::*;

use crate::lcore::datapath_budget::DatapathBudget;
use crate::lcore::logger::{
    all_offered, budget_header_text, has_phy, header_text, is_load, offered, row_text, selected,
    BudgetLog, CycleRow, PhyLoad,
};
use crate::lcore::port_stats::{
    aggregate, all_totals, first_error, labels_ascend, last_put, law_labels_name_values, port_totals,
    stat, sunk, wanted, AggRxStats, CollectError, PortStats, RxTotals,
};
use crate::port::{PortId, RxQueue, RxQueueType};
use crate::text::decimal;
use crate::time::Duration;

verus! {

/// Whether there is no entry under a label.
pub open spec fn lacks(stats: Seq<(String, u64)>, label: Seq<char>) -> bool {
    forall|i: int| 0 <= i < stats.len() ==> (#[trigger] stats[i]).0@ != label
}

/// Which entry feeds which figure of a port: what reached the NIC comes from the entries on the
/// wire side, what reached software from the good ones, what the NIC dropped from the discards and
/// what software was too slow for from the misses.
pub proof fn law_labels_feed_figures(stats: Seq<(String, u64)>, queues: Seq<RxQueue>, i: int)
    requires
        labels_ascend(stats),
        0 <= i < stats.len(),
    ensures
        ({
            let t = port_totals(stats, queues);
            let (label, value) = (stats[i].0@, stats[i].1);
            &&& label == "rx_phy_bytes"@ ==> t.ingress_bytes == value
            &&& label == "rx_phy_packets"@ ==> t.ingress_pkts == value
            &&& label == "rx_good_bytes"@ ==> t.good_bytes == value
            &&& label == "rx_good_packets"@ ==> t.good_pkts == value
            &&& label == "rx_phy_discard_packets"@ ==> t.hw_dropped_pkts == value
            &&& label == "rx_missed_errors"@ ==> t.sw_dropped_pkts == value
        }),
{
    law_labels_name_values(stats, stats[i].0@);
}

/// A figure whose entry a port lacks is zero.
pub proof fn law_lacking_labels_count_as_zero(stats: Seq<(String, u64)>, queues: Seq<RxQueue>)
    requires
        labels_ascend(stats),
    ensures
        ({
            let t = port_totals(stats, queues);
            &&& lacks(stats, "rx_phy_bytes"@) ==> t.ingress_bytes == 0
            &&& lacks(stats, "rx_phy_packets"@) ==> t.ingress_pkts == 0
            &&& lacks(stats, "rx_good_bytes"@) ==> t.good_bytes == 0
            &&& lacks(stats, "rx_good_packets"@) ==> t.good_pkts == 0
            &&& lacks(stats, "rx_phy_discard_packets"@) ==> t.hw_dropped_pkts == 0
            &&& lacks(stats, "rx_missed_errors"@) ==> t.sw_dropped_pkts == 0
        }),
{
    law_labels_name_values(stats, "rx_phy_bytes"@);
    law_labels_name_values(stats, "rx_phy_packets"@);
    law_labels_name_values(stats, "rx_good_bytes"@);
    law_labels_name_values(stats, "rx_good_packets"@);
    law_labels_name_values(stats, "rx_phy_discard_packets"@);
    law_labels_name_values(stats, "rx_missed_errors"@);
}

/// What sink queues take does not reach the workers: a sink queue more takes what its own entry
/// holds, a receive queue takes nothing, and the workers get what reached software less what the
/// sinks took, bytes and packets each by themselves.
pub proof fn law_sinks_take_from_the_workers(
    stats: Seq<(String, u64)>,
    queues: Seq<RxQueue>,
    q: RxQueue,
    what: Seq<char>,
    i: int,
)
    requires
        labels_ascend(stats),
        0 <= i < stats.len(),
    ensures
        sunk(stats, Seq::empty(), what) == 0,
        q.ty == RxQueueType::Receive ==> sunk(stats, queues.push(q), what) == sunk(
            stats,
            queues,
            what,
        ),
        q.ty == RxQueueType::Sink && stats[i].0@ == "rx_q"@ + decimal(q.qid.0 as nat) + what ==> sunk(
            stats,
            queues.push(q),
            what,
        ) == sunk(stats, queues, what) + stats[i].1,
        q.ty == RxQueueType::Sink && lacks(stats, "rx_q"@ + decimal(q.qid.0 as nat) + what) ==> sunk(
            stats,
            queues.push(q),
            what,
        ) == sunk(stats, queues, what),
        ({
            let t = port_totals(stats, queues);
            let bytes = sunk(stats, queues, "_bytes"@);
            let pkts = sunk(stats, queues, "_packets"@);
            &&& bytes <= t.good_bytes ==> t.process_bytes == t.good_bytes - bytes
            &&& bytes > t.good_bytes ==> t.process_bytes == 0
            &&& pkts <= t.good_pkts ==> t.process_pkts == t.good_pkts - pkts
            &&& pkts > t.good_pkts ==> t.process_pkts == 0
        }),
{
    assert(queues.push(q).drop_last() =~= queues);
    law_labels_name_values(stats, "rx_q"@ + decimal(q.qid.0 as nat) + what);
}

/// The figures of the ports are added up, each by itself; a port that could not be read adds
/// nothing.
pub proof fn law_figures_are_added_up(
    ports: Seq<(PortId, Vec<RxQueue>)>,
    reads: Seq<Result<PortStats, String>>,
    s: PortStats,
    msg: String,
)
    requires
        reads.len() < ports.len(),
    ensures
        ({
            let a = all_totals(ports, reads);
            let b = port_totals(s@, ports[reads.len() as int].1@);
            let c = all_totals(ports, reads.push(Ok(s)));
            &&& c.ingress_bytes == a.ingress_bytes + b.ingress_bytes
            &&& c.ingress_pkts == a.ingress_pkts + b.ingress_pkts
            &&& c.good_bytes == a.good_bytes + b.good_bytes
            &&& c.good_pkts == a.good_pkts + b.good_pkts
            &&& c.process_bytes == a.process_bytes + b.process_bytes
            &&& c.process_pkts == a.process_pkts + b.process_pkts
            &&& c.hw_dropped_pkts == a.hw_dropped_pkts + b.hw_dropped_pkts
            &&& c.sw_dropped_pkts == a.sw_dropped_pkts + b.sw_dropped_pkts
            &&& all_totals(ports, reads.push(Err(msg))) == a
        }),
        all_totals(ports, Seq::empty()) == (RxTotals {
            ingress_bytes: 0,
            ingress_pkts: 0,
            good_bytes: 0,
            good_pkts: 0,
            process_bytes: 0,
            process_pkts: 0,
            hw_dropped_pkts: 0,
            sw_dropped_pkts: 0,
        }),
{
    assert(reads.push(Ok(s)).drop_last() =~= reads);
    assert(reads.push(Err(msg)).drop_last() =~= reads);
}

/// Bits on the wire: 20 bytes of preamble and gap are added to each packet that reached the NIC, and
/// 24 with the checksum to each that reached software or the workers, eight bits to the byte. The
/// other figures are taken as they are.
pub proof fn law_bits_on_the_wire(t: RxTotals)
    requires
        t.fits(),
        0 <= t.ingress_bytes && 0 <= t.ingress_pkts && 0 <= t.good_bytes && 0 <= t.good_pkts,
        0 <= t.process_bytes && 0 <= t.process_pkts,
        0 <= t.hw_dropped_pkts && 0 <= t.sw_dropped_pkts,
    ensures
        ({
            let a = aggregate(t);
            &&& a.ingress_bits == 8 * t.ingress_bytes + 160 * t.ingress_pkts
            &&& a.good_bits == 8 * t.good_bytes + 192 * t.good_pkts
            &&& a.process_bits == 8 * t.process_bytes + 192 * t.process_pkts
            &&& a.ingress_bytes == t.ingress_bytes
            &&& a.ingress_pkts == t.ingress_pkts
            &&& a.good_pkts == t.good_pkts
            &&& a.process_pkts == t.process_pkts
            &&& a.hw_dropped_pkts == t.hw_dropped_pkts
            &&& a.sw_dropped_pkts == t.sw_dropped_pkts
        }),
        AggRxStats::zero() == (AggRxStats {
            ingress_bits: 0,
            ingress_bytes: 0,
            ingress_pkts: 0,
            good_bits: 0,
            good_pkts: 0,
            process_bits: 0,
            process_pkts: 0,
            hw_dropped_pkts: 0,
            sw_dropped_pkts: 0,
        }),
{
}

/// Whether a port could be read and counts what software was too slow for.
pub open spec fn is_usable(read: Result<PortStats, String>) -> bool {
    read matches Ok(s) && stat(s@, "rx_missed_errors"@) is Some
}

/// A collection fails exactly where a port cannot be used, and the error is that of the first such
/// port: what the driver said, or that the count of software drops is missing.
pub proof fn law_first_unusable_port_is_reported(reads: Seq<Result<PortStats, String>>, n: int)
    requires
        0 <= n <= reads.len(),
        forall|i: int| 0 <= i < n ==> is_usable(#[trigger] reads[i]),
    ensures
        n == reads.len() ==> first_error(reads) is None,
        n < reads.len() && !is_usable(reads[n]) ==> first_error(reads) == Some(
            match reads[n] {
                Ok(_) => CollectError::NoSwDropped,
                Err(msg) => CollectError::Port(msg),
            },
        ),
    decreases reads.len(),
{
    if reads.len() > 0 {
        let init = reads.drop_last();
        if n <= init.len() {
            assert forall|i: int| 0 <= i < n implies is_usable(#[trigger] init[i]) by {
                assert(init[i] == reads[i]);
            }
            law_first_unusable_port_is_reported(init, n);
        } else {
            assert forall|i: int| 0 <= i < init.len() implies is_usable(#[trigger] init[i]) by {
                assert(init[i] == reads[i]);
            }
            law_first_unusable_port_is_reported(init, init.len() as int);
            assert(is_usable(reads[n - 1]));
        }
    }
}

/// What was counted since an earlier collection, added to that collection, is what is counted now.
pub proof fn law_gains_make_up_the_difference(now: AggRxStats, prev: AggRxStats)
    ensures
        now.rates_follow(prev) ==> {
            let r = now.rates(prev);
            &&& prev.ingress_bits + r.ingress_bits == now.ingress_bits
            &&& prev.ingress_pkts + r.ingress_pkts == now.ingress_pkts
            &&& prev.good_bits + r.good_bits == now.good_bits
            &&& prev.good_pkts + r.good_pkts == now.good_pkts
            &&& prev.process_bits + r.process_bits == now.process_bits
            &&& prev.process_pkts + r.process_pkts == now.process_pkts
            &&& prev.hw_dropped_pkts + prev.sw_dropped_pkts + r.dropped_pkts == now.hw_dropped_pkts
                + now.sw_dropped_pkts
        },
        now.drops_follow(prev) ==> {
            let d = now.drops(prev);
            &&& prev.hw_dropped_pkts + d.hw_dropped_pkts == now.hw_dropped_pkts
            &&& prev.sw_dropped_pkts + d.sw_dropped_pkts == now.sw_dropped_pkts
            &&& prev.ingress_pkts + d.ingress_pkts == now.ingress_pkts
            &&& d.dropped_pkts == d.hw_dropped_pkts + d.sw_dropped_pkts
        },
        now.dropped() == now.hw_dropped_pkts + now.sw_dropped_pkts,
        ({
            let out = now.exported();
            &&& out.ingress_pkts == now.ingress_pkts && out.ingress_bits == now.ingress_bits
            &&& out.good_pkts == now.good_pkts && out.good_bits == now.good_bits
            &&& out.process_pkts == now.process_pkts && out.process_bits == now.process_bits
            &&& out.hw_dropped_pkts == now.hw_dropped_pkts
            &&& out.sw_dropped_pkts == now.sw_dropped_pkts
        }),
{
}

/// What was offered to a port: what the wire side counts where it counts both packets and bytes,
/// else what reached software, where a missing entry counts as zero.
pub proof fn law_offered_load_of_a_port(stats: Seq<(String, u64)>, i: int, j: int)
    requires
        labels_ascend(stats),
        0 <= i < stats.len(),
        0 <= j < stats.len(),
    ensures
        stats[i].0@ == "rx_phy_packets"@ && stats[j].0@ == "rx_phy_bytes"@ ==> has_phy(stats)
            && offered(stats) == (stats[i].1 as int, stats[j].1 as int),
        lacks(stats, "rx_phy_packets"@) || lacks(stats, "rx_phy_bytes"@) ==> {
            &&& !has_phy(stats)
            &&& stats[i].0@ == "rx_good_packets"@ ==> offered(stats).0 == stats[i].1
            &&& stats[j].0@ == "rx_good_bytes"@ ==> offered(stats).1 == stats[j].1
            &&& lacks(stats, "rx_good_packets"@) ==> offered(stats).0 == 0
            &&& lacks(stats, "rx_good_bytes"@) ==> offered(stats).1 == 0
        },
{
    law_labels_name_values(stats, "rx_phy_packets"@);
    law_labels_name_values(stats, "rx_phy_bytes"@);
    law_labels_name_values(stats, "rx_good_packets"@);
    law_labels_name_values(stats, "rx_good_bytes"@);
}

/// What was offered is added up over the ports that could be read, packets and bytes each by
/// themselves.
pub proof fn law_offered_loads_are_added_up(
    reads: Seq<Result<PortStats, String>>,
    s: PortStats,
    msg: String,
)
    ensures
        all_offered(Seq::empty()) == (0int, 0int),
        all_offered(reads.push(Ok(s))).0 == all_offered(reads).0 + offered(s@).0,
        all_offered(reads.push(Ok(s))).1 == all_offered(reads).1 + offered(s@).1,
        all_offered(reads.push(Err(msg))) == all_offered(reads),
{
    assert(reads.push(Ok(s)).drop_last() =~= reads);
    assert(reads.push(Err(msg)).drop_last() =~= reads);
}

/// A row of the cycle budget: its time in whole milliseconds, the number of cores and the cost of a
/// read as they are now, and every other column as the gain over what the log remembers, or zero
/// where a counter fell. Once the row is written, the log remembers what is now.
pub proof fn law_row_is_the_gain_since_the_last(
    log: BudgetLog,
    elapsed: Duration,
    load: PhyLoad,
    now: DatapathBudget,
)
    requires
        elapsed.nanos / 1_000_000 <= u128::MAX,
    ensures
        ({
            let row = log.row(elapsed, load, now);
            let was = log.last_budget;
            let gain = |a: u64, b: u64|
                if a >= b {
                    a - b
                } else {
                    0
                };
            &&& row.ts_ms == elapsed.nanos as int / 1_000_000
            &&& row.cores == now.cores && row.rdtsc_cost == now.rdtsc_cost
            &&& row.poll_busy == gain(now.poll_busy, was.poll_busy)
            &&& row.poll_idle == gain(now.poll_idle, was.poll_idle)
            &&& row.pipeline == gain(now.pipeline, was.pipeline)
            &&& row.maint == gain(now.maint, was.maint)
            &&& row.sampled_wall == gain(now.sampled_wall, was.sampled_wall)
            &&& row.wall == gain(now.wall, was.wall)
            &&& row.bursts == gain(now.bursts, was.bursts)
            &&& row.idle_polls == gain(now.idle_polls, was.idle_polls)
            &&& row.recv_pkts == gain(now.recv_pkts, was.recv_pkts)
            &&& row.ingress_pkts == gain(load.pkts, log.last_ingress_pkts)
            &&& row.ingress_bytes == gain(load.bytes, log.last_ingress_bytes)
        }),
        ({
            let next = log.noted(load, now);
            &&& next.last_budget == now
            &&& next.last_ingress_pkts == load.pkts && next.last_ingress_bytes == load.bytes
            &&& next.warned_no_phy == log.warned_no_phy
        }),
        log.warned(load).last_budget == log.last_budget,
        log.warned(load).last_ingress_pkts == log.last_ingress_pkts,
        log.warned(load).last_ingress_bytes == log.last_ingress_bytes,
        log.warns(load) <==> load.missing_phy && !log.warned_no_phy,
{
}

/// Every figure of the cycle budget stands under its own name.
pub proof fn law_figures_stand_under_their_names(row: CycleRow, i: int)
    requires
        0 <= i < 14,
    ensures
        ({
            let name = budget_header_text()[i];
            let field = row.columns_text()[i];
            &&& i == 0 ==> name == "ts_ms"@ && field == decimal(row.ts_ms as nat)
            &&& i == 1 ==> name == "poll_busy_cycles"@ && field == decimal(row.poll_busy as nat)
            &&& i == 2 ==> name == "poll_idle_cycles"@ && field == decimal(row.poll_idle as nat)
            &&& i == 3 ==> name == "pipeline_cycles"@ && field == decimal(row.pipeline as nat)
            &&& i == 4 ==> name == "maint_cycles"@ && field == decimal(row.maint as nat)
            &&& i == 5 ==> name == "sampled_wall_cycles"@ && field == decimal(
                row.sampled_wall as nat,
            )
            &&& i == 6 ==> name == "wall_cycles"@ && field == decimal(row.wall as nat)
            &&& i == 7 ==> name == "bursts_cnt"@ && field == decimal(row.bursts as nat)
            &&& i == 8 ==> name == "idle_polls_cnt"@ && field == decimal(row.idle_polls as nat)
            &&& i == 9 ==> name == "recv_pkts"@ && field == decimal(row.recv_pkts as nat)
            &&& i == 10 ==> name == "ingress_pkts"@ && field == decimal(row.ingress_pkts as nat)
            &&& i == 11 ==> name == "ingress_bytes"@ && field == decimal(row.ingress_bytes as nat)
            &&& i == 12 ==> name == "rx_cores_cnt"@ && field == decimal(row.cores as nat)
            &&& i == 13 ==> name == "rdtsc_cost_cycles"@ && field == decimal(row.rdtsc_cost as nat)
        }),
        budget_header_text()[14] == "idle_fraction"@,
        budget_header_text()[15] == "busy_fraction"@,
        budget_header_text()[16] == "cycles_per_ingress_pkt"@,
        budget_header_text().len() == 17,
{
}

/// Whether a column shows an entry: its label in the header and its value in the row.
pub open spec fn shows(
    h: Seq<Seq<char>>,
    r: Seq<Seq<char>>,
    k: int,
    stats: Seq<(String, u64)>,
    j: int,
) -> bool {
    h[k] == stats[j].0@ && r[k] == decimal(stats[j].1 as nat)
}

/// Whether a column shows an entry that is wanted.
pub open spec fn is_wanted_column(
    h: Seq<Seq<char>>,
    r: Seq<Seq<char>>,
    k: int,
    stats: Seq<(String, u64)>,
    keywords: Seq<String>,
) -> bool {
    exists|j: int|
        0 <= j < stats.len() && wanted(stats[j].0@, keywords) && #[trigger] shows(h, r, k, stats, j)
}

/// Whether every column between the time and the packet pool shows an entry that is wanted.
pub open spec fn columns_are_wanted(
    h: Seq<Seq<char>>,
    r: Seq<Seq<char>>,
    stats: Seq<(String, u64)>,
    keywords: Seq<String>,
) -> bool {
    forall|k: int|
        1 <= k < h.len() - 2 ==> #[trigger] is_wanted_column(h, r, k, stats, keywords)
}

/// Whether every entry that is wanted is shown between the time and the packet pool.
pub open spec fn wanted_have_columns(
    h: Seq<Seq<char>>,
    r: Seq<Seq<char>>,
    stats: Seq<(String, u64)>,
    keywords: Seq<String>,
) -> bool {
    forall|j: int|
        #![trigger stats[j]]
        0 <= j < stats.len() && wanted(stats[j].0@, keywords) ==> exists|k: int|
            1 <= k < h.len() - 2 && #[trigger] shows(h, r, k, stats, j)
}

/// In the log of a port every value stands under its label: the row begins with the time under
/// `ts`, next come the entries whose labels hold a keyword, all of them and no others, and last the
/// packets available and in use. A port that could not be read leaves only these two.
pub proof fn law_values_stand_under_their_labels(
    s: PortStats,
    keywords: Seq<String>,
    elapsed: Duration,
    avail: u32,
    inuse: u32,
    msg: String,
)
    ensures
        ({
            let h = header_text(s@, keywords);
            let r = row_text(elapsed, Ok(s), keywords, avail, inuse);
            let n = h.len();
            &&& r.len() == n && n >= 3
            &&& h[0] == "ts"@ && r[0] == decimal((elapsed.nanos as int / 1_000_000) as nat)
            &&& h[n - 2] == "mempool_avail_cnt"@ && r[n - 2] == decimal(avail as nat)
            &&& h[n - 1] == "mempool_inuse_cnt"@ && r[n - 1] == decimal(inuse as nat)
            &&& columns_are_wanted(h, r, s@, keywords)
            &&& wanted_have_columns(h, r, s@, keywords)
        }),
        row_text(elapsed, Err(msg), keywords, avail, inuse) == seq![
            decimal(avail as nat),
            decimal(inuse as nat),
        ],
{
    let sel = selected(s@, keywords);
    let h = header_text(s@, keywords);
    let r = row_text(elapsed, Ok(s), keywords, avail, inuse);
    let n = h.len();
    assert(n == sel.len() + 3 && r.len() == n);
    assert(h[0] == "ts"@ && h[n - 2] == "mempool_avail_cnt"@ && h[n - 1] == "mempool_inuse_cnt"@);
    assert(r[0] == decimal((elapsed.nanos as int / 1_000_000) as nat));
    assert(r[n - 2] == decimal(avail as nat) && r[n - 1] == decimal(inuse as nat));
    assert forall|k: int| 1 <= k < h.len() - 2 implies #[trigger] is_wanted_column(
        h,
        r,
        k,
        s@,
        keywords,
    ) by {
        let j = lemma_selected_is_an_entry(s@, keywords, k - 1);
        assert(h[k] == sel[k - 1].0@ && r[k] == decimal(sel[k - 1].1 as nat));
        assert(shows(h, r, k, s@, j));
    }
    assert(columns_are_wanted(h, r, s@, keywords));
    assert forall|j: int|
        #![trigger s@[j]]
        0 <= j < s@.len() && wanted(s@[j].0@, keywords) implies exists|k: int|
        1 <= k < h.len() - 2 && #[trigger] shows(h, r, k, s@, j) by {
        let k = lemma_wanted_is_selected(s@, keywords, j);
        assert(h[k + 1] == sel[k].0@ && r[k + 1] == decimal(sel[k].1 as nat));
        assert(shows(h, r, k + 1, s@, j));
    }
    assert(wanted_have_columns(h, r, s@, keywords));
}

/// What is selected is an entry that is wanted.
proof fn lemma_selected_is_an_entry(
    stats: Seq<(String, u64)>,
    keywords: Seq<String>,
    k: int,
) -> (j: int)
    requires
        0 <= k < selected(stats, keywords).len(),
    ensures
        0 <= j < stats.len(),
        stats[j] == selected(stats, keywords)[k],
        wanted(stats[j].0@, keywords),
    decreases stats.len(),
{
    reveal(Seq::filter);
    let init = stats.drop_last();
    if k < selected(init, keywords).len() {
        lemma_selected_is_an_entry(init, keywords, k)
    } else {
        stats.len() - 1
    }
}

/// An entry that is wanted is selected.
proof fn lemma_wanted_is_selected(
    stats: Seq<(String, u64)>,
    keywords: Seq<String>,
    j: int,
) -> (k: int)
    requires
        0 <= j < stats.len(),
        wanted(stats[j].0@, keywords),
    ensures
        0 <= k < selected(stats, keywords).len(),
        stats[j] == selected(stats, keywords)[k],
    decreases stats.len(),
{
    reveal(Seq::filter);
    let init = stats.drop_last();
    if j < init.len() {
        lemma_wanted_is_selected(init, keywords, j)
    } else {
        selected(init, keywords).len() as int
    }
}

/// Of the values put under a label the last one counts; what is put under other labels does not
/// matter to it.
pub proof fn law_last_value_counts(
    entries: Seq<(String, u64)>,
    e: (String, u64),
    label: Seq<char>,
)
    ensures
        last_put(Seq::empty(), label) is None,
        e.0@ == label ==> last_put(entries.push(e), label) == Some(e.1),
        e.0@ != label ==> last_put(entries.push(e), label) == last_put(entries, label),
{
    assert(entries.push(e).drop_last() =~= entries);
}

/// A load holds the packets and the bytes that were offered to the ports, tells of a port that
/// could be read but does not count on the wire side, and tells of a port that could not be read.
pub proof fn law_load_of_the_ports(
    load: PhyLoad,
    reads: Seq<Result<PortStats, String>>,
    i: int,
)
    requires
        is_load(load, reads),
    ensures
        load.pkts == all_offered(reads).0,
        load.bytes == all_offered(reads).1,
        0 <= i < reads.len() ==> {
            &&& reads[i] is Err ==> !load.ok
            &&& reads[i] matches Ok(s) ==> {
                labels_ascend(s@) && (lacks(s@, "rx_phy_packets"@) || lacks(s@, "rx_phy_bytes"@))
                    ==> load.missing_phy
            }
        },
        !load.ok ==> exists|k: int| 0 <= k < reads.len() && #[trigger] reads[k] is Err,
        load.missing_phy ==> exists|k: int|
            0 <= k < reads.len() && (#[trigger] reads[k] matches Ok(s) && !has_phy(s@)),
{
    if 0 <= i < reads.len() {
        if let Ok(s) = reads[i] {
            if labels_ascend(s@) {
                law_labels_name_values(s@, "rx_phy_packets"@);
                law_labels_name_values(s@, "rx_phy_bytes"@);
            }
        }
    }
}

} // verus!
