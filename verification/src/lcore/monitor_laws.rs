//! Laws of the monitor: what a round shows and logs, and what a run comes to.

use vstd::prelude::*;

use crate::lcore::logger::mempool_text;
use crate::lcore::monitor::{
    dram_text, duration_text, pair_sums, pcie_text, pool_names_text, MeterSample, Monitor,
    MonitorAction, MonitorEvent, MonitorRun, OnlineConfig,
};
use crate::lcore::port_stats::AggRxStats;
use crate::lcore::SocketId;
use crate::port::{PortId, RxQueue};
use crate::text::decimal;
use crate::time::{Duration, Instant};

verus! {

/// What a round shows of the transport is the gain of each protocol since the last reading: the TCP
/// bytes against the TCP total before, the UDP bytes against the UDP total before, and nothing where
/// a total fell. The reading is what the next round is taken against.
pub proof fn law_transport_shows_gains(s: MonitorRun, tcp: u64, udp: u64)
    requires
        s.asks() == MonitorAction::ReadTransport,
    ensures
        ({
            let next = s.after(MonitorEvent::Transport(tcp, udp));
            &&& next.asks() matches MonitorAction::ShowTransport { tcp: t, udp: u, delta }
            &&& tcp >= s.prev_tcp_bytes ==> t == tcp - s.prev_tcp_bytes
            &&& tcp < s.prev_tcp_bytes ==> t == 0
            &&& udp >= s.prev_udp_bytes ==> u == udp - s.prev_udp_bytes
            &&& udp < s.prev_udp_bytes ==> u == 0
            &&& next.prev_tcp_bytes == tcp
            &&& next.prev_udp_bytes == udp
        }),
{
}

/// No event but a reading changes the totals that the next reading is taken against.
pub proof fn law_only_readings_move_the_totals(s: MonitorRun, ev: MonitorEvent)
    requires
        !(s.asks() == MonitorAction::ReadTransport && ev is Transport),
    ensures
        s.after(ev).prev_tcp_bytes == s.prev_tcp_bytes,
        s.after(ev).prev_udp_bytes == s.prev_udp_bytes,
{
}

/// The run after some events.
pub open spec fn ran(s: MonitorRun, evs: Seq<MonitorEvent>) -> MonitorRun
    decreases evs.len(),
{
    if evs.len() == 0 {
        s
    } else {
        ran(s, evs.drop_last()).after(evs.last())
    }
}

/// The TCP and UDP bytes that are shown over some events.
pub open spec fn shown(s: MonitorRun, evs: Seq<MonitorEvent>) -> (int, int)
    decreases evs.len(),
{
    if evs.len() == 0 {
        (0, 0)
    } else {
        let rest = shown(s, evs.drop_last());
        let b = ran(s, evs.drop_last());
        if b.asks() == MonitorAction::ReadTransport && evs.last() is Transport {
            match b.after(evs.last()).asks() {
                MonitorAction::ShowTransport { tcp, udp, .. } => (rest.0 + tcp, rest.1 + udp),
                _ => rest,
            }
        } else {
            rest
        }
    }
}

/// The totals as they were read last: TCP and UDP bytes.
pub open spec fn last_reading(s: MonitorRun, evs: Seq<MonitorEvent>) -> (u64, u64)
    decreases evs.len(),
{
    if evs.len() == 0 {
        (s.prev_tcp_bytes, s.prev_udp_bytes)
    } else {
        match evs.last() {
            MonitorEvent::Transport(tcp, udp) if ran(s, evs.drop_last()).asks()
                == MonitorAction::ReadTransport => (tcp, udp),
            _ => last_reading(s, evs.drop_last()),
        }
    }
}

/// Whether no reading is below the one before.
pub open spec fn readings_rise(s: MonitorRun, evs: Seq<MonitorEvent>) -> bool
    decreases evs.len(),
{
    evs.len() == 0 || {
        &&& readings_rise(s, evs.drop_last())
        &&& last_reading(s, evs.drop_last()).0 <= last_reading(s, evs).0
        &&& last_reading(s, evs.drop_last()).1 <= last_reading(s, evs).1
    }
}

/// Over any run of rounds in which neither total falls, what is shown sums to what the totals
/// gained, each protocol by itself.
pub proof fn law_shown_bytes_sum_to_the_totals(s: MonitorRun, evs: Seq<MonitorEvent>)
    requires
        readings_rise(s, evs),
    ensures
        ran(s, evs).prev_tcp_bytes == last_reading(s, evs).0,
        ran(s, evs).prev_udp_bytes == last_reading(s, evs).1,
        shown(s, evs).0 == last_reading(s, evs).0 - s.prev_tcp_bytes,
        shown(s, evs).1 == last_reading(s, evs).1 - s.prev_udp_bytes,
    decreases evs.len(),
{
    if evs.len() > 0 {
        let b = ran(s, evs.drop_last());
        law_shown_bytes_sum_to_the_totals(s, evs.drop_last());
        match evs.last() {
            MonitorEvent::Transport(tcp, udp) if b.asks() == MonitorAction::ReadTransport => {
                law_transport_shows_gains(b, tcp, udp);
            },
            _ => {
                law_only_readings_move_the_totals(b, evs.last());
            },
        }
    }
}

/// A run begins with nothing collected and no bytes read.
pub proof fn law_run_begins_with_nothing(
    duration: Option<Duration>,
    show: Option<bool>,
    logs: bool,
)
    ensures
        ({
            let s = MonitorRun::start(duration, show, logs);
            &&& s.duration == duration && s.show == show && s.logs == logs
            &&& s.init
            &&& s.prev_tcp_bytes == 0 && s.prev_udp_bytes == 0
            &&& s.init_rx == AggRxStats::zero() && s.prev_rx == AggRxStats::zero()
        }),
{
}

/// How a round begins: where the workers are not running the monitor waits, sums up and is done;
/// where the time is up it stops the workers first. Then the display has its turn, if there is one,
/// else the log, if there is one, else the next round.
pub proof fn law_round_begins(s: MonitorRun, now: Instant)
    requires
        s.asks() == MonitorAction::CheckRunning,
    ensures
        ({
            let stopped = s.after(MonitorEvent::Running(false, now));
            let waited = stopped.after(MonitorEvent::Done);
            let going = s.after(MonitorEvent::Running(true, now));
            let up = s.duration matches Some(d) && now.nanos >= s.start_ts.nanos && now.nanos
                - s.start_ts.nanos >= d.nanos;
            let at_display = if going.asks() == MonitorAction::StopRunning {
                going.after(MonitorEvent::Done)
            } else {
                going
            };
            &&& stopped.asks() == MonitorAction::Sleep
            &&& waited.asks() matches MonitorAction::Summarise { curr, init, elapsed }
            &&& curr == s.prev_rx && init == s.init_rx
            &&& s.prev_ts.nanos >= s.init_ts.nanos ==> elapsed.nanos == s.prev_ts.nanos
                - s.init_ts.nanos
            &&& waited.after(MonitorEvent::Done).asks() == MonitorAction::Finished
            &&& up ==> going.asks() == MonitorAction::StopRunning
            &&& going.asks() == MonitorAction::StopRunning ==> up || (s.duration matches Some(d)
                && d.nanos == 0)
            &&& s.show is Some ==> at_display.asks() == MonitorAction::WaitDisplay
                && at_display.after(MonitorEvent::Done).asks() == MonitorAction::Collect
            &&& s.show is None && s.logs ==> at_display.asks() == MonitorAction::WaitLog
            &&& s.show is None && !s.logs ==> at_display.asks() == MonitorAction::CheckRunning
        }),
{
}

/// What a collection leads to. It is remembered as the last one, and as the first one if there was
/// none before. With throughput on, rates since the collection before, drops since the first one,
/// and the times since the collection before and since the start are shown, then transport, then
/// the meters. A collection that fails leaves everything as it was. In the end the log has its turn.
pub proof fn law_collection_is_shown(s: MonitorRun, ts: Instant, rx: AggRxStats, tcp: u64, udp: u64)
    requires
        s.asks() == MonitorAction::Collect,
        ts.nanos >= s.prev_ts.nanos,
        ts.nanos >= s.start_ts.nanos,
    ensures
        ({
            let next = s.after(MonitorEvent::Collected(ts, Some(rx)));
            let failed = s.after(MonitorEvent::Collected(ts, None));
            let first = if s.init {
                rx
            } else {
                s.init_rx
            };
            let read = next.after(MonitorEvent::Done);
            let transport = read.after(MonitorEvent::Transport(tcp, udp));
            let meters = transport.after(MonitorEvent::Done);
            let after_display = if s.show == Some(true) {
                meters.after(MonitorEvent::Done)
            } else {
                next
            };
            let at_log = if s.logs {
                MonitorAction::WaitLog
            } else {
                MonitorAction::CheckRunning
            };
            let row = after_display.after(MonitorEvent::Done);
            &&& next.prev_rx == rx && next.prev_ts == ts
            &&& next.init_rx == first && !next.init
            &&& s.init ==> next.init_ts == ts
            &&& !s.init ==> next.init_ts == s.init_ts
            &&& s.show == Some(true) ==> {
                &&& next.asks() == (MonitorAction::ShowRates {
                    curr: rx,
                    prev: s.prev_rx,
                    init: first,
                    delta: Duration { nanos: (ts.nanos - s.prev_ts.nanos) as u128 },
                    elapsed: Duration { nanos: (ts.nanos - s.start_ts.nanos) as u128 },
                })
                &&& read.asks() == MonitorAction::ReadTransport
                &&& transport.asks() matches MonitorAction::ShowTransport { delta, .. }
                &&& delta.nanos == ts.nanos - s.prev_ts.nanos
                &&& meters.asks() == MonitorAction::ShowMeters
            }
            &&& after_display.asks() == at_log
            &&& s.logs ==> {
                &&& row.asks() == (MonitorAction::LogStats { since: next.init_ts })
                &&& row.after(MonitorEvent::Done).asks() == MonitorAction::CheckRunning
            }
            &&& failed.asks() == at_log
            &&& failed.prev_rx == s.prev_rx && failed.prev_ts == s.prev_ts
            &&& failed.init_rx == s.init_rx && failed.init_ts == s.init_ts
            &&& failed.init == s.init
        }),
{
}

/// A time is shown by its parts: whatever days, hours below 24, minutes below 60 and seconds below
/// 60 make it up, those are the numbers that are shown, from the largest one that is not zero down
/// to the seconds.
pub proof fn law_duration_shows_its_parts(d: nat, h: nat, m: nat, s: nat)
    requires
        h < 24,
        m < 60,
        s < 60,
    ensures
        ({
            let text = duration_text(d * 86_400 + h * 3_600 + m * 60 + s);
            let secs = decimal(s) + "s"@;
            let mins = decimal(m) + "m "@ + secs;
            let hours = decimal(h) + "h "@ + mins;
            &&& d > 0 ==> text == decimal(d) + "d "@ + hours
            &&& d == 0 && h > 0 ==> text == hours
            &&& d == 0 && h == 0 && m > 0 ==> text == mins
            &&& d == 0 && h == 0 && m == 0 ==> text == secs
        }),
{
    let n = d * 86_400 + h * 3_600 + m * 60 + s;
    let of_day = h * 3_600 + m * 60 + s;
    let of_hour = m * 60 + s;
    lemma_quotient(n, 86_400, d, of_day);
    lemma_quotient(of_day, 3_600, h, of_hour);
    lemma_quotient(n, 3_600, d * 24 + h, of_hour);
    lemma_quotient(of_hour, 60, m, s);
    lemma_quotient(n, 60, d * 1_440 + h * 60 + m, s);
}

/// A number that is made up of a multiple of a divisor and less than the divisor.
proof fn lemma_quotient(n: nat, divisor: nat, q: nat, r: nat)
    requires
        n == q * divisor + r,
        r < divisor,
    ensures
        n / divisor == q,
        n % divisor == r,
{
    vstd::arithmetic::div_mod::lemma_fundamental_div_mod_converse(
        n as int,
        divisor as int,
        q as int,
        r as int,
    );
}

/// Bytes read and bytes written are summed over the sockets, each by itself.
pub proof fn law_pair_sums(pairs: Seq<(u64, u64)>, read: u64, write: u64)
    ensures
        pair_sums(Seq::empty()) == (0int, 0int),
        pair_sums(pairs.push((read, write))).0 == pair_sums(pairs).0 + read,
        pair_sums(pairs.push((read, write))).1 == pair_sums(pairs).1 + write,
{
    assert(pairs.push((read, write)).drop_last() =~= pairs);
}

/// Each socket has three packet pools, named after it.
pub proof fn law_pools_of_the_sockets(sockets: Seq<SocketId>, i: int)
    requires
        0 <= i < sockets.len(),
    ensures
        pool_names_text(sockets).len() == 3 * sockets.len(),
        pool_names_text(sockets)[3 * i] == "mempool_standard_"@ + decimal(sockets[i].0 as nat),
        pool_names_text(sockets)[3 * i + 1] == "mempool_split_header_"@ + decimal(
            sockets[i].0 as nat,
        ),
        pool_names_text(sockets)[3 * i + 2] == "mempool_split_remainder_"@ + decimal(
            sockets[i].0 as nat,
        ),
    decreases sockets.len(),
{
    lemma_pools_len(sockets);
    lemma_pools_len(sockets.drop_last());
    let s = sockets[i];
    if i < sockets.len() - 1 {
        law_pools_of_the_sockets(sockets.drop_last(), i);
    } else {
        reveal_strlit("mempool_");
        reveal_strlit("_");
        reveal_strlit("standard");
        reveal_strlit("split_header");
        reveal_strlit("split_remainder");
        reveal_strlit("mempool_standard_");
        reveal_strlit("mempool_split_header_");
        reveal_strlit("mempool_split_remainder_");
        let n = decimal(s.0 as nat);
        assert(mempool_text("standard"@, s) =~= "mempool_standard_"@ + n);
        assert(mempool_text("split_header"@, s) =~= "mempool_split_header_"@ + n);
        assert(mempool_text("split_remainder"@, s) =~= "mempool_split_remainder_"@ + n);
    }
}

/// Three pools for each socket.
proof fn lemma_pools_len(sockets: Seq<SocketId>)
    ensures
        pool_names_text(sockets).len() == 3 * sockets.len(),
    decreases sockets.len(),
{
    if sockets.len() > 0 {
        lemma_pools_len(sockets.drop_last());
    }
}

/// A monitor does what its configuration says: it stops after so many seconds, shows what is to be
/// shown, follows a meter exactly if its display is to show it, and writes a row every so many
/// milliseconds to a file of its own for each port.
pub proof fn law_monitor_does_what_is_configured(
    m: Monitor,
    config: OnlineConfig,
    ports: Vec<(PortId, Vec<RxQueue>)>,
    date: Seq<char>,
)
    requires
        m.is_made_for(config, ports, date),
    ensures
        config.duration is None <==> m.duration is None,
        config.duration matches Some(secs) ==> m.duration->0.nanos == 1_000_000_000 * secs,
        config.monitor is None ==> m.display is None && m.log is None,
        config.monitor matches Some(c) ==> {
            &&& c.display is None <==> m.display is None
            &&& c.log is None <==> m.log is None
            &&& c.display matches Some(d) ==> {
                &&& m.display->0.throughput == d.throughput
                &&& m.display->0.pcie == d.pcie
                &&& m.display->0.dram == d.dram
                &&& m.display->0.keywords == d.port_stats
                &&& m.wants_pcie == d.pcie
                &&& m.wants_dram == d.dram
            }
            &&& c.log matches Some(l) ==> {
                &&& m.log->0.interval.nanos == 1_000_000 * l.interval
                &&& m.log->0.directory == l.directory
                &&& m.log->0.keywords == l.port_stats
                &&& m.log->0.run@ == date
                &&& m.log->0.port_files@.len() == ports@.len()
                &&& forall|i: int|
                    0 <= i < ports@.len() ==> {
                        &&& (#[trigger] m.log->0.port_files@[i]).0 == ports@[i].0
                        &&& m.log->0.port_files@[i].1@ == "port"@ + decimal(ports@[i].0.0 as nat)
                            + ".csv"@
                    }
            }
        },
        m.display is None ==> !m.wants_pcie && !m.wants_dram,
        m.ports == ports,
        m.devices == config.devices,
{
}

/// A line on a meter names the meter, and the bytes read and written each where they belong; a meter
/// without a new sample shows no bytes.
pub proof fn law_meters_name_their_bytes(label: Seq<char>, r: u64, w: u64)
    ensures
        ({
            let fresh = MeterSample::Fresh { read_bytes: r, write_bytes: w };
            &&& dram_text(label, fresh) =~= "DRAM "@ + label + ": read "@ + decimal(r as nat)
                + " bytes / write "@ + decimal(w as nat) + " bytes"@
            &&& pcie_text(label, fresh) =~= "PCIe "@ + label + ": in-write "@ + decimal(w as nat)
                + " bytes / in-read "@ + decimal(r as nat) + " bytes"@
        }),
        dram_text(label, MeterSample::Stale) =~= "DRAM "@ + label + ": no new sample"@,
        pcie_text(label, MeterSample::Stale) =~= "PCIe "@ + label + ": no new sample"@,
        dram_text(label, MeterSample::Waiting) =~= "DRAM "@ + label + ": waiting for first sample"@,
        pcie_text(label, MeterSample::Waiting) =~= "PCIe "@ + label + ": waiting for first sample"@,
{
}

} // verus!
