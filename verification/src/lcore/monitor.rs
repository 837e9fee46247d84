//! The monitor: shows live statistics of the ports, and logs them.

use vstd::prelude::*;

use crate::lcore::logger::{mempool_name, mempool_text, port_file_name, port_file_text, texts};
use crate::lcore::port_stats::{minus, ports_ascend, AggRxStats};
use crate::lcore::SocketId;
use crate::port::{PortId, RxQueue};
use crate::text::{decimal, push_decimal};
use crate::time::{nanos_between, Duration, Instant};

verus! {

/// What the monitor shows.
#[derive(Debug)]
pub struct DisplayConfig {
    /// Whether to show throughput.
    pub throughput: bool,
    /// Whether to follow PCIe bandwidth.
    pub pcie: bool,
    /// Whether to follow DRAM bandwidth.
    pub dram: bool,
    /// Keywords of the port statistics to show.
    pub port_stats: Vec<String>,
}

/// What the monitor logs.
#[derive(Debug)]
pub struct LogConfig {
    /// Directory that gets a subdirectory for each run.
    pub directory: String,
    /// Keywords of the port statistics to log.
    pub port_stats: Vec<String>,
    /// Milliseconds between two rows.
    pub interval: u64,
}

/// What the monitor does.
#[derive(Debug)]
pub struct MonitorConfig {
    /// What it shows.
    pub display: Option<DisplayConfig>,
    /// What it logs.
    pub log: Option<LogConfig>,
}

/// The configuration of an online run, as far as the monitor needs it.
#[derive(Debug)]
pub struct OnlineConfig {
    /// Seconds after which the run stops.
    pub duration: Option<u64>,
    /// What the monitor does.
    pub monitor: Option<MonitorConfig>,
    /// PCI address of each port.
    pub devices: Vec<String>,
}

/// The display of the monitor.
#[derive(Debug)]
pub struct Display {
    /// Whether to show throughput.
    pub throughput: bool,
    /// Whether to follow PCIe bandwidth.
    pub pcie: bool,
    /// Whether to follow DRAM bandwidth.
    pub dram: bool,
    /// Keywords of the port statistics to show.
    pub keywords: Vec<String>,
}

/// The log of the monitor.
#[derive(Debug)]
pub struct LogPlan {
    /// Time between two rows.
    pub interval: Duration,
    /// Directory that holds those of all runs.
    pub directory: String,
    /// Directory of this run, in that directory.
    pub run: String,
    /// Name of the file of each port.
    pub port_files: Vec<(PortId, String)>,
    /// Keywords of the port statistics to log.
    pub keywords: Vec<String>,
}

/// A monitor.
#[derive(Debug)]
pub struct Monitor {
    /// Time after which the run stops.
    pub duration: Option<Duration>,
    /// Its display.
    pub display: Option<Display>,
    /// Its log.
    pub log: Option<LogPlan>,
    /// The ports and their queues.
    pub ports: Vec<(PortId, Vec<RxQueue>)>,
    /// PCI addresses that the meters follow.
    pub devices: Vec<String>,
    /// Whether PCIe bandwidth is to be followed.
    pub wants_pcie: bool,
    /// Whether DRAM bandwidth is to be followed.
    pub wants_dram: bool,
}

/// The display that a configuration asks for.
pub open spec fn display_of(config: OnlineConfig) -> Option<Display> {
    match config.monitor {
        Some(m) => match m.display {
            Some(d) => Some(
                Display {
                    throughput: d.throughput,
                    pcie: d.pcie,
                    dram: d.dram,
                    keywords: d.port_stats,
                },
            ),
            None => None,
        },
        None => None,
    }
}

/// The log configuration of a run, if it has one.
pub open spec fn log_of(config: OnlineConfig) -> Option<LogConfig> {
    match config.monitor {
        Some(m) => m.log,
        None => None,
    }
}

/// Whether a log is what a configuration asks for.
pub open spec fn is_plan(
    plan: LogPlan,
    config: LogConfig,
    ports: Seq<(PortId, Vec<RxQueue>)>,
    date: Seq<char>,
) -> bool {
    &&& plan.interval.nanos == config.interval * 1_000_000
    &&& plan.directory == config.directory
    &&& plan.run@ == date
    &&& plan.keywords == config.port_stats
    &&& plan.port_files@.len() == ports.len()
    &&& forall|i: int|
        0 <= i < ports.len() ==> (#[trigger] plan.port_files@[i]).0 == ports[i].0
            && plan.port_files@[i].1@ == port_file_text(ports[i].0)
}

/// Names of the files of some ports.
fn port_files(ports: &Vec<(PortId, Vec<RxQueue>)>) -> (r: Vec<(PortId, String)>)
    ensures
        r@.len() == ports@.len(),
        forall|i: int|
            0 <= i < ports@.len() ==> (#[trigger] r@[i]).0 == ports@[i].0 && r@[i].1@
                == port_file_text(ports@[i].0),
{
    let mut out: Vec<(PortId, String)> = Vec::new();
    let mut i: usize = 0;
    while i < ports.len()
        invariant
            i <= ports@.len(),
            out@.len() == i,
            forall|j: int|
                0 <= j < i ==> (#[trigger] out@[j]).0 == ports@[j].0 && out@[j].1@
                    == port_file_text(ports@[j].0),
        decreases ports@.len() - i,
    {
        let port: PortId = ports[i].0;
        out.push((port, port_file_name(port)));
        i = i + 1;
    }
    out
}

impl Monitor {
    /// What holds of every monitor: its ports ascend, and so do those of its log files.
    pub open spec fn wf(self) -> bool {
        &&& ports_ascend(self.ports@)
        &&& self.log matches Some(plan) ==> {
            &&& plan.port_files@.len() == self.ports@.len()
            &&& forall|i: int|
                0 <= i < self.ports@.len() ==> (#[trigger] plan.port_files@[i]).0
                    == self.ports@[i].0
        }
    }

    /// Whether this is the monitor that a configuration asks for, for a run that begins at `date`.
    pub open spec fn is_made_for(
        self,
        config: OnlineConfig,
        ports: Vec<(PortId, Vec<RxQueue>)>,
        date: Seq<char>,
    ) -> bool {
        &&& match config.duration {
            Some(secs) => self.duration matches Some(d) && d.nanos == secs * 1_000_000_000,
            None => self.duration is None,
        }
        &&& self.display == display_of(config)
        &&& match log_of(config) {
            Some(c) => self.log matches Some(plan) && is_plan(plan, c, ports@, date),
            None => self.log is None,
        }
        &&& self.ports == ports
        &&& self.devices == config.devices
        &&& self.wants_pcie == (display_of(config) matches Some(d) && d.pcie)
        &&& self.wants_dram == (display_of(config) matches Some(d) && d.dram)
    }

    /// A monitor for an online run that begins at `date`. The meters are optional and are gated by
    /// the display: without a display, neither is wanted.
    pub fn new(config: OnlineConfig, ports: Vec<(PortId, Vec<RxQueue>)>, date: String) -> (r: Self)
        requires
            ports_ascend(ports@),
        ensures
            r.wf(),
            r.is_made_for(config, ports, date@),
    {
        let duration: Option<Duration> = match config.duration {
            Some(secs) => Some(Duration::from_secs(secs)),
            None => None,
        };
        let (display, log): (Option<DisplayConfig>, Option<LogConfig>) = match config.monitor {
            Some(m) => (m.display, m.log),
            None => (None, None),
        };
        let wants_pcie: bool = match &display {
            Some(d) => d.pcie,
            None => false,
        };
        let wants_dram: bool = match &display {
            Some(d) => d.dram,
            None => false,
        };
        let shown: Option<Display> = match display {
            Some(d) => Some(
                Display {
                    throughput: d.throughput,
                    pcie: d.pcie,
                    dram: d.dram,
                    keywords: d.port_stats,
                },
            ),
            None => None,
        };
        let plan: Option<LogPlan> = match log {
            Some(c) => Some(
                LogPlan {
                    interval: Duration::from_millis(c.interval),
                    directory: c.directory,
                    run: date,
                    port_files: port_files(&ports),
                    keywords: c.port_stats,
                },
            ),
            None => None,
        };
        Monitor {
            duration,
            display: shown,
            log: plan,
            ports,
            devices: config.devices,
            wants_pcie,
            wants_dram,
        }
    }

    /// The run of the monitor, before anything was done.
    pub fn run(&self) -> (r: MonitorRun)
        ensures
            r == MonitorRun::start(
                self.duration,
                match self.display {
                    Some(d) => Some(d.throughput),
                    None => None,
                },
                self.log is Some,
            ),
    {
        let show: Option<bool> = match &self.display {
            Some(d) => Some(d.throughput),
            None => None,
        };
        let logs: bool = self.log.is_some();
        let unset: Instant = Instant { nanos: 0 };
        MonitorRun {
            duration: self.duration,
            show,
            logs,
            start_ts: unset,
            init_ts: unset,
            prev_ts: unset,
            init_rx: AggRxStats::new(),
            prev_rx: AggRxStats::new(),
            init: true,
            prev_tcp_bytes: 0,
            prev_udp_bytes: 0,
            phase: if logs {
                MonitorPhase::InitLog
            } else {
                MonitorPhase::Begin
            },
        }
    }
}

/// Where the run of a monitor stands.
#[derive(Clone, Copy, Debug, PartialEq, Eq, Structural)]
pub enum MonitorPhase {
    /// The headers of the log files are to be written.
    InitLog,
    /// The run begins when the clock is read.
    Begin,
    /// The workers are given a second to start polling.
    Settle,
    /// Between rounds.
    Check,
    /// The time is up: the workers are to be stopped.
    Stop,
    /// The next round of the display is waited for.
    DisplayTick,
    /// Statistics are to be collected.
    Collect,
    /// Rates and drops are to be shown: what was collected, the collection before, the time
    /// between the two, and the time since the run began.
    Rates { curr: AggRxStats, prev: AggRxStats, delta: Duration, elapsed: Duration },
    /// Transport totals are to be read, for a round that took so long.
    Transport { delta: Duration },
    /// TCP and UDP bytes of the round are to be shown.
    ShowTransport { tcp: u64, udp: u64, delta: Duration },
    /// PCIe and DRAM bandwidth are to be shown.
    Meters,
    /// The next row of the log is waited for.
    LogTick,
    /// A row is to be logged.
    Log,
    /// The workers are given a second to finish.
    Finish,
    /// The summary of the run is to be given.
    Summary,
    /// The monitor is done.
    Done,
}

/// What a monitor is to do next.
#[derive(Clone, Copy, Debug, PartialEq, Eq, Structural)]
pub enum MonitorAction {
    /// Write the headers of the log files.
    InitLog,
    /// Read the clock: the run begins now, and so do the rounds of the display and the log.
    Begin,
    /// Wait for a second.
    Sleep,
    /// Find out whether the workers are running, and what time it is.
    CheckRunning,
    /// Stop the workers.
    StopRunning,
    /// Wait for the next round of the display.
    WaitDisplay,
    /// Collect statistics.
    Collect,
    /// Show rates since the collection `prev`, drops since the first collection `init`, and the
    /// time since the run began.
    ShowRates {
        curr: AggRxStats,
        prev: AggRxStats,
        init: AggRxStats,
        delta: Duration,
        elapsed: Duration,
    },
    /// Read the transport totals.
    ReadTransport,
    /// Show TCP and UDP bytes of a round that took so long.
    ShowTransport { tcp: u64, udp: u64, delta: Duration },
    /// Show PCIe and DRAM bandwidth.
    ShowMeters,
    /// Wait for the next row of the log.
    WaitLog,
    /// Log a row, timed from `since`.
    LogStats { since: Instant },
    /// Give the summary of the run: the last and the first collection, and the time between them.
    Summarise { curr: AggRxStats, init: AggRxStats, elapsed: Duration },
    /// Nothing: the monitor is done.
    Finished,
}

/// What came of an action of a monitor.
#[derive(Clone, Copy, Debug, PartialEq, Eq, Structural)]
pub enum MonitorEvent {
    /// The action was carried out.
    Done,
    /// The run began, at this time.
    Began(Instant),
    /// Whether the workers are running, and what time it is.
    Running(bool, Instant),
    /// What was collected at a time, or none if the ports could not be read.
    Collected(Instant, Option<AggRxStats>),
    /// The transport totals: TCP and UDP bytes.
    Transport(u64, u64),
}

/// The run of a monitor.
#[derive(Clone, Copy, Debug, PartialEq, Eq, Structural)]
pub struct MonitorRun {
    /// Time after which the run stops.
    pub duration: Option<Duration>,
    /// Whether there is a display, and whether it shows throughput.
    pub show: Option<bool>,
    /// Whether there is a log.
    pub logs: bool,
    /// When the run began, once it did.
    pub start_ts: Instant,
    /// When statistics were first collected; when the run began until then.
    pub init_ts: Instant,
    /// When statistics were last collected.
    pub prev_ts: Instant,
    /// What was collected first.
    pub init_rx: AggRxStats,
    /// What was collected last.
    pub prev_rx: AggRxStats,
    /// Whether nothing was collected yet.
    pub init: bool,
    /// TCP bytes up to the last round.
    pub prev_tcp_bytes: u64,
    /// UDP bytes up to the last round.
    pub prev_udp_bytes: u64,
    /// What is to be done.
    pub phase: MonitorPhase,
}

impl MonitorRun {
    /// The run before anything was done.
    pub open spec fn start(
        duration: Option<Duration>,
        show: Option<bool>,
        logs: bool,
    ) -> MonitorRun {
        MonitorRun {
            duration,
            show,
            logs,
            start_ts: Instant { nanos: 0 },
            init_ts: Instant { nanos: 0 },
            prev_ts: Instant { nanos: 0 },
            init_rx: AggRxStats::zero(),
            prev_rx: AggRxStats::zero(),
            init: true,
            prev_tcp_bytes: 0,
            prev_udp_bytes: 0,
            phase: if logs {
                MonitorPhase::InitLog
            } else {
                MonitorPhase::Begin
            },
        }
    }

    /// What holds of every run: nothing was collected before it began.
    pub open spec fn wf(self) -> bool {
        self.phase is InitLog || self.phase is Begin ==> self.init
    }

    /// Whether the time is up.
    pub open spec fn time_is_up(self, now: Instant) -> bool {
        self.duration matches Some(d) && nanos_between(self.start_ts, now) >= d.nanos
    }

    /// The run as a round begins.
    pub open spec fn at_display(self) -> MonitorRun {
        if self.show is Some {
            MonitorRun { phase: MonitorPhase::DisplayTick, ..self }
        } else {
            self.at_log()
        }
    }

    /// The run when the display is done.
    pub open spec fn at_log(self) -> MonitorRun {
        MonitorRun {
            phase: if self.logs {
                MonitorPhase::LogTick
            } else {
                MonitorPhase::Check
            },
            ..self
        }
    }

    /// Statistics were collected.
    pub open spec fn collected(self, ts: Instant, curr: AggRxStats) -> MonitorRun {
        let s = MonitorRun {
            init_rx: if self.init {
                curr
            } else {
                self.init_rx
            },
            init_ts: if self.init {
                ts
            } else {
                self.init_ts
            },
            init: false,
            prev_rx: curr,
            prev_ts: ts,
            ..self
        };
        if self.show == Some(true) {
            MonitorRun {
                phase: MonitorPhase::Rates {
                    curr,
                    prev: self.prev_rx,
                    delta: Duration { nanos: nanos_between(self.prev_ts, ts) as u128 },
                    elapsed: Duration { nanos: nanos_between(self.start_ts, ts) as u128 },
                },
                ..s
            }
        } else {
            s.at_log()
        }
    }

    /// The run after an event. An event that does not answer the action that was asked for changes
    /// nothing.
    pub open spec fn after(self, ev: MonitorEvent) -> MonitorRun {
        match (self.phase, ev) {
            (MonitorPhase::InitLog, MonitorEvent::Done) => MonitorRun {
                phase: MonitorPhase::Begin,
                ..self
            },
            (MonitorPhase::Begin, MonitorEvent::Began(now)) => MonitorRun {
                start_ts: now,
                init_ts: now,
                prev_ts: now,
                phase: MonitorPhase::Settle,
                ..self
            },
            (MonitorPhase::Settle, MonitorEvent::Done) => MonitorRun {
                phase: MonitorPhase::Check,
                ..self
            },
            (MonitorPhase::Check, MonitorEvent::Running(running, now)) => if !running {
                MonitorRun { phase: MonitorPhase::Finish, ..self }
            } else if self.time_is_up(now) {
                MonitorRun { phase: MonitorPhase::Stop, ..self }
            } else {
                self.at_display()
            },
            (MonitorPhase::Stop, MonitorEvent::Done) => self.at_display(),
            (MonitorPhase::DisplayTick, MonitorEvent::Done) => MonitorRun {
                phase: MonitorPhase::Collect,
                ..self
            },
            (MonitorPhase::Collect, MonitorEvent::Collected(ts, Some(curr))) => self.collected(
                ts,
                curr,
            ),
            (MonitorPhase::Collect, MonitorEvent::Collected(ts, None)) => self.at_log(),
            (MonitorPhase::Rates { curr, prev, delta, elapsed }, MonitorEvent::Done) => MonitorRun {
                phase: MonitorPhase::Transport { delta },
                ..self
            },
            (MonitorPhase::Transport { delta }, MonitorEvent::Transport(tcp, udp)) => MonitorRun {
                prev_tcp_bytes: tcp,
                prev_udp_bytes: udp,
                phase: MonitorPhase::ShowTransport {
                    tcp: minus(tcp as int, self.prev_tcp_bytes as int) as u64,
                    udp: minus(udp as int, self.prev_udp_bytes as int) as u64,
                    delta,
                },
                ..self
            },
            (MonitorPhase::ShowTransport { tcp, udp, delta }, MonitorEvent::Done) => MonitorRun {
                phase: MonitorPhase::Meters,
                ..self
            },
            (MonitorPhase::Meters, MonitorEvent::Done) => self.at_log(),
            (MonitorPhase::LogTick, MonitorEvent::Done) => MonitorRun {
                phase: MonitorPhase::Log,
                ..self
            },
            (MonitorPhase::Log, MonitorEvent::Done) => MonitorRun {
                phase: MonitorPhase::Check,
                ..self
            },
            (MonitorPhase::Finish, MonitorEvent::Done) => MonitorRun {
                phase: MonitorPhase::Summary,
                ..self
            },
            (MonitorPhase::Summary, MonitorEvent::Done) => MonitorRun {
                phase: MonitorPhase::Done,
                ..self
            },
            _ => self,
        }
    }

    /// What is to be done next.
    pub open spec fn asks(self) -> MonitorAction {
        match self.phase {
            MonitorPhase::InitLog => MonitorAction::InitLog,
            MonitorPhase::Begin => MonitorAction::Begin,
            MonitorPhase::Settle => MonitorAction::Sleep,
            MonitorPhase::Check => MonitorAction::CheckRunning,
            MonitorPhase::Stop => MonitorAction::StopRunning,
            MonitorPhase::DisplayTick => MonitorAction::WaitDisplay,
            MonitorPhase::Collect => MonitorAction::Collect,
            MonitorPhase::Rates { curr, prev, delta, elapsed } => MonitorAction::ShowRates {
                curr,
                prev,
                init: self.init_rx,
                delta,
                elapsed,
            },
            MonitorPhase::Transport { delta } => MonitorAction::ReadTransport,
            MonitorPhase::ShowTransport { tcp, udp, delta } => MonitorAction::ShowTransport {
                tcp,
                udp,
                delta,
            },
            MonitorPhase::Meters => MonitorAction::ShowMeters,
            MonitorPhase::LogTick => MonitorAction::WaitLog,
            MonitorPhase::Log => MonitorAction::LogStats { since: self.init_ts },
            MonitorPhase::Finish => MonitorAction::Sleep,
            MonitorPhase::Summary => MonitorAction::Summarise {
                curr: self.prev_rx,
                init: self.init_rx,
                elapsed: Duration { nanos: nanos_between(self.init_ts, self.prev_ts) as u128 },
            },
            MonitorPhase::Done => MonitorAction::Finished,
        }
    }

    /// What is to be done next.
    pub fn next(&self) -> (r: MonitorAction)
        ensures
            r == self.asks(),
    {
        match self.phase {
            MonitorPhase::InitLog => MonitorAction::InitLog,
            MonitorPhase::Begin => MonitorAction::Begin,
            MonitorPhase::Settle => MonitorAction::Sleep,
            MonitorPhase::Check => MonitorAction::CheckRunning,
            MonitorPhase::Stop => MonitorAction::StopRunning,
            MonitorPhase::DisplayTick => MonitorAction::WaitDisplay,
            MonitorPhase::Collect => MonitorAction::Collect,
            MonitorPhase::Rates { curr, prev, delta, elapsed } => MonitorAction::ShowRates {
                curr,
                prev,
                init: self.init_rx,
                delta,
                elapsed,
            },
            MonitorPhase::Transport { delta } => MonitorAction::ReadTransport,
            MonitorPhase::ShowTransport { tcp, udp, delta } => MonitorAction::ShowTransport {
                tcp,
                udp,
                delta,
            },
            MonitorPhase::Meters => MonitorAction::ShowMeters,
            MonitorPhase::LogTick => MonitorAction::WaitLog,
            MonitorPhase::Log => MonitorAction::LogStats { since: self.init_ts },
            MonitorPhase::Finish => MonitorAction::Sleep,
            MonitorPhase::Summary => MonitorAction::Summarise {
                curr: self.prev_rx,
                init: self.init_rx,
                elapsed: self.prev_ts.since(self.init_ts),
            },
            MonitorPhase::Done => MonitorAction::Finished,
        }
    }

    /// Turns to the display, if there is one.
    fn to_display(&mut self)
        ensures
            *final(self) == old(self).at_display(),
    {
        if self.show.is_some() {
            self.phase = MonitorPhase::DisplayTick;
        } else {
            self.to_log();
        }
    }

    /// Turns to the log, if there is one.
    fn to_log(&mut self)
        ensures
            *final(self) == old(self).at_log(),
    {
        self.phase = if self.logs {
            MonitorPhase::LogTick
        } else {
            MonitorPhase::Check
        };
    }

    /// Takes note of a collection.
    fn collect(&mut self, ts: Instant, curr: AggRxStats)
        ensures
            *final(self) == old(self).collected(ts, curr),
    {
        let delta: Duration = ts.since(self.prev_ts);
        let elapsed: Duration = ts.since(self.start_ts);
        let prev: AggRxStats = self.prev_rx;
        if self.init {
            self.init_rx = curr;
            self.init_ts = ts;
            self.init = false;
        }
        self.prev_rx = curr;
        self.prev_ts = ts;
        match self.show {
            Some(true) => {
                self.phase = MonitorPhase::Rates { curr, prev, delta, elapsed };
            },
            _ => self.to_log(),
        }
    }

    /// Takes note of what came of the action.
    pub fn step(&mut self, ev: MonitorEvent)
        ensures
            *final(self) == old(self).after(ev),
    {
        match (self.phase, ev) {
            (MonitorPhase::InitLog, MonitorEvent::Done) => {
                self.phase = MonitorPhase::Begin;
            },
            (MonitorPhase::Begin, MonitorEvent::Began(now)) => {
                self.start_ts = now;
                self.init_ts = now;
                self.prev_ts = now;
                self.phase = MonitorPhase::Settle;
            },
            (MonitorPhase::Settle, MonitorEvent::Done) => {
                self.phase = MonitorPhase::Check;
            },
            (MonitorPhase::Check, MonitorEvent::Running(running, now)) => {
                let up: bool = match self.duration {
                    Some(d) => now.since(self.start_ts).nanos >= d.nanos,
                    None => false,
                };
                if !running {
                    self.phase = MonitorPhase::Finish;
                } else if up {
                    self.phase = MonitorPhase::Stop;
                } else {
                    self.to_display();
                }
            },
            (MonitorPhase::Stop, MonitorEvent::Done) => self.to_display(),
            (MonitorPhase::DisplayTick, MonitorEvent::Done) => {
                self.phase = MonitorPhase::Collect;
            },
            (MonitorPhase::Collect, MonitorEvent::Collected(ts, rx)) => match rx {
                Some(curr) => self.collect(ts, curr),
                None => self.to_log(),
            },
            (MonitorPhase::Rates { curr, prev, delta, elapsed }, MonitorEvent::Done) => {
                self.phase = MonitorPhase::Transport { delta };
            },
            (MonitorPhase::Transport { delta }, MonitorEvent::Transport(tcp, udp)) => {
                let d_tcp: u64 = tcp.saturating_sub(self.prev_tcp_bytes);
                let d_udp: u64 = udp.saturating_sub(self.prev_udp_bytes);
                self.prev_tcp_bytes = tcp;
                self.prev_udp_bytes = udp;
                self.phase = MonitorPhase::ShowTransport { tcp: d_tcp, udp: d_udp, delta };
            },
            (MonitorPhase::ShowTransport { tcp, udp, delta }, MonitorEvent::Done) => {
                self.phase = MonitorPhase::Meters;
            },
            (MonitorPhase::Meters, MonitorEvent::Done) => self.to_log(),
            (MonitorPhase::LogTick, MonitorEvent::Done) => {
                self.phase = MonitorPhase::Log;
            },
            (MonitorPhase::Log, MonitorEvent::Done) => {
                self.phase = MonitorPhase::Check;
            },
            (MonitorPhase::Finish, MonitorEvent::Done) => {
                self.phase = MonitorPhase::Summary;
            },
            (MonitorPhase::Summary, MonitorEvent::Done) => {
                self.phase = MonitorPhase::Done;
            },
            _ => {},
        }
    }
}

/// The first collection is the baseline of the run: later collections leave it as it is, and each
/// becomes the one before of the next.
pub proof fn law_first_collection_is_the_baseline(s: MonitorRun, ev: MonitorEvent)
    requires
        s.wf(),
    ensures
        s.after(ev).wf(),
        !s.init ==> s.after(ev).init_rx == s.init_rx && s.after(ev).init_ts == s.init_ts
            && !s.after(ev).init,
        s.phase is Collect && ev is Collected && ev->Collected_1 is Some ==> {
            let curr = ev->Collected_1->Some_0;
            let next = s.after(ev);
            &&& next.prev_rx == curr
            &&& next.prev_ts == ev->Collected_0
            &&& s.init ==> next.init_rx == curr && next.init_ts == ev->Collected_0
        },
{
}

/// A collection that fails leaves every record as it is: the next one covers the longer time.
pub proof fn law_failed_collection_is_skipped(s: MonitorRun, ts: Instant)
    requires
        s.phase is Collect,
    ensures
        ({
            let next = s.after(MonitorEvent::Collected(ts, None));
            next == (MonitorRun { phase: next.phase, ..s })
        }),
{
}

/// When the time is up the workers are stopped, and the round that is due is still carried out.
pub proof fn law_time_up_stops_the_workers(s: MonitorRun, now: Instant)
    requires
        s.phase is Check,
    ensures
        s.after(MonitorEvent::Running(true, now)).asks() == MonitorAction::StopRunning
            <==> s.time_is_up(now),
        s.time_is_up(now) ==> s.after(MonitorEvent::Running(true, now)).after(MonitorEvent::Done)
            == s.at_display(),
        s.after(MonitorEvent::Running(false, now)).asks() == MonitorAction::Sleep,
{
}

/// Seconds in a day.
pub const DAY: u128 = 86_400;

/// Seconds in an hour.
pub const HOUR: u128 = 3_600;

/// A time of so many seconds, from its largest unit that is not zero down to seconds.
pub open spec fn duration_text(secs: nat) -> Seq<char> {
    let d = secs / 86_400;
    let h = (secs % 86_400) / 3_600;
    let m = (secs % 3_600) / 60;
    let s = decimal(secs % 60) + "s"@;
    let ms = decimal(m) + "m "@ + s;
    let hms = decimal(h) + "h "@ + ms;
    if d > 0 {
        decimal(d) + "d "@ + hms
    } else if h > 0 {
        hms
    } else if m > 0 {
        ms
    } else {
        s
    }
}

/// A span of time in days, hours, minutes and seconds.
pub fn pretty_print_duration(duration: &Duration) -> (r: String)
    ensures
        r@ == duration_text((duration.nanos as int / 1_000_000_000) as nat),
{
    let total: u128 = duration.as_secs();
    let days: u128 = total / DAY;
    let hours: u128 = (total % DAY) / HOUR;
    let minutes: u128 = (total % HOUR) / 60;
    let seconds: u128 = total % 60;
    let mut out: String = String::new();
    if days > 0 {
        push_decimal(&mut out, days);
        out.append("d ");
    }
    if days > 0 || hours > 0 {
        push_decimal(&mut out, hours);
        out.append("h ");
    }
    if days > 0 || hours > 0 || minutes > 0 {
        push_decimal(&mut out, minutes);
        out.append("m ");
    }
    push_decimal(&mut out, seconds);
    out.append("s");
    assert(out@ =~= duration_text(total as nat));
    out
}

/// The run begins when the clock is read after the headers of the log files, if there are any, were
/// written: that time is the start of the run, and no later event changes it.
pub proof fn law_run_begins_after_the_headers(
    duration: Option<Duration>,
    show: Option<bool>,
    logs: bool,
    now: Instant,
    ev: MonitorEvent,
    s: MonitorRun,
)
    ensures
        ({
            let fresh = MonitorRun::start(duration, show, logs);
            let ready = if logs {
                fresh.after(MonitorEvent::Done)
            } else {
                fresh
            };
            let begun = ready.after(MonitorEvent::Began(now));
            &&& fresh.wf()
            &&& logs ==> fresh.asks() == MonitorAction::InitLog
            &&& ready.asks() == MonitorAction::Begin
            &&& begun.start_ts == now && begun.init_ts == now && begun.prev_ts == now
            &&& begun.asks() == MonitorAction::Sleep
        }),
        !(s.phase is InitLog) && !(s.phase is Begin) ==> {
            &&& s.after(ev).start_ts == s.start_ts
            &&& !(s.after(ev).phase is InitLog)
            &&& !(s.after(ev).phase is Begin)
        },
{
}

/// The parts of a time that is shown add up to it, and each is below the next larger unit.
#[verifier::spinoff_prover]
pub proof fn law_parts_of_a_duration(secs: nat)
    ensures
        secs == (secs / 86_400) * 86_400 + ((secs % 86_400) / 3_600) * 3_600 + ((secs % 3_600) / 60)
            * 60 + secs % 60,
        (secs % 86_400) / 3_600 < 24,
        (secs % 3_600) / 60 < 60,
        secs % 60 < 60,
{
    let d = secs / 86_400;
    let of_day = secs % 86_400;
    let h = of_day / 3_600;
    let of_hour = of_day % 3_600;
    let m = of_hour / 60;
    let s = of_hour % 60;
    assert(secs == d * 86_400 + of_day);
    assert(of_day == h * 3_600 + of_hour && h < 24);
    assert(of_hour == m * 60 + s && m < 60 && s < 60);
    lemma_remainder(secs, 3_600, d * 24 + h, of_hour);
    lemma_remainder(secs, 60, d * 1_440 + h * 60 + m, s);
}

/// What is left of a number below a divisor, apart from multiples of the divisor, is its remainder.
proof fn lemma_remainder(n: nat, divisor: nat, q: nat, r: nat)
    requires
        n == q * divisor + r,
        r < divisor,
    ensures
        n % divisor == r,
{
    vstd::arithmetic::div_mod::lemma_fundamental_div_mod_converse(
        n as int,
        divisor as int,
        q as int,
        r as int,
    );
}

/// The latest sample of a bandwidth meter.
#[derive(Clone, Copy, Debug, PartialEq, Eq, Structural)]
pub enum MeterSample {
    /// Bytes read and written in the sampled second.
    Fresh { read_bytes: u64, write_bytes: u64 },
    /// No sample since the last round.
    Stale,
    /// No sample at all yet.
    Waiting,
}

impl MeterSample {
    /// The sample of a meter, given the bytes read and written since the last round, if there was a
    /// sample, and whether there ever was one.
    pub fn of(sample: Option<(u64, u64)>, started: bool) -> (r: Self)
        ensures
            r == match sample {
                Some((read_bytes, write_bytes)) => MeterSample::Fresh { read_bytes, write_bytes },
                None => if started {
                    MeterSample::Stale
                } else {
                    MeterSample::Waiting
                },
            },
    {
        match sample {
            Some((read_bytes, write_bytes)) => MeterSample::Fresh { read_bytes, write_bytes },
            None => if started {
                MeterSample::Stale
            } else {
                MeterSample::Waiting
            },
        }
    }
}

/// A line on the DRAM bandwidth of a socket. A sample that was shown before is not shown again.
pub open spec fn dram_text(label: Seq<char>, sample: MeterSample) -> Seq<char> {
    match sample {
        MeterSample::Fresh { read_bytes, write_bytes } => "DRAM "@ + label + ": read "@ + decimal(
            read_bytes as nat,
        ) + " bytes / write "@ + decimal(write_bytes as nat) + " bytes"@,
        MeterSample::Stale => "DRAM "@ + label + ": no new sample"@,
        MeterSample::Waiting => "DRAM "@ + label + ": waiting for first sample"@,
    }
}

/// A line on the DRAM bandwidth of a socket.
pub fn display_dram(label: &str, sample: &MeterSample) -> (r: String)
    ensures
        r@ == dram_text(label@, *sample),
{
    let mut out: String = String::new();
    out.append("DRAM ");
    out.append(label);
    match *sample {
        MeterSample::Fresh { read_bytes, write_bytes } => {
            out.append(": read ");
            push_decimal(&mut out, read_bytes as u128);
            out.append(" bytes / write ");
            push_decimal(&mut out, write_bytes as u128);
            out.append(" bytes");
        },
        MeterSample::Stale => out.append(": no new sample"),
        MeterSample::Waiting => out.append(": waiting for first sample"),
    }
    assert(out@ =~= dram_text(label@, *sample));
    out
}

/// A line on the inbound PCIe bandwidth of a root port. A sample that was shown before is not shown
/// again.
pub open spec fn pcie_text(label: Seq<char>, sample: MeterSample) -> Seq<char> {
    match sample {
        MeterSample::Fresh { read_bytes, write_bytes } => "PCIe "@ + label + ": in-write "@
            + decimal(write_bytes as nat) + " bytes / in-read "@ + decimal(read_bytes as nat)
            + " bytes"@,
        MeterSample::Stale => "PCIe "@ + label + ": no new sample"@,
        MeterSample::Waiting => "PCIe "@ + label + ": waiting for first sample"@,
    }
}

/// A line on the inbound PCIe bandwidth of a root port.
pub fn display_pcie(label: &str, sample: &MeterSample) -> (r: String)
    ensures
        r@ == pcie_text(label@, *sample),
{
    let mut out: String = String::new();
    out.append("PCIe ");
    out.append(label);
    match *sample {
        MeterSample::Fresh { read_bytes, write_bytes } => {
            out.append(": in-write ");
            push_decimal(&mut out, write_bytes as u128);
            out.append(" bytes / in-read ");
            push_decimal(&mut out, read_bytes as u128);
            out.append(" bytes");
        },
        MeterSample::Stale => out.append(": no new sample"),
        MeterSample::Waiting => out.append(": waiting for first sample"),
    }
    assert(out@ =~= pcie_text(label@, *sample));
    out
}

/// The sum of the first of some pairs, and that of the second.
pub open spec fn pair_sums(pairs: Seq<(u64, u64)>) -> (int, int)
    decreases pairs.len(),
{
    if pairs.len() == 0 {
        (0, 0)
    } else {
        let (a, b) = pair_sums(pairs.drop_last());
        (a + pairs.last().0, b + pairs.last().1)
    }
}

/// More pairs have no smaller sums.
proof fn lemma_pair_sums(pairs: Seq<(u64, u64)>, n: int)
    requires
        0 <= n <= pairs.len(),
    ensures
        0 <= pair_sums(pairs.take(n)).0 <= pair_sums(pairs).0,
        0 <= pair_sums(pairs.take(n)).1 <= pair_sums(pairs).1,
    decreases pairs.len(),
{
    if n == pairs.len() {
        assert(pairs.take(n) =~= pairs);
        if pairs.len() > 0 {
            lemma_pair_sums(pairs.drop_last(), pairs.len() - 1);
            assert(pairs.drop_last().take(pairs.len() - 1) =~= pairs.drop_last());
        }
    } else {
        lemma_pair_sums(pairs.drop_last(), n);
        assert(pairs.drop_last().take(n) =~= pairs.take(n));
    }
}

/// Bytes read, bytes written, and both together, over all sockets that a meter follows, given the
/// totals of each socket. Returns `None` if they are not 64-bit numbers.
pub fn dram_totals(sockets: &Vec<(u64, u64)>) -> (r: Option<(u64, u64, u64)>)
    ensures
        match r {
            Some((read, write, both)) => {
                &&& (read as int, write as int) == pair_sums(sockets@)
                &&& both == read + write
            },
            None => pair_sums(sockets@).0 + pair_sums(sockets@).1 > u64::MAX,
        },
{
    let mut read: u64 = 0;
    let mut write: u64 = 0;
    let mut i: usize = 0;
    while i < sockets.len()
        invariant
            i <= sockets@.len(),
            (read as int, write as int) == pair_sums(sockets@.take(i as int)),
        decreases sockets@.len() - i,
    {
        proof {
            assert(sockets@.take(i + 1).drop_last() =~= sockets@.take(i as int));
            lemma_pair_sums(sockets@, i + 1);
        }
        let (r, w): (u64, u64) = sockets[i];
        match (read.checked_add(r), write.checked_add(w)) {
            (Some(rs), Some(ws)) => {
                read = rs;
                write = ws;
            },
            _ => {
                return None;
            },
        }
        i = i + 1;
    }
    assert(sockets@.take(i as int) =~= sockets@);
    let both: u64 = read.checked_add(write)?;
    Some((read, write, both))
}

/// Whether a list holds exactly the sockets of another, each once and in ascending order.
pub open spec fn is_ascending_set(out: Seq<SocketId>, all: Seq<SocketId>) -> bool {
    &&& forall|i: int, j: int| 0 <= i < j < out.len() ==> (#[trigger] out[i]).0 < (
    #[trigger] out[j]).0
    &&& forall|s: SocketId| #[trigger] out.contains(s) <==> all.contains(s)
}

/// Puts a socket into an ascending list, unless it is there already.
fn insert_socket(out: &mut Vec<SocketId>, s: SocketId)
    requires
        forall|i: int, j: int|
            0 <= i < j < old(out)@.len() ==> (#[trigger] old(out)@[i]).0 < (
            #[trigger] old(out)@[j]).0,
    ensures
        forall|i: int, j: int|
            0 <= i < j < final(out)@.len() ==> (#[trigger] final(out)@[i]).0 < (
            #[trigger] final(out)@[j]).0,
        forall|t: SocketId| #[trigger]
            final(out)@.contains(t) <==> old(out)@.contains(t) || t == s,
{
    let mut i: usize = 0;
    while i < out.len() && out[i].0 < s.0
        invariant
            i <= out@.len(),
            out@ == old(out)@,
            forall|j: int| 0 <= j < i ==> (#[trigger] out@[j]).0 < s.0,
        decreases out@.len() - i,
    {
        i = i + 1;
    }
    if i < out.len() && out[i].0 == s.0 {
        assert(out@[i as int] == s);
        return ;
    }
    out.insert(i, s);
    proof {
        let before = old(out)@;
        let after = out@;
        assert(after[i as int] == s);
        assert forall|t: SocketId| #[trigger] after.contains(t) <==> before.contains(t) || t == s by {
            if before.contains(t) {
                let k = choose|k: int| 0 <= k < before.len() && before[k] == t;
                if k < i {
                    assert(after[k] == t);
                } else {
                    assert(after[k + 1] == t);
                }
            }
            if after.contains(t) && t != s {
                let k = choose|k: int| 0 <= k < after.len() && after[k] == t;
                if k < i {
                    assert(before[k] == t);
                } else {
                    assert(before[k - 1] == t);
                }
            }
        }
    }
}

/// The sockets of a list, each once and in ascending order.
pub fn distinct_sockets(all: &Vec<SocketId>) -> (r: Vec<SocketId>)
    ensures
        is_ascending_set(r@, all@),
{
    let mut out: Vec<SocketId> = Vec::new();
    let mut i: usize = 0;
    while i < all.len()
        invariant
            i <= all@.len(),
            is_ascending_set(out@, all@.take(i as int)),
        decreases all@.len() - i,
    {
        let ghost upto = all@.take(i as int);
        insert_socket(&mut out, all[i]);
        proof {
            let more = all@.take(i + 1);
            assert(more =~= upto.push(all@[i as int]));
            assert forall|t: SocketId| #[trigger] more.contains(t) <==> upto.contains(t) || t
                == all@[i as int] by {
                if upto.contains(t) {
                    let k = choose|k: int| 0 <= k < upto.len() && upto[k] == t;
                    assert(more[k] == t);
                }
                assert(more[i as int] == all@[i as int]);
            }
        }
        i = i + 1;
    }
    assert(all@.take(i as int) =~= all@);
    out
}

/// Names of the packet pools of some sockets: three pools for each.
pub open spec fn pool_names_text(sockets: Seq<SocketId>) -> Seq<Seq<char>>
    decreases sockets.len(),
{
    if sockets.len() == 0 {
        Seq::empty()
    } else {
        let s = sockets.last();
        pool_names_text(sockets.drop_last()) + seq![
            mempool_text("standard"@, s),
            mempool_text("split_header"@, s),
            mempool_text("split_remainder"@, s),
        ]
    }
}

/// Names of the packet pools of some sockets. The pools for split packets need not exist.
pub fn pool_names(sockets: &Vec<SocketId>) -> (r: Vec<String>)
    ensures
        texts(r@) == pool_names_text(sockets@),
{
    let mut out: Vec<String> = Vec::new();
    let mut i: usize = 0;
    assert(texts(out@) =~= pool_names_text(sockets@.take(0)));
    while i < sockets.len()
        invariant
            i <= sockets@.len(),
            texts(out@) == pool_names_text(sockets@.take(i as int)),
        decreases sockets@.len() - i,
    {
        let s: SocketId = sockets[i];
        let ghost before = texts(out@);
        out.push(mempool_name("standard", s));
        out.push(mempool_name("split_header", s));
        out.push(mempool_name("split_remainder", s));
        proof {
            assert(sockets@.take(i + 1).drop_last() =~= sockets@.take(i as int));
            assert(texts(out@) =~= before + seq![
                mempool_text("standard"@, s),
                mempool_text("split_header"@, s),
                mempool_text("split_remainder"@, s),
            ]);
        }
        i = i + 1;
    }
    assert(sockets@.take(i as int) =~= sockets@);
    out
}

} // verus!
