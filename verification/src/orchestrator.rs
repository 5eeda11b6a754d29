//! A scan from its configuration to its result.
use crate::addr::IpAddr;
use crate::clock;
use crate::clock::{utc_now, Timestamp};
use crate::config;
use crate::config::{get_ports_for_scan, initial_cwnd, max_cwnd, ScanConfig, ServiceDatabase};
use crate::error::CoreError;
use crate::hosts::discovers_hosts;
use crate::models::{HostResult, HostStatus, PortResult, PortState, Protocol, ScanType, Target};
use crate::net::ProbePacer;
use crate::phase;
use crate::phase::{ScanPhase, ScanPipeline};
use crate::ports;
use crate::state::{HostState, PortScanState, ScanProgress, ScanState, ScanStats};
use vstd::prelude::*;

verus! {

/// What a scan works on.
#[derive(Debug)]
pub struct ScanSession {
    pub config: ScanConfig,
    pub targets: Vec<Target>,
    pub stats: ScanStats,
}

impl ScanSession {
    /// Creates a session that has counted nothing.
    #[must_use]
    pub fn new(config: ScanConfig, targets: Vec<Target>) -> (r: Self)
        ensures
            r.config == config,
            r.targets == targets,
            r.stats == (ScanStats {
                packets_sent: 0,
                packets_received: 0,
                open_ports: 0,
                hosts_completed: 0,
            }),
    {
        ScanSession { config, targets, stats: ScanStats::new() }
    }

    /// The number of targets.
    #[must_use]
    pub fn target_count(&self) -> (r: usize)
        ensures
            r == self.targets@.len(),
    {
        self.targets.len()
    }
}

/// What is to be done in a phase.
#[derive(Clone, Copy, Debug, PartialEq, Eq, Structural)]
pub enum PhaseAction {
    /// Nothing.
    Skip,
    /// Find out which hosts are up.
    DiscoverHosts,
    /// Find out by ARP which hosts of the local segment are up.
    PrefilterHosts,
    /// Scan the ports.
    ScanPorts,
    /// Scan the ports in two phases.
    ScanPortsInTwoPhases,
    /// Find out the services.
    DetectServices,
    /// Find out the operating systems.
    DetectOs,
    /// Run scripts.
    RunScripts,
    /// Find out the routes.
    TraceRoutes,
}

/// What is to be done in a phase that is enabled. Without host discovery, several
/// targets are still looked for by ARP; a single target is not looked for, unless
/// finding hosts is all that is asked for.
pub open spec fn phase_action(
    config: ScanConfig,
    target_count: nat,
    phase: ScanPhase,
) -> PhaseAction {
    match phase {
        ScanPhase::TargetParsing => PhaseAction::Skip,
        ScanPhase::HostDiscovery => if config.host_discovery {
            if target_count != 1 || config.no_port_scan {
                PhaseAction::DiscoverHosts
            } else {
                PhaseAction::Skip
            }
        } else if target_count > 1 {
            PhaseAction::PrefilterHosts
        } else {
            PhaseAction::Skip
        },
        ScanPhase::PortScanning => if config.two_phase_scan {
            PhaseAction::ScanPortsInTwoPhases
        } else {
            PhaseAction::ScanPorts
        },
        ScanPhase::ServiceDetection => PhaseAction::DetectServices,
        ScanPhase::OsDetection => PhaseAction::DetectOs,
        ScanPhase::NseExecution => PhaseAction::RunScripts,
        ScanPhase::Traceroute => PhaseAction::TraceRoutes,
        ScanPhase::ResultAggregation => PhaseAction::Skip,
    }
}

/// Numbers of a scan.
#[derive(Clone, Copy, Debug, PartialEq, Eq, Structural)]
pub struct ScanStatistics {
    pub total_hosts: usize,
    pub hosts_up: usize,
    pub hosts_down: usize,
    pub total_ports: u64,
    pub open_ports: u64,
    pub closed_ports: u64,
    pub filtered_ports: u64,
    pub bytes_sent: u64,
    pub bytes_received: u64,
    pub packets_sent: u64,
    pub packets_received: u64,
}

/// Circumstances of a scan.
#[derive(Debug)]
pub struct ScanMetadata {
    pub scanner_version: String,
    pub command_line: String,
    pub start_time: Timestamp,
    pub end_time: Timestamp,
    /// In nanoseconds.
    pub elapsed: u128,
    pub scan_type: ScanType,
    pub protocol: Protocol,
}

/// The result of a scan.
#[derive(Debug)]
pub struct ScanResult {
    pub metadata: ScanMetadata,
    pub hosts: Vec<HostResult>,
    pub statistics: ScanStatistics,
    pub errors: Vec<String>,
}

/// The number of hosts with a status.
pub open spec fn hosts_with(hosts: Seq<HostResult>, status: HostStatus) -> nat
    decreases hosts.len(),
{
    if hosts.len() == 0 {
        0
    } else {
        hosts_with(hosts.drop_last(), status) + if hosts.last().status == status {
            1nat
        } else {
            0nat
        }
    }
}

/// The number of ports with a state.
pub open spec fn ports_with(ports: Seq<PortResult>, state: PortState) -> nat
    decreases ports.len(),
{
    if ports.len() == 0 {
        0
    } else {
        ports_with(ports.drop_last(), state) + if ports.last().state == state {
            1nat
        } else {
            0nat
        }
    }
}

/// The number of ports of all hosts with a state.
pub open spec fn all_ports_with(hosts: Seq<HostResult>, state: PortState) -> nat
    decreases hosts.len(),
{
    if hosts.len() == 0 {
        0
    } else {
        all_ports_with(hosts.drop_last(), state) + ports_with(hosts.last().ports@, state)
    }
}

/// The number of ports of all hosts.
pub open spec fn all_ports(hosts: Seq<HostResult>) -> nat
    decreases hosts.len(),
{
    if hosts.len() == 0 {
        0
    } else {
        all_ports(hosts.drop_last()) + hosts.last().ports@.len()
    }
}

/// No port is counted with two states.
proof fn lemma_port_counts(ports: Seq<PortResult>)
    ensures
        ports_with(ports, PortState::Open) + ports_with(ports, PortState::Closed) + ports_with(
            ports,
            PortState::Filtered,
        ) <= ports.len(),
    decreases ports.len(),
{
    if ports.len() > 0 {
        lemma_port_counts(ports.drop_last());
    }
}

/// Open, closed and filtered ports are together not more than all ports, and hosts
/// that are up and down not more than all hosts.
pub proof fn counts_do_not_exceed_totals(hosts: Seq<HostResult>)
    ensures
        hosts_with(hosts, HostStatus::Up) + hosts_with(hosts, HostStatus::Down) <= hosts.len(),
        all_ports_with(hosts, PortState::Open) + all_ports_with(hosts, PortState::Closed)
            + all_ports_with(hosts, PortState::Filtered) <= all_ports(hosts),
    decreases hosts.len(),
{
    if hosts.len() > 0 {
        counts_do_not_exceed_totals(hosts.drop_last());
        lemma_port_counts(hosts.last().ports@);
    }
}

proof fn lemma_all_ports_take(hosts: Seq<HostResult>, n: int)
    requires
        0 <= n <= hosts.len(),
    ensures
        all_ports(hosts.take(n)) <= all_ports(hosts),
    decreases hosts.len() - n,
{
    if n < hosts.len() {
        lemma_all_ports_take(hosts, n + 1);
        assert(hosts.take(n + 1).drop_last() =~= hosts.take(n));
    } else {
        assert(hosts.take(n) =~= hosts);
    }
}

/// The statistics of these hosts and counters. The bytes are estimated at 64 for
/// each packet.
pub open spec fn statistics_of(hosts: Seq<HostResult>, stats: ScanStats) -> ScanStatistics {
    ScanStatistics {
        total_hosts: hosts.len() as usize,
        hosts_up: hosts_with(hosts, HostStatus::Up) as usize,
        hosts_down: hosts_with(hosts, HostStatus::Down) as usize,
        total_ports: all_ports(hosts) as u64,
        open_ports: all_ports_with(hosts, PortState::Open) as u64,
        closed_ports: all_ports_with(hosts, PortState::Closed) as u64,
        filtered_ports: all_ports_with(hosts, PortState::Filtered) as u64,
        bytes_sent: (stats.packets_sent * 64) as u64,
        bytes_received: (stats.packets_received * 64) as u64,
        packets_sent: stats.packets_sent,
        packets_received: stats.packets_received,
    }
}

fn count_ports(ports: &Vec<PortResult>) -> (r: (usize, usize, usize))
    ensures
        r.0 == ports_with(ports@, PortState::Open),
        r.1 == ports_with(ports@, PortState::Closed),
        r.2 == ports_with(ports@, PortState::Filtered),
{
    let mut open: usize = 0;
    let mut closed: usize = 0;
    let mut filtered: usize = 0;
    let mut i: usize = 0;
    while i < ports.len()
        invariant
            i <= ports.len(),
            open == ports_with(ports@.take(i as int), PortState::Open),
            closed == ports_with(ports@.take(i as int), PortState::Closed),
            filtered == ports_with(ports@.take(i as int), PortState::Filtered),
            open <= i,
            closed <= i,
            filtered <= i,
        decreases ports.len() - i,
    {
        proof {
            assert(ports@.take(i + 1).drop_last() =~= ports@.take(i as int));
        }
        match ports[i].state {
            PortState::Open => {
                open += 1;
            },
            PortState::Closed => {
                closed += 1;
            },
            PortState::Filtered => {
                filtered += 1;
            },
            _ => {},
        }
        i += 1;
    }
    proof {
        assert(ports@.take(i as int) =~= ports@);
    }
    (open, closed, filtered)
}

/// Computes the statistics of these hosts and counters.
#[must_use]
pub fn scan_statistics(hosts: &Vec<HostResult>, stats: &ScanStats) -> (r: ScanStatistics)
    requires
        all_ports(hosts@) <= u64::MAX,
        stats.packets_sent * 64 <= u64::MAX,
        stats.packets_received * 64 <= u64::MAX,
    ensures
        r == statistics_of(hosts@, *stats),
{
    let mut up: usize = 0;
    let mut down: usize = 0;
    let mut total: u64 = 0;
    let mut open: u64 = 0;
    let mut closed: u64 = 0;
    let mut filtered: u64 = 0;
    let mut i: usize = 0;
    while i < hosts.len()
        invariant
            i <= hosts.len(),
            all_ports(hosts@) <= u64::MAX,
            up == hosts_with(hosts@.take(i as int), HostStatus::Up),
            down == hosts_with(hosts@.take(i as int), HostStatus::Down),
            total == all_ports(hosts@.take(i as int)),
            open == all_ports_with(hosts@.take(i as int), PortState::Open),
            closed == all_ports_with(hosts@.take(i as int), PortState::Closed),
            filtered == all_ports_with(hosts@.take(i as int), PortState::Filtered),
            up <= i,
            down <= i,
        decreases hosts.len() - i,
    {
        let counts = count_ports(&hosts[i].ports);
        proof {
            assert(hosts@.take(i + 1).drop_last() =~= hosts@.take(i as int));
            lemma_all_ports_take(hosts@, i + 1);
            counts_do_not_exceed_totals(hosts@.take(i + 1));
        }
        match hosts[i].status {
            HostStatus::Up => {
                up += 1;
            },
            HostStatus::Down => {
                down += 1;
            },
            HostStatus::Unknown => {},
        }
        total += hosts[i].ports.len() as u64;
        open += counts.0 as u64;
        closed += counts.1 as u64;
        filtered += counts.2 as u64;
        i += 1;
    }
    proof {
        assert(hosts@.take(i as int) =~= hosts@);
    }
    ScanStatistics {
        total_hosts: hosts.len(),
        hosts_up: up,
        hosts_down: down,
        total_ports: total,
        open_ports: open,
        closed_ports: closed,
        filtered_ports: filtered,
        bytes_sent: stats.packets_sent * 64,
        bytes_received: stats.packets_received * 64,
        packets_sent: stats.packets_sent,
        packets_received: stats.packets_received,
    }
}

/// The protocol that a scan type is reported with.
pub open spec fn scan_protocol(t: ScanType) -> Protocol {
    match t {
        ScanType::Udp => Protocol::Udp,
        ScanType::SctpInit => Protocol::Sctp,
        _ => Protocol::Tcp,
    }
}

/// The version of the scanner.
pub const SCANNER_VERSION: &'static str = "0.1.0";

/// The result of a scan that took `elapsed` nanoseconds and was reported between
/// the two points in time.
pub open spec fn is_scan_result(
    r: ScanResult,
    config: ScanConfig,
    stats: ScanStats,
    hosts: Seq<HostResult>,
    elapsed: u128,
    now: Timestamp,
    end: Timestamp,
) -> bool {
    &&& r.hosts@ == hosts
    &&& r.statistics == statistics_of(hosts, stats)
    &&& r.errors@.len() == 0
    &&& r.metadata.scanner_version@ == SCANNER_VERSION@
    &&& r.metadata.command_line@ == Seq::<char>::empty()
    &&& r.metadata.elapsed == elapsed
    &&& r.metadata.scan_type == config.primary()
    &&& r.metadata.protocol == scan_protocol(config.primary())
    &&& clock::is_before(r.metadata.start_time, now, elapsed)
    &&& r.metadata.end_time == end
}

/// Builds the final scan result from what the clock showed.
#[must_use]
pub fn scan_result_at(
    config: &ScanConfig,
    stats: &ScanStats,
    hosts: Vec<HostResult>,
    elapsed: u128,
    now: Timestamp,
    end: Timestamp,
) -> (r: ScanResult)
    requires
        all_ports(hosts@) <= u64::MAX,
        stats.packets_sent * 64 <= u64::MAX,
        stats.packets_received * 64 <= u64::MAX,
        now.wf(),
        elapsed <= clock::LONGEST_STEP ==> now.total_nanos() - elapsed >= clock::EARLIEST
            * 1_000_000_000,
    ensures
        is_scan_result(r, *config, *stats, hosts@, elapsed, now, end),
{
    let statistics = scan_statistics(&hosts, stats);
    let scan_type = config.primary_scan_type();
    let protocol = match scan_type {
        ScanType::Udp => Protocol::Udp,
        ScanType::SctpInit => Protocol::Sctp,
        _ => Protocol::Tcp,
    };
    proof {
        reveal_strlit("");
    }
    let command_line = String::new();
    assert(command_line@ =~= Seq::<char>::empty());
    ScanResult {
        metadata: ScanMetadata {
            scanner_version: SCANNER_VERSION.to_string(),
            command_line,
            start_time: clock::before(now, elapsed),
            end_time: end,
            elapsed,
            scan_type,
            protocol,
        },
        hosts,
        statistics,
        errors: Vec::new(),
    }
}

/// Builds the final scan result.
#[must_use]
pub fn build_scan_result(
    config: &ScanConfig,
    stats: &ScanStats,
    hosts: Vec<HostResult>,
    elapsed: u128,
) -> (r: ScanResult)
    requires
        all_ports(hosts@) <= u64::MAX,
        stats.packets_sent * 64 <= u64::MAX,
        stats.packets_received * 64 <= u64::MAX,
        elapsed <= clock::LONGEST_STEP ==> elapsed <= -clock::EARLIEST * 1_000_000_000,
    ensures
        exists|now: Timestamp, end: Timestamp|
            now.wf() && now.secs >= 0 && end.wf() && end.secs >= 0 && #[trigger] is_scan_result(
                r,
                *config,
                *stats,
                hosts@,
                elapsed,
                now,
                end,
            ),
{
    let ghost held = hosts@;
    let now = utc_now();
    let end = utc_now();
    let r = scan_result_at(config, stats, hosts, elapsed, now, end);
    assert(is_scan_result(r, *config, *stats, held, elapsed, now, end));
    r
}

/// Nothing is known of any host or port, and nothing has been done.
pub open spec fn nothing_known(state: ScanState) -> bool {
    &&& state.hosts() == Map::<IpAddr, HostState>::empty()
    &&& state.ports() == Map::<(IpAddr, u16), PortScanState>::empty()
    &&& state.progressed() == (ScanProgress { completed: 0, total: 0 })
}

/// How far a scan has come in its phases.
#[verifier::ext_equal]
pub struct PhaseRun {
    pub phases: Seq<ScanPhase>,
    /// How many phases have been begun.
    pub begun: int,
    /// The phase that is being done, or was done last.
    pub at: ScanPhase,
    /// A phase has failed.
    pub failed: bool,
}

impl PhaseRun {
    /// Another phase is to be done.
    pub open spec fn goes_on(self) -> bool {
        !self.failed && self.begun < self.phases.len()
    }

    /// The scan after the next phase was begun, if there is one.
    pub open spec fn after_begin(self) -> PhaseRun {
        if self.goes_on() {
            PhaseRun { begun: self.begun + 1, at: self.phases[self.begun], ..self }
        } else {
            self
        }
    }

    /// The scan after the phase was done, well or not.
    pub open spec fn after_done(self, well: bool) -> PhaseRun {
        PhaseRun { failed: self.failed || !well, ..self }
    }

    /// The scan before its first phase is begun again.
    pub open spec fn after_restart(self) -> PhaseRun {
        PhaseRun { begun: 0, failed: false, ..self }
    }

    /// The scan after phase upon phase, each done well or not.
    pub open spec fn after_all(self, well: Seq<bool>) -> PhaseRun
        decreases well.len(),
    {
        if well.len() == 0 {
            self
        } else {
            let before = self.after_all(well.drop_last());
            if before.goes_on() {
                before.after_begin().after_done(well.last())
            } else {
                before
            }
        }
    }

    /// All phases have been done, and done well.
    pub open spec fn complete(self) -> bool {
        self.begun == self.phases.len() && !self.failed
    }
}

proof fn lemma_all_before(well: Seq<bool>, k: int)
    requires
        0 <= k == well.len() - 1,
        forall|i: int| 0 <= i < k ==> #[trigger] well[i],
    ensures
        forall|i: int| 0 <= i < well.drop_last().len() ==> #[trigger] well.drop_last()[i],
{
    assert forall|i: int| 0 <= i < k implies #[trigger] well.drop_last()[i] by {
        assert(well[i]);
    }
}

/// The phases are done once each, in their order: when as many have been done well as
/// there are, the scan is complete, and at no time before.
pub proof fn phases_are_done_in_order(m: PhaseRun, well: Seq<bool>)
    requires
        m.begun == 0,
        !m.failed,
        well.len() <= m.phases.len(),
        forall|i: int| 0 <= i < well.len() ==> #[trigger] well[i],
    ensures
        m.after_all(well).phases == m.phases,
        m.after_all(well).begun == well.len(),
        !m.after_all(well).failed,
        m.after_all(well).at == if well.len() == 0 {
            m.at
        } else {
            m.phases[well.len() - 1]
        },
        m.after_all(well).complete() <==> well.len() == m.phases.len(),
    decreases well.len(),
{
    if well.len() > 0 {
        lemma_all_before(well, well.len() - 1);
        phases_are_done_in_order(m, well.drop_last());
        assert(well[well.len() - 1]);
    }
}

/// A phase that fails ends the scan: the scan stays at this phase, no other phase is
/// begun, and the scan is never complete.
pub proof fn a_failed_phase_ends_the_scan(m: PhaseRun, well: Seq<bool>, k: int)
    requires
        m.begun == 0,
        !m.failed,
        0 <= k < well.len(),
        k < m.phases.len(),
        forall|i: int| 0 <= i < k ==> #[trigger] well[i],
        !well[k],
    ensures
        m.after_all(well).at == m.phases[k],
        m.after_all(well).begun == k + 1,
        m.after_all(well).failed,
        !m.after_all(well).goes_on(),
        !m.after_all(well).complete(),
    decreases well.len(),
{
    if k == well.len() - 1 {
        lemma_all_before(well, k);
        phases_are_done_in_order(m, well.drop_last());
    } else {
        assert(well.drop_last()[k] == well[k]);
        assert forall|i: int| 0 <= i < k implies #[trigger] well.drop_last()[i] by {
            assert(well[i]);
        }
        a_failed_phase_ends_the_scan(m, well.drop_last(), k);
    }
}

/// However a scan ended, it can be run again: it then goes through all its phases from
/// the first one on.
pub proof fn a_scan_can_be_run_again(m: PhaseRun, well: Seq<bool>)
    requires
        well.len() == m.phases.len(),
        forall|i: int| 0 <= i < well.len() ==> #[trigger] well[i],
    ensures
        m.phases.len() > 0 ==> m.after_restart().goes_on()
            && m.after_restart().after_begin().at == m.phases[0],
        m.after_restart().after_all(well).phases == m.phases,
        m.after_restart().after_all(well).complete(),
{
    phases_are_done_in_order(m.after_restart(), well);
}

/// A scan: its session, its phases and what is known so far.
#[derive(Debug)]
pub struct ScanOrchestrator {
    session: ScanSession,
    pipeline: ScanPipeline,
    state: ScanState,
    current_phase: ScanPhase,
    /// The place of the next phase.
    next_phase: usize,
    /// A phase has failed.
    failed: bool,
    pacer: ProbePacer,
    initial_window: u32,
    max_window: u32,
}

impl ScanOrchestrator {
    pub closed spec fn wf(&self) -> bool {
        self.pipeline.wf() && self.state.wf() && self.next_phase <= self.pipeline@.len()
    }

    pub closed spec fn session_view(&self) -> ScanSession {
        self.session
    }

    /// How far the scan has come in its phases.
    pub closed spec fn run_view(&self) -> PhaseRun {
        PhaseRun {
            phases: self.pipeline@,
            begun: self.next_phase as int,
            at: self.current_phase,
            failed: self.failed,
        }
    }

    pub open spec fn phases(&self) -> Seq<ScanPhase> {
        self.run_view().phases
    }

    /// The phase that is being done, or was done last.
    pub open spec fn at_phase(&self) -> ScanPhase {
        self.run_view().at
    }

    /// How many phases have been begun.
    pub open spec fn begun(&self) -> int {
        self.run_view().begun
    }

    /// A phase has failed.
    pub open spec fn has_failed(&self) -> bool {
        self.run_view().failed
    }

    pub closed spec fn state_view(&self) -> ScanState {
        self.state
    }

    /// The congestion windows: the initial and the largest one.
    pub closed spec fn windows(&self) -> (u32, u32) {
        (self.initial_window, self.max_window)
    }

    /// When the last probe was sent.
    pub closed spec fn last_probe(&self) -> Option<u128> {
        self.pacer.last_probe
    }

    /// Creates a new scan orchestrator with the given session.
    #[must_use]
    pub fn new(session: ScanSession) -> (r: Self)
        ensures
            r.wf(),
            r.session_view() == session,
            r.phases() == phase::configured_phases(session.config),
            nothing_known(r.state_view()),
            r.at_phase() == ScanPhase::TargetParsing,
            r.begun() == 0,
            !r.has_failed(),
            r.last_probe() is None,
            r.windows() == (
                config::initial_windows()[session.config.timing_template.level()],
                config::max_windows()[session.config.timing_template.level()],
            ),
    {
        let pipeline = ScanPipeline::from_config(&session.config);
        Self::with_pipeline(session, pipeline)
    }

    /// Creates a new orchestrator with a custom pipeline.
    #[must_use]
    pub fn with_pipeline(session: ScanSession, pipeline: ScanPipeline) -> (r: Self)
        requires
            pipeline.wf(),
        ensures
            r.wf(),
            r.session_view() == session,
            r.phases() == pipeline@,
            nothing_known(r.state_view()),
            r.at_phase() == ScanPhase::TargetParsing,
            r.begun() == 0,
            !r.has_failed(),
            r.last_probe() is None,
            r.windows() == (
                config::initial_windows()[session.config.timing_template.level()],
                config::max_windows()[session.config.timing_template.level()],
            ),
    {
        let template = session.config.timing_template;
        ScanOrchestrator {
            session,
            pipeline,
            state: ScanState::new(),
            current_phase: ScanPhase::TargetParsing,
            next_phase: 0,
            failed: false,
            pacer: ProbePacer::new(),
            initial_window: initial_cwnd(template),
            max_window: max_cwnd(template),
        }
    }

    /// Goes back to before the first phase, so that the scan can be run again. What is
    /// known and counted stays.
    pub fn restart(&mut self)
        requires
            old(self).wf(),
        ensures
            final(self).wf(),
            final(self).session_view() == old(self).session_view(),
            final(self).run_view() == old(self).run_view().after_restart(),
            final(self).state_view() == old(self).state_view(),
            final(self).last_probe() == old(self).last_probe(),
            final(self).windows() == old(self).windows(),
    {
        self.next_phase = 0;
        self.failed = false;
    }

    /// Begins the next phase and tells what is to be done in it; there is none when all
    /// are done or one has failed.
    pub fn begin_phase(&mut self) -> (r: Option<PhaseAction>)
        requires
            old(self).wf(),
        ensures
            final(self).wf(),
            final(self).session_view() == old(self).session_view(),
            final(self).run_view() == old(self).run_view().after_begin(),
            final(self).state_view() == old(self).state_view(),
            final(self).last_probe() == old(self).last_probe(),
            final(self).windows() == old(self).windows(),
            r == if old(self).run_view().goes_on() {
                Some(
                    phase_action(
                        old(self).session_view().config,
                        old(self).session_view().targets@.len(),
                        old(self).phases()[old(self).begun()],
                    ),
                )
            } else {
                None::<PhaseAction>
            },
    {
        let phases = self.pipeline.phases();
        if self.failed || self.next_phase >= phases.len() {
            return None;
        }
        let phase = phases[self.next_phase];
        self.next_phase = self.next_phase + 1;
        self.current_phase = phase;
        let count: usize = self.session.target_count();
        let config = &self.session.config;
        Some(
            match phase {
                ScanPhase::TargetParsing => PhaseAction::Skip,
                ScanPhase::HostDiscovery => if config.host_discovery {
                    if discovers_hosts(count, config.no_port_scan) {
                        PhaseAction::DiscoverHosts
                    } else {
                        PhaseAction::Skip
                    }
                } else if count > 1 {
                    PhaseAction::PrefilterHosts
                } else {
                    PhaseAction::Skip
                },
                ScanPhase::PortScanning => if config.two_phase_scan {
                    PhaseAction::ScanPortsInTwoPhases
                } else {
                    PhaseAction::ScanPorts
                },
                ScanPhase::ServiceDetection => PhaseAction::DetectServices,
                ScanPhase::OsDetection => PhaseAction::DetectOs,
                ScanPhase::NseExecution => PhaseAction::RunScripts,
                ScanPhase::Traceroute => PhaseAction::TraceRoutes,
                ScanPhase::ResultAggregation => PhaseAction::Skip,
            },
        )
    }

    /// Takes note of what became of the phase; one that failed ends the scan, with its
    /// error.
    pub fn phase_done(&mut self, outcome: Result<(), CoreError>) -> (r: Result<(), CoreError>)
        requires
            old(self).wf(),
        ensures
            r == outcome,
            final(self).wf(),
            final(self).session_view() == old(self).session_view(),
            final(self).run_view() == old(self).run_view().after_done(outcome is Ok),
            final(self).state_view() == old(self).state_view(),
            final(self).last_probe() == old(self).last_probe(),
            final(self).windows() == old(self).windows(),
    {
        if outcome.is_err() {
            self.failed = true;
        }
        outcome
    }

    /// Builds the result of the scan from the results for the hosts, when all phases
    /// have been done.
    #[must_use]
    pub fn finish(&self, hosts: Vec<HostResult>, elapsed: u128) -> (r: ScanResult)
        requires
            self.run_view().complete(),
            all_ports(hosts@) <= u64::MAX,
            self.session_view().stats.packets_sent * 64 <= u64::MAX,
            self.session_view().stats.packets_received * 64 <= u64::MAX,
            elapsed <= clock::LONGEST_STEP ==> elapsed <= -clock::EARLIEST * 1_000_000_000,
        ensures
            exists|now: Timestamp, end: Timestamp|
                now.wf() && now.secs >= 0 && end.wf() && end.secs >= 0 && #[trigger] is_scan_result(
                    r,
                    self.session_view().config,
                    self.session_view().stats,
                    hosts@,
                    elapsed,
                    now,
                    end,
                ),
    {
        build_scan_result(&self.session.config, &self.session.stats, hosts, elapsed)
    }

    /// Gets the list of ports to scan based on configuration.
    #[must_use]
    pub fn get_ports_for_scan(&self, db: &ServiceDatabase) -> (r: Vec<u16>)
        ensures
            r@ == config::scanned_ports(self.session_view().config, *db),
    {
        get_ports_for_scan(&self.session.config, db)
    }

    /// How long to wait before the next probe.
    #[must_use]
    pub fn enforce_scan_delay(&self, template_delay: u128, adaptive_delay: u128, now: u128) -> (r:
        Option<u128>)
        ensures
            match r {
                None => template_delay == 0 && adaptive_delay == 0,
                Some(wait) => (template_delay > 0 || adaptive_delay > 0) && wait
                    == crate::net::probe_wait(
                    self.last_probe(),
                    template_delay,
                    adaptive_delay,
                    now,
                ),
            },
    {
        self.pacer.enforce_scan_delay(template_delay, adaptive_delay, now)
    }

    /// Notes that a probe is sent at the time `now`.
    pub fn probe_sent(&mut self, now: u128)
        requires
            old(self).wf(),
        ensures
            final(self).wf(),
            final(self).last_probe() == Some(now),
            final(self).session_view() == old(self).session_view(),
            final(self).run_view() == old(self).run_view(),
            final(self).state_view() == old(self).state_view(),
            final(self).windows() == old(self).windows(),
    {
        self.pacer.probe_sent(now);
    }

    /// Returns the current scan phase.
    #[must_use]
    pub fn current_phase(&self) -> (r: ScanPhase)
        ensures
            r == self.at_phase(),
    {
        self.current_phase
    }

    /// Returns the scan progress.
    #[must_use]
    pub fn progress(&self) -> (r: ScanProgress)
        ensures
            r == self.state_view().progressed(),
    {
        *self.state.progress()
    }

    /// Returns a reference to the scan session.
    #[must_use]
    pub fn session(&self) -> (r: &ScanSession)
        ensures
            *r == self.session_view(),
    {
        &self.session
    }

    /// Returns the counters of the session, to count in.
    pub fn stats_mut(&mut self) -> (r: &mut ScanStats)
        requires
            old(self).wf(),
        ensures
            *r == old(self).session_view().stats,
            final(self).wf(),
            final(self).session_view() == (ScanSession {
                stats: *final(r),
                ..old(self).session_view()
            }),
            final(self).run_view() == old(self).run_view(),
            final(self).state_view() == old(self).state_view(),
            final(self).windows() == old(self).windows(),
            final(self).last_probe() == old(self).last_probe(),
    {
        &mut self.session.stats
    }

    /// Returns the scan state.
    #[must_use]
    pub fn state(&self) -> (r: &ScanState)
        requires
            self.wf(),
        ensures
            *r == self.state_view(),
            r.wf(),
    {
        &self.state
    }

    /// Takes out what is known of the hosts and ports; then nothing is known.
    #[must_use]
    pub fn take_state(&mut self) -> (r: ScanState)
        requires
            old(self).wf(),
        ensures
            r == old(self).state_view(),
            r.wf(),
            final(self).wf(),
            nothing_known(final(self).state_view()),
            final(self).session_view() == old(self).session_view(),
            final(self).run_view() == old(self).run_view(),
            final(self).windows() == old(self).windows(),
            final(self).last_probe() == old(self).last_probe(),
    {
        let mut state = ScanState::new();
        std::mem::swap(&mut state, &mut self.state);
        state
    }

    /// Replaces the scan state.
    pub fn set_state(&mut self, state: ScanState)
        requires
            old(self).wf(),
            state.wf(),
        ensures
            final(self).wf(),
            final(self).state_view() == state,
            final(self).session_view() == old(self).session_view(),
            final(self).run_view() == old(self).run_view(),
            final(self).windows() == old(self).windows(),
            final(self).last_probe() == old(self).last_probe(),
    {
        self.state = state;
    }

    /// Returns a reference to the scan pipeline.
    #[must_use]
    pub fn pipeline(&self) -> (r: &ScanPipeline)
        requires
            self.wf(),
        ensures
            r@ == self.phases(),
            r.wf(),
    {
        &self.pipeline
    }

    /// Returns the initial and the largest congestion window.
    #[must_use]
    pub fn congestion_windows(&self) -> (r: (u32, u32))
        ensures
            r == self.windows(),
    {
        (self.initial_window, self.max_window)
    }
}

/// The ports with a state are counted by this state alone, whatever their protocol and
/// number are: there are as many as are left when all others are taken away.
pub proof fn ports_are_counted_by_state(ports: Seq<PortResult>, state: PortState)
    ensures
        ports_with(ports, state) == ports.filter(|p: PortResult| p.state == state).len(),
    decreases ports.len(),
{
    reveal(Seq::filter);
    if ports.len() > 0 {
        ports_are_counted_by_state(ports.drop_last(), state);
    }
}

/// Every port is counted with exactly one of the seven states.
pub proof fn every_port_is_counted_once(ports: Seq<PortResult>)
    ensures
        ports_with(ports, PortState::Open) + ports_with(ports, PortState::Closed) + ports_with(
            ports,
            PortState::Filtered,
        ) + ports_with(ports, PortState::Unfiltered) + ports_with(ports, PortState::OpenOrFiltered)
            + ports_with(ports, PortState::ClosedOrFiltered) + ports_with(
            ports,
            PortState::OpenOrClosed,
        ) == ports.len(),
    decreases ports.len(),
{
    if ports.len() > 0 {
        every_port_is_counted_once(ports.drop_last());
    }
}

/// The ports of a result, each host's behind those of the host before.
pub open spec fn ports_of(hosts: Seq<HostResult>) -> Seq<PortResult>
    decreases hosts.len(),
{
    if hosts.len() == 0 {
        Seq::empty()
    } else {
        ports_of(hosts.drop_last()) + hosts.last().ports@
    }
}

proof fn lemma_filter_add<A>(a: Seq<A>, b: Seq<A>, keep: spec_fn(A) -> bool)
    ensures
        (a + b).filter(keep).len() == a.filter(keep).len() + b.filter(keep).len(),
    decreases b.len(),
{
    reveal(Seq::filter);
    if b.len() == 0 {
        assert(a + b =~= a);
    } else {
        lemma_filter_add(a, b.drop_last(), keep);
        assert((a + b).drop_last() =~= a + b.drop_last());
        assert((a + b).last() == b.last());
    }
}

/// The statistics are over all hosts and all their ports: as many hosts as there are, as
/// many of them up and down as have this status, as many ports as there are, and as many
/// of them open, closed and filtered as have this state. The packets are those that were
/// counted, at 64 bytes each.
pub proof fn statistics_count_all(hosts: Seq<HostResult>, stats: ScanStats)
    requires
        hosts.len() <= usize::MAX,
        ports_of(hosts).len() <= u64::MAX,
        stats.packets_sent * 64 <= u64::MAX,
        stats.packets_received * 64 <= u64::MAX,
    ensures
        ({
            let s = statistics_of(hosts, stats);
            let ports = ports_of(hosts);
            &&& s.total_hosts == hosts.len()
            &&& s.hosts_up == hosts.filter(|h: HostResult| h.status == HostStatus::Up).len()
            &&& s.hosts_down == hosts.filter(|h: HostResult| h.status == HostStatus::Down).len()
            &&& s.total_ports == ports.len()
            &&& s.open_ports == ports.filter(|p: PortResult| p.state == PortState::Open).len()
            &&& s.closed_ports == ports.filter(|p: PortResult| p.state == PortState::Closed).len()
            &&& s.filtered_ports == ports.filter(
                |p: PortResult| p.state == PortState::Filtered,
            ).len()
            &&& s.packets_sent == stats.packets_sent
            &&& s.packets_received == stats.packets_received
            &&& s.bytes_sent == 64 * stats.packets_sent
            &&& s.bytes_received == 64 * stats.packets_received
        }),
{
    lemma_hosts_with(hosts, HostStatus::Up);
    lemma_hosts_with(hosts, HostStatus::Down);
    lemma_all_ports(hosts);
    lemma_all_ports_with(hosts, PortState::Open);
    lemma_all_ports_with(hosts, PortState::Closed);
    lemma_all_ports_with(hosts, PortState::Filtered);
    counts_do_not_exceed_totals(hosts);
}

proof fn lemma_hosts_with(hosts: Seq<HostResult>, status: HostStatus)
    ensures
        hosts_with(hosts, status) == hosts.filter(|h: HostResult| h.status == status).len(),
    decreases hosts.len(),
{
    reveal(Seq::filter);
    if hosts.len() > 0 {
        lemma_hosts_with(hosts.drop_last(), status);
    }
}

proof fn lemma_all_ports(hosts: Seq<HostResult>)
    ensures
        all_ports(hosts) == ports_of(hosts).len(),
    decreases hosts.len(),
{
    if hosts.len() > 0 {
        lemma_all_ports(hosts.drop_last());
    }
}

proof fn lemma_all_ports_with(hosts: Seq<HostResult>, state: PortState)
    ensures
        all_ports_with(hosts, state) == ports_of(hosts).filter(
            |p: PortResult| p.state == state,
        ).len(),
    decreases hosts.len(),
{
    reveal(Seq::filter);
    if hosts.len() > 0 {
        let rest = hosts.drop_last();
        lemma_all_ports_with(rest, state);
        ports_are_counted_by_state(hosts.last().ports@, state);
        lemma_filter_add(
            ports_of(rest),
            hosts.last().ports@,
            |p: PortResult| p.state == state,
        );
    }
}

/// The result of a scan names the type that was asked for first, the protocol that
/// belongs to it, and holds all hosts and no error; a scan that took no longer than can
/// be reckoned with began as long before its report as it took.
pub proof fn results_hold_what_was_scanned(
    r: ScanResult,
    config: ScanConfig,
    stats: ScanStats,
    hosts: Seq<HostResult>,
    elapsed: u128,
    now: Timestamp,
    end: Timestamp,
)
    requires
        is_scan_result(r, config, stats, hosts, elapsed, now, end),
    ensures
        r.hosts@ == hosts,
        r.statistics == statistics_of(hosts, stats),
        r.errors@.len() == 0,
        config.scan_types@.len() > 0 ==> r.metadata.scan_type == config.scan_types@[0],
        config.scan_types@.len() == 0 ==> r.metadata.scan_type is TcpSyn,
        r.metadata.protocol == Protocol::Udp <==> r.metadata.scan_type is Udp,
        r.metadata.protocol == Protocol::Sctp <==> r.metadata.scan_type is SctpInit,
        r.metadata.scanner_version@ == "0.1.0"@,
        r.metadata.command_line@.len() == 0,
        r.metadata.elapsed == elapsed,
        r.metadata.end_time == end,
        elapsed <= clock::LONGEST_STEP ==> r.metadata.start_time.total_nanos() + elapsed
            == now.total_nanos(),
{
}

/// Each phase does its own work: ports are scanned in the phase for that and in no other,
/// and so are services, operating systems, scripts and routes; hosts are looked for in
/// the phase of host discovery.
pub proof fn phases_do_their_own_work(config: ScanConfig, n: nat, phase: ScanPhase)
    ensures
        ({
            let a = phase_action(config, n, phase);
            &&& a is ScanPorts <==> phase is PortScanning && !config.two_phase_scan
            &&& a is ScanPortsInTwoPhases <==> phase is PortScanning && config.two_phase_scan
            &&& a is DetectServices <==> phase is ServiceDetection
            &&& a is DetectOs <==> phase is OsDetection
            &&& a is RunScripts <==> phase is NseExecution
            &&& a is TraceRoutes <==> phase is Traceroute
            &&& a is DiscoverHosts <==> phase is HostDiscovery && config.host_discovery && (n != 1
                || config.no_port_scan)
            &&& a is PrefilterHosts <==> phase is HostDiscovery && !config.host_discovery && n >= 2
        }),
{
}

/// The protocol of a scan is the one that its probes are sent over.
pub proof fn scans_have_the_protocol_of_their_probes(t: ScanType)
    ensures
        scan_protocol(t) == Protocol::Udp <==> ports::scanner_for(t) == Some(ports::Scanner::Udp),
        scan_protocol(t) == Protocol::Sctp ==> ports::scanner_for(t) is None,
        scan_protocol(t) == Protocol::Tcp <== (ports::scanner_for(t) is Some && t !is Udp),
        scan_protocol(t) == Protocol::Sctp <==> t is SctpInit,
{
}

/// A failed phase is not forgotten, one that went well changes nothing, and it does not
/// matter in which order phases fail.
pub proof fn failures_are_kept(run: PhaseRun, first: bool, second: bool)
    ensures
        run.after_done(true) == run,
        run.after_done(false).failed,
        run.failed ==> run.after_done(first).failed,
        !run.failed ==> !run.after_done(true).failed,
        run.after_done(first).after_done(second) == run.after_done(second).after_done(first),
        run.after_done(first).begun == run.begun,
        run.after_done(first).phases == run.phases,
        run.after_done(first).at == run.at,
{
}

/// Where nothing is known, no host and no port has an entry and nothing is done.
pub proof fn nothing_is_known_of_any_host(state: ScanState, ip: IpAddr, port: u16)
    requires
        nothing_known(state),
    ensures
        !state.hosts().contains_key(ip),
        !state.ports().contains_key((ip, port)),
        state.progressed().completed == 0,
        state.progressed().total == 0,
{
}

/// A scan goes on with the next phase as long as none has failed and one is left, and
/// otherwise stays where it is.
pub proof fn scans_go_on_while_phases_are_left(run: PhaseRun)
    ensures
        run.failed ==> !run.goes_on() && run.after_begin() == run,
        run.begun >= run.phases.len() ==> !run.goes_on() && run.after_begin() == run,
        !run.failed && run.begun < run.phases.len() ==> run.goes_on() && run.after_begin().begun
            == run.begun + 1 && run.after_begin().at == run.phases[run.begun],
        run.after_begin().phases == run.phases,
        run.after_begin().failed == run.failed,
{
}

} // verus!
