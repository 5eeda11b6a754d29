//! Phases, configuration, state and results of a scan.
use rustnmap::addr::{IpAddr, Ipv4Addr, Ipv6Addr};
use rustnmap::clock::{before, Timestamp, LONGEST_STEP};
use rustnmap::config::{
    arp_batch_config, clamped_rtt, get_ports_for_scan, initial_cwnd, max_cwnd, ping_config,
    scanner_config, PortSpec, ScanConfig, ServiceDatabase, ServiceEntry, ServiceProtocol,
    TimingConfig, TimingTemplate,
};
use rustnmap::error::CoreError;
use rustnmap::models::{
    host_result, port_result, HostResult, HostStatus, PortState, Protocol, ScanType, Target,
};
use rustnmap::orchestrator::{
    build_scan_result, scan_result_at, scan_statistics, PhaseAction, ScanOrchestrator, ScanSession,
    SCANNER_VERSION,
};
use rustnmap::phase::{ScanPhase, ScanPipeline};
use rustnmap::state::{HostState, PortScanState, ScanProgress, ScanState, ScanStats};

fn target(a: u8, b: u8, c: u8, d: u8) -> Target {
    Target { ip: IpAddr::V4(Ipv4Addr::new(a, b, c, d)), hostname: None }
}

fn create_test_session() -> ScanSession {
    let targets = vec![target(192, 168, 1, 1), target(192, 168, 1, 2)];
    ScanSession::new(ScanConfig::default(), targets)
}

fn database() -> ServiceDatabase {
    ServiceDatabase {
        services: vec![
            ServiceEntry { port: 80, protocol: ServiceProtocol::Tcp, name: "http".to_string() },
            ServiceEntry { port: 53, protocol: ServiceProtocol::Udp, name: "domain".to_string() },
        ],
        tcp_by_frequency: vec![80, 23, 443, 21, 22],
        udp_by_frequency: vec![631, 161, 137],
    }
}

fn timing() -> TimingConfig {
    TimingConfig {
        min_rtt: 100,
        max_rtt: 1000,
        initial_rtt: 500,
        max_retries: 4,
        scan_delay: 7,
        timing_level: 3,
    }
}

fn with_states(status: HostStatus, states: &[PortState]) -> HostResult {
    let mut ports = Vec::new();
    for (i, state) in states.iter().enumerate() {
        ports.push(port_result(i as u16 + 1, Protocol::Tcp, *state, "scan", None));
    }
    let mut host = host_result(&target(10, 0, 0, 1), None, "syn-ack", 0, ports, None);
    host.status = status;
    host
}

#[test]
fn test_scan_phase_next() {
    assert_eq!(ScanPhase::TargetParsing.next(), Some(ScanPhase::HostDiscovery));
    assert_eq!(ScanPhase::HostDiscovery.next(), Some(ScanPhase::PortScanning));
    assert_eq!(ScanPhase::ResultAggregation.next(), None);
}

#[test]
fn test_scan_phase_display() {
    assert_eq!(ScanPhase::PortScanning.to_text(), "Port Scanning");
    assert_eq!(ScanPhase::OsDetection.to_text(), "OS Detection");
}

#[test]
fn names_of_phases() {
    let mut phase = ScanPhase::TargetParsing;
    let mut names = vec![phase.name()];
    while let Some(next) = phase.next() {
        phase = next;
        names.push(phase.name());
    }
    assert_eq!(
        names,
        vec![
            "Target Parsing",
            "Host Discovery",
            "Port Scanning",
            "Service Detection",
            "OS Detection",
            "NSE Script Execution",
            "Traceroute",
            "Result Aggregation",
        ]
    );
}

#[test]
fn test_scan_pipeline_default() {
    let pipeline = ScanPipeline::default();
    assert!(pipeline.is_enabled(ScanPhase::TargetParsing));
    assert!(pipeline.is_enabled(ScanPhase::HostDiscovery));
    assert!(pipeline.is_enabled(ScanPhase::PortScanning));
    assert!(!pipeline.is_enabled(ScanPhase::ServiceDetection));
}

#[test]
fn test_scan_pipeline_from_config() {
    let config =
        ScanConfig { service_detection: true, os_detection: true, ..ScanConfig::default() };

    let pipeline = ScanPipeline::from_config(&config);
    assert!(pipeline.is_enabled(ScanPhase::ServiceDetection));
    assert!(pipeline.is_enabled(ScanPhase::OsDetection));
}

#[test]
fn phases_stand_behind_what_they_require() {
    let config = ScanConfig {
        service_detection: true,
        os_detection: true,
        nse_scripts: true,
        traceroute: true,
        ..ScanConfig::default()
    };
    let pipeline = ScanPipeline::from_config(&config);
    let phases = pipeline.phases();
    assert_eq!(phases.len(), 8);
    for (i, phase) in phases.iter().enumerate() {
        if let Some(needed) = pipeline.dependencies(*phase) {
            assert_eq!(needed.len(), 1);
            let at = phases.iter().position(|p| *p == needed[0]).unwrap();
            assert!(at < i);
        } else {
            assert_eq!(*phase, ScanPhase::TargetParsing);
        }
    }
    assert_eq!(
        pipeline.dependencies(ScanPhase::NseExecution),
        Some(&[ScanPhase::ServiceDetection][..])
    );
}

#[test]
fn adding_a_phase() {
    let mut pipeline = ScanPipeline::default();
    pipeline.add_phase(ScanPhase::OsDetection);
    pipeline.add_phase(ScanPhase::OsDetection);
    assert_eq!(
        pipeline.phases(),
        &[
            ScanPhase::TargetParsing,
            ScanPhase::HostDiscovery,
            ScanPhase::PortScanning,
            ScanPhase::OsDetection,
            ScanPhase::ResultAggregation,
        ]
    );
    // What it requires is missing: it goes to the end.
    pipeline.add_phase(ScanPhase::NseExecution);
    assert_eq!(pipeline.phases()[5], ScanPhase::NseExecution);
    assert_eq!(pipeline.clone().phases(), pipeline.phases());
}

#[test]
fn default_phases() {
    assert!(ScanPhase::TargetParsing.is_default());
    assert!(ScanPhase::HostDiscovery.is_default());
    assert!(ScanPhase::PortScanning.is_default());
    assert!(!ScanPhase::ServiceDetection.is_default());
    assert!(!ScanPhase::OsDetection.is_default());
    assert!(!ScanPhase::NseExecution.is_default());
    assert!(!ScanPhase::Traceroute.is_default());
    assert!(ScanPhase::ResultAggregation.is_default());
}

#[test]
fn test_scan_state() {
    let mut state = ScanState::new();
    let ip = IpAddr::V4(Ipv4Addr::new(192, 168, 1, 1));

    let host_state = state.host_state(ip);
    assert_eq!(host_state.status, HostStatus::Unknown);

    let port_state = state.port_state(ip, 80);
    assert_eq!(*port_state, PortScanState::default());

    assert_eq!(state.host_count(), 1);
    assert_eq!(state.port_count(), 1);
}

#[test]
fn states_are_kept() {
    let mut state = ScanState::default();
    let a = IpAddr::V4(Ipv4Addr::new(10, 0, 0, 1));
    let b = IpAddr::V6(Ipv6Addr::new(0, 0, 0, 0, 0, 0, 0, 1));
    assert!(state.get_host_state(a).is_none());
    assert_eq!(state.host_status(a), HostStatus::Unknown);
    state.host_state(a).set(HostStatus::Up, "arp-response");
    state.host_state(b).set(HostStatus::Down, "no-response");
    assert_eq!(state.host_status(a), HostStatus::Up);
    assert_eq!(state.host_status(b), HostStatus::Down);
    assert_eq!(
        state.get_host_state(a).unwrap().discovery_method.as_deref(),
        Some("arp-response")
    );
    state.port_state(a, 80).state = Some(PortState::Open);
    state.port_state(a, 81).state = Some(PortState::Closed);
    state.port_state(b, 80).state = Some(PortState::Filtered);
    assert_eq!(state.port_state(a, 80).state, Some(PortState::Open));
    assert_eq!(state.host_count(), 2);
    assert_eq!(state.port_count(), 3);
    state.set_progress(ScanProgress { completed: 1, total: 2 });
    assert_eq!(*state.progress(), ScanProgress { completed: 1, total: 2 });
    assert_eq!(HostState::default().status, HostStatus::Unknown);
    assert_eq!(ScanProgress::default(), ScanProgress { completed: 0, total: 0 });
}

#[test]
fn counters() {
    let mut stats = ScanStats::new();
    stats.record_probe(PortState::Open);
    stats.record_probe(PortState::Closed);
    stats.mark_host_complete();
    assert_eq!(stats.packets_sent, 2);
    assert_eq!(stats.open_ports, 1);
    assert_eq!(stats.hosts_completed, 1);
}

#[test]
fn test_orchestrator_creation() {
    let session = create_test_session();
    let orchestrator = ScanOrchestrator::new(session);
    assert_eq!(orchestrator.session().target_count(), 2);
}

#[test]
fn test_get_ports_for_scan() {
    let session = create_test_session();
    let orchestrator = ScanOrchestrator::new(session);
    let ports = orchestrator.get_ports_for_scan(&database());
    assert!(!ports.is_empty());
}

#[test]
fn ports_of_each_kind_of_list() {
    let db = database();
    let mut config = ScanConfig { port_spec: PortSpec::Top(2), ..ScanConfig::default() };
    assert_eq!(get_ports_for_scan(&config, &db), vec![80, 23]);
    config.scan_types = vec![ScanType::Udp];
    assert_eq!(get_ports_for_scan(&config, &db), vec![631, 161]);
    config.port_spec = PortSpec::Top(1000);
    assert_eq!(get_ports_for_scan(&config, &db), vec![631, 161, 137]);
    config.port_spec = PortSpec::Range { start: 65534, end: 65535 };
    assert_eq!(get_ports_for_scan(&config, &db), vec![65534, 65535]);
    config.port_spec = PortSpec::Range { start: 3, end: 2 };
    assert!(get_ports_for_scan(&config, &db).is_empty());
    config.port_spec = PortSpec::List(vec![9, 7, 8, 7]);
    config.excluded_ports = vec![7];
    assert_eq!(get_ports_for_scan(&config, &db), vec![9, 8]);
    config.port_spec = PortSpec::All;
    let all = get_ports_for_scan(&config, &db);
    assert_eq!(all.len(), 65534);
    assert_eq!((all[0], all[65533]), (1, 65535));
}

#[test]
fn services_by_port() {
    let db = database();
    assert_eq!(db.lookup(80, ServiceProtocol::Tcp).map(|s| s.as_str()), Some("http"));
    assert_eq!(db.lookup(80, ServiceProtocol::Udp), None);
    assert_eq!(db.lookup(53, ServiceProtocol::Udp).map(|s| s.as_str()), Some("domain"));
}

#[test]
fn congestion_windows_of_the_templates() {
    let templates = [
        TimingTemplate::Paranoid,
        TimingTemplate::Sneaky,
        TimingTemplate::Polite,
        TimingTemplate::Normal,
        TimingTemplate::Aggressive,
        TimingTemplate::Insane,
    ];
    let first: Vec<u32> = templates.iter().map(|t| initial_cwnd(*t)).collect();
    let most: Vec<u32> = templates.iter().map(|t| max_cwnd(*t)).collect();
    assert_eq!(first, vec![1, 3, 5, 10, 50, 100]);
    assert_eq!(most, vec![1, 5, 10, 50, 100, 500]);
    let orchestrator = ScanOrchestrator::new(create_test_session());
    assert_eq!(orchestrator.congestion_windows(), (10, 50));
}

#[test]
fn configurations_of_scanners() {
    let mut config = ScanConfig { host_timeout: 2_500_000_000, ..ScanConfig::default() };
    let s = scanner_config(&config, &timing(), 321);
    assert_eq!((s.min_rtt, s.max_rtt, s.initial_rtt), (100, 1000, 321));
    assert_eq!((s.max_retries, s.scan_delay, s.timing_level), (4, 7, 3));
    assert_eq!(s.host_timeout, 2500);
    config.host_timeout = u128::MAX;
    config.scan_delay = 5;
    let p = ping_config(&config);
    assert_eq!(p.host_timeout, 30000);
    assert_eq!((p.initial_rtt, p.scan_delay, p.max_retries), (100_000_000, 5, 2));
    config.scan_delay = 200_000_000;
    assert_eq!(ping_config(&config).initial_rtt, 200_000_000);
    let a = arp_batch_config("1.1.1.1:53");
    assert_eq!((a.host_timeout, a.max_retries, a.scan_delay), (500, 1, 0));
    assert_eq!(a.dns_server, "1.1.1.1:53");
}

#[test]
fn round_trip_times_within_the_template() {
    assert_eq!(clamped_rtt(None, &timing()), 500);
    assert_eq!(clamped_rtt(Some(1), &timing()), 100);
    assert_eq!(clamped_rtt(Some(400), &timing()), 400);
    assert_eq!(clamped_rtt(Some(4000), &timing()), 1000);
}

#[test]
fn a_scan_goes_through_its_phases() {
    let mut session = create_test_session();
    session.config.service_detection = true;
    session.config.os_detection = true;
    session.config.nse_scripts = true;
    session.config.traceroute = true;
    let mut orchestrator = ScanOrchestrator::new(session);
    let mut actions = Vec::new();
    while let Some(action) = orchestrator.begin_phase() {
        actions.push((orchestrator.current_phase(), action));
        assert!(orchestrator.phase_done(Ok(())).is_ok());
    }
    assert_eq!(actions.len(), 8);
    assert_eq!(actions[0], (ScanPhase::TargetParsing, PhaseAction::Skip));
    assert_eq!(actions[1], (ScanPhase::HostDiscovery, PhaseAction::DiscoverHosts));
    assert_eq!(actions[2], (ScanPhase::PortScanning, PhaseAction::ScanPorts));
    assert!(actions.contains(&(ScanPhase::ServiceDetection, PhaseAction::DetectServices)));
    assert!(actions.contains(&(ScanPhase::OsDetection, PhaseAction::DetectOs)));
    assert!(actions.contains(&(ScanPhase::NseExecution, PhaseAction::RunScripts)));
    assert!(actions.contains(&(ScanPhase::Traceroute, PhaseAction::TraceRoutes)));
    assert_eq!(actions[7], (ScanPhase::ResultAggregation, PhaseAction::Skip));
    assert_eq!(orchestrator.current_phase(), ScanPhase::ResultAggregation);
}

#[test]
fn a_failed_phase_ends_a_scan() {
    let mut orchestrator = ScanOrchestrator::new(create_test_session());
    assert_eq!(orchestrator.begin_phase(), Some(PhaseAction::Skip));
    assert!(orchestrator.phase_done(Ok(())).is_ok());
    assert_eq!(orchestrator.begin_phase(), Some(PhaseAction::DiscoverHosts));
    match orchestrator.phase_done(Err(CoreError::Config("no socket".to_string()))) {
        Err(CoreError::Config(m)) => assert_eq!(m, "no socket"),
        other => panic!("unexpected {other:?}"),
    }
    assert_eq!(orchestrator.begin_phase(), None);
    assert_eq!(orchestrator.current_phase(), ScanPhase::HostDiscovery);
    // No later phase brings it back.
    assert!(orchestrator.phase_done(Ok(())).is_ok());
    assert_eq!(orchestrator.begin_phase(), None);
    assert_eq!(orchestrator.current_phase(), ScanPhase::HostDiscovery);
}

#[test]
fn a_scan_is_run_again() {
    let mut orchestrator = ScanOrchestrator::new(create_test_session());
    orchestrator.probe_sent(7);
    let mut runs = Vec::new();
    for _ in 0..2 {
        orchestrator.restart();
        let mut actions = Vec::new();
        while let Some(action) = orchestrator.begin_phase() {
            actions.push((orchestrator.current_phase(), action));
            assert!(orchestrator.phase_done(Ok(())).is_ok());
        }
        runs.push(actions);
    }
    assert_eq!(runs[0], runs[1]);
    assert_eq!(runs[0][0], (ScanPhase::TargetParsing, PhaseAction::Skip));
    assert!(runs[0].contains(&(ScanPhase::PortScanning, PhaseAction::ScanPorts)));
    // So is one that failed; what was known stays.
    orchestrator.restart();
    let _ = orchestrator.begin_phase();
    assert!(orchestrator.phase_done(Err(CoreError::Config("no".to_string()))).is_err());
    assert_eq!(orchestrator.begin_phase(), None);
    orchestrator.restart();
    assert_eq!(orchestrator.current_phase(), ScanPhase::TargetParsing);
    assert_eq!(orchestrator.begin_phase(), Some(PhaseAction::Skip));
    assert_eq!(orchestrator.enforce_scan_delay(30, 0, 17), Some(20));
}

fn discovery_action(host_discovery: bool, no_port_scan: bool, count: usize) -> PhaseAction {
    let config = ScanConfig { host_discovery, no_port_scan, ..ScanConfig::default() };
    let mut targets = Vec::new();
    while targets.len() < count {
        targets.push(target(10, 0, 0, 1));
    }
    let mut orchestrator = ScanOrchestrator::new(ScanSession::new(config, targets));
    let _ = orchestrator.begin_phase();
    orchestrator.begin_phase().unwrap()
}

#[test]
fn when_hosts_are_looked_for() {
    assert_eq!(discovery_action(true, false, 2), PhaseAction::DiscoverHosts);
    assert_eq!(discovery_action(true, false, 1), PhaseAction::Skip);
    assert_eq!(discovery_action(true, true, 1), PhaseAction::DiscoverHosts);
    assert_eq!(discovery_action(true, false, 0), PhaseAction::DiscoverHosts);
    assert_eq!(discovery_action(false, false, 2), PhaseAction::PrefilterHosts);
    assert_eq!(discovery_action(false, false, 1), PhaseAction::Skip);
    assert_eq!(discovery_action(false, true, 0), PhaseAction::Skip);
}

#[test]
fn a_scan_in_two_phases() {
    let mut session = create_test_session();
    session.config.two_phase_scan = true;
    let mut pipeline = ScanPipeline::default();
    pipeline.add_phase(ScanPhase::Traceroute);
    let mut orchestrator = ScanOrchestrator::with_pipeline(session, pipeline);
    assert_eq!(orchestrator.pipeline().phases().len(), 5);
    let _ = orchestrator.begin_phase();
    let _ = orchestrator.begin_phase();
    assert_eq!(orchestrator.begin_phase(), Some(PhaseAction::ScanPortsInTwoPhases));
}

#[test]
fn probes_are_paced() {
    let mut orchestrator = ScanOrchestrator::new(create_test_session());
    assert_eq!(orchestrator.enforce_scan_delay(0, 0, 100), None);
    // The first probe goes at once.
    assert_eq!(orchestrator.enforce_scan_delay(30, 10, 100), Some(0));
    orchestrator.probe_sent(100);
    assert_eq!(orchestrator.enforce_scan_delay(30, 10, 110), Some(20));
    assert_eq!(orchestrator.enforce_scan_delay(10, 30, 110), Some(20));
    assert_eq!(orchestrator.enforce_scan_delay(30, 10, 130), Some(0));
    assert_eq!(orchestrator.enforce_scan_delay(0, 0, 110), None);
}

#[test]
fn the_state_of_an_orchestrator() {
    let mut orchestrator = ScanOrchestrator::new(create_test_session());
    assert_eq!(orchestrator.progress(), ScanProgress::default());
    let mut state = ScanState::new();
    state.host_state(IpAddr::V4(Ipv4Addr::new(10, 0, 0, 1))).set(HostStatus::Up, "user-set");
    state.set_progress(ScanProgress { completed: 3, total: 4 });
    orchestrator.set_state(state);
    assert_eq!(orchestrator.progress(), ScanProgress { completed: 3, total: 4 });
    assert_eq!(orchestrator.state().host_count(), 1);
    let taken = orchestrator.take_state();
    assert_eq!(taken.host_count(), 1);
    assert_eq!(orchestrator.state().host_count(), 0);
    orchestrator.set_state(taken);
    assert_eq!(orchestrator.state().host_count(), 1);
    orchestrator.stats_mut().record_probe(PortState::Open);
    assert_eq!(orchestrator.session().stats.open_ports, 1);
}

#[test]
fn statistics_of_hosts() {
    let hosts = vec![
        with_states(
            HostStatus::Up,
            &[PortState::Open, PortState::Closed, PortState::Filtered, PortState::OpenOrFiltered],
        ),
        with_states(HostStatus::Down, &[]),
        with_states(HostStatus::Unknown, &[PortState::Open]),
    ];
    let mut stats = ScanStats::new();
    stats.packets_sent = 10;
    stats.packets_received = 3;
    let s = scan_statistics(&hosts, &stats);
    assert_eq!((s.total_hosts, s.hosts_up, s.hosts_down), (3, 1, 1));
    assert_eq!((s.total_ports, s.open_ports, s.closed_ports, s.filtered_ports), (5, 2, 1, 1));
    assert_eq!((s.bytes_sent, s.bytes_received), (640, 192));
    assert_eq!((s.packets_sent, s.packets_received), (10, 3));
}

#[test]
fn the_result_of_a_scan() {
    let config = ScanConfig { scan_types: vec![ScanType::SctpInit], ..ScanConfig::default() };
    let stats = ScanStats::new();
    let now = Timestamp { secs: 100, nanos: 250_000_000 };
    let end = Timestamp { secs: 100, nanos: 260_000_000 };
    let r = scan_result_at(&config, &stats, Vec::new(), 1_500_000_000, now, end);
    assert_eq!(r.metadata.start_time, Timestamp { secs: 98, nanos: 750_000_000 });
    assert_eq!(r.metadata.end_time, end);
    assert_eq!(r.metadata.elapsed, 1_500_000_000);
    assert_eq!(r.metadata.protocol, Protocol::Sctp);
    assert_eq!(r.metadata.scan_type, ScanType::SctpInit);
    assert_eq!(r.metadata.scanner_version, SCANNER_VERSION);
    assert_eq!(r.metadata.command_line, "");
    assert!(r.errors.is_empty());
    assert!(r.hosts.is_empty());
}

#[test]
fn results_are_dated_by_the_clock() {
    let config = ScanConfig { scan_types: vec![ScanType::Udp], ..ScanConfig::default() };
    let hosts = vec![with_states(HostStatus::Up, &[PortState::Open])];
    let r = build_scan_result(&config, &ScanStats::new(), hosts, 60_000_000_000);
    assert_eq!(r.metadata.protocol, Protocol::Udp);
    // Later than 2020, and a minute apart.
    assert!(r.metadata.start_time.secs > 1_577_836_800);
    let apart = r.metadata.end_time.secs - r.metadata.start_time.secs;
    assert!((60..=62).contains(&apart));
    assert_eq!(r.statistics.open_ports, 1);
    let mut orchestrator = ScanOrchestrator::new(create_test_session());
    while orchestrator.begin_phase().is_some() {
        assert!(orchestrator.phase_done(Ok(())).is_ok());
    }
    let f = orchestrator.finish(Vec::new(), 0);
    assert_eq!(f.metadata.protocol, Protocol::Tcp);
    assert_eq!(f.statistics.total_hosts, 0);
}

#[test]
fn points_in_time() {
    let t = Timestamp { secs: 10, nanos: 5 };
    assert_eq!(before(t, 0), t);
    assert_eq!(before(t, 6), Timestamp { secs: 9, nanos: 999_999_999 });
    assert_eq!(before(t, 11_000_000_005), Timestamp { secs: -1, nanos: 0 });
    // A span that is too long counts as none.
    assert_eq!(before(t, LONGEST_STEP + 1), t);
}
