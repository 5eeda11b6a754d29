//! Looking for hosts and scanning ports.
use rustnmap::addr::{IpAddr, Ipv4Addr, Ipv6Addr, MacAddr};
use rustnmap::batch::{batch_mode, BatchAction, BatchMode, BatchSweep};
use rustnmap::config::{
    ScanConfig, ServiceDatabase, ServiceEntry, ServiceProtocol, TimingConfig,
};
use rustnmap::discovery::{HostState as Verdict, ScanError};
use rustnmap::host_sweep::{HostAction, HostSweep};
use rustnmap::hosts::{
    apply_arp_batch, apply_ping, discovers_hosts, group_by_source, mark_user_set, sort_targets,
};
use rustnmap::models::{port_result, HostStatus, MacAddress, PortState, Protocol, ScanType, Target};
use rustnmap::net::{
    detect_local_ipv4_addresses, get_interface_mac, get_interface_name_for_addr,
    get_mac_address_via_arp, get_mac_from_system_arp_cache, is_directly_connected,
    is_on_same_subnet, resolve_mac_begin, resolve_mac_next, rtt_next, rtt_probe, rtt_remaining,
    source_address, InterfaceEntry, MacCache, MacStep, RttEvent, RttProbe, RttStep,
};
use rustnmap::ports::{
    connect_result, find_scan, is_local_arp, mac_to_report, parallel_results, parallel_route,
    plan_port_scan, scan_port_connect, scan_port_outcome, scan_port_route, scan_rtt,
    sequential_mode, service_info_from_db, stealth_result, takes_decoys, ConnectOutcome,
    ParallelRoute, PortRoute, PortScanPlan, PortStep, ProbeOutcome, Scanner, SequentialMode,
    TargetScan,
};
use rustnmap::state::{ScanState, ScanStats};
use rustnmap::sweep::{SequentialSweep, SweepAction, TwoPhaseSweep};

fn v4(d: u8) -> Ipv4Addr {
    Ipv4Addr::new(192, 168, 1, d)
}

fn target(d: u8) -> Target {
    Target { ip: IpAddr::V4(v4(d)), hostname: None }
}

fn target_v6() -> Target {
    Target {
        ip: IpAddr::V6(Ipv6Addr::new(0x2001, 0xdb8, 0, 0, 0, 0, 0, 1)),
        hostname: Some("six".to_string()),
    }
}

fn database() -> ServiceDatabase {
    ServiceDatabase {
        services: vec![
            ServiceEntry { port: 80, protocol: ServiceProtocol::Tcp, name: "http".to_string() },
            ServiceEntry { port: 53, protocol: ServiceProtocol::Udp, name: "domain".to_string() },
        ],
        tcp_by_frequency: vec![80],
        udp_by_frequency: vec![53],
    }
}

fn timing() -> TimingConfig {
    TimingConfig {
        min_rtt: 100_000_000,
        max_rtt: 10_000_000_000,
        initial_rtt: 1_000_000_000,
        max_retries: 10,
        scan_delay: 0,
        timing_level: 3,
    }
}

fn mac_address() -> MacAddress {
    MacAddress { address: "00:11:22:33:44:55".to_string(), vendor: None }
}

fn method(state: &ScanState, ip: IpAddr) -> Option<String> {
    state.get_host_state(ip).and_then(|h| h.discovery_method.clone())
}

fn entry(name: Option<&str>, addr: Option<Ipv4Addr>, netmask: Option<Ipv4Addr>) -> InterfaceEntry {
    InterfaceEntry { name: name.map(|n| n.to_string()), addr, netmask }
}

#[test]
fn interfaces_and_subnets() {
    let mask = Some(Ipv4Addr::new(255, 255, 255, 0));
    let entries = vec![
        entry(None, Some(v4(7)), mask),
        entry(Some("eth0"), None, None),
        entry(Some("eth1"), Some(v4(7)), mask),
        entry(Some("eth2"), Some(v4(7)), None),
    ];
    assert_eq!(get_interface_name_for_addr(&entries, v4(7)).map(|n| n.as_str()), Some("eth1"));
    assert_eq!(get_interface_name_for_addr(&entries, v4(8)), None);
    assert!(is_on_same_subnet(&entries, v4(7), v4(200)));
    assert!(!is_on_same_subnet(&entries, v4(7), Ipv4Addr::new(192, 168, 2, 200)));
    assert!(!is_on_same_subnet(&entries, v4(8), v4(200)));
    assert!(is_directly_connected(v4(200), Some(v4(7)), &entries));
    assert!(!is_directly_connected(v4(200), None, &entries));
    assert!(is_directly_connected(Ipv4Addr::new(127, 3, 2, 1), None, &entries));
    assert_eq!(detect_local_ipv4_addresses(&entries), vec![v4(7)]);
    assert_eq!(source_address(None), Ipv4Addr::new(127, 0, 0, 1));
    assert_eq!(source_address(Some(v4(7))), v4(7));
}

#[test]
fn hardware_addresses_from_the_system() {
    let data: [i8; 14] = [0, 17, 34, 51, 68, -1, 9, 9, 0, 0, 0, 0, 0, 0];
    let mac = MacAddr::new([0x00, 0x11, 0x22, 0x33, 0x44, 0xff]);
    assert_eq!(get_interface_mac(0, data), Some(mac));
    assert_eq!(get_interface_mac(-1, data), None);
    assert_eq!(get_mac_from_system_arp_cache(0, 0x02, data), Some(mac));
    assert_eq!(get_mac_from_system_arp_cache(0, 0x06, data), Some(mac));
    assert_eq!(get_mac_from_system_arp_cache(0, 0x04, data), None);
    assert_eq!(get_mac_from_system_arp_cache(-1, 0x02, data), None);
    assert_eq!(get_mac_address_via_arp(v4(1), Some((mac, v4(1)))), Some(mac));
    assert_eq!(get_mac_address_via_arp(v4(1), Some((mac, v4(2)))), None);
    assert_eq!(get_mac_address_via_arp(v4(1), None), None);
}

#[test]
fn searching_for_a_hardware_address() {
    let mac = MacAddr::new([1, 2, 3, 4, 5, 6]);
    let mut cache = MacCache::new();
    assert_eq!(resolve_mac_begin(&cache, v4(1), false), MacStep::Done(None));
    let step = resolve_mac_begin(&cache, v4(1), true);
    assert_eq!(step, MacStep::AskKernel);
    let step = resolve_mac_next(&mut cache, v4(1), step, None);
    assert_eq!(step, MacStep::AskTarget);
    assert_eq!(resolve_mac_next(&mut cache, v4(2), step, None), MacStep::Done(None));
    let step = resolve_mac_next(&mut cache, v4(1), step, Some(mac));
    assert_eq!(step, MacStep::Done(Some(mac)));
    // Found before: the cache knows it.
    assert_eq!(resolve_mac_begin(&cache, v4(1), true), MacStep::Done(Some(mac)));
    assert_eq!(resolve_mac_begin(&cache, v4(2), true), MacStep::AskKernel);
    assert_eq!(cache.get(v4(1)), Some(mac));
    cache.set(v4(2), MacAddr::new([6, 5, 4, 3, 2, 1]));
    assert_eq!(cache.get(v4(1)), Some(mac));
}

#[test]
fn measuring_a_round_trip() {
    assert_eq!(rtt_probe(1234, 0), Some(RttProbe { src_port: 50234, dst_port: 80, seq: 1000 }));
    assert_eq!(rtt_probe(1234, 2), Some(RttProbe { src_port: 50236, dst_port: 22, seq: 1002 }));
    assert_eq!(rtt_probe(1234, 3), None);
    let answer = RttEvent::Segment { src_ip: v4(1), src_port: 443, elapsed: 2_000_000 };
    assert_eq!(rtt_next(v4(1), 1, answer), RttStep::Done(Some(2_000_000)));
    assert_eq!(rtt_next(v4(1), 0, answer), RttStep::Wait(0));
    assert_eq!(rtt_next(v4(2), 1, answer), RttStep::Wait(1));
    let fast = RttEvent::Segment { src_ip: v4(1), src_port: 80, elapsed: 10 };
    assert_eq!(rtt_next(v4(1), 0, fast), RttStep::Done(Some(100_000)));
    assert_eq!(rtt_next(v4(1), 0, RttEvent::OtherPacket), RttStep::Wait(0));
    assert_eq!(rtt_next(v4(1), 0, RttEvent::Nothing), RttStep::Probe(1));
    assert_eq!(rtt_next(v4(1), 1, RttEvent::SendFailed), RttStep::Probe(2));
    assert_eq!(rtt_next(v4(1), 2, RttEvent::Nothing), RttStep::Done(None));
    assert_eq!(rtt_remaining(100_000_000), 400_000_000);
    assert_eq!(rtt_remaining(600_000_000), 0);
}

#[test]
fn targets_are_sorted() {
    let targets = vec![target(0), target(5), target(255), target(6), target_v6()];
    let direct = vec![true, true, true, false, false];
    let mut state = ScanState::new();
    let sorted = sort_targets(&targets, &direct, &mut state);
    assert_eq!(sorted.direct, vec![v4(5)]);
    assert_eq!(sorted.remote.len(), 1);
    assert_eq!(sorted.remote[0].ip, IpAddr::V4(v4(6)));
    assert_eq!(sorted.ipv6.len(), 1);
    assert_eq!(sorted.no_hosts, 2);
    assert_eq!(state.host_count(), 2);
    assert_eq!(state.host_status(IpAddr::V4(v4(0))), HostStatus::Down);
    assert_eq!(method(&state, IpAddr::V4(v4(0))).as_deref(), Some("network-address"));
    assert_eq!(method(&state, IpAddr::V4(v4(255))).as_deref(), Some("broadcast-address"));
}

#[test]
fn groups_by_source() {
    let a = Ipv4Addr::new(10, 0, 0, 1);
    let b = Ipv4Addr::new(10, 0, 1, 1);
    let groups = group_by_source(&vec![v4(1), v4(2), v4(3)], &vec![a, b, a]);
    assert_eq!(groups.len(), 2);
    for group in groups {
        if group.source == a {
            assert_eq!(group.members, vec![v4(1), v4(3)]);
        } else {
            assert_eq!(group.source, b);
            assert_eq!(group.members, vec![v4(2)]);
        }
    }
}

#[test]
fn verdicts_of_an_arp_batch() {
    let mut state = ScanState::new();
    let members = vec![v4(1), v4(2), v4(3)];
    let r = apply_arp_batch(&mut state, &members, &Some(vec![v4(1)]), &vec![v4(3)]);
    assert_eq!(r, (2, 1));
    assert_eq!(state.host_status(IpAddr::V4(v4(1))), HostStatus::Up);
    assert_eq!(method(&state, IpAddr::V4(v4(1))).as_deref(), Some("arp-response"));
    assert_eq!(state.host_status(IpAddr::V4(v4(2))), HostStatus::Down);
    assert_eq!(state.host_status(IpAddr::V4(v4(3))), HostStatus::Up);
    assert_eq!(method(&state, IpAddr::V4(v4(3))).as_deref(), Some("local-address"));
    assert!(is_local_arp(&state, IpAddr::V4(v4(1))));
    assert!(is_local_arp(&state, IpAddr::V4(v4(3))));
    assert!(!is_local_arp(&state, IpAddr::V4(v4(2))));
    assert!(!is_local_arp(&state, IpAddr::V4(v4(9))));
}

#[test]
fn a_failed_arp_batch() {
    let mut state = ScanState::new();
    let r = apply_arp_batch(&mut state, &vec![v4(1), v4(2)], &None, &Vec::new());
    assert_eq!(r, (2, 0));
    assert_eq!(state.host_status(IpAddr::V4(v4(1))), HostStatus::Up);
    assert_eq!(method(&state, IpAddr::V4(v4(2))).as_deref(), Some("arp-error"));
}

#[test]
fn verdicts_of_pings() {
    let mut state = ScanState::new();
    let mut stats = ScanStats::new();
    let ip = IpAddr::V4(v4(1));
    apply_ping(&mut state, &mut stats, ip, &Ok(Verdict::Up));
    assert_eq!(state.host_status(ip), HostStatus::Up);
    apply_ping(&mut state, &mut stats, ip, &Ok(Verdict::Down));
    assert_eq!(state.host_status(ip), HostStatus::Down);
    assert_eq!(method(&state, ip).as_deref(), Some("icmp/tcp-ping"));
    apply_ping(&mut state, &mut stats, ip, &Ok(Verdict::Unknown));
    assert_eq!(state.host_status(ip), HostStatus::Up);
    assert_eq!(method(&state, ip).as_deref(), Some("fallback"));
    assert_eq!(stats.hosts_completed, 3);
    mark_user_set(&mut state, &vec![target(1), target(2)]);
    assert_eq!(method(&state, ip).as_deref(), Some("user-set"));
    assert_eq!(state.host_status(IpAddr::V4(v4(2))), HostStatus::Up);
    assert!(discovers_hosts(2, false));
    assert!(!discovers_hosts(1, false));
    assert!(discovers_hosts(1, true));
}

#[test]
fn a_host_sweep_decides_every_target() {
    let targets = vec![target(0), target(5), target(6), target_v6()];
    let direct = vec![true, true, false, false];
    let mut state = ScanState::new();
    let sorted = sort_targets(&targets, &direct, &mut state);
    let mut sweep = HostSweep::discovery(state, sorted, &vec![v4(7)]);
    let mut stats = ScanStats::new();
    let mut pings = 0;
    loop {
        match sweep.next() {
            HostAction::ArpBatch { group } => {
                assert_eq!(sweep.groups[group].members, vec![v4(5)]);
                let r = sweep.arp_done(&Some(vec![v4(5)]), &Vec::new(), &mut stats);
                assert_eq!(r, (1, 0));
            }
            HostAction::Ping { target } => {
                pings += 1;
                let verdict = if target == 0 {
                    Ok(Verdict::Up)
                } else {
                    Err(ScanError::PermissionDenied { operation: "raw".to_string() })
                };
                sweep.pinged(&verdict, &mut stats);
            }
            HostAction::Done => break,
        }
    }
    let state = sweep.finish();
    assert_eq!(pings, 2);
    assert_eq!(stats.hosts_completed, 3);
    assert_eq!(state.host_count(), 4);
    for t in &targets {
        assert_ne!(state.host_status(t.ip), HostStatus::Unknown);
    }
    assert_eq!(state.host_status(targets[1].ip), HostStatus::Up);
}

#[test]
fn a_prefilter_takes_remote_hosts_for_up() {
    let targets = vec![target(5), target(6)];
    let mut state = ScanState::new();
    let sorted = sort_targets(&targets, &vec![true, false], &mut state);
    let mut sweep = HostSweep::prefilter(state, sorted, &vec![v4(7)]);
    let mut stats = ScanStats::new();
    assert_eq!(sweep.next(), HostAction::ArpBatch { group: 0 });
    assert_eq!(sweep.arp_done(&Some(Vec::new()), &Vec::new(), &mut stats), (0, 1));
    assert_eq!(sweep.next(), HostAction::Done);
    let state = sweep.finish();
    assert_eq!(stats.hosts_completed, 0);
    assert_eq!(state.host_status(IpAddr::V4(v4(5))), HostStatus::Down);
    assert_eq!(method(&state, IpAddr::V4(v4(6))).as_deref(), Some("user-set"));
}

#[test]
fn plans_of_port_scans() {
    let targets = vec![target(1), target(2), target(3)];
    let mut state = ScanState::new();
    state.host_state(targets[0].ip).set(HostStatus::Up, "arp-response");
    state.host_state(targets[1].ip).set(HostStatus::Down, "no-response");
    let mut config = ScanConfig::default();
    match plan_port_scan(&config, &targets, &state) {
        PortScanPlan::Parallel(alive) => {
            assert_eq!(alive.len(), 2);
            assert_eq!(alive[1].ip, IpAddr::V4(v4(3)));
        }
        _ => panic!("not in parallel"),
    }
    config.scan_types = vec![ScanType::TcpFin];
    assert!(matches!(plan_port_scan(&config, &targets, &state), PortScanPlan::Sequential(_)));
    config.scan_types = vec![ScanType::Udp];
    let six = vec![target(1), target_v6()];
    assert!(matches!(plan_port_scan(&config, &six, &state), PortScanPlan::Sequential(_)));
    config.no_port_scan = true;
    match plan_port_scan(&config, &targets, &state) {
        PortScanPlan::PingSweep(results) => {
            assert_eq!(results.len(), 1);
            assert_eq!(results[0].ip, IpAddr::V4(v4(1)));
            assert_eq!(results[0].status, HostStatus::Up);
            assert!(results[0].ports.is_empty());
        }
        _ => panic!("ports are scanned"),
    }
}

#[test]
fn ways_to_scan() {
    assert_eq!(sequential_mode(ScanType::TcpConnect), SequentialMode::ConnectBatch);
    assert_eq!(sequential_mode(ScanType::TcpXmas), SequentialMode::StealthBatch);
    assert_eq!(sequential_mode(ScanType::Udp), SequentialMode::PortByPort);
    assert_eq!(sequential_mode(ScanType::TcpSyn), SequentialMode::PortByPort);
    assert_eq!(parallel_route(ScanType::Udp, 1), ParallelRoute::UdpEach);
    assert_eq!(parallel_route(ScanType::TcpSyn, 1), ParallelRoute::Single);
    assert_eq!(parallel_route(ScanType::TcpSyn, 2), ParallelRoute::Multi);
    assert_eq!(batch_mode(ScanType::TcpConnect), Some(BatchMode::Connect));
    assert_eq!(batch_mode(ScanType::TcpAck), Some(BatchMode::Stealth(Scanner::Ack)));
    assert_eq!(batch_mode(ScanType::TcpSyn), None);
}

#[test]
fn timing_of_a_parallel_scan() {
    let r = scan_rtt(&vec![false, false], &vec![None, None], &timing());
    assert_eq!((r.min_rtt, r.initial_rtt), (100_000_000, 1_000_000_000));
    let r = scan_rtt(&vec![false, false], &vec![Some(5), None], &timing());
    assert_eq!((r.min_rtt, r.initial_rtt), (100_000_000, 5));
    let r = scan_rtt(&vec![true, false], &vec![None, Some(6)], &timing());
    assert_eq!((r.min_rtt, r.initial_rtt), (1_000_000, 6));
    let r = scan_rtt(&vec![false, true], &vec![Some(6), Some(7)], &timing());
    assert_eq!((r.min_rtt, r.initial_rtt), (1_000_000, 1_000_000));
}

#[test]
fn services_from_the_table() {
    let s = service_info_from_db(&database(), 80, ServiceProtocol::Tcp).unwrap();
    assert_eq!((s.name.as_str(), s.method.as_str(), s.confidence), ("http", "table", 3));
    assert!(s.product.is_none() && s.cpe.is_empty());
    assert!(service_info_from_db(&database(), 81, ServiceProtocol::Tcp).is_none());
}

#[test]
fn results_of_a_parallel_scan() {
    let targets = vec![target(1), target(2), target(3)];
    let scans = vec![
        TargetScan { ip: v4(3), ports: vec![(80, PortState::Open), (81, PortState::Closed)] },
        TargetScan { ip: v4(1), ports: vec![(80, PortState::Filtered)] },
    ];
    let macs = vec![None, None, Some(mac_address())];
    let mut stats = ScanStats::new();
    let r = parallel_results(
        &targets,
        &scans,
        ScanType::TcpSyn,
        2_500_000,
        &macs,
        &database(),
        &mut stats,
    );
    assert_eq!(r.len(), 2);
    assert_eq!((r[0].ip, r[1].ip), (targets[0].ip, targets[2].ip));
    assert_eq!(r[1].mac.as_ref().unwrap().address, "00:11:22:33:44:55");
    assert_eq!(r[1].status_reason, "syn-ack");
    assert_eq!((r[1].latency, r[1].times.srtt), (2_500_000, Some(2500)));
    assert_eq!(r[1].ports.len(), 2);
    assert_eq!((r[1].ports[0].number, r[1].ports[0].state), (80, PortState::Open));
    assert_eq!(r[1].ports[0].state_reason, "scan");
    assert_eq!(r[1].ports[0].service.as_ref().unwrap().name, "http");
    assert!(r[1].ports[1].service.is_none());
    assert_eq!((stats.packets_sent, stats.open_ports), (3, 1));
    let scans = vec![TargetScan { ip: v4(1), ports: vec![(53, PortState::Open)] }];
    let r = parallel_results(&targets, &scans, ScanType::Udp, 1, &macs, &database(), &mut stats);
    assert_eq!(r[0].status_reason, "udp-response");
    assert_eq!(r[0].ports[0].protocol, Protocol::Udp);
    assert_eq!(r[0].ports[0].service.as_ref().unwrap().name, "domain");
}

#[test]
fn the_last_scan_of_an_address_counts() {
    let targets = vec![target(1), target(2), target(1)];
    let scans = vec![
        TargetScan { ip: v4(1), ports: vec![(53, PortState::Open)] },
        TargetScan { ip: v4(2), ports: vec![(53, PortState::Closed)] },
        TargetScan { ip: v4(1), ports: vec![(53, PortState::Filtered)] },
    ];
    assert_eq!(find_scan(&scans, IpAddr::V4(v4(1))), Some(2));
    assert_eq!(find_scan(&scans, IpAddr::V4(v4(2))), Some(1));
    assert_eq!(find_scan(&scans, IpAddr::V4(v4(3))), None);
    assert_eq!(find_scan(&scans, target_v6().ip), None);
    let macs = vec![None, None, None];
    let mut stats = ScanStats::new();
    let r = parallel_results(&targets, &scans, ScanType::Udp, 1, &macs, &database(), &mut stats);
    let states: Vec<PortState> = r.iter().map(|h| h.ports[0].state).collect();
    assert_eq!(states, [PortState::Filtered, PortState::Closed, PortState::Filtered]);
    assert_eq!((stats.packets_sent, stats.open_ports), (3, 0));
}

#[test]
fn scanners_that_take_decoys() {
    for scanner in [Scanner::Fin, Scanner::Null, Scanner::Xmas, Scanner::Maimon] {
        assert!(takes_decoys(scanner));
    }
    for scanner in [
        Scanner::Syn,
        Scanner::Connect,
        Scanner::Ack,
        Scanner::Window,
        Scanner::Udp,
        Scanner::IpProtocol,
    ] {
        assert!(!takes_decoys(scanner));
    }
}

#[test]
fn results_of_a_batch_of_raw_probes() {
    let mut stats = ScanStats::new();
    let found = vec![(81, PortState::Closed), (80, PortState::Open)];
    let r = stealth_result(&target(1), &vec![79, 80, 81], &found, None, &database(), &mut stats);
    let numbers: Vec<u16> = r.ports.iter().map(|p| p.number).collect();
    assert_eq!(numbers, vec![81, 80, 79]);
    assert_eq!(r.ports[2].state, PortState::OpenOrFiltered);
    assert_eq!(r.ports[2].state_reason, "no-response");
    assert_eq!(r.ports[1].state_reason, "batch-scan");
    assert_eq!(r.status_reason, "batch-scan");
    assert_eq!(r.latency, 1_000_000);
    assert_eq!((stats.packets_sent, stats.open_ports), (3, 1));
}

#[test]
fn results_of_a_batch_of_connections() {
    let mut stats = ScanStats::new();
    let found = vec![(80, PortState::Open)];
    let r = connect_result(&target(1), &vec![79, 80], &found, None, &database(), &mut stats);
    assert_eq!((r.ports[0].number, r.ports[0].state), (79, PortState::Filtered));
    assert_eq!((r.ports[1].number, r.ports[1].state), (80, PortState::Open));
    assert_eq!(r.ports[0].state_reason, "connect-scan");
    assert_eq!((stats.packets_sent, stats.open_ports), (2, 1));
}

#[test]
fn no_hardware_address_for_ipv6() {
    assert!(mac_to_report(target_v6().ip, Some(mac_address())).is_none());
    assert!(mac_to_report(target(1).ip, Some(mac_address())).is_some());
}

fn done(step: PortStep) -> (Protocol, PortState, String, bool) {
    match step {
        PortStep::Done(r) => (r.protocol, r.state, r.state_reason.clone(), r.service.is_some()),
        PortStep::Connect => panic!("no result"),
    }
}

#[test]
fn single_ports() {
    let ip = target(1).ip;
    assert!(matches!(
        scan_port_route(ScanType::TcpWindow, ip, 80),
        PortRoute::Probe(Scanner::Window)
    ));
    match scan_port_route(ScanType::SctpInit, ip, 80) {
        PortRoute::Done(r) => {
            assert_eq!((r.number, r.protocol, r.state), (80, Protocol::Sctp, PortState::Filtered));
            assert_eq!(r.state_reason, "sctp-not-yet-implemented");
        }
        PortRoute::Probe(_) => panic!("there is no scanner"),
    }
    match scan_port_route(ScanType::TcpSyn, target_v6().ip, 80) {
        PortRoute::Done(r) => assert_eq!(r.state_reason, "ipv6-not-supported"),
        PortRoute::Probe(_) => panic!("IPv6 is probed"),
    }
    let db = database();
    let found = |s| scan_port_outcome(Scanner::Syn, 80, ProbeOutcome::Found(s), &db);
    assert_eq!(
        done(found(PortState::Open)),
        (Protocol::Tcp, PortState::Open, "response-received".to_string(), true)
    );
    assert_eq!(done(found(PortState::Closed)).2, "rst-received");
    assert_eq!(done(found(PortState::OpenOrClosed)).2, "ambiguous");
    assert_eq!(done(found(PortState::Filtered)).2, "no-response");
    let r = scan_port_outcome(Scanner::Udp, 53, ProbeOutcome::Failed, &db);
    assert_eq!(
        done(r),
        (Protocol::Udp, PortState::Filtered, "scan-error".to_string(), false)
    );
    let none = |s| scan_port_outcome(s, 80, ProbeOutcome::NoScanner, &db);
    assert!(matches!(none(Scanner::Syn), PortStep::Connect));
    assert!(matches!(none(Scanner::Fin), PortStep::Connect));
    assert_eq!(done(none(Scanner::Udp)).2, "udp-scan-error");
    assert_eq!(done(none(Scanner::IpProtocol)).2, "ip-protocol-scanner-init-failed");
}

#[test]
fn ports_by_connecting() {
    let db = database();
    let r = scan_port_connect(80, ConnectOutcome::Connected, &db);
    assert_eq!((r.state, r.state_reason.as_str()), (PortState::Open, "syn-ack"));
    assert_eq!(r.service.unwrap().name, "http");
    let r = scan_port_connect(80, ConnectOutcome::Refused, &db);
    assert_eq!((r.state, r.state_reason.as_str()), (PortState::Closed, "conn-refused"));
    let r = scan_port_connect(80, ConnectOutcome::TimedOut, &db);
    assert_eq!((r.state, r.state_reason.as_str()), (PortState::Filtered, "timeout"));
    let r = scan_port_connect(80, ConnectOutcome::Failed, &db);
    assert_eq!((r.state, r.state_reason.as_str()), (PortState::Filtered, "error"));
}

#[test]
fn a_sweep_probes_every_port() {
    let mut sweep = SequentialSweep::new(vec![target(1), target_v6()], vec![22, 80]);
    let mut stats = ScanStats::new();
    let mut probes = Vec::new();
    loop {
        match sweep.next() {
            SweepAction::Probe { target, port } => {
                probes.push((target, port));
                let state = if port == 80 { PortState::Open } else { PortState::Closed };
                sweep.port_scanned(port_result(port, Protocol::Tcp, state, "x", None), &mut stats);
            }
            SweepAction::ResolveMac { .. } => sweep.mac_resolved(Some(mac_address())),
            SweepAction::Done => break,
        }
    }
    let r = sweep.finish();
    assert_eq!(probes, vec![(0, 22), (0, 80), (1, 22), (1, 80)]);
    assert_eq!((stats.packets_sent, stats.open_ports), (4, 2));
    assert_eq!(r.len(), 2);
    assert!(r[0].mac.is_some());
    assert!(r[1].mac.is_none());
    assert_eq!(r[1].hostname.as_deref(), Some("six"));
    assert_eq!(r[1].ports.len(), 2);
}

#[test]
fn a_sweep_in_two_phases() {
    let targets = vec![target(1), target(2)];
    let mut sweep = TwoPhaseSweep::new(targets, vec![22, 80], vec![21, 22, 23, 80]);
    let mut stats = ScanStats::new();
    let mut probes = Vec::new();
    loop {
        match sweep.next() {
            SweepAction::Probe { target, port } => {
                probes.push((target, port));
                let open = target == 1 && (port == 80 || port == 23);
                let state = if open { PortState::Open } else { PortState::Closed };
                sweep.port_scanned(port_result(port, Protocol::Tcp, state, "x", None), &mut stats);
            }
            SweepAction::ResolveMac { .. } => sweep.mac_resolved(None),
            SweepAction::Done => break,
        }
    }
    assert_eq!(sweep.opened, vec![1]);
    let r = sweep.finish();
    // The second target has an open port, and its other ports are probed too.
    assert_eq!(probes, vec![(0, 22), (0, 80), (1, 22), (1, 80), (1, 21), (1, 23)]);
    assert_eq!(r.len(), 2);
    assert_eq!(r[0].ip, IpAddr::V4(v4(2)));
    let numbers: Vec<u16> = r[0].ports.iter().map(|p| p.number).collect();
    assert_eq!(numbers, vec![80, 21, 23]);
    assert_eq!(r[0].status_reason, "syn-ack");
    assert_eq!(r[1].ip, IpAddr::V4(v4(1)));
    assert!(r[1].ports.is_empty());
    assert_eq!(r[1].status_reason, "host-alive");
    assert_eq!((stats.packets_sent, stats.open_ports), (6, 2));
}

#[test]
fn common_ports_come_first() {
    let sweep = TwoPhaseSweep::new(vec![target(1)], Vec::new(), vec![1]);
    assert_eq!(sweep.first_ports, vec![22, 80, 443, 8080]);
    assert_eq!(sweep.next(), SweepAction::Probe { target: 0, port: 22 });
    let sweep = TwoPhaseSweep::new(Vec::new(), vec![22], vec![1]);
    assert_eq!(sweep.next(), SweepAction::Done);
    assert!(sweep.finish().is_empty());
}

#[test]
fn batches_leave_out_ipv6_unless_they_connect() {
    let targets = || vec![target_v6(), target(1), target(2)];
    let db = database();
    let mut stats = ScanStats::new();
    let mut batch =
        BatchSweep::new(targets(), vec![80], BatchMode::Stealth(Scanner::Fin));
    assert_eq!(batch.next(), BatchAction::Scan { target: 1 });
    batch.scanned(Some(vec![(80, PortState::Closed)]));
    assert_eq!(batch.next(), BatchAction::ResolveMac { target: 1 });
    batch.mac_resolved(Some(mac_address()), &db, &mut stats);
    assert_eq!(batch.next(), BatchAction::Scan { target: 2 });
    // The scan failed: nothing is reported.
    batch.scanned(None);
    assert_eq!(batch.next(), BatchAction::Done);
    assert_eq!(batch.failed, vec![2]);
    let r = batch.finish();
    assert_eq!(r.len(), 1);
    assert_eq!(r[0].status_reason, "batch-scan");
    assert!(r[0].mac.is_some());

    let mut batch = BatchSweep::new(targets(), vec![80], BatchMode::Connect);
    assert_eq!(batch.next(), BatchAction::Scan { target: 0 });
    batch.scanned(Some(Vec::new()));
    batch.mac_resolved(Some(mac_address()), &db, &mut stats);
    assert_eq!(batch.results[0].status_reason, "connect-scan");
    assert!(batch.results[0].mac.is_none());
    assert_eq!(batch.results[0].ports[0].state, PortState::Filtered);
}

#[test]
fn batches_report_every_scanned_target_once() {
    let targets: Vec<Target> = (1..=5).map(target).collect();
    let mut batch = BatchSweep::new(targets, vec![80, 81], BatchMode::Stealth(Scanner::Null));
    let db = database();
    let mut stats = ScanStats::new();
    loop {
        match batch.next() {
            BatchAction::Scan { target } => {
                let failed = target == 0 || target == 3;
                batch.scanned(if failed { None } else { Some(vec![(81, PortState::Closed)]) });
            }
            BatchAction::ResolveMac { .. } => batch.mac_resolved(None, &db, &mut stats),
            BatchAction::Done => break,
        }
    }
    assert_eq!(batch.failed, vec![0, 3]);
    let r = batch.finish();
    let ips: Vec<IpAddr> = r.iter().map(|h| h.ip).collect();
    assert_eq!(ips, [2, 3, 5].map(|d| IpAddr::V4(v4(d))));
    assert!(r.iter().all(|h| h.ports.len() == 2));
}

#[test]
fn two_phases_report_an_address_once() {
    // The first address is there twice, and never has an open port.
    let targets = vec![target(1), target(2), target(1), target(3)];
    let mut sweep = TwoPhaseSweep::new(targets, vec![22], vec![22, 23]);
    let mut stats = ScanStats::new();
    loop {
        match sweep.next() {
            SweepAction::Probe { target, port } => {
                let state = if target % 2 == 1 { PortState::Open } else { PortState::Closed };
                sweep.port_scanned(port_result(port, Protocol::Tcp, state, "x", None), &mut stats);
            }
            SweepAction::ResolveMac { .. } => sweep.mac_resolved(None),
            SweepAction::Done => break,
        }
    }
    assert_eq!(sweep.opened, vec![1, 3]);
    let r = sweep.finish();
    let found: Vec<(IpAddr, usize)> = r.iter().map(|h| (h.ip, h.ports.len())).collect();
    assert_eq!(
        found,
        [(IpAddr::V4(v4(2)), 2), (IpAddr::V4(v4(3)), 2), (IpAddr::V4(v4(1)), 0)]
    );
}
