//! Services, operating systems, routes and scripts.
use rustnmap::addr::{IpAddr, Ipv4Addr, Ipv6Addr};
use rustnmap::config::ScanConfig;
use rustnmap::enrich::{
    apply_os_matches, apply_services, apply_traceroute, collect_service_work, os_probe_plan,
    traceroute_plan, traceroute_result, DetectedOs, DetectedService, OsFamily, OsProbePlan,
    ProbeType, TracedHop, TracedRoute,
};
use rustnmap::error::CoreError;
use rustnmap::models::{host_result, port_result, HostResult, PortState, Protocol, Target};
use rustnmap::scripts::{
    script_protocol, script_selector, script_service, scripts_selected, ScriptAction,
    ScriptOutcome, ScriptPlace, ScriptRun,
};

fn host(last: u8, states: &[(u16, PortState)]) -> HostResult {
    let target = Target { ip: IpAddr::V4(Ipv4Addr::new(10, 0, 0, last)), hostname: None };
    let mut ports = Vec::new();
    for (number, state) in states {
        let protocol = if *number == 53 { Protocol::Udp } else { Protocol::Tcp };
        ports.push(port_result(*number, protocol, *state, "scan", None));
    }
    host_result(&target, None, "syn-ack", 0, ports, None)
}

fn service(name: &str) -> DetectedService {
    DetectedService {
        name: name.to_string(),
        product: Some("prod".to_string()),
        version: None,
        info: Some("info".to_string()),
        hostname: None,
        os_type: None,
        device_type: None,
        confidence: 8,
        cpe: Some("cpe:/a:x".to_string()),
    }
}

#[test]
fn services_of_open_ports() {
    let mut hosts = vec![
        host(1, &[(80, PortState::Open), (81, PortState::Closed)]),
        host(2, &[(53, PortState::Open), (22, PortState::Open)]),
    ];
    let work = collect_service_work(&hosts);
    let places: Vec<(usize, usize, u16, &str)> =
        work.iter().map(|w| (w.host, w.index, w.port, w.protocol)).collect();
    assert_eq!(places, vec![(0, 0, 80, "tcp"), (1, 0, 53, "udp"), (1, 1, 22, "tcp")]);
    assert_eq!(work[1].ip, hosts[1].ip);
    let found = vec![
        Ok(vec![service("http"), service("other")]),
        Err("refused".to_string()),
        Ok(Vec::new()),
    ];
    // The failure is reported, and the others are applied all the same.
    match apply_services(&mut hosts, &work, &found) {
        Err(CoreError::ServiceDetection(m)) => assert_eq!(m, "refused"),
        other => panic!("unexpected {other:?}"),
    }
    let s = hosts[0].ports[0].service.as_ref().unwrap();
    assert_eq!((s.name.as_str(), s.method.as_str(), s.confidence), ("http", "probed", 8));
    assert_eq!(s.extrainfo.as_deref(), Some("info"));
    assert_eq!(s.cpe, vec!["cpe:/a:x".to_string()]);
    assert!(hosts[0].ports[1].service.is_none());
    assert!(hosts[1].ports[0].service.is_none());
    assert!(hosts[1].ports[1].service.is_none());
    let found = vec![Ok(Vec::new()), Ok(vec![service("domain")]), Ok(Vec::new())];
    assert!(apply_services(&mut hosts, &work, &found).is_ok());
    assert_eq!(hosts[0].ports[0].service.as_ref().unwrap().name, "http");
    assert_eq!(hosts[1].ports[0].service.as_ref().unwrap().name, "domain");
    let found = vec![Ok(Vec::new()), Err("first".to_string()), Err("second".to_string())];
    match apply_services(&mut hosts, &work, &found) {
        Err(CoreError::ServiceDetection(m)) => assert_eq!(m, "first"),
        other => panic!("unexpected {other:?}"),
    }
}

#[test]
fn plans_for_operating_systems() {
    let mut h = host(1, &[(21, PortState::Closed), (80, PortState::Open), (22, PortState::Open)]);
    let plan = os_probe_plan(&h).unwrap();
    assert_eq!(
        plan,
        OsProbePlan {
            target: Ipv4Addr::new(10, 0, 0, 1),
            open_port: 80,
            closed_port: 21,
            timeout: 5_000_000_000,
        }
    );
    h.latency = 1_000_000;
    assert_eq!(os_probe_plan(&h).unwrap().timeout, 500_000_000);
    h.latency = 100_000_000;
    assert_eq!(os_probe_plan(&h).unwrap().timeout, 1_000_000_000);
    h.latency = 1_000_000_000;
    assert_eq!(os_probe_plan(&h).unwrap().timeout, 5_000_000_000);
    h.ports = Vec::new();
    let plan = os_probe_plan(&h).unwrap();
    assert_eq!((plan.open_port, plan.closed_port), (80, 443));
    h.ip = IpAddr::V6(Ipv6Addr::new(0, 0, 0, 0, 0, 0, 0, 1));
    assert!(os_probe_plan(&h).is_none());
    assert!(traceroute_plan(&h).is_none());
}

#[test]
fn guesses_at_operating_systems() {
    let mut h = host(1, &[]);
    let guess = |name: &str, family| DetectedOs {
        name: name.to_string(),
        accuracy: 97,
        family,
        generation: Some("5.X".to_string()),
        vendor: None,
        device_type: None,
        cpe: None,
    };
    let found = Ok(vec![
        guess("a", OsFamily::Linux),
        guess("b", OsFamily::IOS),
        guess("c", OsFamily::Other("Plan 9".to_string())),
    ]);
    assert!(apply_os_matches(&mut h, &found).is_ok());
    let families: Vec<Option<&str>> =
        h.os_matches.iter().map(|m| m.os_family.as_deref()).collect();
    assert_eq!(families, vec![Some("Linux"), Some("iOS"), Some("Plan 9")]);
    assert_eq!((h.os_matches[0].accuracy, h.os_matches[0].name.as_str()), (97, "a"));
    assert!(h.os_matches[0].cpe.is_empty());
    match apply_os_matches(&mut h, &Err("no socket".to_string())) {
        Err(CoreError::OsDetection(m)) => assert_eq!(m, "no socket"),
        other => panic!("unexpected {other:?}"),
    }
    assert_eq!(h.os_matches.len(), 3);
    assert!(apply_os_matches(&mut h, &Ok(Vec::new())).is_ok());
    assert!(h.os_matches.is_empty());
}

fn hop(ttl: u8, last: Option<u8>) -> TracedHop {
    TracedHop {
        ttl,
        ip: last.map(|d| Ipv4Addr::new(10, 1, 0, d)),
        hostname: None,
        avg_rtt: Some(5),
    }
}

#[test]
fn routes() {
    let mut h = host(1, &[]);
    let plan = traceroute_plan(&h).unwrap();
    assert_eq!((plan.max_hops, plan.probes_per_hop, plan.probe_timeout), (20, 1, 500_000_000));
    h.latency = 1_000_000;
    assert_eq!(traceroute_plan(&h).unwrap().probe_timeout, 100_000_000);
    h.latency = 50_000_000;
    assert_eq!(traceroute_plan(&h).unwrap().probe_timeout, 200_000_000);
    assert!(traceroute_result(&vec![hop(1, None)], ProbeType::Udp, 80).is_none());
    let route = |hops, probe_type, port| Ok(TracedRoute { hops, probe_type, port });
    assert!(apply_traceroute(&mut h, &route(vec![hop(1, None)], ProbeType::Udp, 80)).is_ok());
    assert!(h.traceroute.is_none());
    let hops = || vec![hop(1, Some(1)), hop(2, None), hop(3, Some(3))];
    assert!(apply_traceroute(&mut h, &route(hops(), ProbeType::TcpSyn, 443)).is_ok());
    match apply_traceroute(&mut h, &Err("no route".to_string())) {
        Err(CoreError::Traceroute(m)) => assert_eq!(m, "no route"),
        other => panic!("unexpected {other:?}"),
    }
    let r = h.traceroute.unwrap();
    assert_eq!((r.protocol, r.port, r.hops.len()), (Protocol::Tcp, 443, 2));
    assert_eq!((r.hops[1].ttl, r.hops[1].rtt), (3, Some(5)));
    assert_eq!(r.hops[1].ip, IpAddr::V4(Ipv4Addr::new(10, 1, 0, 3)));
    let r = traceroute_result(&hops(), ProbeType::Icmp, 0).unwrap();
    assert_eq!(r.protocol, Protocol::Udp);
}

#[test]
fn scripts_go_through_ports_and_hosts() {
    let mut hosts = vec![
        host(1, &[(22, PortState::Closed), (80, PortState::Open)]),
        host(2, &[]),
    ];
    let mut run = ScriptRun::new(&hosts, 2);
    let mut tried = Vec::new();
    loop {
        match run.next() {
            ScriptAction::Evaluate(place) => {
                tried.push(place);
                let first = match place {
                    ScriptPlace::Port { script, .. } => script == 0,
                    ScriptPlace::Host { script, .. } => script == 0,
                    ScriptPlace::Ended => false,
                };
                run.evaluated(&hosts, first);
            }
            ScriptAction::Execute(place) => {
                let at_port = matches!(place, ScriptPlace::Port { .. });
                let outcome = ScriptOutcome {
                    id: "s".to_string(),
                    success: at_port,
                    output: Some("out".to_string()),
                };
                run.executed(&mut hosts, Some(outcome));
            }
            ScriptAction::Done => break,
        }
    }
    assert_eq!(
        tried,
        vec![
            ScriptPlace::Port { host: 0, port: 1, script: 0 },
            ScriptPlace::Port { host: 0, port: 1, script: 1 },
            ScriptPlace::Host { host: 0, script: 0 },
            ScriptPlace::Host { host: 0, script: 1 },
            ScriptPlace::Host { host: 1, script: 0 },
            ScriptPlace::Host { host: 1, script: 1 },
        ]
    );
    assert_eq!(hosts[0].ports[1].scripts.len(), 1);
    assert_eq!(hosts[0].ports[1].scripts[0].output, "out");
    assert!(hosts[0].ports[0].scripts.is_empty());
    assert!(hosts[0].scripts.is_empty());
}

#[test]
fn what_scripts_are_told() {
    assert_eq!(script_protocol(Protocol::Sctp), "sctp");
    let p = port_result(80, Protocol::Tcp, PortState::Open, "scan", None);
    assert_eq!(script_service(&p), "");
    let mut config = ScanConfig::default();
    assert_eq!(script_selector(&config), "default");
    config.nse_selector = Some("vuln".to_string());
    assert_eq!(script_selector(&config), "vuln");
}

#[test]
fn selecting_scripts() {
    assert!(matches!(scripts_selected(0, &Err("bad".to_string())), Ok(false)));
    assert!(matches!(scripts_selected(3, &Ok(0)), Ok(false)));
    assert!(matches!(scripts_selected(3, &Ok(2)), Ok(true)));
    match scripts_selected(3, &Err("bad".to_string())) {
        Err(CoreError::Config(m)) => assert_eq!(m, "Invalid --script argument: bad"),
        other => panic!("unexpected {other:?}"),
    }
}
