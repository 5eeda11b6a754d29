//! Scanning ports: what is scanned how, and what the answers mean.
use crate::addr::{IpAddr, Ipv4Addr};
use crate::batch;
use crate::config::{ScanConfig, ServiceDatabase, ServiceProtocol, TimingConfig};
use crate::models;
use crate::models::{
    clone_target, clone_text, host_result, port_result, HostResult, HostStatus, MacAddress,
    PortResult, PortState, Protocol, ScanType, ServiceInfo, Target,
};
use crate::state;
use crate::state::{ScanState, ScanStats};
use crate::text::same_text;
use vstd::prelude::*;

verus! {

/// The service on a port as the database knows it: found in the table, with a
/// confidence of 3 and nothing more than the name.
pub open spec fn is_table_service(
    service: Option<ServiceInfo>,
    db: ServiceDatabase,
    port: u16,
    protocol: ServiceProtocol,
) -> bool {
    match db.service_name(port, protocol) {
        None => service is None,
        Some(name) => {
            &&& service matches Some(s)
            &&& s.name == name
            &&& s.product is None
            &&& s.version is None
            &&& s.extrainfo is None
            &&& s.ostype is None
            &&& s.hostname is None
            &&& s.devicetype is None
            &&& s.method@ == "table"@
            &&& s.confidence == 3
            &&& s.cpe@ == Seq::<String>::empty()
        },
    }
}

/// Looks up service info from the service database.
#[must_use]
pub fn service_info_from_db(db: &ServiceDatabase, port: u16, protocol: ServiceProtocol) -> (r:
    Option<ServiceInfo>)
    ensures
        is_table_service(r, *db, port, protocol),
{
    match db.lookup(port, protocol) {
        None => None,
        Some(name) => {
            let r = ServiceInfo {
                name: name.clone(),
                product: None,
                version: None,
                extrainfo: None,
                hostname: None,
                ostype: None,
                devicetype: None,
                method: "table".to_string(),
                confidence: 3,
                cpe: Vec::new(),
            };
            assert(r.cpe@ =~= Seq::<String>::empty());
            Some(r)
        },
    }
}

/// The targets with these statuses: those that are up.
pub open spec fn up_targets(targets: Seq<Target>, state: ScanState) -> Seq<Target> {
    targets.filter(|t: Target| state.status_of(t.ip) == HostStatus::Up)
}

/// The targets that are not known to be down.
pub open spec fn alive_targets(targets: Seq<Target>, state: ScanState) -> Seq<Target> {
    targets.filter(|t: Target| state.status_of(t.ip) != HostStatus::Down)
}

/// The results of a ping sweep: the hosts that are up, without any port.
#[must_use]
pub fn ping_sweep_results(targets: &Vec<Target>, state: &ScanState) -> (r: Vec<HostResult>)
    requires
        state.wf(),
    ensures
        r@.len() == up_targets(targets@, *state).len(),
        forall|i: int|
            0 <= i < r@.len() ==> models::is_host_result(
                #[trigger] r@[i],
                up_targets(targets@, *state)[i],
                None,
                "syn-ack"@,
                0,
                Seq::empty(),
                None,
            ),
{
    let mut results: Vec<HostResult> = Vec::new();
    let ghost up = |t: Target| state.status_of(t.ip) == HostStatus::Up;
    let mut i: usize = 0;
    proof {
        reveal(Seq::filter);
        assert(targets@.take(0) =~= Seq::<Target>::empty());
    }
    while i < targets.len()
        invariant
            i <= targets.len(),
            state.wf(),
            up == (|t: Target| state.status_of(t.ip) == HostStatus::Up),
            results@.len() == targets@.take(i as int).filter(up).len(),
            forall|j: int|
                0 <= j < results@.len() ==> models::is_host_result(
                    #[trigger] results@[j],
                    targets@.take(i as int).filter(up)[j],
                    None,
                    "syn-ack"@,
                    0,
                    Seq::empty(),
                    None,
                ),
        decreases targets.len() - i,
    {
        proof {
            reveal(Seq::filter);
            assert(targets@.take(i + 1).drop_last() =~= targets@.take(i as int));
        }
        match state.host_status(targets[i].ip) {
            HostStatus::Up => {
                let ports: Vec<PortResult> = Vec::new();
                assert(ports@ =~= Seq::<PortResult>::empty());
                results.push(host_result(&targets[i], None, "syn-ack", 0, ports, None));
            },
            _ => {},
        }
        i += 1;
    }
    proof {
        assert(targets@.take(i as int) =~= targets@);
    }
    results
}

/// The targets that are not known to be down, in their order.
#[must_use]
pub fn living(targets: &Vec<Target>, state: &ScanState) -> (r: Vec<Target>)
    requires
        state.wf(),
    ensures
        r@ == alive_targets(targets@, *state),
{
    let mut kept: Vec<Target> = Vec::new();
    let ghost alive = |t: Target| state.status_of(t.ip) != HostStatus::Down;
    let mut i: usize = 0;
    proof {
        reveal(Seq::filter);
        assert(targets@.take(0) =~= Seq::<Target>::empty());
    }
    while i < targets.len()
        invariant
            i <= targets.len(),
            state.wf(),
            alive == (|t: Target| state.status_of(t.ip) != HostStatus::Down),
            kept@ == targets@.take(i as int).filter(alive),
        decreases targets.len() - i,
    {
        proof {
            reveal(Seq::filter);
            assert(targets@.take(i + 1).drop_last() =~= targets@.take(i as int));
        }
        match state.host_status(targets[i].ip) {
            HostStatus::Down => {},
            _ => {
                kept.push(clone_target(&targets[i]));
            },
        }
        i += 1;
    }
    proof {
        assert(targets@.take(i as int) =~= targets@);
    }
    kept
}

/// A target that raw probes cannot reach: IPv6, or this machine.
pub open spec fn needs_fallback(t: Target) -> bool {
    match t.ip {
        IpAddr::V6(_) => true,
        IpAddr::V4(a) => a.a == 127,
    }
}

/// How the ports are to be scanned.
#[derive(Debug)]
pub enum PortScanPlan {
    /// Not at all: these are the results.
    PingSweep(Vec<HostResult>),
    /// All targets at once.
    Parallel(Vec<Target>),
    /// One target after the other.
    Sequential(Vec<Target>),
}

/// Plans the port scan: none for a ping sweep; all targets at once for SYN and UDP
/// scans of targets that raw probes can reach; else one after the other. Hosts that
/// are down are left out.
#[must_use]
pub fn plan_port_scan(config: &ScanConfig, targets: &Vec<Target>, state: &ScanState) -> (r:
    PortScanPlan)
    requires
        state.wf(),
    ensures
        match r {
            PortScanPlan::PingSweep(results) => {
                &&& config.no_port_scan
                &&& results@.len() == up_targets(targets@, *state).len()
                &&& forall|i: int|
                    0 <= i < results@.len() ==> models::is_host_result(
                        #[trigger] results@[i],
                        up_targets(targets@, *state)[i],
                        None,
                        "syn-ack"@,
                        0,
                        Seq::empty(),
                        None,
                    )
            },
            PortScanPlan::Parallel(alive) => {
                &&& !config.no_port_scan
                &&& config.primary() == ScanType::TcpSyn || config.primary() == ScanType::Udp
                &&& alive@ == alive_targets(targets@, *state)
                &&& forall|i: int| 0 <= i < alive@.len() ==> !needs_fallback(#[trigger] alive@[i])
            },
            PortScanPlan::Sequential(alive) => {
                &&& !config.no_port_scan
                &&& alive@ == alive_targets(targets@, *state)
                &&& (config.primary() != ScanType::TcpSyn && config.primary() != ScanType::Udp)
                    || exists|i: int| 0 <= i < alive@.len() && needs_fallback(#[trigger] alive@[i])
            },
        },
{
    if config.no_port_scan {
        return PortScanPlan::PingSweep(ping_sweep_results(targets, state));
    }
    let alive = living(targets, state);
    let primary = config.primary_scan_type();
    if !(primary == ScanType::TcpSyn || primary == ScanType::Udp) {
        return PortScanPlan::Sequential(alive);
    }
    if any_needs_fallback(&alive) {
        return PortScanPlan::Sequential(alive);
    }
    PortScanPlan::Parallel(alive)
}

/// Tells whether raw probes cannot reach one of the targets.
fn any_needs_fallback(targets: &Vec<Target>) -> (r: bool)
    ensures
        r == exists|i: int| 0 <= i < targets@.len() && needs_fallback(#[trigger] targets@[i]),
{
    let mut i: usize = 0;
    while i < targets.len()
        invariant
            i <= targets.len(),
            forall|j: int| 0 <= j < i ==> !needs_fallback(#[trigger] targets@[j]),
        decreases targets.len() - i,
    {
        let fallback = match targets[i].ip {
            IpAddr::V6(_) => true,
            IpAddr::V4(a) => a.is_loopback(),
        };
        if fallback {
            assert(needs_fallback(targets@[i as int]));
            return true;
        }
        i += 1;
    }
    false
}

/// How targets are scanned one after the other.
#[derive(Clone, Copy, Debug, PartialEq, Eq, Structural)]
pub enum SequentialMode {
    /// All ports of a target at once, by connecting.
    ConnectBatch,
    /// All ports of a target at once, by raw probes.
    StealthBatch,
    /// Port by port.
    PortByPort,
}

/// How targets are scanned one after the other with a scan type.
#[must_use]
pub fn sequential_mode(scan_type: ScanType) -> (r: SequentialMode)
    ensures
        r == match scan_type {
            ScanType::TcpConnect => SequentialMode::ConnectBatch,
            ScanType::TcpFin => SequentialMode::StealthBatch,
            ScanType::TcpNull => SequentialMode::StealthBatch,
            ScanType::TcpXmas => SequentialMode::StealthBatch,
            ScanType::TcpMaimon => SequentialMode::StealthBatch,
            ScanType::TcpAck => SequentialMode::StealthBatch,
            ScanType::TcpWindow => SequentialMode::StealthBatch,
            _ => SequentialMode::PortByPort,
        },
        r == SequentialMode::ConnectBatch <==> batch::mode_for(scan_type) == Some(
            batch::BatchMode::Connect,
        ),
        r == SequentialMode::StealthBatch <==> scan_type != ScanType::Udp && (batch::mode_for(
            scan_type,
        ) matches Some(batch::BatchMode::Stealth(_))),
{
    match scan_type {
        ScanType::TcpConnect => SequentialMode::ConnectBatch,
        ScanType::TcpFin => SequentialMode::StealthBatch,
        ScanType::TcpNull => SequentialMode::StealthBatch,
        ScanType::TcpXmas => SequentialMode::StealthBatch,
        ScanType::TcpMaimon => SequentialMode::StealthBatch,
        ScanType::TcpAck => SequentialMode::StealthBatch,
        ScanType::TcpWindow => SequentialMode::StealthBatch,
        _ => SequentialMode::PortByPort,
    }
}

/// How targets are scanned at once.
#[derive(Clone, Copy, Debug, PartialEq, Eq, Structural)]
pub enum ParallelRoute {
    /// The UDP ports of each target by themselves.
    UdpEach,
    /// The ports of the one target.
    Single,
    /// The ports of all targets together.
    Multi,
}

/// How targets are scanned at once with a scan type.
#[must_use]
pub fn parallel_route(scan_type: ScanType, target_count: usize) -> (r: ParallelRoute)
    ensures
        r == if scan_type == ScanType::Udp {
            ParallelRoute::UdpEach
        } else if target_count == 1 {
            ParallelRoute::Single
        } else {
            ParallelRoute::Multi
        },
        r == ParallelRoute::UdpEach <==> scanner_for(scan_type) == Some(Scanner::Udp),
{
    if scan_type == ScanType::Udp {
        ParallelRoute::UdpEach
    } else if target_count == 1 {
        ParallelRoute::Single
    } else {
        ParallelRoute::Multi
    }
}

/// The host was found on the local segment: it replied to ARP, or is this machine.
pub open spec fn found_locally(state: ScanState, ip: IpAddr) -> bool {
    state.hosts().contains_key(ip) && (state.hosts()[ip].discovery_method matches Some(m) && (m@
        == "arp-response"@ || m@ == "local-address"@))
}

/// Tells whether a host was found on the local segment.
#[must_use]
pub fn is_local_arp(state: &ScanState, ip: IpAddr) -> (r: bool)
    requires
        state.wf(),
    ensures
        r == found_locally(*state, ip),
{
    match state.get_host_state(ip) {
        None => false,
        Some(h) => match &h.discovery_method {
            None => false,
            Some(m) => same_text(m.as_str(), "arp-response") || same_text(
                m.as_str(),
                "local-address",
            ),
        },
    }
}

/// The round trip time of hosts on the local segment, in nanoseconds.
pub const LOCAL_RTT: u128 = 1_000_000;

/// The last round trip time among the first `n` targets: that of the local segment
/// for a host that was found there, else what was measured, if anything was.
pub open spec fn last_rtt(local: Seq<bool>, measured: Seq<Option<u128>>, n: int) -> Option<u128>
    decreases n,
{
    if n <= 0 {
        None
    } else if local[n - 1] {
        Some(1_000_000)
    } else if measured[n - 1] is Some {
        measured[n - 1]
    } else {
        last_rtt(local, measured, n - 1)
    }
}

/// Timing for a scan of all targets at once.
#[derive(Clone, Copy, Debug, PartialEq, Eq, Structural)]
pub struct ScanRtt {
    /// The shortest round trip time that the scan adapts to.
    pub min_rtt: u128,
    /// The round trip time that the scan starts with.
    pub initial_rtt: u128,
}

/// Derives the timing from what is known of the targets: `local` tells of each
/// whether it was found on the local segment, `measured` what was measured.
#[must_use]
pub fn scan_rtt(local: &Vec<bool>, measured: &Vec<Option<u128>>, timing: &TimingConfig) -> (r:
    ScanRtt)
    requires
        local@.len() == measured@.len(),
    ensures
        r.min_rtt == if local@.contains(true) {
            1_000_000
        } else {
            timing.min_rtt
        },
        r.initial_rtt == match last_rtt(local@, measured@, local@.len() as int) {
            Some(rtt) => rtt,
            None => timing.initial_rtt,
        },
{
    let mut last: Option<u128> = None;
    let mut any_local = false;
    let mut i: usize = 0;
    while i < local.len()
        invariant
            i <= local.len(),
            local@.len() == measured@.len(),
            last == last_rtt(local@, measured@, i as int),
            any_local == exists|j: int| 0 <= j < i && #[trigger] local@[j],
        decreases local.len() - i,
    {
        if local[i] {
            assert(local@[i as int]);
            any_local = true;
            last = Some(LOCAL_RTT);
        } else if measured[i].is_some() {
            last = measured[i];
        }
        i += 1;
    }
    proof {
        if any_local {
            let j = choose|j: int| 0 <= j < i && #[trigger] local@[j];
            assert(local@[j] == true);
        }
    }
    ScanRtt {
        min_rtt: if any_local {
            LOCAL_RTT
        } else {
            timing.min_rtt
        },
        initial_rtt: match last {
            Some(rtt) => rtt,
            None => timing.initial_rtt,
        },
    }
}

/// Ports of a target with the states that a scan found.
pub type ScannedPorts = Vec<(u16, PortState)>;

/// What a scan of all targets at once found of one target.
#[derive(Debug)]
pub struct TargetScan {
    pub ip: Ipv4Addr,
    pub ports: ScannedPorts,
}

/// The number of the first `n` ports that are open.
pub open spec fn open_count(ports: Seq<(u16, PortState)>, n: int) -> nat
    decreases n,
{
    if n <= 0 {
        0
    } else {
        open_count(ports, n - 1) + if ports[n - 1].1 == PortState::Open {
            1nat
        } else {
            0nat
        }
    }
}

/// The results for ports with these states, all with one reason and the services of
/// the database.
pub open spec fn are_port_results(
    results: Seq<PortResult>,
    ports: Seq<(u16, PortState)>,
    protocol: Protocol,
    reason: Seq<char>,
    db: ServiceDatabase,
    service_protocol: ServiceProtocol,
) -> bool {
    &&& results.len() == ports.len()
    &&& forall|i: int|
        #![trigger results[i]]
        0 <= i < results.len() ==> models::is_port_result(
            results[i],
            ports[i].0,
            protocol,
            ports[i].1,
            reason,
        ) && is_table_service(results[i].service, db, ports[i].0, service_protocol)
}

/// Makes the results for ports with these states, and counts a probe for each.
fn port_results(
    ports: &ScannedPorts,
    protocol: Protocol,
    reason: &str,
    db: &ServiceDatabase,
    service_protocol: ServiceProtocol,
    stats: &mut ScanStats,
) -> (r: Vec<PortResult>)
    ensures
        are_port_results(r@, ports@, protocol, reason@, *db, service_protocol),
        *final(stats) == old(stats).probed(
            ports@.len() as int,
            open_count(ports@, ports@.len() as int) as int,
        ),
{
    let mut results: Vec<PortResult> = Vec::new();
    let mut i: usize = 0;
    while i < ports.len()
        invariant
            i <= ports.len(),
            are_port_results(
                results@,
                ports@.take(i as int),
                protocol,
                reason@,
                *db,
                service_protocol,
            ),
            *stats == old(stats).probed(i as int, open_count(ports@, i as int) as int),
        decreases ports.len() - i,
    {
        let (port, found) = ports[i];
        let service = service_info_from_db(db, port, service_protocol);
        results.push(port_result(port, protocol, found, reason, service));
        stats.record_probe(found);
        proof {
            state::probed_twice(
                *old(stats),
                i as int,
                open_count(ports@, i as int) as int,
                1,
                if found == PortState::Open {
                    1
                } else {
                    0
                },
            );
        }
        i += 1;
    }
    proof {
        assert(ports@.take(i as int) =~= ports@);
    }
    results
}

/// The protocol of a scan of all targets at once.
pub open spec fn parallel_protocol(scan_type: ScanType) -> (Protocol, ServiceProtocol) {
    if scan_type == ScanType::Udp {
        (Protocol::Udp, ServiceProtocol::Udp)
    } else {
        (Protocol::Tcp, ServiceProtocol::Tcp)
    }
}

/// The result for a target of a scan of all targets at once.
pub open spec fn is_parallel_result(
    r: HostResult,
    target: Target,
    ports: Seq<(u16, PortState)>,
    scan_type: ScanType,
    rtt: u128,
    mac: Option<MacAddress>,
    db: ServiceDatabase,
) -> bool {
    &&& are_port_results(
        r.ports@,
        ports,
        parallel_protocol(scan_type).0,
        "scan"@,
        db,
        parallel_protocol(scan_type).1,
    )
    &&& models::is_host_result(
        r,
        target,
        mac,
        if scan_type == ScanType::Udp {
            "udp-response"@
        } else {
            "syn-ack"@
        },
        rtt,
        r.ports@,
        Some((rtt / 1000) as u64),
    )
}

/// Makes the result for a target of a scan of all targets at once.
pub fn parallel_result(
    target: &Target,
    ports: &ScannedPorts,
    scan_type: ScanType,
    rtt: u128,
    mac: Option<MacAddress>,
    db: &ServiceDatabase,
    stats: &mut ScanStats,
) -> (r: HostResult)
    ensures
        is_parallel_result(r, *target, ports@, scan_type, rtt, mac, *db),
        *final(stats) == old(stats).probed(
            ports@.len() as int,
            open_count(ports@, ports@.len() as int) as int,
        ),
{
    let srtt: u64 = #[verifier::truncate]
    ((rtt / 1000) as u64);
    if scan_type == ScanType::Udp {
        let results = port_results(ports, Protocol::Udp, "scan", db, ServiceProtocol::Udp, stats);
        host_result(target, mac, "udp-response", rtt, results, Some(srtt))
    } else {
        let results = port_results(ports, Protocol::Tcp, "scan", db, ServiceProtocol::Tcp, stats);
        host_result(target, mac, "syn-ack", rtt, results, Some(srtt))
    }
}

/// The place of the last scan of `ip` among the first `n`: a later scan of an address
/// replaces an earlier one.
pub open spec fn scan_of(scans: Seq<TargetScan>, ip: IpAddr, n: int) -> Option<int>
    decreases n,
{
    if n <= 0 {
        None
    } else if ip == IpAddr::V4(scans[n - 1].ip) {
        Some(n - 1)
    } else {
        scan_of(scans, ip, n - 1)
    }
}

/// The places of those of the first `n` targets of which the scan found something.
pub open spec fn scanned_targets(targets: Seq<Target>, scans: Seq<TargetScan>, n: int) -> Seq<int>
    decreases n,
{
    if n <= 0 {
        Seq::empty()
    } else if scan_of(scans, targets[n - 1].ip, scans.len() as int) is Some {
        scanned_targets(targets, scans, n - 1).push(n - 1)
    } else {
        scanned_targets(targets, scans, n - 1)
    }
}

/// The number of probed and of open ports of the first `n` targets.
pub open spec fn probe_totals(targets: Seq<Target>, scans: Seq<TargetScan>, n: int) -> (nat, nat)
    decreases n,
{
    if n <= 0 {
        (0, 0)
    } else {
        let before = probe_totals(targets, scans, n - 1);
        match scan_of(scans, targets[n - 1].ip, scans.len() as int) {
            Some(s) => (
                before.0 + scans[s].ports@.len(),
                before.1 + open_count(scans[s].ports@, scans[s].ports@.len() as int),
            ),
            None => before,
        }
    }
}

/// Finds the last scan of a target.
#[must_use]
pub fn find_scan(scans: &Vec<TargetScan>, ip: IpAddr) -> (r: Option<usize>)
    ensures
        match r {
            Some(i) => i < scans@.len() && scan_of(scans@, ip, scans@.len() as int) == Some(
                i as int,
            ),
            None => scan_of(scans@, ip, scans@.len() as int) is None,
        },
{
    let mut n: usize = scans.len();
    while n > 0
        invariant
            n <= scans.len(),
            scan_of(scans@, ip, scans@.len() as int) == scan_of(scans@, ip, n as int),
        decreases n,
    {
        let here = match ip {
            IpAddr::V4(a) => a == scans[n - 1].ip,
            IpAddr::V6(_) => false,
        };
        if here {
            return Some(n - 1);
        }
        n -= 1;
    }
    None
}

/// A copy of a hardware address with its vendor.
pub fn clone_mac(mac: &Option<MacAddress>) -> (r: Option<MacAddress>)
    ensures
        r == *mac,
{
    match mac {
        Some(m) => Some(
            MacAddress { address: m.address.clone(), vendor: clone_text(&m.vendor) },
        ),
        None => None,
    }
}

/// The hardware address that is reported for a host: none for IPv6.
pub open spec fn reported_mac(ip: IpAddr, mac: Option<MacAddress>) -> Option<MacAddress> {
    match ip {
        IpAddr::V4(_) => mac,
        IpAddr::V6(_) => None,
    }
}

/// The hardware address that is reported for a host.
#[must_use]
pub fn mac_to_report(ip: IpAddr, mac: Option<MacAddress>) -> (r: Option<MacAddress>)
    ensures
        r == reported_mac(ip, mac),
{
    match ip {
        IpAddr::V4(_) => mac,
        IpAddr::V6(_) => None,
    }
}

/// Makes the results of a scan of all targets at once: one for each target of which
/// the scan found something, in the order of the targets. `macs` gives the hardware
/// address of each target.
pub fn parallel_results(
    targets: &Vec<Target>,
    scans: &Vec<TargetScan>,
    scan_type: ScanType,
    rtt: u128,
    macs: &Vec<Option<MacAddress>>,
    db: &ServiceDatabase,
    stats: &mut ScanStats,
) -> (r: Vec<HostResult>)
    requires
        macs@.len() == targets@.len(),
    ensures
        ({
            let places = scanned_targets(targets@, scans@, targets@.len() as int);
            &&& r@.len() == places.len()
            &&& forall|k: int|
                0 <= k < r@.len() ==> {
                    let t = places[k];
                    is_parallel_result(
                        #[trigger] r@[k],
                        targets@[t],
                        scans@[scan_of(
                            scans@,
                            targets@[t].ip,
                            scans@.len() as int,
                        ).unwrap()].ports@,
                        scan_type,
                        rtt,
                        macs@[t],
                        *db,
                    )
                }
        }),
        *final(stats) == old(stats).probed(
            probe_totals(targets@, scans@, targets@.len() as int).0 as int,
            probe_totals(targets@, scans@, targets@.len() as int).1 as int,
        ),
{
    let mut results: Vec<HostResult> = Vec::new();
    let mut i: usize = 0;
    while i < targets.len()
        invariant
            i <= targets.len(),
            macs@.len() == targets@.len(),
            results@.len() == scanned_targets(targets@, scans@, i as int).len(),
            forall|k: int|
                0 <= k < results@.len() ==> {
                    let t = scanned_targets(targets@, scans@, i as int)[k];
                    is_parallel_result(
                        #[trigger] results@[k],
                        targets@[t],
                        scans@[scan_of(
                            scans@,
                            targets@[t].ip,
                            scans@.len() as int,
                        ).unwrap()].ports@,
                        scan_type,
                        rtt,
                        macs@[t],
                        *db,
                    )
                },
            *stats == old(stats).probed(
                probe_totals(targets@, scans@, i as int).0 as int,
                probe_totals(targets@, scans@, i as int).1 as int,
            ),
        decreases targets.len() - i,
    {
        if let Some(s) = find_scan(scans, targets[i].ip) {
            proof {
                let t = probe_totals(targets@, scans@, i as int);
                let ports = scans@[s as int].ports@;
                state::probed_twice(
                    *old(stats),
                    t.0 as int,
                    t.1 as int,
                    ports.len() as int,
                    open_count(ports, ports.len() as int) as int,
                );
            }
            let mac = clone_mac(&macs[i]);
            results.push(
                parallel_result(&targets[i], &scans[s].ports, scan_type, rtt, mac, db, stats),
            );
        }
        i += 1;
    }
    results
}

/// The latency of a host that was not measured, in nanoseconds.
pub const ASSUMED_LATENCY: u128 = 1_000_000;

/// The state that a scan found for a port.
pub open spec fn state_of(found: Seq<(u16, PortState)>, port: u16, from: int) -> Option<PortState>
    decreases found.len() - from,
{
    if from < 0 || from >= found.len() {
        None
    } else if found[from].0 == port {
        Some(found[from].1)
    } else {
        state_of(found, port, from + 1)
    }
}

fn find_state(found: &ScannedPorts, port: u16) -> (r: Option<PortState>)
    ensures
        r == state_of(found@, port, 0),
{
    let mut i: usize = 0;
    while i < found.len()
        invariant
            i <= found.len(),
            state_of(found@, port, 0) == state_of(found@, port, i as int),
        decreases found.len() - i,
    {
        if found[i].0 == port {
            return Some(found[i].1);
        }
        i += 1;
    }
    None
}

/// Those of the first `n` ports that a scan found nothing of.
pub open spec fn unanswered(ports: Seq<u16>, found: Seq<(u16, PortState)>, n: int) -> Seq<u16>
    decreases n,
{
    if n <= 0 {
        Seq::empty()
    } else if state_of(found, ports[n - 1], 0) is None {
        unanswered(ports, found, n - 1).push(ports[n - 1])
    } else {
        unanswered(ports, found, n - 1)
    }
}

/// Ports that did not answer, as ports that may be open.
pub open spec fn silent(ports: Seq<u16>) -> Seq<(u16, PortState)> {
    Seq::new(ports.len(), |i: int| (ports[i], PortState::OpenOrFiltered))
}

/// The result for a target whose ports were all probed at once by raw probes: first
/// what the scan found, then the ports that did not answer.
pub open spec fn is_stealth_result(
    r: HostResult,
    target: Target,
    ports: Seq<u16>,
    found: Seq<(u16, PortState)>,
    mac: Option<MacAddress>,
    db: ServiceDatabase,
) -> bool {
    let missing = unanswered(ports, found, ports.len() as int);
    &&& r.ports@.len() == found.len() + missing.len()
    &&& are_port_results(
        r.ports@.take(found.len() as int),
        found,
        Protocol::Tcp,
        "batch-scan"@,
        db,
        ServiceProtocol::Tcp,
    )
    &&& are_port_results(
        r.ports@.skip(found.len() as int),
        silent(missing),
        Protocol::Tcp,
        "no-response"@,
        db,
        ServiceProtocol::Tcp,
    )
    &&& models::is_host_result(r, target, mac, "batch-scan"@, 1_000_000, r.ports@, None)
}

/// What a scan found of a port is found by its number.
proof fn lemma_state_of(found: Seq<(u16, PortState)>, port: u16, from: int)
    requires
        0 <= from <= found.len(),
        state_of(found, port, from) is Some,
    ensures
        exists|i: int| from <= i < found.len() && (#[trigger] found[i]).0 == port,
    decreases found.len() - from,
{
    if found[from].0 != port {
        lemma_state_of(found, port, from + 1);
    }
}

proof fn lemma_unanswered(ports: Seq<u16>, found: Seq<(u16, PortState)>, n: int, port: u16)
    requires
        0 <= n <= ports.len(),
        exists|i: int| 0 <= i < n && ports[i] == port,
        state_of(found, port, 0) is None,
    ensures
        unanswered(ports, found, n).contains(port),
    decreases n,
{
    let before = unanswered(ports, found, n - 1);
    let now = unanswered(ports, found, n);
    if ports[n - 1] == port {
        assert(now[now.len() - 1] == port);
    } else {
        lemma_unanswered(ports, found, n - 1, port);
        let j = choose|j: int| 0 <= j < before.len() && before[j] == port;
        assert(now[j] == port);
    }
}

/// Every port that was to be probed is reported, whether it answered or not.
pub proof fn stealth_results_cover_all_ports(
    r: HostResult,
    target: Target,
    ports: Seq<u16>,
    found: Seq<(u16, PortState)>,
    mac: Option<MacAddress>,
    db: ServiceDatabase,
    port: u16,
)
    requires
        is_stealth_result(r, target, ports, found, mac, db),
        ports.contains(port),
    ensures
        exists|i: int| 0 <= i < r.ports@.len() && (#[trigger] r.ports@[i]).number == port,
{
    let m = found.len() as int;
    if state_of(found, port, 0) is Some {
        lemma_state_of(found, port, 0);
        let i = choose|i: int| 0 <= i < found.len() && (#[trigger] found[i]).0 == port;
        assert(r.ports@.take(m)[i] == r.ports@[i]);
        assert(r.ports@[i].number == port);
    } else {
        let missing = unanswered(ports, found, ports.len() as int);
        lemma_unanswered(ports, found, ports.len() as int, port);
        let j = choose|j: int| 0 <= j < missing.len() && missing[j] == port;
        assert(r.ports@.skip(m)[j] == r.ports@[m + j]);
        assert(r.ports@[m + j].number == port);
    }
}

/// Makes the result for a target whose ports were all probed at once by raw probes.
pub fn stealth_result(
    target: &Target,
    ports: &Vec<u16>,
    found: &ScannedPorts,
    mac: Option<MacAddress>,
    db: &ServiceDatabase,
    stats: &mut ScanStats,
) -> (r: HostResult)
    ensures
        is_stealth_result(r, *target, ports@, found@, mac, *db),
        *final(stats) == old(stats).probed(
            (found@.len() + unanswered(ports@, found@, ports@.len() as int).len()) as int,
            open_count(found@, found@.len() as int) as int,
        ),
{
    let mut results = port_results(
        found,
        Protocol::Tcp,
        "batch-scan",
        db,
        ServiceProtocol::Tcp,
        stats,
    );
    let ghost first = results@;
    let ghost counted = *stats;
    let mut i: usize = 0;
    while i < ports.len()
        invariant
            i <= ports.len(),
            first.len() == found@.len(),
            results@.len() == first.len() + unanswered(ports@, found@, i as int).len(),
            results@.take(first.len() as int) == first,
            are_port_results(
                results@.skip(first.len() as int),
                silent(unanswered(ports@, found@, i as int)),
                Protocol::Tcp,
                "no-response"@,
                *db,
                ServiceProtocol::Tcp,
            ),
            *stats == counted.probed(unanswered(ports@, found@, i as int).len() as int, 0),
        decreases ports.len() - i,
    {
        let port: u16 = ports[i];
        if find_state(found, port).is_none() {
            let ghost before = results@;
            let ghost missing = unanswered(ports@, found@, i as int);
            let service = service_info_from_db(db, port, ServiceProtocol::Tcp);
            results.push(
                port_result(
                    port,
                    Protocol::Tcp,
                    PortState::OpenOrFiltered,
                    "no-response",
                    service,
                ),
            );
            stats.record_probe(PortState::OpenOrFiltered);
            proof {
                state::probed_twice(counted, missing.len() as int, 0, 1, 0);
                assert(results@.take(first.len() as int) =~= before.take(first.len() as int));
                let tail = results@.skip(first.len() as int);
                assert(tail =~= before.skip(first.len() as int).push(results@.last()));
                let now = silent(missing.push(port));
                assert(now =~= silent(missing).push((port, PortState::OpenOrFiltered)));
            }
        }
        i += 1;
    }
    proof {
        state::probed_twice(
            *old(stats),
            found@.len() as int,
            open_count(found@, found@.len() as int) as int,
            unanswered(ports@, found@, ports@.len() as int).len() as int,
            0,
        );
    }
    host_result(target, mac, "batch-scan", ASSUMED_LATENCY, results, None)
}

/// The ports with the states that connecting found: a port without an answer counts
/// as filtered.
pub open spec fn connected_states(ports: Seq<u16>, found: Seq<(u16, PortState)>) -> Seq<
    (u16, PortState),
> {
    Seq::new(
        ports.len(),
        |i: int|
            (
                ports[i],
                match state_of(found, ports[i], 0) {
                    Some(s) => s,
                    None => PortState::Filtered,
                },
            ),
    )
}

/// The result for a target whose ports were all tried at once by connecting.
pub open spec fn is_connect_result(
    r: HostResult,
    target: Target,
    ports: Seq<u16>,
    found: Seq<(u16, PortState)>,
    mac: Option<MacAddress>,
    db: ServiceDatabase,
) -> bool {
    &&& are_port_results(
        r.ports@,
        connected_states(ports, found),
        Protocol::Tcp,
        "connect-scan"@,
        db,
        ServiceProtocol::Tcp,
    )
    &&& models::is_host_result(r, target, mac, "connect-scan"@, 1_000_000, r.ports@, None)
}

/// Every port that was to be tried is reported once, in the order of the ports.
pub proof fn connect_results_cover_all_ports(
    r: HostResult,
    target: Target,
    ports: Seq<u16>,
    found: Seq<(u16, PortState)>,
    mac: Option<MacAddress>,
    db: ServiceDatabase,
)
    requires
        is_connect_result(r, target, ports, found, mac, db),
    ensures
        r.ports@.len() == ports.len(),
        forall|i: int| 0 <= i < ports.len() ==> (#[trigger] r.ports@[i]).number == ports[i],
{
    assert forall|i: int| 0 <= i < ports.len() implies (#[trigger] r.ports@[i]).number
        == ports[i] by {
        assert(connected_states(ports, found)[i].0 == ports[i]);
    }
}

/// Makes the result for a target whose ports were all tried at once by connecting.
pub fn connect_result(
    target: &Target,
    ports: &Vec<u16>,
    found: &ScannedPorts,
    mac: Option<MacAddress>,
    db: &ServiceDatabase,
    stats: &mut ScanStats,
) -> (r: HostResult)
    ensures
        is_connect_result(r, *target, ports@, found@, mac, *db),
        *final(stats) == old(stats).probed(
            ports@.len() as int,
            open_count(connected_states(ports@, found@), ports@.len() as int) as int,
        ),
{
    let mut states: ScannedPorts = Vec::new();
    let mut i: usize = 0;
    while i < ports.len()
        invariant
            i <= ports.len(),
            states@ == connected_states(ports@.take(i as int), found@),
        decreases ports.len() - i,
    {
        let state = match find_state(found, ports[i]) {
            Some(s) => s,
            None => PortState::Filtered,
        };
        states.push((ports[i], state));
        proof {
            assert(states@ =~= connected_states(ports@.take(i + 1), found@));
        }
        i += 1;
    }
    proof {
        assert(ports@.take(i as int) =~= ports@);
    }
    let results = port_results(
        &states,
        Protocol::Tcp,
        "connect-scan",
        db,
        ServiceProtocol::Tcp,
        stats,
    );
    host_result(target, mac, "connect-scan", ASSUMED_LATENCY, results, None)
}

/// A scanner for single ports.
#[derive(Clone, Copy, Debug, PartialEq, Eq, Structural)]
pub enum Scanner {
    Syn,
    Connect,
    Fin,
    Null,
    Xmas,
    Ack,
    Window,
    Maimon,
    Udp,
    IpProtocol,
}

/// Whether a scanner hides its probes among those of decoys, where decoys are
/// configured.
#[must_use]
pub fn takes_decoys(scanner: Scanner) -> (r: bool)
    ensures
        r == (scanner is Fin || scanner is Null || scanner is Xmas || scanner is Maimon),
{
    match scanner {
        Scanner::Fin | Scanner::Null | Scanner::Xmas | Scanner::Maimon => true,
        _ => false,
    }
}

/// How a single port is scanned.
#[derive(Debug)]
pub enum PortRoute {
    /// Not at all: this is the result.
    Done(PortResult),
    /// With this scanner.
    Probe(Scanner),
}

/// The scanner for a scan type; there is none for SCTP.
pub open spec fn scanner_for(scan_type: ScanType) -> Option<Scanner> {
    match scan_type {
        ScanType::TcpSyn => Some(Scanner::Syn),
        ScanType::TcpConnect => Some(Scanner::Connect),
        ScanType::TcpFin => Some(Scanner::Fin),
        ScanType::TcpNull => Some(Scanner::Null),
        ScanType::TcpXmas => Some(Scanner::Xmas),
        ScanType::TcpAck => Some(Scanner::Ack),
        ScanType::TcpWindow => Some(Scanner::Window),
        ScanType::TcpMaimon => Some(Scanner::Maimon),
        ScanType::Udp => Some(Scanner::Udp),
        ScanType::IpProtocol => Some(Scanner::IpProtocol),
        ScanType::SctpInit => None,
    }
}

/// Decides how a single port of a target is scanned.
#[must_use]
pub fn scan_port_route(scan_type: ScanType, ip: IpAddr, port: u16) -> (r: PortRoute)
    ensures
        match r {
            PortRoute::Probe(s) => ip is V4 && scanner_for(scan_type) == Some(s),
            PortRoute::Done(result) => result.service is None && if ip is V6 {
                models::is_port_result(
                    result,
                    port,
                    Protocol::Tcp,
                    PortState::Filtered,
                    "ipv6-not-supported"@,
                )
            } else {
                scanner_for(scan_type) is None && models::is_port_result(
                    result,
                    port,
                    Protocol::Sctp,
                    PortState::Filtered,
                    "sctp-not-yet-implemented"@,
                )
            },
        },
{
    match ip {
        IpAddr::V6(_) => {
            return PortRoute::Done(
                port_result(port, Protocol::Tcp, PortState::Filtered, "ipv6-not-supported", None),
            );
        },
        IpAddr::V4(_) => {},
    }
    match scan_type {
        ScanType::TcpSyn => PortRoute::Probe(Scanner::Syn),
        ScanType::TcpConnect => PortRoute::Probe(Scanner::Connect),
        ScanType::TcpFin => PortRoute::Probe(Scanner::Fin),
        ScanType::TcpNull => PortRoute::Probe(Scanner::Null),
        ScanType::TcpXmas => PortRoute::Probe(Scanner::Xmas),
        ScanType::TcpAck => PortRoute::Probe(Scanner::Ack),
        ScanType::TcpWindow => PortRoute::Probe(Scanner::Window),
        ScanType::TcpMaimon => PortRoute::Probe(Scanner::Maimon),
        ScanType::Udp => PortRoute::Probe(Scanner::Udp),
        ScanType::IpProtocol => PortRoute::Probe(Scanner::IpProtocol),
        ScanType::SctpInit => PortRoute::Done(
            port_result(
                port,
                Protocol::Sctp,
                PortState::Filtered,
                "sctp-not-yet-implemented",
                None,
            ),
        ),
    }
}

/// What a scanner for a single port brought.
#[derive(Clone, Copy, Debug, PartialEq, Eq, Structural)]
pub enum ProbeOutcome {
    /// The scanner could not be made, for want of a raw socket.
    NoScanner,
    /// The probe failed.
    Failed,
    /// The port has this state.
    Found(PortState),
}

/// What follows the probe of a single port.
#[derive(Debug)]
pub enum PortStep {
    /// This is the result.
    Done(PortResult),
    /// Try to connect instead.
    Connect,
}

/// Why a port has a state.
pub open spec fn state_reason(state: PortState) -> Seq<char> {
    match state {
        PortState::Open => "response-received"@,
        PortState::Closed => "rst-received"@,
        PortState::OpenOrClosed => "ambiguous"@,
        _ => "no-response"@,
    }
}

/// The protocol that a single port is reported with.
pub open spec fn reported_protocol(scanner: Scanner) -> Protocol {
    if scanner == Scanner::Udp {
        Protocol::Udp
    } else {
        Protocol::Tcp
    }
}

/// Decides what the outcome of a probe of a single port means. Without a raw socket
/// a TCP probe is replaced by connecting, the others are given up.
#[must_use]
pub fn scan_port_outcome(
    scanner: Scanner,
    port: u16,
    outcome: ProbeOutcome,
    db: &ServiceDatabase,
) -> (r: PortStep)
    ensures
        match outcome {
            ProbeOutcome::Found(state) => {
                &&& r matches PortStep::Done(result)
                &&& models::is_port_result(
                    result,
                    port,
                    reported_protocol(scanner),
                    state,
                    state_reason(state),
                )
                &&& is_table_service(
                    result.service,
                    *db,
                    port,
                    if scanner == Scanner::Udp {
                        ServiceProtocol::Udp
                    } else {
                        ServiceProtocol::Tcp
                    },
                )
            },
            ProbeOutcome::Failed => {
                &&& r matches PortStep::Done(result)
                &&& models::is_port_result(
                    result,
                    port,
                    reported_protocol(scanner),
                    PortState::Filtered,
                    "scan-error"@,
                )
                &&& result.service is None
            },
            ProbeOutcome::NoScanner => match scanner {
                Scanner::Udp => {
                    &&& r matches PortStep::Done(result)
                    &&& models::is_port_result(
                        result,
                        port,
                        Protocol::Udp,
                        PortState::Filtered,
                        "udp-scan-error"@,
                    )
                    &&& result.service is None
                },
                Scanner::IpProtocol => {
                    &&& r matches PortStep::Done(result)
                    &&& models::is_port_result(
                        result,
                        port,
                        Protocol::Tcp,
                        PortState::Filtered,
                        "ip-protocol-scanner-init-failed"@,
                    )
                    &&& result.service is None
                },
                _ => r == PortStep::Connect,
            },
        },
{
    let protocol = match scanner {
        Scanner::Udp => Protocol::Udp,
        _ => Protocol::Tcp,
    };
    match outcome {
        ProbeOutcome::NoScanner => match scanner {
            Scanner::Udp => PortStep::Done(
                port_result(port, Protocol::Udp, PortState::Filtered, "udp-scan-error", None),
            ),
            Scanner::IpProtocol => PortStep::Done(
                port_result(
                    port,
                    Protocol::Tcp,
                    PortState::Filtered,
                    "ip-protocol-scanner-init-failed",
                    None,
                ),
            ),
            _ => PortStep::Connect,
        },
        ProbeOutcome::Failed => PortStep::Done(
            port_result(port, protocol, PortState::Filtered, "scan-error", None),
        ),
        ProbeOutcome::Found(state) => {
            let reason = match state {
                PortState::Open => "response-received",
                PortState::Closed => "rst-received",
                PortState::OpenOrClosed => "ambiguous",
                _ => "no-response",
            };
            let service_protocol = match scanner {
                Scanner::Udp => ServiceProtocol::Udp,
                _ => ServiceProtocol::Tcp,
            };
            PortStep::Done(
                port_result(
                    port,
                    protocol,
                    state,
                    reason,
                    service_info_from_db(db, port, service_protocol),
                ),
            )
        },
    }
}

/// What trying to connect brought.
#[derive(Clone, Copy, Debug, PartialEq, Eq, Structural)]
pub enum ConnectOutcome {
    Connected,
    Refused,
    TimedOut,
    Failed,
}

/// What an attempt to connect says of a port.
pub open spec fn connect_verdict(outcome: ConnectOutcome) -> (PortState, Seq<char>) {
    match outcome {
        ConnectOutcome::Connected => (PortState::Open, "syn-ack"@),
        ConnectOutcome::Refused => (PortState::Closed, "conn-refused"@),
        ConnectOutcome::TimedOut => (PortState::Filtered, "timeout"@),
        ConnectOutcome::Failed => (PortState::Filtered, "error"@),
    }
}

/// Makes the result for a port that was tried by connecting.
#[must_use]
pub fn scan_port_connect(port: u16, outcome: ConnectOutcome, db: &ServiceDatabase) -> (r:
    PortResult)
    ensures
        models::is_port_result(
            r,
            port,
            Protocol::Tcp,
            connect_verdict(outcome).0,
            connect_verdict(outcome).1,
        ),
        is_table_service(r.service, *db, port, ServiceProtocol::Tcp),
{
    let service = service_info_from_db(db, port, ServiceProtocol::Tcp);
    match outcome {
        ConnectOutcome::Connected => port_result(
            port,
            Protocol::Tcp,
            PortState::Open,
            "syn-ack",
            service,
        ),
        ConnectOutcome::Refused => port_result(
            port,
            Protocol::Tcp,
            PortState::Closed,
            "conn-refused",
            service,
        ),
        ConnectOutcome::TimedOut => port_result(
            port,
            Protocol::Tcp,
            PortState::Filtered,
            "timeout",
            service,
        ),
        ConnectOutcome::Failed => port_result(
            port,
            Protocol::Tcp,
            PortState::Filtered,
            "error",
            service,
        ),
    }
}

/// The scanner for a batch of raw probes to one target; there is none for the other
/// scan types.
#[must_use]
pub fn batch_scanner(scan_type: ScanType) -> (r: Option<Scanner>)
    ensures
        r == match scan_type {
            ScanType::TcpFin => Some(Scanner::Fin),
            ScanType::TcpNull => Some(Scanner::Null),
            ScanType::TcpXmas => Some(Scanner::Xmas),
            ScanType::TcpMaimon => Some(Scanner::Maimon),
            ScanType::TcpAck => Some(Scanner::Ack),
            ScanType::TcpWindow => Some(Scanner::Window),
            ScanType::Udp => Some(Scanner::Udp),
            _ => None,
        },
{
    match scan_type {
        ScanType::TcpFin => Some(Scanner::Fin),
        ScanType::TcpNull => Some(Scanner::Null),
        ScanType::TcpXmas => Some(Scanner::Xmas),
        ScanType::TcpMaimon => Some(Scanner::Maimon),
        ScanType::TcpAck => Some(Scanner::Ack),
        ScanType::TcpWindow => Some(Scanner::Window),
        ScanType::Udp => Some(Scanner::Udp),
        _ => None,
    }
}

/// A port is probed with the scanner of the scan type and reported with its protocol:
/// different scan types have different scanners, the scanner for UDP is that of the UDP
/// scan and of no other, and its results are the only ones that are reported with UDP.
pub proof fn scan_types_have_their_own_scanners(a: ScanType, b: ScanType)
    ensures
        scanner_for(a) is None <==> a is SctpInit,
        scanner_for(a) == scanner_for(b) ==> a == b,
        scanner_for(a) == Some(Scanner::Udp) <==> a is Udp,
        scanner_for(a) == Some(Scanner::Connect) <==> a is TcpConnect,
        scanner_for(a) == Some(Scanner::Syn) <==> a is TcpSyn,
        scanner_for(a) == Some(Scanner::Fin) <==> a is TcpFin,
        scanner_for(a) == Some(Scanner::Null) <==> a is TcpNull,
        scanner_for(a) == Some(Scanner::Xmas) <==> a is TcpXmas,
        scanner_for(a) == Some(Scanner::Ack) <==> a is TcpAck,
        scanner_for(a) == Some(Scanner::Window) <==> a is TcpWindow,
        scanner_for(a) == Some(Scanner::Maimon) <==> a is TcpMaimon,
        scanner_for(a) == Some(Scanner::IpProtocol) <==> a is IpProtocol,
        scanner_for(a) matches Some(s) ==> (reported_protocol(s) == Protocol::Udp <==> a is Udp),
        scanner_for(a) matches Some(s) ==> reported_protocol(s) == parallel_protocol(a).0,
        parallel_protocol(a).0 == Protocol::Udp <==> a is Udp,
        parallel_protocol(a).1 == ServiceProtocol::Udp <==> a is Udp,
        parallel_protocol(a).0 != Protocol::Sctp,
{
}

/// A state is reported with the reason that belongs to it: an answer for an open port, a
/// refusal for a closed one, silence for the states that silence leaves open.
pub proof fn reasons_belong_to_states(a: PortState, b: PortState)
    ensures
        a is Open ==> state_reason(a) == "response-received"@,
        a is Closed ==> state_reason(a) == "rst-received"@,
        a is OpenOrClosed ==> state_reason(a) == "ambiguous"@,
        a is Filtered || a is Unfiltered || a is OpenOrFiltered || a is ClosedOrFiltered
            ==> state_reason(a) == "no-response"@,
        state_reason(a) == state_reason(b) ==> (a is Open <==> b is Open) && (a is Closed
            <==> b is Closed) && (a is OpenOrClosed <==> b is OpenOrClosed),
{
    reveal_strlit("response-received");
    reveal_strlit("rst-received");
    reveal_strlit("ambiguous");
    reveal_strlit("no-response");
    assert(state_reason(a).len() == state_reason(b).len() || state_reason(a) != state_reason(b));
}

/// Connecting shows that a port is open if and only if a connection came about, and that
/// it is closed if and only if the connection was refused; anything else leaves it
/// filtered. The reason tells the outcomes apart.
pub proof fn connecting_shows_the_state(a: ConnectOutcome, b: ConnectOutcome)
    ensures
        connect_verdict(a).0 == PortState::Open <==> a is Connected,
        connect_verdict(a).0 == PortState::Closed <==> a is Refused,
        connect_verdict(a).0 == PortState::Filtered <==> a is TimedOut || a is Failed,
        a is Connected ==> connect_verdict(a).1 == "syn-ack"@,
        a is Refused ==> connect_verdict(a).1 == "conn-refused"@,
        a is TimedOut ==> connect_verdict(a).1 == "timeout"@,
        a is Failed ==> connect_verdict(a).1 == "error"@,
        connect_verdict(a).1 == connect_verdict(b).1 ==> a == b,
{
    reveal_strlit("syn-ack");
    reveal_strlit("conn-refused");
    reveal_strlit("timeout");
    reveal_strlit("error");
    let p = connect_verdict(a).1;
    let q = connect_verdict(b).1;
    if p == q {
        assert(p.len() == q.len() && p[0] == q[0]);
    }
}

/// The targets that are scanned are those that are not down, and in a ping sweep those
/// that are up are reported, whatever else is known of them: each target is kept or not
/// for its own status alone.
pub proof fn targets_are_chosen_by_status(targets: Seq<Target>, state: ScanState, t: Target)
    ensures
        up_targets(targets, state).contains(t) <==> targets.contains(t) && state.status_of(t.ip)
            == HostStatus::Up,
        alive_targets(targets, state).contains(t) <==> targets.contains(t) && (state.status_of(t.ip)
            == HostStatus::Up || state.status_of(t.ip) == HostStatus::Unknown),
{
    let up = |t: Target| state.status_of(t.ip) == HostStatus::Up;
    let alive = |t: Target| state.status_of(t.ip) != HostStatus::Down;
    lemma_filter_contains(targets, up, t);
    lemma_filter_contains(targets, alive, t);
}

proof fn lemma_filter_contains<A>(s: Seq<A>, keep: spec_fn(A) -> bool, x: A)
    ensures
        s.filter(keep).contains(x) <==> s.contains(x) && keep(x),
    decreases s.len(),
{
    reveal(Seq::filter);
    if s.len() > 0 {
        let rest = s.drop_last();
        lemma_filter_contains(rest, keep, x);
        let all = s.filter(keep);
        let before = rest.filter(keep);
        if before.contains(x) {
            let i = before.index_of(x);
            assert(all[i] == x);
        }
        if rest.contains(x) {
            let i = rest.index_of(x);
            assert(s[i] == x);
        }
        if s.last() == x {
            assert(s[s.len() - 1] == x);
            if keep(x) {
                assert(all[all.len() - 1] == x);
            }
        }
        if all.contains(x) {
            let i = all.index_of(x);
            if i < before.len() {
                assert(before[i] == x);
            }
        }
        if s.contains(x) {
            let i = s.index_of(x);
            if i < rest.len() {
                assert(rest[i] == x);
            }
        }
    }
}

/// Raw probes reach neither IPv6 nor the own machine.
pub proof fn raw_probes_stay_out(t: Target)
    ensures
        needs_fallback(t) <==> t.ip is V6 || t.ip.loopback(),
{
}

/// A host is known to be near if ARP found it or it is this machine.
pub proof fn near_hosts_were_found_locally(state: ScanState, ip: IpAddr)
    ensures
        !state.hosts().contains_key(ip) ==> !found_locally(state, ip),
        state.hosts().contains_key(ip) ==> (found_locally(state, ip) <==> (
        state.hosts()[ip].is(state.hosts()[ip].status, "arp-response"@) || state.hosts()[ip].is(
            state.hosts()[ip].status,
            "local-address"@,
        ))),
{
}

/// The round trip time of a scan is that of the last target of which one is known; a
/// near target counts as a millisecond away.
pub proof fn the_last_known_rtt_counts(local: Seq<bool>, measured: Seq<Option<u128>>, n: int, k: int)
    requires
        0 <= k < n,
        forall|j: int| k < j < n ==> !(#[trigger] local[j]) && measured[j] is None,
    ensures
        local[k] ==> last_rtt(local, measured, n) == Some(LOCAL_RTT),
        !local[k] && measured[k] is Some ==> last_rtt(local, measured, n) == measured[k],
        k == 0 && !local[k] && measured[k] is None ==> last_rtt(local, measured, n) is None,
    decreases n,
{
    if k < n - 1 {
        assert(!local[n - 1]);
        the_last_known_rtt_counts(local, measured, n - 1, k);
    } else if k == 0 {
        assert(last_rtt(local, measured, 0) is None);
    }
}

/// Open ports are counted by their state alone.
pub proof fn open_ports_are_counted(ports: Seq<(u16, PortState)>, n: int)
    requires
        0 <= n <= ports.len(),
    ensures
        open_count(ports, n) == ports.take(n).filter(
            |p: (u16, PortState)| p.1 == PortState::Open,
        ).len(),
    decreases n,
{
    reveal(Seq::filter);
    let open = |p: (u16, PortState)| p.1 == PortState::Open;
    if n > 0 {
        open_ports_are_counted(ports, n - 1);
        assert(ports.take(n).drop_last() =~= ports.take(n - 1));
    } else {
        assert(ports.take(n) =~= Seq::empty());
    }
}

/// Of several scans of an address the last one counts, and an address that was not
/// scanned has none.
pub proof fn the_last_scan_counts(scans: Seq<TargetScan>, ip: IpAddr, n: int)
    requires
        n <= scans.len(),
    ensures
        match scan_of(scans, ip, n) {
            Some(s) => {
                &&& 0 <= s < n
                &&& ip == IpAddr::V4(scans[s].ip)
                &&& forall|j: int| s < j < n ==> ip != IpAddr::V4((#[trigger] scans[j]).ip)
            },
            None => forall|j: int| 0 <= j < n ==> ip != IpAddr::V4((#[trigger] scans[j]).ip),
        },
    decreases n,
{
    if n > 0 {
        the_last_scan_counts(scans, ip, n - 1);
    }
}

/// The reported targets are exactly those that were scanned, once each and in their
/// order.
pub proof fn scanned_targets_are_reported(targets: Seq<Target>, scans: Seq<TargetScan>, n: int)
    requires
        n <= targets.len(),
    ensures
        forall|t: int|
            0 <= t < n ==> (scanned_targets(targets, scans, n).contains(t) <==> exists|s: int|
                0 <= s < scans.len() && (#[trigger] targets[t]).ip == IpAddr::V4(
                    (#[trigger] scans[s]).ip,
                )),
        forall|i: int|
            0 <= i < scanned_targets(targets, scans, n).len() ==> 0 <= #[trigger] scanned_targets(
                targets,
                scans,
                n,
            )[i] < n,
        forall|i: int, j: int|
            0 <= i < j < scanned_targets(targets, scans, n).len() ==> #[trigger] scanned_targets(
                targets,
                scans,
                n,
            )[i] < #[trigger] scanned_targets(targets, scans, n)[j],
    decreases n,
{
    if n > 0 {
        scanned_targets_are_reported(targets, scans, n - 1);
        the_last_scan_counts(scans, targets[n - 1].ip, scans.len() as int);
        let before = scanned_targets(targets, scans, n - 1);
        let now = scanned_targets(targets, scans, n);
        assert forall|t: int| 0 <= t < n implies (now.contains(t) <==> exists|s: int|
            0 <= s < scans.len() && (#[trigger] targets[t]).ip == IpAddr::V4(
                (#[trigger] scans[s]).ip,
            )) by {
            if t < n - 1 {
                if before.contains(t) {
                    let i = before.index_of(t);
                    assert(now[i] == t);
                }
                if now.contains(t) {
                    let i = now.index_of(t);
                    assert(before[i] == t);
                }
            } else {
                if now.contains(t) {
                    let i = now.index_of(t);
                    if now.len() == before.len() {
                        assert(before[i] == t);
                    } else {
                        let s = scan_of(scans, targets[t].ip, scans.len() as int).unwrap();
                        assert(targets[t].ip == IpAddr::V4(scans[s].ip));
                    }
                }
                if exists|s: int|
                    0 <= s < scans.len() && (#[trigger] targets[t]).ip == IpAddr::V4(
                        (#[trigger] scans[s]).ip,
                    ) {
                    assert(now[now.len() - 1] == t);
                }
            }
        }
    } else {
        assert(scanned_targets(targets, scans, n).len() == 0);
    }
}

/// Each target that was scanned counts with all its probed ports and with its open ones.
pub proof fn probes_are_added_up(targets: Seq<Target>, scans: Seq<TargetScan>, n: int)
    requires
        n >= 0,
    ensures
        probe_totals(targets, scans, 0) == (0nat, 0nat),
        match scan_of(scans, targets[n].ip, scans.len() as int) {
            Some(s) => {
                &&& probe_totals(targets, scans, n + 1).0 == probe_totals(targets, scans, n).0
                    + scans[s].ports@.len()
                &&& probe_totals(targets, scans, n + 1).1 == probe_totals(targets, scans, n).1
                    + scans[s].ports@.filter(|p: (u16, PortState)| p.1 == PortState::Open).len()
            },
            None => probe_totals(targets, scans, n + 1) == probe_totals(targets, scans, n),
        },
{
    the_last_scan_counts(scans, targets[n].ip, scans.len() as int);
    if let Some(s) = scan_of(scans, targets[n].ip, scans.len() as int) {
        let ports = scans[s].ports@;
        open_ports_are_counted(ports, ports.len() as int);
        assert(ports.take(ports.len() as int) =~= ports);
    }
}

/// A hardware address is reported for IPv4, as it was found.
pub proof fn hardware_addresses_are_for_ipv4(ip: IpAddr, mac: Option<MacAddress>)
    ensures
        ip is V4 ==> reported_mac(ip, mac) == mac,
        ip is V6 ==> reported_mac(ip, mac) is None,
{
}

/// What was found of a port is what its first entry says.
pub proof fn the_first_entry_of_a_port_counts(
    found: Seq<(u16, PortState)>,
    port: u16,
    from: int,
)
    requires
        0 <= from <= found.len(),
    ensures
        match state_of(found, port, from) {
            Some(s) => exists|i: int|
                {
                    &&& from <= i < found.len()
                    &&& #[trigger] found[i] == (port, s)
                    &&& forall|j: int| from <= j < i ==> (#[trigger] found[j]).0 != port
                },
            None => forall|j: int| from <= j < found.len() ==> (#[trigger] found[j]).0 != port,
        },
    decreases found.len() - from,
{
    if from < found.len() {
        if found[from].0 == port {
            assert(found[from] == (port, found[from].1));
        } else {
            the_first_entry_of_a_port_counts(found, port, from + 1);
            if let Some(s) = state_of(found, port, from + 1) {
                let i = choose|i: int|
                    {
                        &&& from + 1 <= i < found.len()
                        &&& #[trigger] found[i] == (port, s)
                        &&& forall|j: int| from + 1 <= j < i ==> (#[trigger] found[j]).0 != port
                    };
                assert(found[i] == (port, s));
            }
        }
    }
}

/// A port that did not answer to raw probes is open or filtered; one that no connection
/// was tried to is filtered; one that was found in a state is reported in it.
pub proof fn silence_is_reported(ports: Seq<u16>, found: Seq<(u16, PortState)>, i: int)
    requires
        0 <= i < ports.len(),
    ensures
        silent(ports).len() == ports.len(),
        silent(ports)[i] == (ports[i], PortState::OpenOrFiltered),
        connected_states(ports, found).len() == ports.len(),
        connected_states(ports, found)[i].0 == ports[i],
        (forall|j: int| 0 <= j < found.len() ==> (#[trigger] found[j]).0 != ports[i])
            ==> connected_states(ports, found)[i].1 == PortState::Filtered,
        !(forall|j: int| 0 <= j < found.len() ==> (#[trigger] found[j]).0 != ports[i])
            ==> found.contains(connected_states(ports, found)[i]),
        unanswered(ports, found, ports.len() as int).contains(ports[i]) <==> (forall|j: int|
            0 <= j < found.len() ==> (#[trigger] found[j]).0 != ports[i]),
{
    the_first_entry_of_a_port_counts(found, ports[i], 0);
    lemma_unanswered_contains(ports, found, ports.len() as int, ports[i]);
    assert(ports.contains(ports[i]));
}

proof fn lemma_unanswered_contains(
    ports: Seq<u16>,
    found: Seq<(u16, PortState)>,
    n: int,
    port: u16,
)
    requires
        0 <= n <= ports.len(),
    ensures
        unanswered(ports, found, n).contains(port) <==> state_of(found, port, 0) is None
            && exists|i: int| 0 <= i < n && ports[i] == port,
    decreases n,
{
    let now = unanswered(ports, found, n);
    if n > 0 {
        let before = unanswered(ports, found, n - 1);
        lemma_unanswered_contains(ports, found, n - 1, port);
        if before.contains(port) {
            let i = before.index_of(port);
            assert(now[i] == port);
        }
        if now.contains(port) {
            let i = now.index_of(port);
            if i < before.len() {
                assert(before[i] == port);
            } else {
                assert(ports[n - 1] == port);
            }
        }
        if ports[n - 1] == port && state_of(found, port, 0) is None {
            assert(now[now.len() - 1] == port);
        }
    } else {
        assert(now.len() == 0);
    }
}

/// A service out of the table has the name that the table gives to the port and nothing
/// that only probing could find out; a port without an entry has no service.
pub proof fn table_services_have_names_only(
    service: Option<ServiceInfo>,
    db: ServiceDatabase,
    port: u16,
    protocol: ServiceProtocol,
)
    requires
        is_table_service(service, db, port, protocol),
    ensures
        service is Some <==> db.service_name(port, protocol) is Some,
        service matches Some(s) ==> {
            &&& db.service_name(port, protocol) == Some(s.name)
            &&& s.product is None && s.version is None && s.extrainfo is None
            &&& s.hostname is None && s.ostype is None && s.devicetype is None
            &&& s.method@ == "table"@
            &&& s.confidence == 3
            &&& s.cpe@.len() == 0
        },
{
}

/// The ports of a result are the given ones, in their order, each with its number, its
/// state, the protocol and the reason, and with its service of the table.
pub proof fn port_results_are_as_given(
    results: Seq<PortResult>,
    ports: Seq<(u16, PortState)>,
    protocol: Protocol,
    reason: Seq<char>,
    db: ServiceDatabase,
    service_protocol: ServiceProtocol,
    i: int,
)
    requires
        are_port_results(results, ports, protocol, reason, db, service_protocol),
        0 <= i < ports.len(),
    ensures
        results.len() == ports.len(),
        results[i].number == ports[i].0,
        results[i].state == ports[i].1,
        results[i].protocol == protocol,
        results[i].state_reason@ == reason,
        results[i].service is Some <==> db.service_name(ports[i].0, service_protocol) is Some,
        results[i].service matches Some(s) ==> db.service_name(ports[i].0, service_protocol) == Some(
            s.name,
        ),
{
    let r = results[i];
    models::port_results_hold_what_was_given(r, ports[i].0, protocol, ports[i].1, reason);
    table_services_have_names_only(r.service, db, ports[i].0, service_protocol);
}

/// A host that was scanned together with others is up, with the address, the name and the
/// hardware address of its target, and with the ports that the scan found; its protocol
/// and reason are those of the scan type.
pub proof fn parallel_results_are_as_found(
    r: HostResult,
    target: Target,
    ports: Seq<(u16, PortState)>,
    scan_type: ScanType,
    rtt: u128,
    mac: Option<MacAddress>,
    db: ServiceDatabase,
)
    requires
        is_parallel_result(r, target, ports, scan_type, rtt, mac, db),
    ensures
        r.ip == target.ip,
        r.hostname == target.hostname,
        r.mac == mac,
        r.status == HostStatus::Up,
        r.latency == rtt,
        scan_type is Udp ==> r.status_reason@ == "udp-response"@,
        !(scan_type is Udp) ==> r.status_reason@ == "syn-ack"@,
        r.ports@.len() == ports.len(),
        forall|i: int|
            0 <= i < ports.len() ==> (#[trigger] r.ports@[i]).number == ports[i].0
                && r.ports@[i].state == ports[i].1 && (r.ports@[i].protocol == Protocol::Udp
                <==> scan_type is Udp) && r.ports@[i].state_reason@ == "scan"@,
{
    models::host_results_hold_what_was_given(
        r,
        target,
        mac,
        r.status_reason@,
        rtt,
        r.ports@,
        r.times.srtt,
    );
    let p = parallel_protocol(scan_type);
    scan_types_have_their_own_scanners(scan_type, scan_type);
    assert forall|i: int| 0 <= i < ports.len() implies (#[trigger] r.ports@[i]).number == ports[i].0
        && r.ports@[i].state == ports[i].1 && (r.ports@[i].protocol == Protocol::Udp
        <==> scan_type is Udp) && r.ports@[i].state_reason@ == "scan"@ by {
        port_results_are_as_given(r.ports@, ports, p.0, "scan"@, db, p.1, i);
    }
}

/// A host whose ports were scanned in a batch is up, with the address, the name and the
/// hardware address of its target.
pub proof fn batch_results_are_of_their_targets(
    r: HostResult,
    target: Target,
    ports: Seq<u16>,
    found: Seq<(u16, PortState)>,
    mac: Option<MacAddress>,
    db: ServiceDatabase,
)
    requires
        is_stealth_result(r, target, ports, found, mac, db) || is_connect_result(
            r,
            target,
            ports,
            found,
            mac,
            db,
        ),
    ensures
        r.ip == target.ip,
        r.hostname == target.hostname,
        r.mac == mac,
        r.status == HostStatus::Up,
        is_connect_result(r, target, ports, found, mac, db) ==> forall|i: int|
            0 <= i < ports.len() ==> (#[trigger] r.ports@[i]).number == ports[i]
                && r.ports@[i].protocol == Protocol::Tcp && r.ports@[i].state == connected_states(
                ports,
                found,
            )[i].1,
        is_stealth_result(r, target, ports, found, mac, db) ==> forall|i: int|
            0 <= i < r.ports@.len() ==> (#[trigger] r.ports@[i]).protocol == Protocol::Tcp && if i
                < found.len() {
                r.ports@[i].number == found[i].0 && r.ports@[i].state == found[i].1
            } else {
                r.ports@[i].state == PortState::OpenOrFiltered
            },
{
    let tcp = ServiceProtocol::Tcp;
    if is_connect_result(r, target, ports, found, mac, db) {
        models::host_results_hold_what_was_given(
            r,
            target,
            mac,
            "connect-scan"@,
            1_000_000,
            r.ports@,
            None,
        );
        let states = connected_states(ports, found);
        assert forall|i: int| 0 <= i < ports.len() implies (#[trigger] r.ports@[i]).number
            == ports[i] && r.ports@[i].protocol == Protocol::Tcp && r.ports@[i].state
            == states[i].1 by {
            port_results_are_as_given(
                r.ports@,
                states,
                Protocol::Tcp,
                "connect-scan"@,
                db,
                tcp,
                i,
            );
            silence_is_reported(ports, found, i);
        }
    }
    if is_stealth_result(r, target, ports, found, mac, db) {
        models::host_results_hold_what_was_given(
            r,
            target,
            mac,
            "batch-scan"@,
            1_000_000,
            r.ports@,
            None,
        );
        let m = found.len() as int;
        let missing = unanswered(ports, found, ports.len() as int);
        assert forall|i: int| 0 <= i < r.ports@.len() implies (#[trigger] r.ports@[i]).protocol
            == Protocol::Tcp && if i < m {
            r.ports@[i].number == found[i].0 && r.ports@[i].state == found[i].1
        } else {
            r.ports@[i].state == PortState::OpenOrFiltered
        } by {
            if i < m {
                port_results_are_as_given(
                    r.ports@.take(m),
                    found,
                    Protocol::Tcp,
                    "batch-scan"@,
                    db,
                    tcp,
                    i,
                );
                assert(r.ports@.take(m)[i] == r.ports@[i]);
            } else {
                port_results_are_as_given(
                    r.ports@.skip(m),
                    silent(missing),
                    Protocol::Tcp,
                    "no-response"@,
                    db,
                    tcp,
                    i - m,
                );
                assert(r.ports@.skip(m)[i - m] == r.ports@[i]);
                silence_is_reported(missing, found, i - m);
            }
        }
    }
}

} // verus!
