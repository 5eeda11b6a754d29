//! What a scan reports.
use crate::addr::IpAddr;
use vstd::prelude::*;

verus! {

/// State of a port.
#[derive(Clone, Copy, Debug, PartialEq, Eq, Structural)]
pub enum PortState {
    Open,
    Closed,
    Filtered,
    Unfiltered,
    OpenOrFiltered,
    ClosedOrFiltered,
    OpenOrClosed,
}

/// Transport protocol.
#[derive(Clone, Copy, Debug, PartialEq, Eq, Structural)]
pub enum Protocol {
    Tcp,
    Udp,
    Sctp,
}

/// State of a host.
#[derive(Clone, Copy, Debug, PartialEq, Eq, Structural)]
pub enum HostStatus {
    Up,
    Down,
    Unknown,
}

/// A service behind a port.
#[derive(Debug)]
pub struct ServiceInfo {
    pub name: String,
    pub product: Option<String>,
    pub version: Option<String>,
    pub extrainfo: Option<String>,
    pub hostname: Option<String>,
    pub ostype: Option<String>,
    pub devicetype: Option<String>,
    /// How the service was found out.
    pub method: String,
    /// How sure that is, from 0 to 10.
    pub confidence: u8,
    pub cpe: Vec<String>,
}

/// What a script reported.
#[derive(Debug)]
pub struct ScriptResult {
    pub id: String,
    pub output: String,
    pub elements: Vec<String>,
}

/// A scanned port.
#[derive(Debug)]
pub struct PortResult {
    pub number: u16,
    pub protocol: Protocol,
    pub state: PortState,
    pub state_reason: String,
    pub state_ttl: Option<u8>,
    pub service: Option<ServiceInfo>,
    pub scripts: Vec<ScriptResult>,
}

/// Hardware address of a host, with the vendor if it is known.
#[derive(Debug)]
pub struct MacAddress {
    pub address: String,
    pub vendor: Option<String>,
}

/// A guess at the operating system of a host.
#[derive(Debug)]
pub struct OsMatch {
    pub name: String,
    pub accuracy: u8,
    pub os_family: Option<String>,
    pub os_generation: Option<String>,
    pub vendor: Option<String>,
    pub device_type: Option<String>,
    pub cpe: Vec<String>,
}

/// A hop on the way to a host.
#[derive(Debug)]
pub struct TracerouteHop {
    pub ttl: u8,
    pub ip: IpAddr,
    pub hostname: Option<String>,
    /// Round trip time in nanoseconds.
    pub rtt: Option<u128>,
}

/// The way to a host.
#[derive(Debug)]
pub struct TracerouteResult {
    pub protocol: Protocol,
    pub port: u16,
    pub hops: Vec<TracerouteHop>,
}

/// Timing of a host, in microseconds.
#[derive(Clone, Copy, Debug, PartialEq, Eq, Structural)]
pub struct HostTimes {
    pub srtt: Option<u64>,
    pub rttvar: Option<u64>,
    pub timeout: Option<u64>,
}

/// A scanned host.
#[derive(Debug)]
pub struct HostResult {
    pub ip: IpAddr,
    pub mac: Option<MacAddress>,
    pub hostname: Option<String>,
    pub status: HostStatus,
    pub status_reason: String,
    /// Round trip time in nanoseconds.
    pub latency: u128,
    pub ports: Vec<PortResult>,
    pub os_matches: Vec<OsMatch>,
    pub scripts: Vec<ScriptResult>,
    pub traceroute: Option<TracerouteResult>,
    pub times: HostTimes,
}

/// A target of a scan.
#[derive(Debug)]
pub struct Target {
    pub ip: IpAddr,
    pub hostname: Option<String>,
}

/// How ports are probed.
#[derive(Clone, Copy, Debug, PartialEq, Eq, Structural)]
pub enum ScanType {
    TcpSyn,
    TcpConnect,
    TcpFin,
    TcpNull,
    TcpXmas,
    TcpAck,
    TcpWindow,
    TcpMaimon,
    Udp,
    SctpInit,
    IpProtocol,
}

/// A copy of an optional text.
pub fn clone_text(t: &Option<String>) -> (r: Option<String>)
    ensures
        r == *t,
{
    match t {
        Some(s) => Some(s.clone()),
        None => None,
    }
}

/// A copy of a list of texts.
pub fn clone_texts(t: &Vec<String>) -> (r: Vec<String>)
    ensures
        r@ == t@,
{
    let mut r: Vec<String> = Vec::new();
    let mut i: usize = 0;
    while i < t.len()
        invariant
            i <= t.len(),
            r@ == t@.take(i as int),
        decreases t.len() - i,
    {
        r.push(t[i].clone());
        proof {
            assert(t@.take(i + 1) =~= t@.take(i as int).push(t@[i as int]));
        }
        i += 1;
    }
    proof {
        assert(t@.take(i as int) =~= t@);
    }
    r
}

/// A copy of a target.
pub fn clone_target(t: &Target) -> (r: Target)
    ensures
        r == *t,
{
    Target { ip: t.ip, hostname: clone_text(&t.hostname) }
}

/// A port result without TTL and scripts.
pub open spec fn is_port_result(
    r: PortResult,
    number: u16,
    protocol: Protocol,
    state: PortState,
    reason: Seq<char>,
) -> bool {
    &&& r.number == number
    &&& r.protocol == protocol
    &&& r.state == state
    &&& r.state_reason@ == reason
    &&& r.state_ttl is None
    &&& r.scripts@ == Seq::<ScriptResult>::empty()
}

/// A result for a host that is up, of which nothing more is known than this.
pub open spec fn is_host_result(
    r: HostResult,
    target: Target,
    mac: Option<MacAddress>,
    reason: Seq<char>,
    latency: u128,
    ports: Seq<PortResult>,
    srtt: Option<u64>,
) -> bool {
    &&& r.ip == target.ip
    &&& r.mac == mac
    &&& r.hostname == target.hostname
    &&& r.status == HostStatus::Up
    &&& r.status_reason@ == reason
    &&& r.latency == latency
    &&& r.ports@ == ports
    &&& r.os_matches@ == Seq::<OsMatch>::empty()
    &&& r.scripts@ == Seq::<ScriptResult>::empty()
    &&& r.traceroute is None
    &&& r.times == (HostTimes { srtt, rttvar: None, timeout: None })
}

/// Makes a port result without TTL and scripts.
pub fn port_result(
    number: u16,
    protocol: Protocol,
    state: PortState,
    reason: &str,
    service: Option<ServiceInfo>,
) -> (r: PortResult)
    ensures
        is_port_result(r, number, protocol, state, reason@),
        r.service == service,
{
    let r = PortResult {
        number,
        protocol,
        state,
        state_reason: reason.to_string(),
        state_ttl: None,
        service,
        scripts: Vec::new(),
    };
    assert(r.scripts@ =~= Seq::<ScriptResult>::empty());
    r
}

/// Makes a result for a host that is up.
pub fn host_result(
    target: &Target,
    mac: Option<MacAddress>,
    reason: &str,
    latency: u128,
    ports: Vec<PortResult>,
    srtt: Option<u64>,
) -> (r: HostResult)
    ensures
        is_host_result(r, *target, mac, reason@, latency, ports@, srtt),
{
    HostResult {
        ip: target.ip,
        mac,
        hostname: clone_text(&target.hostname),
        status: HostStatus::Up,
        status_reason: reason.to_string(),
        latency,
        ports,
        os_matches: Vec::new(),
        scripts: Vec::new(),
        traceroute: None,
        times: HostTimes { srtt, rttvar: None, timeout: None },
    }
}

/// A port result holds the number, the protocol, the state and the reason that it was made
/// with, and nothing else yet.
pub proof fn port_results_hold_what_was_given(
    r: PortResult,
    number: u16,
    protocol: Protocol,
    state: PortState,
    reason: Seq<char>,
)
    requires
        is_port_result(r, number, protocol, state, reason),
    ensures
        r.number == number,
        r.protocol == protocol,
        r.state == state,
        r.state_reason@ == reason,
        r.state_ttl is None,
        r.scripts@.len() == 0,
{
}

/// A host result is of a host that is up, with the address and the name of its target and
/// with what it was made with, and nothing else yet.
pub proof fn host_results_hold_what_was_given(
    r: HostResult,
    target: Target,
    mac: Option<MacAddress>,
    reason: Seq<char>,
    latency: u128,
    ports: Seq<PortResult>,
    srtt: Option<u64>,
)
    requires
        is_host_result(r, target, mac, reason, latency, ports, srtt),
    ensures
        r.ip == target.ip,
        r.hostname == target.hostname,
        r.mac == mac,
        r.status == HostStatus::Up,
        r.status_reason@ == reason,
        r.latency == latency,
        r.ports@ == ports,
        r.times.srtt == srtt,
        r.times.rttvar is None,
        r.times.timeout is None,
        r.os_matches@.len() == 0,
        r.scripts@.len() == 0,
        r.traceroute is None,
{
}

} // verus!
