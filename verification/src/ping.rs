//! The ping methods: what each of them sends, and which answers it takes.
use crate::addr::{IpAddr, Ipv4Addr, Ipv6Addr};
use crate::discovery::{
    probe_reply, Discovery, HostDiscoveryMethod, HostState, PingRun, ProbeEvent, ScanError,
};
use crate::error::OsError;
use crate::models::Target;
use crate::packet6::{
    parse_icmpv6_echo_reply, parse_icmpv6_neighbor_advertisement, parse_tcpv6_response,
    Icmpv6PacketBuilder, Tcpv6PacketBuilder,
};
use crate::text::joined;
use crate::wire::{low_byte, low_half};
use crate::{discovery, packet6};
use vstd::prelude::*;

verus! {

/// The ports that are probed if none are given.
pub open spec fn default_ports() -> Seq<u16> {
    seq![80u16, 443, 22]
}

/// The ports to probe.
pub open spec fn ports_or_default(ports: Seq<u16>) -> Seq<u16> {
    if ports.len() == 0 {
        default_ports()
    } else {
        ports
    }
}

fn default_if_empty(ports: Vec<u16>) -> (r: Vec<u16>)
    ensures
        r@ == ports_or_default(ports@),
{
    if ports.len() == 0 {
        let r: Vec<u16> = vec![80, 443, 22];
        assert(r@ =~= default_ports());
        r
    } else {
        ports
    }
}

/// The unspecified IPv6 address.
pub open spec fn unspecified_v6() -> Ipv6Addr {
    Ipv6Addr { s0: 0, s1: 0, s2: 0, s3: 0, s4: 0, s5: 0, s6: 0, s7: 0 }
}

/// The error for a raw socket that could not be created.
pub open spec fn is_socket_error(socket: Result<i32, OsError>, e: ScanError) -> bool {
    match (socket, e) {
        (Err(os), ScanError::PermissionDenied { operation }) => operation@
            == "create raw socket: "@ + os.message@,
        _ => false,
    }
}

fn raw_socket(socket: Result<i32, OsError>) -> (r: Result<i32, ScanError>)
    ensures
        match r {
            Ok(fd) => socket == Ok::<i32, OsError>(fd),
            Err(e) => is_socket_error(socket, e),
        },
{
    match socket {
        Ok(fd) => Ok(fd),
        Err(os) => Err(
            ScanError::PermissionDenied {
                operation: joined("create raw socket: ", os.message.as_str()),
            },
        ),
    }
}

/// Generates a source port from the number of the process.
#[must_use]
pub fn generate_source_port(pid: u32) -> (r: u16)
    ensures
        r == 60000 + pid % 1000,
{
    60000 + (pid % 1000) as u16
}

/// Generates an initial sequence number from the time and the number of the process.
#[must_use]
pub fn generate_sequence_number(nanos: u128, pid: u32) -> (r: u32)
    ensures
        r == (nanos + pid) % 0x1_0000_0000,
{
    let lower: u32 = (nanos % 0x1_0000_0000) as u32;
    lower.wrapping_add(pid)
}

/// What is read out of a TCP segment.
#[derive(Debug, Clone, Copy, PartialEq, Eq, Structural)]
pub struct TcpResponse {
    pub flags: u8,
    pub seq: u32,
    pub ack: u32,
    pub src_port: u16,
}

/// A TCP probe.
#[derive(Debug, Clone, Copy, PartialEq, Eq, Structural)]
pub struct TcpProbe {
    pub src_ip: Ipv4Addr,
    pub dst_ip: Ipv4Addr,
    pub src_port: u16,
    pub dst_port: u16,
    pub seq: u32,
    pub flags: u8,
    pub window: u16,
}

/// The segment answers a SYN from `seq` to `dst_port`: a SYN-ACK, or an RST.
pub open spec fn answers_syn(dst_port: u16, seq: u32, response: Option<TcpResponse>) -> bool {
    match response {
        Some(t) => t.src_port == dst_port && t.ack == (seq + 1) % 0x1_0000_0000 && ((t.flags & 0x02
            != 0 && t.flags & 0x10 != 0) || t.flags & 0x04 != 0),
        None => false,
    }
}

/// The segment answers an ACK to `dst_port`: an RST.
pub open spec fn answers_ack(dst_port: u16, response: Option<TcpResponse>) -> bool {
    match response {
        Some(t) => t.src_port == dst_port && t.flags & 0x04 != 0,
        None => false,
    }
}

fn is_syn_answer(dst_port: u16, seq: u32, response: Option<TcpResponse>) -> (r: bool)
    ensures
        r == answers_syn(dst_port, seq, response),
{
    match response {
        Some(t) => {
            if t.src_port != dst_port {
                return false;
            }
            let expected_ack: u32 = seq.wrapping_add(1);
            if t.ack != expected_ack {
                return false;
            }
            let syn_received = (t.flags & 0x02) != 0;
            let ack_received = (t.flags & 0x10) != 0;
            let rst_received = (t.flags & 0x04) != 0;
            (syn_received && ack_received) || rst_received
        },
        None => false,
    }
}

/// The probe was answered if something was received that is an answer.
pub open spec fn judged<T>(event: ProbeEvent<T>, answers: spec_fn(T) -> bool) -> Result<
    bool,
    ScanError,
> {
    match discovery::reply_of(event) {
        Ok(Some(x)) => Ok(answers(x)),
        Ok(None) => Ok(false),
        Err(e) => Err(e),
    }
}

fn copied(ports: &Vec<u16>) -> (r: Vec<u16>)
    ensures
        r@ == ports@,
{
    let mut r: Vec<u16> = Vec::new();
    let mut i: usize = 0;
    while i < ports.len()
        invariant
            i <= ports.len(),
            r@ == ports@.take(i as int),
        decreases ports.len() - i,
    {
        r.push(ports[i]);
        proof {
            assert(r@ =~= ports@.take(i + 1));
        }
        i += 1;
    }
    proof {
        assert(ports@.take(i as int) =~= ports@);
    }
    r
}

/// A run that is not over ports.
fn portless_run(retries: u8) -> (r: PingRun)
    ensures
        r@ == discovery::fresh_run(seq![0u16], retries),
        r@.wf(),
{
    let ports: Vec<u16> = vec![0];
    assert(ports@ =~= seq![0u16]);
    PingRun::new(ports, retries)
}

fn is_ack_answer(dst_port: u16, response: Option<TcpResponse>) -> (r: bool)
    ensures
        r == answers_ack(dst_port, response),
{
    match response {
        Some(t) => t.src_port == dst_port && (t.flags & 0x04) != 0,
        None => false,
    }
}

/// An ICMP probe.
#[derive(Debug, Clone, Copy, PartialEq, Eq, Structural)]
pub struct EchoProbe {
    pub src_ip: Ipv4Addr,
    pub dst_ip: Ipv4Addr,
    pub identifier: u16,
    pub sequence: u16,
}

/// TCP SYN Ping discovery method.
///
/// Sends TCP SYN packets to specified ports. If SYN-ACK is received, the host is
/// considered up. If RST is received, the host is also considered up (port closed but
/// host responsive).
#[derive(Debug)]
pub struct TcpSynPing {
    /// Local IP address for probes.
    pub local_addr: Ipv4Addr,
    /// Raw socket for packet transmission.
    pub socket: i32,
    /// Ports to probe.
    pub ports: Vec<u16>,
    /// Timeout for each probe, in nanoseconds.
    pub timeout: u128,
    /// Number of retries.
    pub retries: u8,
}

impl TcpSynPing {
    /// Default ports to probe if none specified.
    pub const DEFAULT_PORTS: [u16; 3] = [80, 443, 22];

    /// The protocol of the raw socket.
    pub const PROTOCOL: u8 = 6;

    /// Creates a new TCP SYN Ping discovery method over a raw socket; the default ports
    /// are probed if none are given.
    pub fn new(
        local_addr: Ipv4Addr,
        ports: Vec<u16>,
        timeout: u128,
        retries: u8,
        socket: Result<i32, OsError>,
    ) -> (r: Result<Self, ScanError>)
        ensures
            match r {
                Ok(p) => socket == Ok::<i32, OsError>(p.socket) && p.local_addr == local_addr
                    && p.ports@ == ports_or_default(ports@) && p.timeout == timeout && p.retries
                    == retries,
                Err(e) => is_socket_error(socket, e),
            },
    {
        match raw_socket(socket) {
            Ok(socket) => Ok(
                Self { local_addr, socket, ports: default_if_empty(ports), timeout, retries },
            ),
            Err(e) => Err(e),
        }
    }

    /// The TCP SYN probe to a specific port.
    #[must_use]
    pub fn send_syn_probe(&self, dst_addr: Ipv4Addr, dst_port: u16, pid: u32, nanos: u128) -> (r:
        TcpProbe)
        ensures
            r.src_ip == self.local_addr,
            r.dst_ip == dst_addr,
            r.src_port == 60000 + pid % 1000,
            r.dst_port == dst_port,
            r.seq == (nanos + pid) % 0x1_0000_0000,
            r.flags == 0x02,
            r.window == 65535,
    {
        TcpProbe {
            src_ip: self.local_addr,
            dst_ip: dst_addr,
            src_port: generate_source_port(pid),
            dst_port,
            seq: generate_sequence_number(nanos, pid),
            flags: 0x02,
            window: 65535,
        }
    }

    /// Whether what became of the probe says that the host is up.
    pub fn syn_answer(probe: &TcpProbe, event: ProbeEvent<Option<TcpResponse>>) -> (r: Result<
        bool,
        ScanError,
    >)
        ensures
            r == judged(event, |t: Option<TcpResponse>| answers_syn(probe.dst_port, probe.seq, t)),
    {
        match probe_reply(event) {
            Ok(Some(t)) => Ok(is_syn_answer(probe.dst_port, probe.seq, t)),
            Ok(None) => Ok(false),
            Err(e) => Err(e),
        }
    }
}

impl HostDiscoveryMethod for TcpSynPing {
    open spec fn settles(&self, target: Target) -> Option<HostState> {
        match target.ip {
            IpAddr::V4(_) => None,
            IpAddr::V6(_) => Some(HostState::Unknown),
        }
    }

    open spec fn probes(&self) -> (Seq<u16>, u8) {
        (self.ports@, self.retries)
    }

    fn discover(&self, target: &Target) -> (r: Discovery) {
        match target.ip {
            IpAddr::V4(_) => Discovery::Probe(PingRun::new(copied(&self.ports), self.retries)),
            IpAddr::V6(_) => Discovery::Settled(HostState::Unknown),
        }
    }

    fn requires_root(&self) -> (r: bool)
        ensures
            r,
    {
        true
    }
}

/// TCP ACK Ping discovery method.
///
/// Sends TCP ACK packets to specified ports. If RST is received, the host is considered
/// up. This works against stateful firewalls that block SYN packets but allow ACK.
#[derive(Debug)]
pub struct TcpAckPing {
    /// Local IP address for probes.
    pub local_addr: Ipv4Addr,
    /// Raw socket for packet transmission.
    pub socket: i32,
    /// Ports to probe.
    pub ports: Vec<u16>,
    /// Timeout for each probe, in nanoseconds.
    pub timeout: u128,
    /// Number of retries.
    pub retries: u8,
}

impl TcpAckPing {
    /// Default ports to probe if none specified.
    pub const DEFAULT_PORTS: [u16; 3] = [80, 443, 22];

    /// The protocol of the raw socket.
    pub const PROTOCOL: u8 = 6;

    /// Creates a new TCP ACK Ping discovery method over a raw socket; the default ports
    /// are probed if none are given.
    pub fn new(
        local_addr: Ipv4Addr,
        ports: Vec<u16>,
        timeout: u128,
        retries: u8,
        socket: Result<i32, OsError>,
    ) -> (r: Result<Self, ScanError>)
        ensures
            match r {
                Ok(p) => socket == Ok::<i32, OsError>(p.socket) && p.local_addr == local_addr
                    && p.ports@ == ports_or_default(ports@) && p.timeout == timeout && p.retries
                    == retries,
                Err(e) => is_socket_error(socket, e),
            },
    {
        match raw_socket(socket) {
            Ok(socket) => Ok(
                Self { local_addr, socket, ports: default_if_empty(ports), timeout, retries },
            ),
            Err(e) => Err(e),
        }
    }

    /// The TCP ACK probe to a specific port.
    #[must_use]
    pub fn send_ack_probe(&self, dst_addr: Ipv4Addr, dst_port: u16, pid: u32, nanos: u128) -> (r:
        TcpProbe)
        ensures
            r.src_ip == self.local_addr,
            r.dst_ip == dst_addr,
            r.src_port == 60000 + pid % 1000,
            r.dst_port == dst_port,
            r.seq == (nanos + pid) % 0x1_0000_0000,
            r.flags == 0x10,
            r.window == 65535,
    {
        TcpProbe {
            src_ip: self.local_addr,
            dst_ip: dst_addr,
            src_port: generate_source_port(pid),
            dst_port,
            seq: generate_sequence_number(nanos, pid),
            flags: 0x10,
            window: 65535,
        }
    }

    /// Whether what became of the probe says that the host is up.
    pub fn ack_answer(probe: &TcpProbe, event: ProbeEvent<Option<TcpResponse>>) -> (r: Result<
        bool,
        ScanError,
    >)
        ensures
            r == judged(event, |t: Option<TcpResponse>| answers_ack(probe.dst_port, t)),
    {
        match probe_reply(event) {
            Ok(Some(t)) => Ok(is_ack_answer(probe.dst_port, t)),
            Ok(None) => Ok(false),
            Err(e) => Err(e),
        }
    }
}

impl HostDiscoveryMethod for TcpAckPing {
    open spec fn settles(&self, target: Target) -> Option<HostState> {
        match target.ip {
            IpAddr::V4(_) => None,
            IpAddr::V6(_) => Some(HostState::Unknown),
        }
    }

    open spec fn probes(&self) -> (Seq<u16>, u8) {
        (self.ports@, self.retries)
    }

    fn discover(&self, target: &Target) -> (r: Discovery) {
        match target.ip {
            IpAddr::V4(_) => Discovery::Probe(PingRun::new(copied(&self.ports), self.retries)),
            IpAddr::V6(_) => Discovery::Settled(HostState::Unknown),
        }
    }

    fn requires_root(&self) -> (r: bool)
        ensures
            r,
    {
        true
    }
}

/// ICMP Echo Ping discovery method.
///
/// Sends ICMP echo request packets (ping). If echo reply is received, the host is
/// considered up.
#[derive(Debug)]
pub struct IcmpPing {
    /// Local IP address for probes.
    pub local_addr: Ipv4Addr,
    /// Raw socket for packet transmission.
    pub socket: i32,
    /// Timeout for each probe, in nanoseconds.
    pub timeout: u128,
    /// Number of retries.
    pub retries: u8,
    /// ICMP identifier.
    pub identifier: u16,
}

impl IcmpPing {
    /// The protocol of the raw socket.
    pub const PROTOCOL: u8 = 1;

    /// Creates a new ICMP Echo Ping discovery method over a raw socket; the identifier is the
    /// lower half of the number of the process.
    pub fn new(
        local_addr: Ipv4Addr,
        timeout: u128,
        retries: u8,
        pid: u32,
        socket: Result<i32, OsError>,
    ) -> (r: Result<Self, ScanError>)
        ensures
            match r {
                Ok(p) => socket == Ok::<i32, OsError>(p.socket) && p.local_addr == local_addr
                    && p.timeout == timeout && p.retries == retries && p.identifier == pid % 65536,
                Err(e) => is_socket_error(socket, e),
            },
    {
        match raw_socket(socket) {
            Ok(socket) => Ok(
                Self { local_addr, socket, timeout, retries, identifier: low_half(pid) },
            ),
            Err(e) => Err(e),
        }
    }

    /// The ICMP echo request probe.
    #[must_use]
    pub fn send_echo_probe(&self, dst_addr: Ipv4Addr, sequence: u16) -> (r: EchoProbe)
        ensures
            r == (EchoProbe {
                src_ip: self.local_addr,
                dst_ip: dst_addr,
                identifier: self.identifier,
                sequence,
            }),
    {
        EchoProbe {
            src_ip: self.local_addr,
            dst_ip: dst_addr,
            identifier: self.identifier,
            sequence,
        }
    }

    /// Whether what became of the probe says that the host is up: the answer has the
    /// identifier and the sequence number of the probe.
    pub fn echo_answer(&self, sequence: u16, event: ProbeEvent<Option<(u16, u16)>>) -> (r: Result<
        bool,
        ScanError,
    >)
        ensures
            r == judged(
                event,
                |reply: Option<(u16, u16)>| reply == Some((self.identifier, sequence)),
            ),
    {
        match probe_reply(event) {
            Ok(Some(Some((id, seq)))) => Ok(id == self.identifier && seq == sequence),
            Ok(_) => Ok(false),
            Err(e) => Err(e),
        }
    }
}

impl HostDiscoveryMethod for IcmpPing {
    open spec fn settles(&self, target: Target) -> Option<HostState> {
        match target.ip {
            IpAddr::V4(_) => None,
            IpAddr::V6(_) => Some(HostState::Unknown),
        }
    }

    open spec fn probes(&self) -> (Seq<u16>, u8) {
        (seq![0u16], self.retries)
    }

    fn discover(&self, target: &Target) -> (r: Discovery) {
        match target.ip {
            IpAddr::V4(_) => Discovery::Probe(portless_run(self.retries)),
            IpAddr::V6(_) => Discovery::Settled(HostState::Unknown),
        }
    }

    fn requires_root(&self) -> (r: bool)
        ensures
            r,
    {
        true
    }
}

/// ICMP Timestamp Ping discovery method.
///
/// Sends ICMP timestamp request packets. If timestamp reply is received, the host is
/// considered up. This is useful when echo requests are blocked.
#[derive(Debug)]
pub struct IcmpTimestampPing {
    /// Local IP address for probes.
    pub local_addr: Ipv4Addr,
    /// Raw socket for packet transmission.
    pub socket: i32,
    /// Timeout for each probe, in nanoseconds.
    pub timeout: u128,
    /// Number of retries.
    pub retries: u8,
    /// ICMP identifier.
    pub identifier: u16,
}

impl IcmpTimestampPing {
    /// The protocol of the raw socket.
    pub const PROTOCOL: u8 = 1;

    /// Creates a new ICMP Timestamp Ping discovery method over a raw socket; the identifier is the
    /// lower half of the number of the process.
    pub fn new(
        local_addr: Ipv4Addr,
        timeout: u128,
        retries: u8,
        pid: u32,
        socket: Result<i32, OsError>,
    ) -> (r: Result<Self, ScanError>)
        ensures
            match r {
                Ok(p) => socket == Ok::<i32, OsError>(p.socket) && p.local_addr == local_addr
                    && p.timeout == timeout && p.retries == retries && p.identifier == pid % 65536,
                Err(e) => is_socket_error(socket, e),
            },
    {
        match raw_socket(socket) {
            Ok(socket) => Ok(
                Self { local_addr, socket, timeout, retries, identifier: low_half(pid) },
            ),
            Err(e) => Err(e),
        }
    }

    /// The ICMP timestamp request probe.
    #[must_use]
    pub fn send_timestamp_probe(&self, dst_addr: Ipv4Addr, sequence: u16) -> (r: EchoProbe)
        ensures
            r == (EchoProbe {
                src_ip: self.local_addr,
                dst_ip: dst_addr,
                identifier: self.identifier,
                sequence,
            }),
    {
        EchoProbe {
            src_ip: self.local_addr,
            dst_ip: dst_addr,
            identifier: self.identifier,
            sequence,
        }
    }

    /// Whether what became of the probe says that the host is up: the answer has the
    /// identifier and the sequence number of the probe.
    pub fn timestamp_answer(&self, sequence: u16, event: ProbeEvent<Option<(u16, u16)>>) -> (r: Result<
        bool,
        ScanError,
    >)
        ensures
            r == judged(
                event,
                |reply: Option<(u16, u16)>| reply == Some((self.identifier, sequence)),
            ),
    {
        match probe_reply(event) {
            Ok(Some(Some((id, seq)))) => Ok(id == self.identifier && seq == sequence),
            Ok(_) => Ok(false),
            Err(e) => Err(e),
        }
    }
}

impl HostDiscoveryMethod for IcmpTimestampPing {
    open spec fn settles(&self, target: Target) -> Option<HostState> {
        match target.ip {
            IpAddr::V4(_) => None,
            IpAddr::V6(_) => Some(HostState::Unknown),
        }
    }

    open spec fn probes(&self) -> (Seq<u16>, u8) {
        (seq![0u16], self.retries)
    }

    fn discover(&self, target: &Target) -> (r: Discovery) {
        match target.ip {
            IpAddr::V4(_) => Discovery::Probe(portless_run(self.retries)),
            IpAddr::V6(_) => Discovery::Settled(HostState::Unknown),
        }
    }

    fn requires_root(&self) -> (r: bool)
        ensures
            r,
    {
        true
    }
}

/// `ICMPv6` Echo Ping discovery method for IPv6.
///
/// Sends `ICMPv6` echo request packets (ping). If echo reply is received, the host is
/// considered up.
#[derive(Debug)]
pub struct Icmpv6Ping {
    /// Local IPv6 address for probes.
    pub local_addr: Ipv6Addr,
    /// Raw socket for packet transmission.
    pub socket: i32,
    /// Timeout for each probe, in nanoseconds.
    pub timeout: u128,
    /// Number of retries.
    pub retries: u8,
    /// `ICMPv6` identifier.
    pub identifier: u16,
}

/// The echo request with this identifier and sequence number.
pub open spec fn echo_request(
    src_ip: Ipv6Addr,
    dst_ip: Ipv6Addr,
    identifier: u16,
    sequence: u16,
) -> packet6::Icmpv6Model {
    packet6::Icmpv6Model {
        src_ip,
        dst_ip,
        kind: 128,
        code: 0,
        identifier,
        sequence,
        target_address: None,
    }
}

impl Icmpv6Ping {
    /// The protocol of the raw socket.
    pub const PROTOCOL: u8 = 58;

    /// Creates a new `ICMPv6` ping discovery method over a raw socket; the identifier
    /// is the lower half of the number of the process.
    pub fn new(
        local_addr: Ipv6Addr,
        timeout: u128,
        retries: u8,
        pid: u32,
        socket: Result<i32, OsError>,
    ) -> (r: Result<Self, ScanError>)
        ensures
            match r {
                Ok(p) => socket == Ok::<i32, OsError>(p.socket) && p.local_addr == local_addr
                    && p.timeout == timeout && p.retries == retries && p.identifier == pid % 65536,
                Err(e) => is_socket_error(socket, e),
            },
    {
        match raw_socket(socket) {
            Ok(socket) => Ok(
                Self { local_addr, socket, timeout, retries, identifier: low_half(pid) },
            ),
            Err(e) => Err(e),
        }
    }

    /// The `ICMPv6` echo request probe.
    #[must_use]
    pub fn send_echo_probe(&self, dst_addr: Ipv6Addr, sequence: u16) -> (r: Vec<u8>)
        ensures
            r@ == packet6::icmpv6_packet(
                echo_request(self.local_addr, dst_addr, self.identifier, sequence),
            ),
    {
        Icmpv6PacketBuilder::echo_request(self.local_addr, dst_addr).identifier(
            self.identifier,
        ).sequence(sequence).build()
    }

    /// Whether what became of the probe says that the host is up: the packet is an
    /// echo reply with the identifier and the sequence number of the probe.
    pub fn echo_answer(&self, sequence: u16, event: ProbeEvent<Vec<u8>>) -> (r: Result<
        bool,
        ScanError,
    >)
        ensures
            r == judged(
                event,
                |p: Vec<u8>| packet6::echo_reply_in(p@) == Some((self.identifier, sequence)),
            ),
    {
        match probe_reply(event) {
            Ok(Some(packet)) => match parse_icmpv6_echo_reply(packet.as_slice()) {
                Some((id, seq)) => Ok(id == self.identifier && seq == sequence),
                None => Ok(false),
            },
            Ok(None) => Ok(false),
            Err(e) => Err(e),
        }
    }
}

/// The echo reply that a host sends to an echo request is taken for its answer.
pub proof fn echo_reply_is_an_answer(ping: Icmpv6Ping, reply: packet6::Icmpv6Model, packet: Vec<u8>, sequence: u16)
    requires
        reply.kind == 129,
        reply.code == 0,
        reply.identifier == ping.identifier,
        reply.sequence == sequence,
        packet@ == packet6::icmpv6_packet(reply),
    ensures
        judged(
            ProbeEvent::Received(packet),
            |p: Vec<u8>| packet6::echo_reply_in(p@) == Some((ping.identifier, sequence)),
        ) == Ok::<bool, ScanError>(true),
{
    packet6::echo_round_trip(reply);
}

impl HostDiscoveryMethod for Icmpv6Ping {
    open spec fn settles(&self, target: Target) -> Option<HostState> {
        match target.ip {
            IpAddr::V4(_) => Some(HostState::Unknown),
            IpAddr::V6(_) => None,
        }
    }

    open spec fn probes(&self) -> (Seq<u16>, u8) {
        (seq![0u16], self.retries)
    }

    fn discover(&self, target: &Target) -> (r: Discovery) {
        match target.ip {
            IpAddr::V4(_) => Discovery::Settled(HostState::Unknown),
            IpAddr::V6(_) => Discovery::Probe(portless_run(self.retries)),
        }
    }

    fn requires_root(&self) -> (r: bool)
        ensures
            r,
    {
        true
    }
}

/// `ICMPv6` Neighbor Discovery Protocol (NDP) discovery method.
///
/// Sends `ICMPv6` Neighbor Solicitation packets. If Neighbor Advertisement is received,
/// the host is considered up. This is the IPv6 equivalent of ARP.
#[derive(Debug)]
pub struct Icmpv6NeighborDiscovery {
    /// Local IPv6 address for probes.
    pub local_addr: Ipv6Addr,
    /// Raw socket for packet transmission.
    pub socket: i32,
    /// Timeout for each probe, in nanoseconds.
    pub timeout: u128,
    /// Number of retries.
    pub retries: u8,
}

/// The prefix `ff02::1:ff00:0/104` and the last 24 bits of `target`.
pub open spec fn solicited_node(target: Ipv6Addr) -> Ipv6Addr {
    Ipv6Addr {
        s0: 0xff02,
        s1: 0,
        s2: 0,
        s3: 0,
        s4: 0,
        s5: 1,
        s6: (0xff00 + target.s6 % 256) as u16,
        s7: target.s7,
    }
}

impl Icmpv6NeighborDiscovery {
    /// The protocol of the raw socket.
    pub const PROTOCOL: u8 = 58;

    /// Creates a new `ICMPv6` NDP discovery method over a raw socket.
    pub fn new(
        local_addr: Ipv6Addr,
        timeout: u128,
        retries: u8,
        socket: Result<i32, OsError>,
    ) -> (r: Result<Self, ScanError>)
        ensures
            match r {
                Ok(p) => socket == Ok::<i32, OsError>(p.socket) && p.local_addr == local_addr
                    && p.timeout == timeout && p.retries == retries,
                Err(e) => is_socket_error(socket, e),
            },
    {
        match raw_socket(socket) {
            Ok(socket) => Ok(Self { local_addr, socket, timeout, retries }),
            Err(e) => Err(e),
        }
    }

    /// Computes the solicited-node multicast address for a target IPv6 address.
    ///
    /// The solicited-node multicast address is formed by taking the prefix
    /// `ff02::1:ff00:0/104` and appending the last 24 bits of the target address.
    #[must_use]
    pub fn solicited_node_multicast(target: Ipv6Addr) -> (r: Ipv6Addr)
        ensures
            r == solicited_node(target),
    {
        Ipv6Addr::new(
            0xff02,
            0,
            0,
            0,
            0,
            0x0001,
            0xff00 + u16::from(low_byte(target.s6)),
            target.s7,
        )
    }

    /// The `ICMPv6` Neighbor Solicitation probe: the address to send it to, and the
    /// packet.
    #[must_use]
    pub fn send_neighbor_solicitation(&self, target: Ipv6Addr) -> (r: (Ipv6Addr, Vec<u8>))
        ensures
            r.0 == solicited_node(target),
            r.1@ == packet6::icmpv6_packet(
                packet6::Icmpv6Model {
                    src_ip: self.local_addr,
                    dst_ip: solicited_node(target),
                    kind: 135,
                    code: 0,
                    identifier: 0,
                    sequence: 0,
                    target_address: Some(target),
                },
            ),
    {
        let multicast_target = Self::solicited_node_multicast(target);
        let packet = Icmpv6PacketBuilder::neighbor_solicitation(
            self.local_addr,
            multicast_target,
        ).target_address(target).build();
        (multicast_target, packet)
    }

    /// Whether what became of the probe says that the host is up: the packet is a
    /// neighbor advertisement of the target.
    pub fn advertisement_answer(target: Ipv6Addr, event: ProbeEvent<Vec<u8>>) -> (r: Result<
        bool,
        ScanError,
    >)
        ensures
            r == judged(
                event,
                |p: Vec<u8>|
                    match packet6::advertisement_in(p@) {
                        Some((t, _)) => t == target,
                        None => false,
                    },
            ),
    {
        match probe_reply(event) {
            Ok(Some(packet)) => match parse_icmpv6_neighbor_advertisement(packet.as_slice()) {
                Some((t, _)) => Ok(t == target),
                None => Ok(false),
            },
            Ok(None) => Ok(false),
            Err(e) => Err(e),
        }
    }
}

impl HostDiscoveryMethod for Icmpv6NeighborDiscovery {
    open spec fn settles(&self, target: Target) -> Option<HostState> {
        match target.ip {
            IpAddr::V4(_) => Some(HostState::Unknown),
            IpAddr::V6(a) => if a.octet_seq()[0] == 0xff {
                Some(HostState::Unknown)
            } else if target.ip.loopback() {
                Some(HostState::Up)
            } else {
                None
            },
        }
    }

    open spec fn probes(&self) -> (Seq<u16>, u8) {
        (seq![0u16], self.retries)
    }

    fn discover(&self, target: &Target) -> (r: Discovery) {
        match target.ip {
            IpAddr::V4(_) => Discovery::Settled(HostState::Unknown),
            IpAddr::V6(a) => {
                let octets = a.octets();
                if octets[0] == 0xff {
                    return Discovery::Settled(HostState::Unknown);
                }
                if a.is_loopback() {
                    return Discovery::Settled(HostState::Up);
                }
                Discovery::Probe(portless_run(self.retries))
            },
        }
    }

    fn requires_root(&self) -> (r: bool)
        ensures
            r,
    {
        true
    }
}

/// TCP SYN Ping discovery method for IPv6.
///
/// Sends TCP SYN packets over IPv6 to specified ports. If SYN-ACK is received, the host
/// is considered up.
#[derive(Debug)]
pub struct TcpSynPingV6 {
    /// Local IPv6 address for probes.
    pub local_addr: Ipv6Addr,
    /// Raw socket for packet transmission.
    pub socket: i32,
    /// Ports to probe.
    pub ports: Vec<u16>,
    /// Timeout for each probe, in nanoseconds.
    pub timeout: u128,
    /// Number of retries.
    pub retries: u8,
}

/// The segment in a packet.
pub open spec fn response_in(p: Seq<u8>) -> Option<TcpResponse> {
    match packet6::tcp_response_in(p) {
        Some((flags, seq, ack, src_port)) => Some(TcpResponse { flags, seq, ack, src_port }),
        None => None,
    }
}

/// The SYN with this sequence number.
pub open spec fn syn_request(
    src_ip: Ipv6Addr,
    dst_ip: Ipv6Addr,
    src_port: u16,
    dst_port: u16,
    seq: u32,
) -> packet6::Tcpv6Model {
    packet6::Tcpv6Model {
        src_ip,
        dst_ip,
        src_port,
        dst_port,
        seq,
        ack: 0,
        flags: 0x02,
        window: 65535,
    }
}

impl TcpSynPingV6 {
    /// Default ports to probe if none specified.
    pub const DEFAULT_PORTS: [u16; 3] = [80, 443, 22];

    /// The protocol of the raw socket.
    pub const PROTOCOL: u8 = 6;

    /// Creates a new TCP SYN ping discovery method for IPv6 over a raw socket; the
    /// default ports are probed if none are given.
    pub fn new(
        local_addr: Ipv6Addr,
        ports: Vec<u16>,
        timeout: u128,
        retries: u8,
        socket: Result<i32, OsError>,
    ) -> (r: Result<Self, ScanError>)
        ensures
            match r {
                Ok(p) => socket == Ok::<i32, OsError>(p.socket) && p.local_addr == local_addr
                    && p.ports@ == ports_or_default(ports@) && p.timeout == timeout && p.retries
                    == retries,
                Err(e) => is_socket_error(socket, e),
            },
    {
        match raw_socket(socket) {
            Ok(socket) => Ok(
                Self { local_addr, socket, ports: default_if_empty(ports), timeout, retries },
            ),
            Err(e) => Err(e),
        }
    }

    /// The TCP SYN probe to a specific port: its sequence number, and the packet.
    #[must_use]
    pub fn send_syn_probe(&self, dst_addr: Ipv6Addr, dst_port: u16, pid: u32, nanos: u128) -> (r: (
        u32,
        Vec<u8>,
    ))
        ensures
            r.0 == (nanos + pid) % 0x1_0000_0000,
            r.1@ == packet6::tcpv6_packet(
                syn_request(
                    self.local_addr,
                    dst_addr,
                    (60000 + pid % 1000) as u16,
                    dst_port,
                    r.0,
                ),
            ),
    {
        let src_port: u16 = generate_source_port(pid);
        let seq: u32 = generate_sequence_number(nanos, pid);
        let builder = Tcpv6PacketBuilder::new(self.local_addr, dst_addr, src_port, dst_port).seq(
            seq,
        ).syn().window(65535);
        assert(0u8 | 0x02 == 0x02u8) by (bit_vector);
        (seq, builder.build())
    }

    /// Whether what became of the probe says that the host is up: the packet holds a
    /// SYN-ACK, or an RST, that answers the probe.
    pub fn syn_answer(dst_port: u16, seq: u32, event: ProbeEvent<Vec<u8>>) -> (r: Result<
        bool,
        ScanError,
    >)
        ensures
            r == judged(event, |p: Vec<u8>| answers_syn(dst_port, seq, response_in(p@))),
    {
        match probe_reply(event) {
            Ok(Some(packet)) => {
                let response = match parse_tcpv6_response(packet.as_slice()) {
                    Some((flags, seq, ack, src_port)) => Some(
                        TcpResponse { flags, seq, ack, src_port },
                    ),
                    None => None,
                };
                Ok(is_syn_answer(dst_port, seq, response))
            },
            Ok(None) => Ok(false),
            Err(e) => Err(e),
        }
    }
}

/// The SYN-ACK, or the RST, that a host sends back to a SYN is taken for its answer.
pub proof fn syn_ack_is_an_answer(m: packet6::Tcpv6Model, dst_port: u16, seq: u32)
    requires
        m.src_port == dst_port,
        m.ack == (seq + 1) % 0x1_0000_0000,
        m.flags == 0x12 || m.flags == 0x04 || m.flags == 0x14,
    ensures
        answers_syn(dst_port, seq, response_in(packet6::tcpv6_packet(m))),
{
    packet6::tcpv6_round_trip(m);
    let f = m.flags;
    assert(f == 0x12 ==> f & 0x02 != 0 && f & 0x10 != 0) by (bit_vector);
    assert(f == 0x04 || f == 0x14 ==> f & 0x04 != 0) by (bit_vector);
}

/// A SYN of our own is not taken for an answer.
pub proof fn syn_is_no_answer(
    src_ip: Ipv6Addr,
    dst_ip: Ipv6Addr,
    src_port: u16,
    dst_port: u16,
    seq: u32,
    port: u16,
    other: u32,
)
    ensures
        !answers_syn(
            port,
            other,
            response_in(
                packet6::tcpv6_packet(syn_request(src_ip, dst_ip, src_port, dst_port, seq)),
            ),
        ),
{
    packet6::tcpv6_round_trip(syn_request(src_ip, dst_ip, src_port, dst_port, seq));
    assert(0x02u8 & 0x10 == 0 && 0x02u8 & 0x04 == 0) by (bit_vector);
}

impl HostDiscoveryMethod for TcpSynPingV6 {
    open spec fn settles(&self, target: Target) -> Option<HostState> {
        match target.ip {
            IpAddr::V4(_) => Some(HostState::Unknown),
            IpAddr::V6(_) => None,
        }
    }

    open spec fn probes(&self) -> (Seq<u16>, u8) {
        (self.ports@, self.retries)
    }

    fn discover(&self, target: &Target) -> (r: Discovery) {
        match target.ip {
            IpAddr::V4(_) => Discovery::Settled(HostState::Unknown),
            IpAddr::V6(_) => Discovery::Probe(PingRun::new(copied(&self.ports), self.retries)),
        }
    }

    fn requires_root(&self) -> (r: bool)
        ensures
            r,
    {
        true
    }
}

/// Only probes say of a target that it is up or down. A ping over IPv4 settles nothing
/// for a target that it can reach, and all it says without a probe is that the state is
/// unknown; so does a ping over IPv6. Neighbor discovery takes for up, without asking,
/// the loopback address and no other.
pub proof fn verdicts_need_probes(
    syn: TcpSynPing,
    ack: TcpAckPing,
    echo: IcmpPing,
    stamp: IcmpTimestampPing,
    echo_v6: Icmpv6Ping,
    neighbor: Icmpv6NeighborDiscovery,
    syn_v6: TcpSynPingV6,
    target: Target,
)
    ensures
        target.ip is V4 ==> {
            &&& syn.settles(target) is None
            &&& ack.settles(target) is None
            &&& echo.settles(target) is None
            &&& stamp.settles(target) is None
            &&& echo_v6.settles(target) == Some(HostState::Unknown)
            &&& neighbor.settles(target) == Some(HostState::Unknown)
            &&& syn_v6.settles(target) == Some(HostState::Unknown)
        },
        target.ip is V6 ==> {
            &&& syn.settles(target) == Some(HostState::Unknown)
            &&& ack.settles(target) == Some(HostState::Unknown)
            &&& echo.settles(target) == Some(HostState::Unknown)
            &&& stamp.settles(target) == Some(HostState::Unknown)
            &&& echo_v6.settles(target) is None
            &&& syn_v6.settles(target) is None
        },
        neighbor.settles(target) != Some(HostState::Down),
        neighbor.settles(target) == Some(HostState::Up) <==> target.ip == IpAddr::V6(
            Ipv6Addr { s0: 0, s1: 0, s2: 0, s3: 0, s4: 0, s5: 0, s6: 0, s7: 1 },
        ),
        neighbor.settles(target) is None <==> (target.ip matches IpAddr::V6(a) && a.s0 / 256 != 0xff
            && !target.ip.loopback()),
{
    if let IpAddr::V6(a) = target.ip {
        assert(a.octet_seq()[0] == a.s0 / 256);
    }
}

/// A target that never answers is probed as often as was asked for: once and then once
/// for each retry, at every port where a ping has ports. Only then is it down; the first
/// answer says that it is up.
pub proof fn pings_probe_as_often_as_asked(
    syn: TcpSynPing,
    ack: TcpAckPing,
    echo: IcmpPing,
    stamp: IcmpTimestampPing,
    echo_v6: Icmpv6Ping,
    neighbor: Icmpv6NeighborDiscovery,
    syn_v6: TcpSynPingV6,
    outcomes: Seq<Result<bool, ScanError>>,
)
    requires
        discovery::silent(outcomes),
    ensures
        silence_means_down(echo.probes(), 1, echo.retries, outcomes),
        silence_means_down(stamp.probes(), 1, stamp.retries, outcomes),
        silence_means_down(echo_v6.probes(), 1, echo_v6.retries, outcomes),
        silence_means_down(neighbor.probes(), 1, neighbor.retries, outcomes),
        silence_means_down(syn.probes(), syn.ports@.len(), syn.retries, outcomes),
        silence_means_down(ack.probes(), ack.ports@.len(), ack.retries, outcomes),
        silence_means_down(syn_v6.probes(), syn_v6.ports@.len(), syn_v6.retries, outcomes),
        syn.probes().0 == syn.ports@,
        ack.probes().0 == ack.ports@,
        syn_v6.probes().0 == syn_v6.ports@,
{
    lemma_silence_means_down(echo.probes(), outcomes);
    lemma_silence_means_down(stamp.probes(), outcomes);
    lemma_silence_means_down(echo_v6.probes(), outcomes);
    lemma_silence_means_down(neighbor.probes(), outcomes);
    lemma_silence_means_down(syn.probes(), outcomes);
    lemma_silence_means_down(ack.probes(), outcomes);
    lemma_silence_means_down(syn_v6.probes(), outcomes);
}

/// After these outcomes, of which none is an answer, a run of these probes has said
/// that the target is down if there were `ports` times `retries + 1` of them; if there
/// were fewer, it goes on, and an answer now would say that the target is up.
pub open spec fn silence_means_down(
    probes: (Seq<u16>, u8),
    ports: nat,
    retries: u8,
    outcomes: Seq<Result<bool, ScanError>>,
) -> bool {
    let run = discovery::fresh_run(probes.0, probes.1).played(outcomes);
    &&& outcomes.len() == ports * (retries + 1) ==> run.next() is None && run.verdict() == Ok::<
        HostState,
        ScanError,
    >(HostState::Down)
    &&& outcomes.len() < ports * (retries + 1) ==> run.next() is Some && run.answered(
        Ok(true),
    ).verdict() == Ok::<HostState, ScanError>(HostState::Up)
}

proof fn lemma_silence_means_down(probes: (Seq<u16>, u8), outcomes: Seq<Result<bool, ScanError>>)
    requires
        discovery::silent(outcomes),
    ensures
        silence_means_down(probes, probes.0.len(), probes.1, outcomes),
{
    if outcomes.len() <= probes.0.len() * (probes.1 + 1) {
        discovery::ping_verdict(probes.0, probes.1, outcomes);
    }
}

/// A SYN is answered by a segment from the probed port that acknowledges it and that either
/// accepts the connection, with SYN and ACK, or resets it; an ACK is answered by a reset
/// from the probed port. Nothing else is an answer.
pub proof fn answers_come_from_the_probed_port(dst_port: u16, seq: u32, t: TcpResponse)
    ensures
        answers_syn(dst_port, seq, Some(t)) ==> t.src_port == dst_port,
        answers_ack(dst_port, Some(t)) ==> t.src_port == dst_port,
        answers_syn(dst_port, seq, Some(t)) && seq < u32::MAX ==> t.ack == seq + 1,
        answers_syn(dst_port, seq, Some(t)) && seq == u32::MAX ==> t.ack == 0,
        t.src_port == dst_port && seq < u32::MAX && t.ack == seq + 1 && (t.flags == 0x12 || t.flags
            == 0x04 || t.flags == 0x14) ==> answers_syn(dst_port, seq, Some(t)),
        t.flags == 0x02 || t.flags == 0x10 || t.flags == 0x01 ==> !answers_syn(
            dst_port,
            seq,
            Some(t),
        ),
        t.src_port == dst_port && (t.flags == 0x04 || t.flags == 0x14) ==> answers_ack(
            dst_port,
            Some(t),
        ),
        t.flags == 0x10 || t.flags == 0x12 || t.flags == 0x02 ==> !answers_ack(dst_port, Some(t)),
        !answers_syn(dst_port, seq, None),
        !answers_ack(dst_port, None),
{
    let f = t.flags;
    assert(f == 0x12 ==> f & 0x02 != 0 && f & 0x10 != 0 && f & 0x04 == 0) by (bit_vector);
    assert(f == 0x04 || f == 0x14 ==> f & 0x04 != 0) by (bit_vector);
    assert(f == 0x02 ==> f & 0x10 == 0 && f & 0x04 == 0) by (bit_vector);
    assert(f == 0x10 ==> f & 0x02 == 0 && f & 0x04 == 0) by (bit_vector);
    assert(f == 0x01 ==> f & 0x02 == 0 && f & 0x04 == 0) by (bit_vector);
}

/// A probe counts as answered only if something was received and is an answer; silence is
/// no answer, and a failure is handed on.
pub proof fn only_answers_count<T>(event: ProbeEvent<T>, answers: spec_fn(T) -> bool)
    ensures
        judged(event, answers) == Ok::<bool, ScanError>(true) <==> (event matches
            ProbeEvent::Received(x) && answers(x)),
        event is SendFailed || event is TimeoutNotSet ==> judged(event, answers) is Err,
        event matches ProbeEvent::ReceiveFailed(e) ==> (judged(event, answers) is Err <==> e.kind
            is Other),
        event is Received ==> judged(event, answers) is Ok,
{
    discovery::running_out_of_time_is_no_error(event);
}

/// The ports that are given are probed, and common ones where none are.
pub proof fn given_ports_are_probed(ports: Seq<u16>)
    ensures
        ports.len() > 0 ==> ports_or_default(ports) == ports,
        ports.len() == 0 ==> ports_or_default(ports) == seq![80u16, 443, 22],
{
}

/// Requests carry what they were made with: an echo request its identifier and sequence
/// number, a SYN its ports and sequence number and no other flag.
pub proof fn requests_carry_their_numbers(
    src_ip: Ipv6Addr,
    dst_ip: Ipv6Addr,
    x: u16,
    y: u16,
    seq: u32,
)
    ensures
        echo_request(src_ip, dst_ip, x, y).src_ip == src_ip,
        echo_request(src_ip, dst_ip, x, y).dst_ip == dst_ip,
        echo_request(src_ip, dst_ip, x, y).kind == 128,
        echo_request(src_ip, dst_ip, x, y).code == 0,
        echo_request(src_ip, dst_ip, x, y).identifier == x,
        echo_request(src_ip, dst_ip, x, y).sequence == y,
        syn_request(src_ip, dst_ip, x, y, seq).src_ip == src_ip,
        syn_request(src_ip, dst_ip, x, y, seq).dst_ip == dst_ip,
        syn_request(src_ip, dst_ip, x, y, seq).src_port == x,
        syn_request(src_ip, dst_ip, x, y, seq).dst_port == y,
        syn_request(src_ip, dst_ip, x, y, seq).seq == seq,
        syn_request(src_ip, dst_ip, x, y, seq).ack == 0,
        syn_request(src_ip, dst_ip, x, y, seq).flags == 2,
{
}

/// A neighbor is asked for at the multicast address of its last 24 bits: two targets are
/// asked for at the same one if and only if these bits agree.
pub proof fn neighbors_are_asked_by_their_last_bits(a: Ipv6Addr, b: Ipv6Addr)
    ensures
        solicited_node(a).s0 == 0xff02,
        solicited_node(a).s1 == 0,
        solicited_node(a).s2 == 0,
        solicited_node(a).s3 == 0,
        solicited_node(a).s4 == 0,
        solicited_node(a).s5 == 1,
        solicited_node(a).s6 / 256 == 0xff,
        solicited_node(a).s6 % 256 == a.s6 % 256,
        solicited_node(a).s7 == a.s7,
        solicited_node(a) == solicited_node(b) <==> a.s6 % 256 == b.s6 % 256 && a.s7 == b.s7,
{
}

} // verus!
