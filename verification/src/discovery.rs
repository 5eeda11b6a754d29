//! Host discovery: which probes are sent to a target, in which order, and what their
//! outcomes say about it.
use crate::addr::{IpAddr, Ipv4Addr, Ipv6Addr, MacAddr};
use crate::arp::{ArpPing, ArpPingBatch, ArpSocket};
use crate::config::ScannerConfig;
use crate::error::{OsError, OsErrorKind};
use crate::models::Target;
use crate::ping::{
    Icmpv6NeighborDiscovery, Icmpv6Ping, IcmpPing, IcmpTimestampPing, TcpAckPing, TcpSynPing,
    TcpSynPingV6,
};
use crate::{arp, ping};
use vstd::prelude::*;

verus! {

/// Host discovery result.
#[derive(Debug, Clone, Copy, PartialEq, Eq, Structural)]
pub enum HostState {
    /// Host is up and responsive.
    Up,
    /// Host is down or unresponsive.
    Down,
    /// Host state is unknown (discovery pending).
    Unknown,
}

/// What can go wrong on the network.
#[derive(Debug)]
pub enum NetworkError {
    /// A probe could not be sent.
    SendError { source: OsError },
    /// An answer could not be received.
    ReceiveError { source: OsError },
}

/// What can go wrong in host discovery.
#[derive(Debug)]
pub enum ScanError {
    /// The operation needs privileges or devices that are not there.
    PermissionDenied { operation: String },
    /// The network failed.
    Network(NetworkError),
}

/// What became of a probe.
#[derive(Debug)]
pub enum ProbeEvent<T> {
    /// It could not be sent.
    SendFailed(OsError),
    /// The time to wait for an answer could not be set.
    TimeoutNotSet(OsError),
    /// Receiving failed.
    ReceiveFailed(OsError),
    /// Something was received.
    Received(T),
}

/// What was received, if anything: running out of time is no error.
pub open spec fn reply_of<T>(event: ProbeEvent<T>) -> Result<Option<T>, ScanError> {
    match event {
        ProbeEvent::SendFailed(e) => Err(
            ScanError::Network(NetworkError::SendError { source: e }),
        ),
        ProbeEvent::TimeoutNotSet(e) => Err(
            ScanError::Network(NetworkError::ReceiveError { source: e }),
        ),
        ProbeEvent::ReceiveFailed(e) => match e.kind {
            OsErrorKind::WouldBlock => Ok(None),
            OsErrorKind::TimedOut => Ok(None),
            OsErrorKind::Other => Err(
                ScanError::Network(NetworkError::ReceiveError { source: e }),
            ),
        },
        ProbeEvent::Received(x) => Ok(Some(x)),
    }
}

/// What was received, if anything.
pub fn probe_reply<T>(event: ProbeEvent<T>) -> (r: Result<Option<T>, ScanError>)
    ensures
        r == reply_of(event),
{
    match event {
        ProbeEvent::SendFailed(source) => Err(
            ScanError::Network(NetworkError::SendError { source }),
        ),
        ProbeEvent::TimeoutNotSet(source) => Err(
            ScanError::Network(NetworkError::ReceiveError { source }),
        ),
        ProbeEvent::ReceiveFailed(source) => {
            match source.kind {
                OsErrorKind::WouldBlock => Ok(None),
                OsErrorKind::TimedOut => Ok(None),
                OsErrorKind::Other => Err(
                    ScanError::Network(NetworkError::ReceiveError { source }),
                ),
            }
        },
        ProbeEvent::Received(x) => Ok(Some(x)),
    }
}

/// The probes to one target: each port is probed once and then once for each retry.
#[derive(Debug)]
pub struct PingRun {
    ports: Vec<u16>,
    retries: u8,
    port_index: usize,
    attempt: u8,
    end: Option<Result<HostState, ScanError>>,
}

/// A run of probes.
#[verifier::ext_equal]
pub struct RunModel {
    /// The ports to probe.
    pub ports: Seq<u16>,
    /// How often a probe is repeated.
    pub retries: u8,
    /// The port that is next.
    pub port_index: int,
    /// The number of the attempt that is next.
    pub attempt: u8,
    /// What has been found out.
    pub end: Option<Result<HostState, ScanError>>,
}

impl RunModel {
    /// The position lies within the probes.
    pub open spec fn wf(self) -> bool {
        0 <= self.port_index <= self.ports.len() && self.attempt <= self.retries && (
        self.port_index == self.ports.len() ==> self.attempt == 0)
    }

    /// The probe that is next: its port, and the number of the attempt.
    pub open spec fn next(self) -> Option<(u16, u8)> {
        if self.end is None && self.port_index < self.ports.len() {
            Some((self.ports[self.port_index], self.attempt))
        } else {
            None
        }
    }

    /// The run after one more outcome.
    pub open spec fn answered(self, result: Result<bool, ScanError>) -> RunModel {
        match result {
            Ok(true) => RunModel { end: Some(Ok(HostState::Up)), ..self },
            Ok(false) => if self.attempt < self.retries {
                RunModel { attempt: (self.attempt + 1) as u8, ..self }
            } else {
                RunModel { port_index: self.port_index + 1, attempt: 0, ..self }
            },
            Err(e) => RunModel { end: Some(Err(e)), ..self },
        }
    }

    /// What the run says when no probe is left.
    pub open spec fn verdict(self) -> Result<HostState, ScanError> {
        match self.end {
            Some(e) => e,
            None => Ok(HostState::Down),
        }
    }

    /// How many probes are left.
    pub open spec fn left(self) -> int {
        (self.ports.len() - self.port_index) * (self.retries + 1) - self.attempt
    }

    /// The run after these outcomes.
    pub open spec fn played(self, outcomes: Seq<Result<bool, ScanError>>) -> RunModel
        decreases outcomes.len(),
    {
        if outcomes.len() == 0 {
            self
        } else {
            self.played(outcomes.drop_last()).answered(outcomes.last())
        }
    }
}

/// A run before its first probe.
pub open spec fn fresh_run(ports: Seq<u16>, retries: u8) -> RunModel {
    RunModel { ports, retries, port_index: 0, attempt: 0, end: None }
}

impl View for PingRun {
    type V = RunModel;

    closed spec fn view(&self) -> RunModel {
        RunModel {
            ports: self.ports@,
            retries: self.retries,
            port_index: self.port_index as int,
            attempt: self.attempt,
            end: self.end,
        }
    }
}

impl PingRun {
    /// The run over these ports.
    pub fn new(ports: Vec<u16>, retries: u8) -> (r: Self)
        ensures
            r@ == fresh_run(ports@, retries),
            r@.wf(),
    {
        PingRun { ports, retries, port_index: 0, attempt: 0, end: None }
    }

    /// The probe that is next, if one is: its port, and the number of the attempt.
    pub fn next(&self) -> (r: Option<(u16, u8)>)
        requires
            self@.wf(),
        ensures
            r == self@.next(),
    {
        if self.end.is_some() || self.port_index >= self.ports.len() {
            return None;
        }
        Some((self.ports[self.port_index], self.attempt))
    }

    /// Takes note of what became of the probe.
    pub fn answered(&mut self, result: Result<bool, ScanError>)
        requires
            old(self)@.wf(),
            old(self)@.next() is Some,
        ensures
            final(self)@ == old(self)@.answered(result),
            final(self)@.wf(),
    {
        match result {
            Ok(hit) => {
                if hit {
                    self.end = Some(Ok(HostState::Up));
                } else if self.attempt < self.retries {
                    self.attempt = self.attempt + 1;
                } else {
                    let count: usize = self.ports.len();
                    assert(self.port_index < count);
                    self.attempt = 0;
                    self.port_index = self.port_index + 1;
                }
            },
            Err(e) => {
                self.end = Some(Err(e));
            },
        }
    }

    /// What the run says about the target.
    pub fn finish(self) -> (r: Result<HostState, ScanError>)
        requires
            self@.next() is None,
        ensures
            r == self@.verdict(),
    {
        match self.end {
            Some(e) => e,
            None => Ok(HostState::Down),
        }
    }
}

/// No outcome says that the host answered, and none is an error.
pub open spec fn silent(outcomes: Seq<Result<bool, ScanError>>) -> bool {
    forall|i: int| 0 <= i < outcomes.len() ==> (#[trigger] outcomes[i]) == Ok::<bool, ScanError>(
        false,
    )
}

/// After outcomes that say nothing the run has moved on by as many probes.
pub proof fn silence_goes_on(m: RunModel, outcomes: Seq<Result<bool, ScanError>>)
    requires
        m.wf(),
        m.end is None,
        silent(outcomes),
        outcomes.len() <= m.left(),
    ensures
        m.played(outcomes).wf(),
        m.played(outcomes).end is None,
        m.played(outcomes).ports == m.ports,
        m.played(outcomes).retries == m.retries,
        m.played(outcomes).left() == m.left() - outcomes.len(),
        m.played(outcomes).next() is Some <==> outcomes.len() < m.left(),
    decreases outcomes.len(),
{
    if outcomes.len() > 0 {
        let before = outcomes.drop_last();
        assert forall|i: int| 0 <= i < before.len() implies (#[trigger] before[i]) == Ok::<
            bool,
            ScanError,
        >(false) by {
            assert(before[i] == outcomes[i]);
        }
        silence_goes_on(m, before);
        let p = m.played(before);
        let q = p.answered(outcomes.last());
        assert(outcomes.last() == Ok::<bool, ScanError>(false));
        assert(p.port_index < p.ports.len());
        let n = p.ports.len() - p.port_index;
        let w = p.retries + 1;
        assert((n - 1) * w == n * w - w) by (nonlinear_arith);
    }
    let q = m.played(outcomes);
    let n = q.ports.len() - q.port_index;
    let w = q.retries + 1;
    if n > 0 {
        assert(n * w >= w) by (nonlinear_arith)
            requires
                n > 0,
                w > 0,
        ;
    } else {
        assert(n * w == 0) by (nonlinear_arith)
            requires
                n == 0,
        ;
    }
}

/// The host is up as soon as one probe is answered, and the first error ends the
/// run; it is down only when every port has been probed as often as was asked for,
/// and nothing answered.
pub proof fn ping_verdict(ports: Seq<u16>, retries: u8, outcomes: Seq<Result<bool, ScanError>>)
    requires
        silent(outcomes),
        outcomes.len() <= ports.len() * (retries + 1),
    ensures
        ({
            let run = fresh_run(ports, retries).played(outcomes);
            if outcomes.len() == ports.len() * (retries + 1) {
                run.next() is None && run.verdict() == Ok::<HostState, ScanError>(HostState::Down)
            } else {
                &&& run.next() is Some
                &&& run.answered(Ok(true)).next() is None
                &&& run.answered(Ok(true)).verdict() == Ok::<HostState, ScanError>(HostState::Up)
                &&& forall|e: ScanError|
                    #![trigger run.answered(Err(e))]
                    run.answered(Err(e)).next() is None && run.answered(Err(e)).verdict() == Err::<
                        HostState,
                        ScanError,
                    >(e)
            }
        }),
{
    let m = fresh_run(ports, retries);
    assert(m.left() == ports.len() * (retries + 1));
    silence_goes_on(m, outcomes);
}

/// How a target is looked at: either nothing has to be sent, or a run of probes
/// decides.
#[derive(Debug)]
pub enum Discovery {
    /// The state follows from the address.
    Settled(HostState),
    /// Probes have to be sent.
    Probe(PingRun),
}

/// A method of host discovery.
pub trait HostDiscoveryMethod {
    /// The state of a target to which no probe is sent.
    spec fn settles(&self, target: Target) -> Option<HostState>;

    /// The ports that are probed, and how often a probe is repeated.
    spec fn probes(&self) -> (Seq<u16>, u8);

    /// Probes a target to determine if it is up.
    fn discover(&self, target: &Target) -> (r: Discovery)
        ensures
            match (self.settles(*target), r) {
                (Some(s), Discovery::Settled(t)) => s == t,
                (None, Discovery::Probe(run)) => run@ == fresh_run(
                    self.probes().0,
                    self.probes().1,
                ) && run@.wf(),
                _ => false,
            },
    ;

    /// Returns true if this discovery method requires root privileges.
    fn requires_root(&self) -> (r: bool)
        default_ensures
            !r,
    {
        false
    }
}

/// The methods in the order in which they may be tried.
#[derive(Debug, Clone, Copy, PartialEq, Eq, Structural)]
pub enum DiscoveryMethod {
    IcmpEcho,
    IcmpTimestamp,
    TcpSyn,
    TcpAck,
    Icmpv6Echo,
    NeighborDiscovery,
    TcpSynV6,
    Arp,
}

/// Methods that are tried one after the other until the host is up.
#[derive(Debug)]
pub struct DiscoveryChain {
    methods: Vec<DiscoveryMethod>,
    at: usize,
    last: Option<Result<HostState, ScanError>>,
}

/// A chain of methods, and what the last of those that were tried said.
#[verifier::ext_equal]
pub struct ChainModel {
    pub methods: Seq<DiscoveryMethod>,
    pub at: int,
    pub last: Option<Result<HostState, ScanError>>,
}

impl ChainModel {
    /// The chain is not empty, and something has been said once a method was tried.
    pub open spec fn wf(self) -> bool {
        0 <= self.at <= self.methods.len() && self.methods.len() > 0 && (self.at > 0
            ==> self.last is Some) && (self.at == 0 ==> self.last is None)
    }

    /// The method that is next.
    pub open spec fn next(self) -> Option<DiscoveryMethod> {
        let decided = match self.last {
            Some(Ok(s)) => s == HostState::Up,
            Some(Err(_)) => true,
            None => false,
        };
        if decided || self.at >= self.methods.len() {
            None
        } else {
            Some(self.methods[self.at])
        }
    }

    /// The chain after its next method said this.
    pub open spec fn tried(self, result: Result<HostState, ScanError>) -> ChainModel {
        ChainModel { methods: self.methods, at: self.at + 1, last: Some(result) }
    }

    /// The chain after its methods said this.
    pub open spec fn played(self, results: Seq<Result<HostState, ScanError>>) -> ChainModel
        decreases results.len(),
    {
        if results.len() == 0 {
            self
        } else {
            self.played(results.drop_last()).tried(results.last())
        }
    }
}

/// A chain of which no method has been tried.
pub open spec fn fresh_chain(methods: Seq<DiscoveryMethod>) -> ChainModel {
    ChainModel { methods, at: 0, last: None }
}

/// A host that is not found up by one method is looked at with the next, in order;
/// one that is found up, and an error, end the chain; and the chain says what the
/// last method said.
pub proof fn chain_verdict(
    methods: Seq<DiscoveryMethod>,
    results: Seq<Result<HostState, ScanError>>,
    last: Result<HostState, ScanError>,
)
    requires
        results.len() < methods.len(),
        forall|i: int|
            0 <= i < results.len() ==> match #[trigger] results[i] {
                Ok(s) => s != HostState::Up,
                Err(_) => false,
            },
    ensures
        fresh_chain(methods).played(results).next() == Some(methods[results.len() as int]),
        ({
            let end = fresh_chain(methods).played(results.push(last));
            &&& end.last == Some(last)
            &&& end.next() is None <==> (last == Ok::<HostState, ScanError>(HostState::Up)
                || last is Err || results.len() + 1 == methods.len())
        }),
    decreases results.len(),
{
    assert(results.push(last).drop_last() =~= results);
    if results.len() > 0 {
        let before = results.drop_last();
        assert forall|i: int| 0 <= i < before.len() implies match #[trigger] before[i] {
            Ok(s) => s != HostState::Up,
            Err(_) => false,
        } by {
            assert(before[i] == results[i]);
        }
        chain_verdict(methods, before, results.last());
        assert(before.push(results.last()) =~= results);
        assert(results.last() == results[results.len() - 1]);
    }
    chain_position(methods, results);
    chain_position(methods, results.push(last));
}

proof fn chain_position(
    methods: Seq<DiscoveryMethod>,
    results: Seq<Result<HostState, ScanError>>,
)
    ensures
        fresh_chain(methods).played(results).methods == methods,
        fresh_chain(methods).played(results).at == results.len(),
        results.len() > 0 ==> fresh_chain(methods).played(results).last == Some(results.last()),
        results.len() == 0 ==> fresh_chain(methods).played(results).last is None,
    decreases results.len(),
{
    if results.len() > 0 {
        chain_position(methods, results.drop_last());
    }
}

impl View for DiscoveryChain {
    type V = ChainModel;

    closed spec fn view(&self) -> ChainModel {
        ChainModel { methods: self.methods@, at: self.at as int, last: self.last }
    }
}

impl DiscoveryChain {
    fn new(methods: Vec<DiscoveryMethod>) -> (r: Self)
        requires
            methods@.len() > 0,
        ensures
            r@ == fresh_chain(methods@),
            r@.wf(),
    {
        DiscoveryChain { methods, at: 0, last: None }
    }

    /// The method to try next, if one is.
    pub fn next(&self) -> (r: Option<DiscoveryMethod>)
        requires
            self@.wf(),
        ensures
            r == self@.next(),
    {
        let decided = match &self.last {
            Some(Ok(s)) => *s == HostState::Up,
            Some(Err(_)) => true,
            None => false,
        };
        if decided || self.at >= self.methods.len() {
            return None;
        }
        Some(self.methods[self.at])
    }

    /// Takes note of what the method said.
    pub fn tried(&mut self, result: Result<HostState, ScanError>)
        requires
            old(self)@.wf(),
            old(self)@.next() is Some,
        ensures
            final(self)@ == old(self)@.tried(result),
            final(self)@.wf(),
    {
        let count: usize = self.methods.len();
        assert(self.at < count);
        self.at = self.at + 1;
        self.last = Some(result);
    }

    /// What the chain says about the target.
    pub fn finish(self) -> (r: Result<HostState, ScanError>)
        requires
            self@.wf(),
            self@.next() is None,
        ensures
            Some(r) == self@.last,
    {
        match self.last {
            Some(r) => r,
            None => {
                assert(false);
                Ok(HostState::Unknown)
            },
        }
    }
}

/// The methods over ICMP.
pub open spec fn icmp_methods() -> Seq<DiscoveryMethod> {
    seq![DiscoveryMethod::IcmpEcho, DiscoveryMethod::IcmpTimestamp]
}

/// The methods over TCP.
pub open spec fn tcp_methods() -> Seq<DiscoveryMethod> {
    seq![DiscoveryMethod::TcpSyn, DiscoveryMethod::TcpAck]
}

/// The methods over `ICMPv6`.
pub open spec fn icmpv6_methods() -> Seq<DiscoveryMethod> {
    seq![DiscoveryMethod::Icmpv6Echo, DiscoveryMethod::NeighborDiscovery]
}

/// The methods over TCP and IPv6.
pub open spec fn tcp_v6_methods() -> Seq<DiscoveryMethod> {
    seq![DiscoveryMethod::TcpSynV6]
}

/// The methods for a target: those over ICMP, then those over TCP, of its IP version.
pub open spec fn methods_for(target: Target) -> Seq<DiscoveryMethod> {
    match target.ip {
        IpAddr::V4(_) => icmp_methods() + tcp_methods(),
        IpAddr::V6(_) => icmpv6_methods() + tcp_v6_methods(),
    }
}

/// Host discovery engine.
///
/// Probes targets to determine if they are up using ICMP, TCP ping, ARP methods, and
/// IPv6-specific methods (`ICMPv6` Echo, NDP).
#[derive(Debug)]
pub struct HostDiscovery {
    /// Configuration for discovery.
    pub config: ScannerConfig,
    /// Number of retries for discovery probes.
    pub retries: u8,
}

impl HostDiscovery {
    /// Creates a new host discovery engine.
    #[must_use]
    pub fn new(config: ScannerConfig) -> (r: Self)
        ensures
            r.config == config,
            r.retries == 2,
    {
        Self { config, retries: 2 }
    }

    /// The local IPv4 address to use, from the one that a route to the configured DNS
    /// server has, if that could be found out.
    #[must_use]
    pub fn get_local_ipv4_address(&self, found: Option<IpAddr>) -> (r: Ipv4Addr)
        ensures
            r == match found {
                Some(IpAddr::V4(a)) => a,
                _ => Ipv4Addr { a: 0, b: 0, c: 0, d: 0 },
            },
    {
        match found {
            Some(IpAddr::V4(a)) => a,
            _ => Ipv4Addr::new(0, 0, 0, 0),
        }
    }

    /// Discovers if a host is up using TCP ping: SYN probes, then ACK probes.
    #[must_use]
    pub fn discover_tcp_ping(&self) -> (r: DiscoveryChain)
        ensures
            r@ == fresh_chain(tcp_methods()),
            r@.wf(),
    {
        let methods: Vec<DiscoveryMethod> = vec![DiscoveryMethod::TcpSyn, DiscoveryMethod::TcpAck];
        assert(methods@ =~= tcp_methods());
        DiscoveryChain::new(methods)
    }

    /// Discovers if a host is up using ICMP: echo requests, then timestamp requests.
    #[must_use]
    pub fn discover_icmp(&self) -> (r: DiscoveryChain)
        ensures
            r@ == fresh_chain(icmp_methods()),
            r@.wf(),
    {
        let methods: Vec<DiscoveryMethod> = vec![
            DiscoveryMethod::IcmpEcho,
            DiscoveryMethod::IcmpTimestamp,
        ];
        assert(methods@ =~= icmp_methods());
        DiscoveryChain::new(methods)
    }

    /// Discovers if a host is up using ARP for local networks.
    #[must_use]
    pub fn discover_arp(&self) -> (r: DiscoveryChain)
        ensures
            r@ == fresh_chain(seq![DiscoveryMethod::Arp]),
            r@.wf(),
    {
        let methods: Vec<DiscoveryMethod> = vec![DiscoveryMethod::Arp];
        assert(methods@ =~= seq![DiscoveryMethod::Arp]);
        DiscoveryChain::new(methods)
    }

    /// Discovers if a host is up using `ICMPv6`: echo requests, then neighbor
    /// discovery.
    #[must_use]
    pub fn discover_icmpv6(&self) -> (r: DiscoveryChain)
        ensures
            r@ == fresh_chain(icmpv6_methods()),
            r@.wf(),
    {
        let methods: Vec<DiscoveryMethod> = vec![
            DiscoveryMethod::Icmpv6Echo,
            DiscoveryMethod::NeighborDiscovery,
        ];
        assert(methods@ =~= icmpv6_methods());
        DiscoveryChain::new(methods)
    }

    /// Discovers if a host is up using TCP SYN ping over IPv6.
    #[must_use]
    pub fn discover_tcp_ping_v6(&self) -> (r: DiscoveryChain)
        ensures
            r@ == fresh_chain(tcp_v6_methods()),
            r@.wf(),
    {
        let methods: Vec<DiscoveryMethod> = vec![DiscoveryMethod::TcpSynV6];
        assert(methods@ =~= tcp_v6_methods());
        DiscoveryChain::new(methods)
    }

    /// Discovers a host using the appropriate methods for its IP version: ICMP first,
    /// then TCP.
    #[must_use]
    pub fn discover(&self, target: &Target) -> (r: DiscoveryChain)
        ensures
            r@ == fresh_chain(methods_for(*target)),
            r@.wf(),
    {
        let methods: Vec<DiscoveryMethod> = match target.ip {
            IpAddr::V4(_) => vec![
                DiscoveryMethod::IcmpEcho,
                DiscoveryMethod::IcmpTimestamp,
                DiscoveryMethod::TcpSyn,
                DiscoveryMethod::TcpAck,
            ],
            IpAddr::V6(_) => vec![
                DiscoveryMethod::Icmpv6Echo,
                DiscoveryMethod::NeighborDiscovery,
                DiscoveryMethod::TcpSynV6,
            ],
        };
        assert(methods@ =~= methods_for(*target));
        DiscoveryChain::new(methods)
    }

    /// The SYN ping of this engine, over a raw socket.
    pub fn tcp_syn_ping(&self, local_addr: Ipv4Addr, socket: Result<i32, OsError>) -> (r: Result<
        TcpSynPing,
        ScanError,
    >)
        ensures
            match r {
                Ok(p) => socket == Ok::<i32, OsError>(p.socket) && p.local_addr == local_addr
                    && p.ports@ == ping::default_ports() && p.timeout == self.config.initial_rtt
                    && p.retries == self.retries,
                Err(e) => ping::is_socket_error(socket, e),
            },
    {
        TcpSynPing::new(local_addr, Vec::new(), self.config.initial_rtt, self.retries, socket)
    }

    /// The ACK ping of this engine, over a raw socket.
    pub fn tcp_ack_ping(&self, local_addr: Ipv4Addr, socket: Result<i32, OsError>) -> (r: Result<
        TcpAckPing,
        ScanError,
    >)
        ensures
            match r {
                Ok(p) => socket == Ok::<i32, OsError>(p.socket) && p.local_addr == local_addr
                    && p.ports@ == ping::default_ports() && p.timeout == self.config.initial_rtt
                    && p.retries == self.retries,
                Err(e) => ping::is_socket_error(socket, e),
            },
    {
        TcpAckPing::new(local_addr, Vec::new(), self.config.initial_rtt, self.retries, socket)
    }

    /// The echo ping of this engine, over a raw socket.
    pub fn echo_ping(&self, local_addr: Ipv4Addr, pid: u32, socket: Result<i32, OsError>) -> (r:
        Result<IcmpPing, ScanError>)
        ensures
            match r {
                Ok(p) => socket == Ok::<i32, OsError>(p.socket) && p.local_addr == local_addr
                    && p.identifier == pid % 65536 && p.timeout == self.config.initial_rtt
                    && p.retries == self.retries,
                Err(e) => ping::is_socket_error(socket, e),
            },
    {
        IcmpPing::new(local_addr, self.config.initial_rtt, self.retries, pid, socket)
    }

    /// The timestamp ping of this engine, over a raw socket.
    pub fn timestamp_ping(&self, local_addr: Ipv4Addr, pid: u32, socket: Result<i32, OsError>) -> (r:
        Result<IcmpTimestampPing, ScanError>)
        ensures
            match r {
                Ok(p) => socket == Ok::<i32, OsError>(p.socket) && p.local_addr == local_addr
                    && p.identifier == pid % 65536 && p.timeout == self.config.initial_rtt
                    && p.retries == self.retries,
                Err(e) => ping::is_socket_error(socket, e),
            },
    {
        IcmpTimestampPing::new(local_addr, self.config.initial_rtt, self.retries, pid, socket)
    }

    /// The `ICMPv6` echo ping of this engine, over a raw socket.
    pub fn echo_ping_v6(&self, pid: u32, socket: Result<i32, OsError>) -> (r: Result<
        Icmpv6Ping,
        ScanError,
    >)
        ensures
            match r {
                Ok(p) => socket == Ok::<i32, OsError>(p.socket) && p.local_addr
                    == ping::unspecified_v6() && p.identifier == pid % 65536 && p.timeout
                    == self.config.initial_rtt && p.retries == self.retries,
                Err(e) => ping::is_socket_error(socket, e),
            },
    {
        Icmpv6Ping::new(
            Ipv6Addr::new(0, 0, 0, 0, 0, 0, 0, 0),
            self.config.initial_rtt,
            self.retries,
            pid,
            socket,
        )
    }

    /// The neighbor discovery of this engine, over a raw socket.
    pub fn neighbor_discovery(&self, socket: Result<i32, OsError>) -> (r: Result<
        Icmpv6NeighborDiscovery,
        ScanError,
    >)
        ensures
            match r {
                Ok(p) => socket == Ok::<i32, OsError>(p.socket) && p.local_addr
                    == ping::unspecified_v6() && p.timeout == self.config.initial_rtt && p.retries
                    == self.retries,
                Err(e) => ping::is_socket_error(socket, e),
            },
    {
        Icmpv6NeighborDiscovery::new(
            Ipv6Addr::new(0, 0, 0, 0, 0, 0, 0, 0),
            self.config.initial_rtt,
            self.retries,
            socket,
        )
    }

    /// The SYN ping over IPv6 of this engine, over a raw socket.
    pub fn tcp_syn_ping_v6(&self, socket: Result<i32, OsError>) -> (r: Result<
        TcpSynPingV6,
        ScanError,
    >)
        ensures
            match r {
                Ok(p) => socket == Ok::<i32, OsError>(p.socket) && p.local_addr
                    == ping::unspecified_v6() && p.ports@ == ping::default_ports() && p.timeout
                    == self.config.initial_rtt && p.retries == self.retries,
                Err(e) => ping::is_socket_error(socket, e),
            },
    {
        TcpSynPingV6::new(
            Ipv6Addr::new(0, 0, 0, 0, 0, 0, 0, 0),
            Vec::new(),
            self.config.initial_rtt,
            self.retries,
            socket,
        )
    }

    /// The ARP ping of this engine; the broadcast address stands for a hardware
    /// address that is not known.
    pub fn arp_ping(
        &self,
        src_ip: Ipv4Addr,
        mac: Option<MacAddr>,
        socket: Result<ArpSocket, ScanError>,
    ) -> (r: Result<ArpPing, ScanError>)
        ensures
            match (socket, r) {
                (Ok(s), Ok(p)) => p.src_mac == arp::mac_or_broadcast(mac) && p.src_ip == src_ip
                    && p.socket == s && p.timeout == self.config.initial_rtt && p.retries
                    == self.retries,
                (Err(e), Err(f)) => e == f,
                _ => false,
            },
    {
        let src_mac = match mac {
            Some(m) => m,
            None => MacAddr { b0: 255, b1: 255, b2: 255, b3: 255, b4: 255, b5: 255 },
        };
        ArpPing::new(src_mac, src_ip, self.config.initial_rtt, self.retries, socket)
    }

    /// Batch ARP discovery for multiple targets on a local network: the engine that
    /// sends the requests, and the time that it waits for replies.
    pub fn discover_arp_batch(
        &self,
        source_ip: Ipv4Addr,
        mac: Option<MacAddr>,
        socket: Result<ArpSocket, ScanError>,
    ) -> (r: Result<(ArpPingBatch, u128), ScanError>)
        ensures
            match (socket, r) {
                (Ok(s), Ok(p)) => p.0.src_mac == arp::mac_or_broadcast(mac) && p.0.src_ip
                    == source_ip && p.0.socket == s && p.1 == self.config.initial_rtt,
                (Err(e), Err(f)) => e == f,
                _ => false,
            },
    {
        let src_mac = match mac {
            Some(m) => m,
            None => MacAddr { b0: 255, b1: 255, b2: 255, b3: 255, b4: 255, b5: 255 },
        };
        match ArpPingBatch::new(src_mac, source_ip, socket) {
            Ok(batch) => Ok((batch, self.config.initial_rtt)),
            Err(e) => Err(e),
        }
    }
}

/// Only an answer that was received counts as one; that none came in time is no error, but
/// any other failure is, and tells what failed.
pub proof fn running_out_of_time_is_no_error<T>(event: ProbeEvent<T>)
    ensures
        event matches ProbeEvent::Received(x) ==> reply_of(event) == Ok::<Option<T>, ScanError>(
            Some(x),
        ),
        (reply_of(event) matches Ok(Some(_))) ==> event is Received,
        event matches ProbeEvent::ReceiveFailed(e) ==> (reply_of(event) is Err <==> e.kind is Other)
            && (reply_of(event) matches Err(f) ==> f == ScanError::Network(
            NetworkError::ReceiveError { source: e },
        )) && (reply_of(event) matches Ok(x) ==> x is None),
        event matches ProbeEvent::SendFailed(e) ==> reply_of(event) == Err::<Option<T>, ScanError>(
            ScanError::Network(NetworkError::SendError { source: e }),
        ),
        event matches ProbeEvent::TimeoutNotSet(e) ==> reply_of(event) == Err::<
            Option<T>,
            ScanError,
        >(ScanError::Network(NetworkError::ReceiveError { source: e })),
{
}

/// The method can reach the target: it is one for the target's IP version.
pub open spec fn suits(method: DiscoveryMethod, ip: IpAddr) -> bool {
    match method {
        DiscoveryMethod::IcmpEcho => ip is V4,
        DiscoveryMethod::IcmpTimestamp => ip is V4,
        DiscoveryMethod::TcpSyn => ip is V4,
        DiscoveryMethod::TcpAck => ip is V4,
        DiscoveryMethod::Arp => ip is V4,
        DiscoveryMethod::Icmpv6Echo => ip is V6,
        DiscoveryMethod::NeighborDiscovery => ip is V6,
        DiscoveryMethod::TcpSynV6 => ip is V6,
    }
}

/// A target is looked for with all methods of its IP version but ARP, each once: first
/// with an echo request, and with TCP only after the others.
pub proof fn targets_are_looked_for_with_all_methods(target: Target, method: DiscoveryMethod)
    ensures
        methods_for(target).contains(method) <==> suits(method, target.ip) && !(method is Arp),
        methods_for(target).no_duplicates(),
        target.ip is V4 ==> methods_for(target)[0] is IcmpEcho && methods_for(target)[1]
            is IcmpTimestamp && methods_for(target)[2] is TcpSyn && methods_for(target)[3]
            is TcpAck,
        target.ip is V6 ==> methods_for(target)[0] is Icmpv6Echo && methods_for(target)[1]
            is NeighborDiscovery && methods_for(target)[2] is TcpSynV6,
{
    let m = methods_for(target);
    match target.ip {
        IpAddr::V4(_) => {
            assert(m =~= seq![
                DiscoveryMethod::IcmpEcho,
                DiscoveryMethod::IcmpTimestamp,
                DiscoveryMethod::TcpSyn,
                DiscoveryMethod::TcpAck,
            ]);
            assert(m[0] is IcmpEcho && m[1] is IcmpTimestamp && m[2] is TcpSyn && m[3] is TcpAck);
        },
        IpAddr::V6(_) => {
            assert(m =~= seq![
                DiscoveryMethod::Icmpv6Echo,
                DiscoveryMethod::NeighborDiscovery,
                DiscoveryMethod::TcpSynV6,
            ]);
            assert(m[0] is Icmpv6Echo && m[1] is NeighborDiscovery && m[2] is TcpSynV6);
        },
    }
}

/// TCP is tried with a SYN and then with an ACK, ICMP with an echo and then with a
/// timestamp request.
pub proof fn methods_of_a_protocol()
    ensures
        tcp_methods() == seq![DiscoveryMethod::TcpSyn, DiscoveryMethod::TcpAck],
        icmp_methods() == seq![DiscoveryMethod::IcmpEcho, DiscoveryMethod::IcmpTimestamp],
        icmpv6_methods() == seq![DiscoveryMethod::Icmpv6Echo, DiscoveryMethod::NeighborDiscovery],
        tcp_v6_methods() == seq![DiscoveryMethod::TcpSynV6],
{
}

} // verus!
