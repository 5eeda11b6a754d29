//! ARP ping on local networks, for one host and for many.
use crate::addr::{IpAddr, Ipv4Addr, MacAddr};
use crate::discovery;
use crate::discovery::{
    probe_reply, Discovery, HostDiscoveryMethod, HostState, NetworkError, PingRun, ProbeEvent,
    ScanError,
};
use crate::error::OsError;
use crate::models::Target;
use crate::net;
use crate::net::{get_interface_name_for_addr, InterfaceEntry};
use crate::ping;
use crate::text;
use crate::text::{decimal_text, joined};
use vstd::prelude::*;

verus! {

/// ARP `EtherType` protocol number.
pub const ETH_P_ARP: u16 = 0x0806;

/// Socket receive buffer size in bytes (2MB).
pub const SO_RCVBUF_SIZE: i32 = 2_097_152;

/// The hardware address, or the broadcast address if it is not known.
pub open spec fn mac_or_broadcast(mac: Option<MacAddr>) -> MacAddr {
    match mac {
        Some(m) => m,
        None => MacAddr { b0: 255, b1: 255, b2: 255, b3: 255, b4: 255, b5: 255 },
    }
}

/// An open socket for ARP, and the interface that it sends on.
#[derive(Debug, Clone, Copy, PartialEq, Eq, Structural)]
pub struct ArpSocket {
    /// `AF_PACKET` socket file descriptor.
    pub fd: i32,
    /// Network interface index.
    pub if_index: u32,
}

/// The dotted text of an address.
pub open spec fn dotted(a: Ipv4Addr) -> Seq<char> {
    text::decimal(a.a as nat) + "."@ + text::decimal(a.b as nat) + "."@ + text::decimal(a.c as nat)
        + "."@ + text::decimal(a.d as nat)
}

fn dotted_text(a: Ipv4Addr) -> (r: String)
    ensures
        r@ == dotted(a),
{
    let r = decimal_text(a.a as u64).concat(".").concat(decimal_text(a.b as u64).as_str()).concat(
        ".",
    ).concat(decimal_text(a.c as u64).as_str()).concat(".").concat(
        decimal_text(a.d as u64).as_str(),
    );
    r
}

/// Finds the network interface name that has the given IPv4 address.
#[must_use]
pub fn find_interface_name(entries: &Vec<InterfaceEntry>, local_addr: Ipv4Addr) -> (r: Option<
    &String,
>)
    ensures
        match r {
            Some(n) => exists|i: int|
                #![trigger entries@[i]]
                0 <= i < entries@.len() && net::names_addr(entries@[i], local_addr)
                    && entries@[i].name == Some(*n) && forall|j: int|
                    0 <= j < i ==> !net::names_addr(#[trigger] entries@[j], local_addr),
            None => forall|j: int|
                0 <= j < entries@.len() ==> !net::names_addr(#[trigger] entries@[j], local_addr),
        },
{
    get_interface_name_for_addr(entries, local_addr)
}

/// The error for an operation that cannot be done.
pub open spec fn denied(e: ScanError, operation: Seq<char>) -> bool {
    match e {
        ScanError::PermissionDenied { operation: o } => o@ == operation,
        ScanError::Network(_) => false,
    }
}

fn has_zero(name: &str) -> (r: bool)
    ensures
        r == name@.contains('\0'),
{
    let n: usize = name.unicode_len();
    let mut i: usize = 0;
    while i < n
        invariant
            i <= n,
            n == name@.len(),
            forall|j: int| 0 <= j < i ==> name@[j] != '\0',
        decreases n - i,
    {
        if name.get_char(i) == '\0' {
            assert(name@[i as int] == '\0');
            return true;
        }
        i += 1;
    }
    false
}

/// The name of the interface to send on: there has to be one with this address, and
/// its name may not hold a zero.
pub fn arp_interface(entries: &Vec<InterfaceEntry>, src_ip: Ipv4Addr) -> (r: Result<
    String,
    ScanError,
>)
    ensures
        match r {
            Ok(n) => !n@.contains('\0') && exists|i: int|
                0 <= i < entries@.len() && is_first(entries@, src_ip, i, n@),
            Err(e) => {
                ||| (forall|j: int|
                    0 <= j < entries@.len() ==> !net::names_addr(#[trigger] entries@[j], src_ip))
                    && denied(e, "cannot find network interface for "@ + dotted(src_ip))
                ||| exists|i: int, n: Seq<char>|
                    0 <= i < entries@.len() && is_first(entries@, src_ip, i, n) && n.contains('\0')
                        && denied(e, "invalid interface name: "@ + n)
            },
        },
{
    match find_interface_name(entries, src_ip) {
        None => {
            let operation = joined(
                "cannot find network interface for ",
                dotted_text(src_ip).as_str(),
            );
            Err(ScanError::PermissionDenied { operation })
        },
        Some(name) => {
            let ghost i = choose|i: int|
                #![trigger entries@[i]]
                0 <= i < entries@.len() && net::names_addr(entries@[i], src_ip)
                    && entries@[i].name == Some(*name) && forall|j: int|
                    0 <= j < i ==> !net::names_addr(#[trigger] entries@[j], src_ip);
            assert(is_first(entries@, src_ip, i, name@));
            if has_zero(name.as_str()) {
                let operation = joined("invalid interface name: ", name.as_str());
                return Err(ScanError::PermissionDenied { operation });
            }
            Ok(name.clone())
        },
    }
}

/// The entry is the first with this address and a name, and this is the name.
pub open spec fn is_first(
    entries: Seq<InterfaceEntry>,
    addr: Ipv4Addr,
    i: int,
    name: Seq<char>,
) -> bool {
    &&& net::names_addr(entries[i], addr)
    &&& match entries[i].name {
        Some(n) => n@ == name,
        None => false,
    }
    &&& forall|j: int| 0 <= j < i ==> !net::names_addr(#[trigger] entries[j], addr)
}

/// What opening the socket came to: index zero stands for an interface that is not
/// there, and a negative descriptor for a socket that could not be opened.
pub fn arp_socket(
    if_name: &str,
    if_index: u32,
    index_error: &OsError,
    fd: i32,
    socket_error: &OsError,
) -> (r: Result<ArpSocket, ScanError>)
    ensures
        match r {
            Ok(s) => if_index != 0 && fd >= 0 && s == (ArpSocket { fd, if_index }),
            Err(e) => if if_index == 0 {
                denied(e, "cannot get interface index for "@ + if_name@ + ": "@ + index_error.message@)
            } else {
                fd < 0 && denied(e, "cannot create AF_PACKET socket: "@ + socket_error.message@)
            },
        },
{
    if if_index == 0 {
        let operation = joined("cannot get interface index for ", if_name).concat(": ").concat(
            index_error.message.as_str(),
        );
        return Err(ScanError::PermissionDenied { operation });
    }
    if fd < 0 {
        let operation = joined("cannot create AF_PACKET socket: ", socket_error.message.as_str());
        return Err(ScanError::PermissionDenied { operation });
    }
    Ok(ArpSocket { fd, if_index })
}

/// Where the frame of an ARP request is sent.
#[derive(Debug, Clone, Copy, PartialEq, Eq, Structural)]
pub struct ArpDestination {
    /// Protocol, in host byte order.
    pub protocol: u16,
    /// Index of the interface.
    pub ifindex: i32,
    /// Kind of hardware.
    pub hatype: u16,
    /// Length of the hardware address.
    pub halen: u8,
    /// Hardware address.
    pub addr: MacAddr,
}

/// An ARP request.
#[derive(Debug, Clone, Copy, PartialEq, Eq, Structural)]
pub struct ArpRequest {
    pub src_mac: MacAddr,
    pub src_ip: Ipv4Addr,
    pub target_ip: Ipv4Addr,
    pub destination: ArpDestination,
}

/// The request for the hardware address of `target_ip`, sent to every host on the
/// interface; index zero stands for an index that is too large.
pub open spec fn request_for(
    src_mac: MacAddr,
    src_ip: Ipv4Addr,
    if_index: u32,
    target_ip: Ipv4Addr,
) -> ArpRequest {
    ArpRequest {
        src_mac,
        src_ip,
        target_ip,
        destination: ArpDestination {
            protocol: 0x0806,
            ifindex: if if_index <= i32::MAX {
                if_index as i32
            } else {
                0
            },
            hatype: 1,
            halen: 6,
            addr: mac_or_broadcast(None),
        },
    }
}

fn build_request(src_mac: MacAddr, src_ip: Ipv4Addr, if_index: u32, target_ip: Ipv4Addr) -> (r:
    ArpRequest)
    ensures
        r == request_for(src_mac, src_ip, if_index, target_ip),
{
    let ifindex: i32 = if if_index <= 0x7fff_ffff {
        if_index as i32
    } else {
        0
    };
    ArpRequest {
        src_mac,
        src_ip,
        target_ip,
        destination: ArpDestination {
            protocol: ETH_P_ARP,
            ifindex,
            hatype: 1,
            halen: 6,
            addr: MacAddr { b0: 255, b1: 255, b2: 255, b3: 255, b4: 255, b5: 255 },
        },
    }
}

/// ARP Ping discovery method.
///
/// Sends ARP request packets for hosts on the local network. If ARP reply is received,
/// the host is considered up. Only works for IPv4 on the same LAN.
#[derive(Debug)]
pub struct ArpPing {
    /// Source MAC address.
    pub src_mac: MacAddr,
    /// Source IP address.
    pub src_ip: Ipv4Addr,
    /// Socket for ARP send/receive.
    pub socket: ArpSocket,
    /// Timeout for each probe, in nanoseconds.
    pub timeout: u128,
    /// Number of retries.
    pub retries: u8,
}

/// The two addresses share their first 24 bits.
pub open spec fn same_net(a: Ipv4Addr, b: Ipv4Addr) -> bool {
    a.a == b.a && a.b == b.b && a.c == b.c
}

impl ArpPing {
    /// Creates a new ARP ping discovery method over an open socket.
    pub fn new(
        src_mac: MacAddr,
        src_ip: Ipv4Addr,
        timeout: u128,
        retries: u8,
        socket: Result<ArpSocket, ScanError>,
    ) -> (r: Result<Self, ScanError>)
        ensures
            match (socket, r) {
                (Ok(s), Ok(p)) => p == (ArpPing { src_mac, src_ip, socket: s, timeout, retries }),
                (Err(e), Err(f)) => e == f,
                _ => false,
            },
    {
        match socket {
            Ok(socket) => Ok(Self { src_mac, src_ip, socket, timeout, retries }),
            Err(e) => Err(e),
        }
    }

    /// Checks if the target is on the same local network (/24).
    #[must_use]
    pub fn is_local_target(&self, target: &Target) -> (r: bool)
        ensures
            r == match target.ip {
                IpAddr::V4(a) => same_net(a, self.src_ip),
                IpAddr::V6(_) => false,
            },
    {
        match target.ip {
            IpAddr::V4(a) => a.a == self.src_ip.a && a.b == self.src_ip.b && a.c == self.src_ip.c,
            IpAddr::V6(_) => false,
        }
    }

    /// The ARP request probe.
    #[must_use]
    pub fn send_arp_probe(&self, target_ip: Ipv4Addr) -> (r: ArpRequest)
        ensures
            r == request_for(self.src_mac, self.src_ip, self.socket.if_index, target_ip),
    {
        build_request(self.src_mac, self.src_ip, self.socket.if_index, target_ip)
    }

    /// Whether what became of the probe says that the host is up: the target itself
    /// sent an ARP reply.
    pub fn arp_answer(
        target_ip: Ipv4Addr,
        event: ProbeEvent<Option<(MacAddr, Ipv4Addr)>>,
    ) -> (r: Result<bool, ScanError>)
        ensures
            r == ping::judged(
                event,
                |reply: Option<(MacAddr, Ipv4Addr)>|
                    match reply {
                        Some((_, sender)) => sender == target_ip,
                        None => false,
                    },
            ),
    {
        match probe_reply(event) {
            Ok(Some(Some((_, sender)))) => Ok(sender == target_ip),
            Ok(_) => Ok(false),
            Err(e) => Err(e),
        }
    }
}

impl HostDiscoveryMethod for ArpPing {
    open spec fn settles(&self, target: Target) -> Option<HostState> {
        match target.ip {
            IpAddr::V4(a) => if same_net(a, self.src_ip) {
                None
            } else {
                Some(HostState::Unknown)
            },
            IpAddr::V6(_) => Some(HostState::Unknown),
        }
    }

    open spec fn probes(&self) -> (Seq<u16>, u8) {
        (seq![0u16], self.retries)
    }

    fn discover(&self, target: &Target) -> (r: Discovery) {
        if !self.is_local_target(target) {
            return Discovery::Settled(HostState::Unknown);
        }
        let ports: Vec<u16> = vec![0];
        assert(ports@ =~= seq![0u16]);
        Discovery::Probe(PingRun::new(ports, self.retries))
    }

    fn requires_root(&self) -> (r: bool)
        ensures
            r,
    {
        true
    }
}

/// Batch ARP Ping for parallel host discovery on local networks.
///
/// Sends ARP requests in bursts, takes in the replies after each burst, and then polls
/// for the remaining replies until the time is over.
#[derive(Debug)]
pub struct ArpPingBatch {
    /// Source MAC address.
    pub src_mac: MacAddr,
    /// Source IP address.
    pub src_ip: Ipv4Addr,
    /// Socket for ARP send/receive.
    pub socket: ArpSocket,
}

impl ArpPingBatch {
    /// Creates a new batch ARP ping engine over an open socket.
    pub fn new(src_mac: MacAddr, src_ip: Ipv4Addr, socket: Result<ArpSocket, ScanError>) -> (r:
        Result<Self, ScanError>)
        ensures
            match (socket, r) {
                (Ok(s), Ok(p)) => p == (ArpPingBatch { src_mac, src_ip, socket: s }),
                (Err(e), Err(f)) => e == f,
                _ => false,
            },
    {
        match socket {
            Ok(socket) => Ok(Self { src_mac, src_ip, socket }),
            Err(e) => Err(e),
        }
    }

    /// The ARP request for a single target IP.
    #[must_use]
    pub fn send_arp_request(&self, target_ip: Ipv4Addr) -> (r: ArpRequest)
        ensures
            r == request_for(self.src_mac, self.src_ip, self.socket.if_index, target_ip),
    {
        build_request(self.src_mac, self.src_ip, self.socket.if_index, target_ip)
    }
}

/// The most requests that are sent between two looks at the replies.
pub const BURST_SIZE: usize = 50;

/// How often a target that does not reply is asked.
pub const TOTAL_ROUNDS: usize = 3;

/// Where a batch is.
#[derive(Debug, Clone, Copy, PartialEq, Eq, Structural)]
pub enum ArpStage {
    /// A request is to be sent.
    Sending,
    /// A burst has been sent, and the replies to it are to be taken in.
    Burst,
    /// All requests of the round have been sent, and the replies are to be taken in.
    Sent,
    /// Replies are waited for.
    Polling,
    /// The last replies are to be taken in.
    Closing,
    /// The batch is done.
    Over,
}

/// What is to be done next.
#[derive(Debug, Clone, Copy, PartialEq, Eq, Structural)]
pub enum ArpAction {
    /// Send a request for this address.
    Send(Ipv4Addr),
    /// Take in the replies that are there, after a pause of ten milliseconds if
    /// `pause` is set.
    Drain { pause: bool },
    /// Wait for replies, at most this many nanoseconds.
    Poll { wait: u128 },
    /// Nothing.
    Done,
}

/// A batch of ARP requests, and the replies to it.
#[derive(Debug)]
pub struct ArpBatchRun {
    targets: Vec<Ipv4Addr>,
    responded: Vec<Ipv4Addr>,
    round: usize,
    pending: Vec<Ipv4Addr>,
    sent: usize,
    burst: usize,
    stage: ArpStage,
    left: u128,
}

/// A batch.
#[verifier::ext_equal]
pub struct BatchModel {
    /// The addresses to ask for.
    pub targets: Seq<Ipv4Addr>,
    /// The senders of replies, each once, in the order in which they first replied.
    pub responded: Seq<Ipv4Addr>,
    /// The number of the round.
    pub round: int,
    /// The addresses that are asked for in this round.
    pub pending: Seq<Ipv4Addr>,
    /// How many of them have been asked for.
    pub sent: int,
    /// How many requests have been sent since the replies were last taken in.
    pub burst: int,
    /// Where the batch is.
    pub stage: ArpStage,
    /// How long replies may still be waited for, in nanoseconds.
    pub left: u128,
}

/// The sender is noted once.
pub open spec fn noted(responded: Seq<Ipv4Addr>, sender: Ipv4Addr) -> Seq<Ipv4Addr> {
    if responded.contains(sender) {
        responded
    } else {
        responded.push(sender)
    }
}

/// All senders are noted.
pub open spec fn all_noted(responded: Seq<Ipv4Addr>, senders: Seq<Ipv4Addr>) -> Seq<Ipv4Addr>
    decreases senders.len(),
{
    if senders.len() == 0 {
        responded
    } else {
        noted(all_noted(responded, senders.drop_last()), senders.last())
    }
}

/// The addresses from which no reply came.
pub open spec fn without(targets: Seq<Ipv4Addr>, responded: Seq<Ipv4Addr>) -> Seq<Ipv4Addr>
    decreases targets.len(),
{
    if targets.len() == 0 {
        targets
    } else {
        let rest = without(targets.drop_last(), responded);
        if responded.contains(targets.last()) {
            rest
        } else {
            rest.push(targets.last())
        }
    }
}

/// The longest wait for replies in a round: half of the time that is left, and all of
/// it in the last round.
pub open spec fn round_wait(round: int, left: u128) -> u128 {
    if round + 1 < 3 {
        left / 2
    } else {
        left
    }
}

impl BatchModel {
    /// The counters lie within what they count.
    pub open spec fn wf(self) -> bool {
        &&& 0 <= self.round <= 3
        &&& 0 <= self.sent <= self.pending.len()
        &&& 0 <= self.burst < 50
        &&& self.responded.no_duplicates()
        &&& self.stage is Sending ==> self.sent < self.pending.len() && self.round < 3
        &&& self.stage is Burst || self.stage is Sent || self.stage is Polling ==> self.round < 3
    }

    /// What is to be done next.
    pub open spec fn action(self) -> ArpAction {
        match self.stage {
            ArpStage::Sending => ArpAction::Send(self.pending[self.sent]),
            ArpStage::Burst => ArpAction::Drain { pause: self.round == 0 },
            ArpStage::Sent => ArpAction::Drain { pause: false },
            ArpStage::Polling => ArpAction::Poll { wait: round_wait(self.round, self.left) },
            ArpStage::Closing => ArpAction::Drain { pause: false },
            ArpStage::Over => ArpAction::Done,
        }
    }

    /// The batch at the start of a round: those that have not replied are asked, unless
    /// there are none or the rounds are over.
    pub open spec fn begun(self, round: int) -> BatchModel {
        let pending = without(self.targets, self.responded);
        let over = round >= 3 || pending.len() == 0;
        BatchModel {
            round,
            pending,
            sent: 0,
            burst: 0,
            stage: if over {
                ArpStage::Closing
            } else {
                ArpStage::Sending
            },
            ..self
        }
    }

    /// The stage in which the round goes on.
    pub open spec fn sending(self) -> ArpStage {
        if self.sent == self.pending.len() {
            ArpStage::Sent
        } else {
            ArpStage::Sending
        }
    }

    /// The batch after one more request.
    pub open spec fn after_send(self) -> BatchModel {
        let m = BatchModel { sent: self.sent + 1, ..self };
        if self.burst + 1 >= 50 {
            BatchModel { burst: 0, stage: ArpStage::Burst, ..m }
        } else {
            BatchModel { burst: self.burst + 1, stage: m.sending(), ..m }
        }
    }

    /// The batch after these replies have been taken in.
    pub open spec fn after_replies(self, senders: Seq<Ipv4Addr>) -> BatchModel {
        BatchModel { responded: all_noted(self.responded, senders), ..self }
    }

    /// As many hosts have replied as were asked for.
    pub open spec fn complete(self) -> bool {
        self.responded.len() >= self.targets.len()
    }

    /// The batch after the replies that were there have been taken in.
    pub open spec fn after_drain(self, senders: Seq<Ipv4Addr>) -> BatchModel {
        let m = self.after_replies(senders);
        match self.stage {
            ArpStage::Burst => BatchModel { stage: self.sending(), ..m },
            ArpStage::Sent => BatchModel {
                stage: if m.complete() {
                    ArpStage::Closing
                } else {
                    ArpStage::Polling
                },
                ..m
            },
            _ => BatchModel { stage: ArpStage::Over, ..m },
        }
    }

    /// The batch after the wait for replies.
    pub open spec fn after_poll(self) -> BatchModel {
        BatchModel {
            left: (self.left - round_wait(self.round, self.left)) as u128,
            ..self
        }.begun(self.round + 1)
    }
}

/// A batch before its first request.
pub open spec fn fresh_batch(targets: Seq<Ipv4Addr>, timeout: u128) -> BatchModel {
    BatchModel {
        targets,
        responded: Seq::empty(),
        round: 0,
        pending: Seq::empty(),
        sent: 0,
        burst: 0,
        stage: ArpStage::Over,
        left: timeout,
    }.begun(0)
}

impl View for ArpBatchRun {
    type V = BatchModel;

    closed spec fn view(&self) -> BatchModel {
        BatchModel {
            targets: self.targets@,
            responded: self.responded@,
            round: self.round as int,
            pending: self.pending@,
            sent: self.sent as int,
            burst: self.burst as int,
            stage: self.stage,
            left: self.left,
        }
    }
}

fn holds(addrs: &Vec<Ipv4Addr>, addr: Ipv4Addr) -> (r: bool)
    ensures
        r == addrs@.contains(addr),
{
    let mut i: usize = 0;
    while i < addrs.len()
        invariant
            i <= addrs.len(),
            forall|j: int| 0 <= j < i ==> addrs@[j] != addr,
        decreases addrs.len() - i,
    {
        if addrs[i] == addr {
            assert(addrs@[i as int] == addr);
            return true;
        }
        i += 1;
    }
    false
}

fn not_responded(targets: &Vec<Ipv4Addr>, responded: &Vec<Ipv4Addr>) -> (r: Vec<Ipv4Addr>)
    ensures
        r@ == without(targets@, responded@),
{
    let mut r: Vec<Ipv4Addr> = Vec::new();
    let mut i: usize = 0;
    proof {
        assert(targets@.take(0) =~= Seq::<Ipv4Addr>::empty());
    }
    while i < targets.len()
        invariant
            i <= targets.len(),
            r@ == without(targets@.take(i as int), responded@),
        decreases targets.len() - i,
    {
        proof {
            assert(targets@.take(i + 1).drop_last() =~= targets@.take(i as int));
        }
        if !holds(responded, targets[i]) {
            r.push(targets[i]);
        }
        i += 1;
    }
    proof {
        assert(targets@.take(i as int) =~= targets@);
    }
    r
}

impl ArpBatchRun {
    /// Performs batch ARP discovery on a list of target IPs: the batch that sends
    /// requests in bursts and then waits for replies, `timeout` nanoseconds in all.
    #[must_use]
    pub fn discover_batch(targets: Vec<Ipv4Addr>, timeout: u128) -> (r: Self)
        ensures
            r@ == fresh_batch(targets@, timeout),
            r@.wf(),
    {
        let mut run = ArpBatchRun {
            targets,
            responded: Vec::new(),
            round: 0,
            pending: Vec::new(),
            sent: 0,
            burst: 0,
            stage: ArpStage::Over,
            left: timeout,
        };
        run.begin(0);
        run
    }

    fn begin(&mut self, round: usize)
        requires
            round <= 3,
            old(self)@.responded.no_duplicates(),
        ensures
            final(self)@ == old(self)@.begun(round as int),
            final(self)@.wf(),
    {
        self.round = round;
        self.pending = not_responded(&self.targets, &self.responded);
        self.sent = 0;
        self.burst = 0;
        let over = round >= TOTAL_ROUNDS || self.pending.len() == 0;
        self.stage = if over {
            ArpStage::Closing
        } else {
            ArpStage::Sending
        };
    }

    /// What is to be done next.
    #[must_use]
    pub fn next(&self) -> (r: ArpAction)
        requires
            self@.wf(),
        ensures
            r == self@.action(),
    {
        match self.stage {
            ArpStage::Sending => ArpAction::Send(self.pending[self.sent]),
            ArpStage::Burst => ArpAction::Drain { pause: self.round == 0 },
            ArpStage::Sent => ArpAction::Drain { pause: false },
            ArpStage::Polling => ArpAction::Poll { wait: self.wait() },
            ArpStage::Closing => ArpAction::Drain { pause: false },
            ArpStage::Over => ArpAction::Done,
        }
    }

    fn wait(&self) -> (r: u128)
        requires
            self@.wf(),
        ensures
            r == round_wait(self@.round, self@.left),
            r <= self@.left,
    {
        if self.round + 1 < TOTAL_ROUNDS {
            self.left / 2
        } else {
            self.left
        }
    }

    /// Takes note of what became of sending a request: one that could not be sent ends
    /// the discovery with an error, and leaves the batch where it was.
    pub fn sent(&mut self, outcome: Result<(), OsError>) -> (r: Result<(), ScanError>)
        requires
            old(self)@.wf(),
            old(self)@.stage is Sending,
        ensures
            final(self)@.wf(),
            match outcome {
                Ok(_) => r is Ok && final(self)@ == old(self)@.after_send(),
                Err(e) => r == Err::<(), ScanError>(
                    ScanError::Network(NetworkError::SendError { source: e }),
                ) && final(self)@ == old(self)@,
            },
    {
        if let Err(source) = outcome {
            return Err(ScanError::Network(NetworkError::SendError { source }));
        }
        let count: usize = self.pending.len();
        assert(self.sent < count);
        self.sent = self.sent + 1;
        self.burst = self.burst + 1;
        if self.burst >= BURST_SIZE {
            self.burst = 0;
            self.stage = ArpStage::Burst;
        } else if self.sent == self.pending.len() {
            self.stage = ArpStage::Sent;
        } else {
            self.stage = ArpStage::Sending;
        }
        Ok(())
    }

    /// Takes note of the senders of replies.
    pub fn replied(&mut self, senders: &Vec<Ipv4Addr>)
        requires
            old(self)@.wf(),
        ensures
            final(self)@ == old(self)@.after_replies(senders@),
            final(self)@.wf(),
    {
        let ghost before = self@;
        let mut i: usize = 0;
        proof {
            assert(senders@.take(0) =~= Seq::<Ipv4Addr>::empty());
        }
        while i < senders.len()
            invariant
                i <= senders.len(),
                before.wf(),
                self@ == before.after_replies(senders@.take(i as int)),
                self@.responded.no_duplicates(),
            decreases senders.len() - i,
        {
            proof {
                assert(senders@.take(i + 1).drop_last() =~= senders@.take(i as int));
            }
            if !holds(&self.responded, senders[i]) {
                self.responded.push(senders[i]);
            }
            i += 1;
        }
        proof {
            assert(senders@.take(i as int) =~= senders@);
        }
    }

    /// Takes note of the replies that were there when they were to be taken in.
    pub fn drained(&mut self, senders: &Vec<Ipv4Addr>)
        requires
            old(self)@.wf(),
            old(self)@.action() is Drain,
        ensures
            final(self)@ == old(self)@.after_drain(senders@),
            final(self)@.wf(),
    {
        self.replied(senders);
        match self.stage {
            ArpStage::Burst => {
                self.stage = if self.sent == self.pending.len() {
                    ArpStage::Sent
                } else {
                    ArpStage::Sending
                };
            },
            ArpStage::Sent => {
                self.stage = if self.responded.len() >= self.targets.len() {
                    ArpStage::Closing
                } else {
                    ArpStage::Polling
                };
            },
            _ => {
                self.stage = ArpStage::Over;
            },
        }
    }

    /// How long to wait for the next reply, in milliseconds, if `remaining` nanoseconds
    /// of the wait are left: at most a tenth of a second, and not at all once as many
    /// hosts have replied as were asked for or no time remains.
    #[must_use]
    pub fn poll_replies_with_limit(&self, remaining: u128) -> (r: Option<i32>)
        ensures
            r == if self@.complete() || remaining == 0 {
                None::<i32>
            } else if remaining / 1_000_000 < 100 {
                Some((remaining / 1_000_000) as i32)
            } else {
                Some(100)
            },
    {
        if self.responded.len() >= self.targets.len() {
            return None;
        }
        if remaining == 0 {
            return None;
        }
        let ms: u128 = remaining / 1_000_000;
        if ms < 100 {
            Some(ms as i32)
        } else {
            Some(100)
        }
    }

    /// What waiting came to: an error ends the batch, unless it was an interruption.
    pub fn poll_outcome(ready: i32, interrupted: bool, os_error: OsError) -> (r: Result<
        (),
        ScanError,
    >)
        ensures
            r == if ready < 0 && !interrupted {
                Err::<(), ScanError>(
                    ScanError::Network(NetworkError::ReceiveError { source: os_error }),
                )
            } else {
                Ok(())
            },
    {
        if ready < 0 && !interrupted {
            return Err(ScanError::Network(NetworkError::ReceiveError { source: os_error }));
        }
        Ok(())
    }

    /// Takes note that the wait for replies is over.
    pub fn polled(&mut self)
        requires
            old(self)@.wf(),
            old(self)@.stage is Polling,
        ensures
            final(self)@ == old(self)@.after_poll(),
            final(self)@.wf(),
    {
        let wait: u128 = self.wait();
        self.left = self.left - wait;
        let round: usize = self.round + 1;
        self.begin(round);
    }

    /// The addresses that replied (hosts that are up).
    pub fn finish(self) -> (r: Vec<Ipv4Addr>)
        requires
            self@.stage is Over,
        ensures
            r@ == self@.responded,
    {
        self.responded
    }
}

/// Every address in the result sent a reply, and every sender is in it, once.
pub proof fn responded_are_the_senders(responded: Seq<Ipv4Addr>, senders: Seq<Ipv4Addr>)
    requires
        responded.no_duplicates(),
    ensures
        all_noted(responded, senders).no_duplicates(),
        forall|a: Ipv4Addr|
            #[trigger] all_noted(responded, senders).contains(a) <==> responded.contains(a)
                || senders.contains(a),
    decreases senders.len(),
{
    if senders.len() > 0 {
        let before = senders.drop_last();
        let last = senders.last();
        responded_are_the_senders(responded, before);
        let x = all_noted(responded, before);
        let y = noted(x, last);
        assert forall|a: Ipv4Addr| #[trigger] y.contains(a) <==> responded.contains(a)
            || senders.contains(a) by {
            assert(senders =~= before.push(last));
            if senders.contains(a) {
                let i = senders.index_of(a);
                if i < before.len() {
                    assert(before[i] == a);
                }
            }
            if before.contains(a) {
                assert(senders[before.index_of(a)] == a);
            }
            assert(senders[senders.len() - 1] == last);
            if !x.contains(last) {
                assert(y[x.len() as int] == last);
                if x.contains(a) {
                    assert(y[x.index_of(a)] == a);
                }
                if y.contains(a) && a != last {
                    assert(x[y.index_of(a)] == a);
                }
            }
        }
    }
}

/// A round asks for exactly the targets from which no reply has come.
pub proof fn only_silent_targets_are_asked(targets: Seq<Ipv4Addr>, responded: Seq<Ipv4Addr>)
    ensures
        forall|a: Ipv4Addr|
            #[trigger] without(targets, responded).contains(a) <==> targets.contains(a)
                && !responded.contains(a),
    decreases targets.len(),
{
    if targets.len() > 0 {
        let before = targets.drop_last();
        let last = targets.last();
        only_silent_targets_are_asked(before, responded);
        let x = without(before, responded);
        let y = without(targets, responded);
        assert forall|a: Ipv4Addr| #[trigger] y.contains(a) <==> targets.contains(a)
            && !responded.contains(a) by {
            if targets.contains(a) {
                let i = targets.index_of(a);
                if i < before.len() {
                    assert(before[i] == a);
                }
            }
            if before.contains(a) {
                assert(targets[before.index_of(a)] == a);
            }
            assert(targets[targets.len() - 1] == last);
            if !responded.contains(last) {
                assert(y[x.len() as int] == last);
                if x.contains(a) {
                    assert(y[x.index_of(a)] == a);
                }
                if y.contains(a) && a != last {
                    assert(x[y.index_of(a)] == a);
                }
            }
        }
    }
}

/// How much a batch has still to do: rounds, then requests, then stages.
pub open spec fn work(m: BatchModel) -> (int, int, int) {
    let rank: int = match m.stage {
        ArpStage::Sending => 4,
        ArpStage::Burst => 5,
        ArpStage::Sent => 3,
        ArpStage::Polling => 2,
        ArpStage::Closing => 1,
        ArpStage::Over => 0,
    };
    (
        if m.stage is Closing || m.stage is Over {
            0
        } else {
            3 - m.round
        },
        m.pending.len() - m.sent,
        rank,
    )
}

/// The one comes before the other in lexicographic order.
pub open spec fn less_work(a: (int, int, int), b: (int, int, int)) -> bool {
    a.0 < b.0 || (a.0 == b.0 && (a.1 < b.1 || (a.1 == b.1 && a.2 < b.2)))
}

/// A batch ends: every step leaves less to do.
pub proof fn batch_goes_forward(m: BatchModel, senders: Seq<Ipv4Addr>)
    requires
        m.wf(),
        !(m.stage is Over),
    ensures
        m.stage is Sending ==> less_work(work(m.after_send()), work(m)),
        m.action() is Drain ==> less_work(work(m.after_drain(senders)), work(m)),
        m.stage is Polling ==> less_work(work(m.after_poll()), work(m)),
{
}

/// After a wait, all targets that are still silent are asked again, however much time
/// is left, until each has been asked three times.
pub proof fn silent_targets_are_asked_in_every_round(m: BatchModel)
    requires
        m.wf(),
        m.stage is Polling,
    ensures
        m.after_poll().pending == without(m.targets, m.responded),
        m.round < 2 && m.after_poll().pending.len() > 0 ==> m.after_poll().stage is Sending
            && m.after_poll().round == m.round + 1 && m.after_poll().sent == 0,
        m.round == 2 ==> m.after_poll().stage is Closing,
{
}

/// The waits for replies add up to the timeout at most: each takes its part of what is
/// left, and the last takes all of it.
pub proof fn waits_stay_within_the_timeout(m: BatchModel)
    requires
        m.wf(),
        m.stage is Polling,
    ensures
        m.after_poll().left + round_wait(m.round, m.left) == m.left,
        m.round == 2 ==> m.after_poll().left == 0,
{
}

/// ARP decides nothing by itself: a target of the own network, that is, one whose
/// address differs from the own one in the last byte at most, is asked; of any other
/// target the state is unknown.
pub proof fn arp_asks_the_own_network(ping: ArpPing, target: Target)
    ensures
        ping.settles(target) is None <==> (target.ip matches IpAddr::V4(a) && a.number() / 256
            == ping.src_ip.number() / 256),
        ping.settles(target) matches Some(s) ==> s == HostState::Unknown,
        ping.probes().0.len() == 1,
        ping.probes().1 == ping.retries,
{
    if let IpAddr::V4(a) = target.ip {
        assert(a.number() / 256 == a.a * 0x1_0000 + a.b * 0x100 + a.c);
        let b = ping.src_ip;
        assert(b.number() / 256 == b.a * 0x1_0000 + b.b * 0x100 + b.c);
    }
}

/// A request asks, from the own addresses, for the target; it goes to all stations of the
/// segment, as ARP over the given interface.
pub proof fn requests_ask_all_stations(
    src_mac: MacAddr,
    src_ip: Ipv4Addr,
    if_index: u32,
    target_ip: Ipv4Addr,
    i: int,
)
    requires
        0 <= i < 6,
    ensures
        ({
            let r = request_for(src_mac, src_ip, if_index, target_ip);
            &&& r.target_ip == target_ip
            &&& r.src_ip == src_ip
            &&& r.src_mac == src_mac
            &&& r.destination.addr.octets()[i] == 255
            &&& r.destination.protocol == ETH_P_ARP
            &&& r.destination.halen == 6
            &&& r.destination.hatype == 1
            &&& if_index <= i32::MAX ==> r.destination.ifindex == if_index
        }),
        mac_or_broadcast(Some(src_mac)) == src_mac,
{
}

/// While requests are sent, the next one is for the next pending target; fifty requests
/// never go out without the replies being taken in between, and what has been sent is not
/// sent again in the round.
pub proof fn pending_targets_are_asked_in_turn(m: BatchModel)
    requires
        m.wf(),
        m.stage is Sending,
    ensures
        m.action() == ArpAction::Send(m.pending[m.sent]),
        m.after_send().sent == m.sent + 1,
        m.after_send().pending == m.pending,
        m.after_send().targets == m.targets,
        m.after_send().responded == m.responded,
        m.after_send().round == m.round,
        m.burst == 49 ==> m.after_send().stage is Burst,
        m.burst < 49 ==> m.after_send().burst == m.burst + 1 && (m.after_send().stage is Sending
            <==> m.sent + 1 < m.pending.len()),
{
}

/// Replies are taken in whenever they are looked for, and when nothing is pending any more
/// the batch waits unless as many have replied as were asked for.
pub proof fn replies_are_taken_in(m: BatchModel, senders: Seq<Ipv4Addr>)
    requires
        m.wf(),
        m.stage is Burst || m.stage is Sent || m.stage is Closing,
    ensures
        m.action() is Drain,
        m.after_drain(senders).targets == m.targets,
        m.after_drain(senders).responded == all_noted(m.responded, senders),
        m.after_drain(senders).sent == m.sent,
        m.after_drain(senders).pending == m.pending,
        m.stage is Sent ==> (m.after_drain(senders).stage is Polling <==> all_noted(
            m.responded,
            senders,
        ).len() < m.targets.len()),
        m.stage is Burst ==> (m.after_drain(senders).stage is Sending <==> m.sent
            < m.pending.len()),
        m.stage is Closing ==> m.after_drain(senders).stage is Over,
        (m.action() matches ArpAction::Drain { pause } && pause) <==> m.stage is Burst && m.round
            == 0,
{
}

/// A batch begins by asking all its targets, and waits in its three rounds for half of
/// its time, then for half of the rest, then for all that is left.
pub proof fn a_batch_begins_with_all_targets(targets: Seq<Ipv4Addr>, timeout: u128)
    ensures
        fresh_batch(targets, timeout).pending == targets,
        fresh_batch(targets, timeout).responded.len() == 0,
        fresh_batch(targets, timeout).round == 0,
        fresh_batch(targets, timeout).left == timeout,
        fresh_batch(targets, timeout).stage is Sending <==> targets.len() > 0,
        round_wait(0, timeout) == timeout / 2,
        round_wait(1, timeout) == timeout / 2,
        round_wait(2, timeout) == timeout,
{
    lemma_without_none(targets);
}

proof fn lemma_without_none(targets: Seq<Ipv4Addr>)
    ensures
        without(targets, Seq::empty()) == targets,
    decreases targets.len(),
{
    if targets.len() > 0 {
        lemma_without_none(targets.drop_last());
        assert(targets.drop_last().push(targets.last()) =~= targets);
    }
}

/// Two addresses are in one network where they differ in their last byte at most.
pub proof fn networks_are_told_by_the_first_bytes(x: Ipv4Addr, y: Ipv4Addr)
    ensures
        same_net(x, y) <==> x.number() / 256 == y.number() / 256,
        same_net(x, y) <==> same_net(y, x),
        same_net(x, x),
{
}

} // verus!
