//! Configuration of a scan, and what is derived from it for the scanners.
use crate::models::ScanType;
use vstd::prelude::*;

verus! {

/// Which ports are scanned.
#[derive(Debug)]
pub enum PortSpec {
    /// Every port.
    All,
    /// The ports that are open most often.
    Top(usize),
    /// These ports.
    List(Vec<u16>),
    /// The ports from `start` to `end`, both included.
    Range { start: u16, end: u16 },
}

/// How fast a scan is done.
#[derive(Clone, Copy, Debug, PartialEq, Eq, Structural)]
pub enum TimingTemplate {
    Paranoid,
    Sneaky,
    Polite,
    Normal,
    Aggressive,
    Insane,
}

impl TimingTemplate {
    /// The level of the template, from 0 for the slowest to 5 for the fastest.
    pub open spec fn level(self) -> int {
        match self {
            TimingTemplate::Paranoid => 0,
            TimingTemplate::Sneaky => 1,
            TimingTemplate::Polite => 2,
            TimingTemplate::Normal => 3,
            TimingTemplate::Aggressive => 4,
            TimingTemplate::Insane => 5,
        }
    }
}

/// The initial congestion windows of the templates, in probes.
pub open spec fn initial_windows() -> Seq<u32> {
    seq![1u32, 3, 5, 10, 50, 100]
}

/// The largest congestion windows of the templates, in probes.
pub open spec fn max_windows() -> Seq<u32> {
    seq![1u32, 5, 10, 50, 100, 500]
}

/// Returns the initial congestion window size based on timing template.
#[must_use]
pub fn initial_cwnd(template: TimingTemplate) -> (r: u32)
    ensures
        r == initial_windows()[template.level()],
{
    match template {
        TimingTemplate::Paranoid => 1,
        TimingTemplate::Sneaky => 3,
        TimingTemplate::Polite => 5,
        TimingTemplate::Normal => 10,
        TimingTemplate::Aggressive => 50,
        TimingTemplate::Insane => 100,
    }
}

/// Returns the maximum congestion window size based on timing template.
#[must_use]
pub fn max_cwnd(template: TimingTemplate) -> (r: u32)
    ensures
        r == max_windows()[template.level()],
{
    match template {
        TimingTemplate::Paranoid => 1,
        TimingTemplate::Sneaky => 5,
        TimingTemplate::Polite => 10,
        TimingTemplate::Normal => 50,
        TimingTemplate::Aggressive => 100,
        TimingTemplate::Insane => 500,
    }
}

/// The congestion window of every template starts within its limit, and a faster
/// template has windows that are at least as large.
pub proof fn windows_fit(slow: TimingTemplate, fast: TimingTemplate)
    requires
        slow.level() <= fast.level(),
    ensures
        1 <= initial_windows()[slow.level()] <= max_windows()[slow.level()],
        initial_windows()[slow.level()] <= initial_windows()[fast.level()],
        max_windows()[slow.level()] <= max_windows()[fast.level()],
{
}

/// Configuration of a scan. Time spans are in nanoseconds.
#[derive(Debug)]
pub struct ScanConfig {
    pub scan_types: Vec<ScanType>,
    pub port_spec: PortSpec,
    pub excluded_ports: Vec<u16>,
    pub first_phase_ports: Vec<u16>,
    pub two_phase_scan: bool,
    pub host_discovery: bool,
    pub no_port_scan: bool,
    pub service_detection: bool,
    pub os_detection: bool,
    pub nse_scripts: bool,
    pub nse_selector: Option<String>,
    pub traceroute: bool,
    pub timing_template: TimingTemplate,
    pub scan_delay: u128,
    pub host_timeout: u128,
    pub dns_server: String,
    pub min_rate: Option<u64>,
    pub max_rate: Option<u64>,
    pub badsum: bool,
    pub max_parallel_hosts: usize,
}

impl Default for ScanConfig {
    fn default() -> (r: Self)
        ensures
            r.scan_types@ == seq![ScanType::TcpSyn],
            r.port_spec == PortSpec::Top(1000),
            r.excluded_ports@.len() == 0,
            r.first_phase_ports@.len() == 0,
            !r.two_phase_scan,
            r.host_discovery,
            !r.no_port_scan,
            !r.service_detection,
            !r.os_detection,
            !r.nse_scripts,
            r.nse_selector is None,
            !r.traceroute,
            r.timing_template == TimingTemplate::Normal,
            r.scan_delay == 1_000_000_000,
            r.host_timeout == 900_000_000_000,
            r.dns_server@ == "8.8.8.8:53"@,
            r.min_rate is None,
            r.max_rate is None,
            !r.badsum,
            r.max_parallel_hosts == 256,
    {
        let r = ScanConfig {
            scan_types: vec![ScanType::TcpSyn],
            port_spec: PortSpec::Top(1000),
            excluded_ports: Vec::new(),
            first_phase_ports: Vec::new(),
            two_phase_scan: false,
            host_discovery: true,
            no_port_scan: false,
            service_detection: false,
            os_detection: false,
            nse_scripts: false,
            nse_selector: None,
            traceroute: false,
            timing_template: TimingTemplate::Normal,
            scan_delay: 1_000_000_000,
            host_timeout: 900_000_000_000,
            dns_server: "8.8.8.8:53".to_string(),
            min_rate: None,
            max_rate: None,
            badsum: false,
            max_parallel_hosts: 256,
        };
        assert(r.scan_types@ =~= seq![ScanType::TcpSyn]);
        r
    }
}

impl ScanConfig {
    /// The scan type that decides: the first one, or SYN if there is none.
    pub open spec fn primary(&self) -> ScanType {
        if self.scan_types@.len() > 0 {
            self.scan_types@[0]
        } else {
            ScanType::TcpSyn
        }
    }

    /// The scan type that decides.
    #[must_use]
    pub fn primary_scan_type(&self) -> (r: ScanType)
        ensures
            r == self.primary(),
    {
        if self.scan_types.len() > 0 {
            self.scan_types[0]
        } else {
            ScanType::TcpSyn
        }
    }
}

/// Timing parameters of a template. Time spans are in nanoseconds.
#[derive(Clone, Copy, Debug, PartialEq, Eq, Structural)]
pub struct TimingConfig {
    pub min_rtt: u128,
    pub max_rtt: u128,
    pub initial_rtt: u128,
    pub max_retries: u32,
    pub scan_delay: u128,
    pub timing_level: u8,
}

/// Configuration of a scanner. Time spans are in nanoseconds, the host timeout in
/// milliseconds.
#[derive(Debug)]
pub struct ScannerConfig {
    pub min_rtt: u128,
    pub max_rtt: u128,
    pub initial_rtt: u128,
    pub max_retries: u32,
    pub host_timeout: u64,
    pub scan_delay: u128,
    pub dns_server: String,
    pub min_rate: Option<u64>,
    pub max_rate: Option<u64>,
    pub timing_level: u8,
    pub badsum: bool,
}

/// The host timeout in whole milliseconds, or half a minute if it has too many.
pub open spec fn host_timeout_millis(nanos: u128) -> u64 {
    if nanos / 1_000_000 <= u64::MAX {
        (nanos / 1_000_000) as u64
    } else {
        30000
    }
}

fn millis(nanos: u128) -> (r: u64)
    ensures
        r == host_timeout_millis(nanos),
{
    let ms: u128 = nanos / 1_000_000;
    if ms <= 0xFFFF_FFFF_FFFF_FFFF {
        ms as u64
    } else {
        30000
    }
}

/// The configuration of a port scanner, with the delays of the timing template and
/// this initial round trip time.
#[must_use]
pub fn scanner_config(config: &ScanConfig, timing: &TimingConfig, initial_rtt: u128) -> (r:
    ScannerConfig)
    ensures
        r.min_rtt == timing.min_rtt,
        r.max_rtt == timing.max_rtt,
        r.initial_rtt == initial_rtt,
        r.max_retries == timing.max_retries,
        r.host_timeout == host_timeout_millis(config.host_timeout),
        r.scan_delay == timing.scan_delay,
        r.dns_server == config.dns_server,
        r.min_rate == config.min_rate,
        r.max_rate == config.max_rate,
        r.timing_level == timing.timing_level,
        r.badsum == config.badsum,
{
    ScannerConfig {
        min_rtt: timing.min_rtt,
        max_rtt: timing.max_rtt,
        initial_rtt,
        max_retries: timing.max_retries,
        host_timeout: millis(config.host_timeout),
        scan_delay: timing.scan_delay,
        dns_server: config.dns_server.clone(),
        min_rate: config.min_rate,
        max_rate: config.max_rate,
        timing_level: timing.timing_level,
        badsum: config.badsum,
    }
}

/// The configuration for batches of ARP requests.
#[must_use]
pub fn arp_batch_config(dns_server: &str) -> (r: ScannerConfig)
    ensures
        r.min_rtt == 50_000_000,
        r.max_rtt == 1_000_000_000,
        r.initial_rtt == 200_000_000,
        r.max_retries == 1,
        r.host_timeout == 500,
        r.scan_delay == 0,
        r.dns_server@ == dns_server@,
        r.min_rate is None,
        r.max_rate is None,
        r.timing_level == 5,
        !r.badsum,
{
    ScannerConfig {
        min_rtt: 50_000_000,
        max_rtt: 1_000_000_000,
        initial_rtt: 200_000_000,
        max_retries: 1,
        host_timeout: 500,
        scan_delay: 0,
        dns_server: dns_server.to_string(),
        min_rate: None,
        max_rate: None,
        timing_level: 5,
        badsum: false,
    }
}

/// The configuration for pinging hosts that are not on the local segment.
#[must_use]
pub fn ping_config(config: &ScanConfig) -> (r: ScannerConfig)
    ensures
        r.min_rtt == 50_000_000,
        r.max_rtt == 10_000_000_000,
        r.initial_rtt == if config.scan_delay >= 100_000_000 {
            config.scan_delay
        } else {
            100_000_000
        },
        r.max_retries == 2,
        r.host_timeout == host_timeout_millis(config.host_timeout),
        r.scan_delay == config.scan_delay,
        r.dns_server == config.dns_server,
        r.min_rate is None,
        r.max_rate is None,
        r.timing_level == 3,
        r.badsum == config.badsum,
{
    ScannerConfig {
        min_rtt: 50_000_000,
        max_rtt: 10_000_000_000,
        initial_rtt: if config.scan_delay >= 100_000_000 {
            config.scan_delay
        } else {
            100_000_000
        },
        max_retries: 2,
        host_timeout: millis(config.host_timeout),
        scan_delay: config.scan_delay,
        dns_server: config.dns_server.clone(),
        min_rate: None,
        max_rate: None,
        timing_level: 3,
        badsum: config.badsum,
    }
}

/// A round trip time brought into the limits of the template; the template's own if
/// none was measured.
#[must_use]
pub fn clamped_rtt(measured: Option<u128>, timing: &TimingConfig) -> (r: u128)
    requires
        timing.min_rtt <= timing.max_rtt,
    ensures
        r == match measured {
            None => timing.initial_rtt,
            Some(rtt) => if rtt < timing.min_rtt {
                timing.min_rtt
            } else if rtt > timing.max_rtt {
                timing.max_rtt
            } else {
                rtt
            },
        },
{
    match measured {
        None => timing.initial_rtt,
        Some(rtt) => if rtt < timing.min_rtt {
            timing.min_rtt
        } else if rtt > timing.max_rtt {
            timing.max_rtt
        } else {
            rtt
        },
    }
}

/// The services that are known by their port, and the ports in the order in which
/// they are found open most often.
#[derive(Debug)]
pub struct ServiceDatabase {
    pub services: Vec<ServiceEntry>,
    pub tcp_by_frequency: Vec<u16>,
    pub udp_by_frequency: Vec<u16>,
}

/// Transport protocols of the service database.
#[derive(Clone, Copy, Debug, PartialEq, Eq, Structural)]
pub enum ServiceProtocol {
    Tcp,
    Udp,
}

/// A service known by its port.
#[derive(Debug)]
pub struct ServiceEntry {
    pub port: u16,
    pub protocol: ServiceProtocol,
    pub name: String,
}

impl ServiceDatabase {
    /// The place of the first entry for a port, from `from` on.
    pub open spec fn entry_from(&self, port: u16, protocol: ServiceProtocol, from: int) -> Option<
        int,
    >
        decreases self.services@.len() - from,
    {
        if from < 0 || from >= self.services@.len() {
            None
        } else if self.services@[from].port == port && self.services@[from].protocol == protocol {
            Some(from)
        } else {
            self.entry_from(port, protocol, from + 1)
        }
    }

    /// The name of the service on a port: that of the first entry for it.
    pub open spec fn service_name(&self, port: u16, protocol: ServiceProtocol) -> Option<String> {
        match self.entry_from(port, protocol, 0) {
            Some(i) => Some(self.services@[i].name),
            None => None,
        }
    }

    /// Looks up the name of the service on a port.
    #[must_use]
    pub fn lookup(&self, port: u16, protocol: ServiceProtocol) -> (r: Option<&String>)
        ensures
            match r {
                Some(n) => self.service_name(port, protocol) == Some(*n),
                None => self.service_name(port, protocol) is None,
            },
    {
        let mut i: usize = 0;
        while i < self.services.len()
            invariant
                i <= self.services.len(),
                self.entry_from(port, protocol, 0) == self.entry_from(port, protocol, i as int),
            decreases self.services.len() - i,
        {
            if self.services[i].port == port && self.services[i].protocol == protocol {
                return Some(&self.services[i].name);
            }
            i += 1;
        }
        None
    }

    /// The first `n` of `ports`, or all if there are fewer.
    pub open spec fn first(ports: Seq<u16>, n: usize) -> Seq<u16> {
        if n <= ports.len() {
            ports.take(n as int)
        } else {
            ports
        }
    }

    fn first_ports(ports: &Vec<u16>, n: usize) -> (r: Vec<u16>)
        ensures
            r@ == Self::first(ports@, n),
    {
        let mut r: Vec<u16> = Vec::new();
        let mut i: usize = 0;
        while i < ports.len() && i < n
            invariant
                i <= ports.len(),
                i <= n,
                r@ == ports@.take(i as int),
            decreases ports.len() - i,
        {
            r.push(ports[i]);
            proof {
                assert(ports@.take(i + 1) =~= ports@.take(i as int).push(ports@[i as int]));
            }
            i += 1;
        }
        proof {
            assert(ports@.take(i as int) =~= Self::first(ports@, n));
        }
        r
    }

    /// The `n` TCP ports that are open most often.
    #[must_use]
    pub fn top_tcp_ports(&self, n: usize) -> (r: Vec<u16>)
        ensures
            r@ == Self::first(self.tcp_by_frequency@, n),
    {
        Self::first_ports(&self.tcp_by_frequency, n)
    }

    /// The `n` UDP ports that are open most often.
    #[must_use]
    pub fn top_udp_ports(&self, n: usize) -> (r: Vec<u16>)
        ensures
            r@ == Self::first(self.udp_by_frequency@, n),
    {
        Self::first_ports(&self.udp_by_frequency, n)
    }
}

/// The ports that a configuration asks for, before any are left out.
pub open spec fn requested_ports(config: ScanConfig, db: ServiceDatabase) -> Seq<u16> {
    match config.port_spec {
        PortSpec::All => Seq::new(65535, |i: int| (i + 1) as u16),
        PortSpec::Top(n) => if config.primary() == ScanType::Udp {
            ServiceDatabase::first(db.udp_by_frequency@, n)
        } else {
            ServiceDatabase::first(db.tcp_by_frequency@, n)
        },
        PortSpec::List(ports) => ports@,
        PortSpec::Range { start, end } => if start <= end {
            Seq::new((end - start + 1) as nat, |i: int| (start + i) as u16)
        } else {
            Seq::empty()
        },
    }
}

/// The ports of `ports` that are not in `excluded`, in their order.
pub open spec fn without(ports: Seq<u16>, excluded: Seq<u16>) -> Seq<u16> {
    ports.filter(|p: u16| !excluded.contains(p))
}

/// The ports that are scanned.
pub open spec fn scanned_ports(config: ScanConfig, db: ServiceDatabase) -> Seq<u16> {
    without(requested_ports(config, db), config.excluded_ports@)
}

/// No port that is left out is scanned, and every other one that is asked for is.
pub proof fn scanned_ports_are_the_rest(config: ScanConfig, db: ServiceDatabase, port: u16)
    ensures
        scanned_ports(config, db).contains(port) <==> requested_ports(config, db).contains(port)
            && !config.excluded_ports@.contains(port),
{
    let ports = requested_ports(config, db);
    let keep = |p: u16| !config.excluded_ports@.contains(p);
    lemma_filter_subset(ports, keep, port);
}

proof fn lemma_filter_subset(ports: Seq<u16>, keep: spec_fn(u16) -> bool, port: u16)
    ensures
        ports.filter(keep).contains(port) <==> ports.contains(port) && keep(port),
    decreases ports.len(),
{
    reveal(Seq::filter);
    if ports.len() > 0 {
        let rest = ports.drop_last();
        lemma_filter_subset(rest, keep, port);
        let f = ports.filter(keep);
        let g = rest.filter(keep);
        if ports.contains(port) && keep(port) {
            let i = choose|i: int| 0 <= i < ports.len() && ports[i] == port;
            if i < rest.len() {
                assert(rest[i] == port);
                let j = choose|j: int| 0 <= j < g.len() && g[j] == port;
                assert(f[j] == port);
            } else {
                assert(f[f.len() - 1] == port);
            }
        }
        if f.contains(port) {
            let j = choose|j: int| 0 <= j < f.len() && f[j] == port;
            if j < g.len() {
                assert(g[j] == port);
                let i = choose|i: int| 0 <= i < rest.len() && rest[i] == port;
                assert(ports[i] == port);
            } else {
                assert(ports[ports.len() - 1] == port);
            }
        }
    }
}

/// Tells whether `port` is among `ports`.
pub fn has_port(ports: &Vec<u16>, port: u16) -> (r: bool)
    ensures
        r == ports@.contains(port),
{
    let mut i: usize = 0;
    while i < ports.len()
        invariant
            i <= ports.len(),
            forall|j: int| 0 <= j < i ==> ports@[j] != port,
        decreases ports.len() - i,
    {
        if ports[i] == port {
            assert(ports@[i as int] == port);
            return true;
        }
        i += 1;
    }
    false
}

/// Gets the list of ports to scan based on configuration.
#[must_use]
pub fn get_ports_for_scan(config: &ScanConfig, db: &ServiceDatabase) -> (r: Vec<u16>)
    ensures
        r@ == scanned_ports(*config, *db),
{
    let ports: Vec<u16> = match &config.port_spec {
        PortSpec::All => {
            let r = port_range(1, 65535);
            assert(r@ =~= Seq::new(65535, |i: int| (i + 1) as u16));
            r
        },
        PortSpec::Top(n) => match config.primary_scan_type() {
            ScanType::Udp => db.top_udp_ports(*n),
            _ => db.top_tcp_ports(*n),
        },
        PortSpec::List(ports) => {
            let r = ports.clone();
            assert(r@ =~= ports@);
            r
        },
        PortSpec::Range { start, end } => if *start <= *end {
            port_range(*start, *end)
        } else {
            Vec::new()
        },
    };
    assert(ports@ =~= requested_ports(*config, *db));
    let mut kept: Vec<u16> = Vec::new();
    let ghost keep = |p: u16| !config.excluded_ports@.contains(p);
    let mut i: usize = 0;
    proof {
        reveal(Seq::filter);
        assert(ports@.take(0) =~= Seq::<u16>::empty());
    }
    while i < ports.len()
        invariant
            i <= ports.len(),
            keep == (|p: u16| !config.excluded_ports@.contains(p)),
            kept@ == ports@.take(i as int).filter(keep),
        decreases ports.len() - i,
    {
        proof {
            reveal(Seq::filter);
            assert(ports@.take(i + 1).drop_last() =~= ports@.take(i as int));
        }
        if !has_port(&config.excluded_ports, ports[i]) {
            kept.push(ports[i]);
        }
        i += 1;
    }
    proof {
        assert(ports@.take(i as int) =~= ports@);
    }
    kept
}

/// The ports from `start` to `end`, both included.
fn port_range(start: u16, end: u16) -> (r: Vec<u16>)
    requires
        start <= end,
    ensures
        r@ == Seq::new((end - start + 1) as nat, |i: int| (start + i) as u16),
{
    let mut r: Vec<u16> = Vec::new();
    let mut p: u16 = start;
    while p < end
        invariant
            start <= p <= end,
            r@ == Seq::new((p - start) as nat, |i: int| (start + i) as u16),
        decreases end - p,
    {
        r.push(p);
        proof {
            assert(r@ =~= Seq::new((p + 1 - start) as nat, |i: int| (start + i) as u16));
        }
        p += 1;
    }
    r.push(p);
    assert(r@ =~= Seq::new((end - start + 1) as nat, |i: int| (start + i) as u16));
    r
}

/// Every template has a window of its own to start with: a single probe for the slowest
/// one, up to a hundred, with a limit of up to five hundred; the templates are numbered
/// from the slowest to the fastest.
pub proof fn windows_of_the_templates(t: TimingTemplate, u: TimingTemplate)
    ensures
        t is Paranoid ==> initial_windows()[t.level()] == 1 && max_windows()[t.level()] == 1,
        t is Sneaky ==> initial_windows()[t.level()] == 3 && max_windows()[t.level()] == 5,
        t is Polite ==> initial_windows()[t.level()] == 5 && max_windows()[t.level()] == 10,
        t is Normal ==> initial_windows()[t.level()] == 10 && max_windows()[t.level()] == 50,
        t is Aggressive ==> initial_windows()[t.level()] == 50 && max_windows()[t.level()] == 100,
        t is Insane ==> initial_windows()[t.level()] == 100 && max_windows()[t.level()] == 500,
        0 <= t.level() < 6,
        t.level() == u.level() ==> t == u,
        initial_windows()[t.level()] < initial_windows()[u.level()] <==> t.level() < u.level(),
{
}

/// The type of a scan is the first that is asked for, and a SYN scan if none is.
pub proof fn the_first_type_counts(config: ScanConfig)
    ensures
        config.scan_types@.len() > 0 ==> config.primary() == config.scan_types@[0],
        config.scan_types@.len() == 0 ==> config.primary() == ScanType::TcpSyn,
{
}

/// A host timeout is handed on in whole milliseconds, rounded down.
pub proof fn host_timeouts_are_in_milliseconds(nanos: u128)
    requires
        nanos / 1_000_000 <= u64::MAX,
    ensures
        host_timeout_millis(nanos) * 1_000_000 <= nanos < host_timeout_millis(nanos) * 1_000_000
            + 1_000_000,
{
}

/// The name of a service is that of the first entry for its port and protocol; there is
/// none without such an entry.
pub proof fn the_first_entry_names_the_service(
    db: ServiceDatabase,
    port: u16,
    protocol: ServiceProtocol,
    from: int,
) -> (i: int)
    requires
        0 <= from <= db.services@.len(),
    ensures
        from <= i <= db.services@.len(),
        forall|j: int|
            from <= j < i ==> (#[trigger] db.services@[j]).port != port || db.services@[j].protocol
                != protocol,
        i < db.services@.len() ==> db.services@[i].port == port && db.services@[i].protocol
            == protocol && db.entry_from(port, protocol, from) == Some(i),
        i == db.services@.len() ==> db.entry_from(port, protocol, from) is None,
        from == 0 && i < db.services@.len() ==> db.service_name(port, protocol) == Some(
            db.services@[i].name,
        ),
        from == 0 && i == db.services@.len() ==> db.service_name(port, protocol) is None,
    decreases db.services@.len() - from,
{
    if from < db.services@.len() && (db.services@[from].port != port || db.services@[from].protocol
        != protocol) {
        the_first_entry_names_the_service(db, port, protocol, from + 1)
    } else {
        from
    }
}

/// The ports that are asked for: all but port 0 once and in order; a range with both its
/// ends and nothing else; a list as it is; or as many of the most frequent ports of the
/// scan's protocol as there are, up to the number asked for.
pub proof fn requested_ports_are_those_asked_for(config: ScanConfig, db: ServiceDatabase, port: u16)
    ensures
        config.port_spec is All ==> (requested_ports(config, db).contains(port) <==> port != 0)
            && requested_ports(config, db).len() == 65535,
        config.port_spec matches PortSpec::Range { start, end } ==> (requested_ports(
            config,
            db,
        ).contains(port) <==> start <= port <= end) && (start <= end ==> requested_ports(
            config,
            db,
        ).len() == end - start + 1),
        config.port_spec matches PortSpec::List(ports) ==> requested_ports(config, db) == ports@,
        config.port_spec matches PortSpec::Top(n) ==> {
            let known = if config.primary() is Udp {
                db.udp_by_frequency@
            } else {
                db.tcp_by_frequency@
            };
            let r = requested_ports(config, db);
            &&& r.len() == if n <= known.len() {
                n as nat
            } else {
                known.len()
            }
            &&& forall|i: int| 0 <= i < r.len() ==> #[trigger] r[i] == known[i]
        },
{
    let r = requested_ports(config, db);
    match config.port_spec {
        PortSpec::All => {
            if port != 0 {
                assert(r[port - 1] == port);
            }
        },
        PortSpec::Range { start, end } => {
            if start <= port <= end {
                assert(r[port - start] == port);
            }
        },
        _ => {},
    }
}

} // verus!
