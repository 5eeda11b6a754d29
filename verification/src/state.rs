//! What is known of hosts and ports while a scan goes on.
use crate::addr::IpAddr;
use crate::models::{HostStatus, PortState};
use vstd::prelude::*;

verus! {

/// What is known of a host.
#[derive(Debug)]
pub struct HostState {
    pub status: HostStatus,
    pub discovery_method: Option<String>,
}

impl HostState {
    /// Nothing is known.
    pub open spec fn unknown() -> HostState {
        HostState { status: HostStatus::Unknown, discovery_method: None }
    }

    /// The status, with how it was found out.
    pub open spec fn is(&self, status: HostStatus, method: Seq<char>) -> bool {
        self.status == status && (self.discovery_method matches Some(m) && m@ == method)
    }

    /// Sets the status and how it was found out.
    pub fn set(&mut self, status: HostStatus, method: &str)
        ensures
            final(self).is(status, method@),
    {
        self.status = status;
        self.discovery_method = Some(method.to_string());
    }
}

impl Default for HostState {
    fn default() -> (r: Self)
        ensures
            r == HostState::unknown(),
    {
        HostState { status: HostStatus::Unknown, discovery_method: None }
    }
}

/// What is known of a port.
#[derive(Clone, Copy, Debug, PartialEq, Eq, Structural)]
pub struct PortScanState {
    pub state: Option<PortState>,
}

impl Default for PortScanState {
    fn default() -> (r: Self)
        ensures
            r.state is None,
    {
        PortScanState { state: None }
    }
}

/// How far a scan has come.
#[derive(Clone, Copy, Debug, PartialEq, Eq, Structural)]
pub struct ScanProgress {
    pub completed: usize,
    pub total: usize,
}

impl Default for ScanProgress {
    fn default() -> (r: Self)
        ensures
            r == (ScanProgress { completed: 0, total: 0 }),
    {
        ScanProgress { completed: 0, total: 0 }
    }
}

/// Scan state for tracking host and port states.
#[derive(Debug)]
pub struct ScanState {
    hosts: Vec<(IpAddr, HostState)>,
    ports: Vec<((IpAddr, u16), PortScanState)>,
    progress: ScanProgress,
}

/// No key occurs twice.
pub open spec fn distinct_keys<K, V>(entries: Seq<(K, V)>) -> bool {
    forall|i: int, j: int|
        0 <= i < j < entries.len() ==> (#[trigger] entries[i]).0 != (#[trigger] entries[j]).0
}

/// The map that a list of entries stands for.
pub open spec fn as_map<K, V>(entries: Seq<(K, V)>) -> Map<K, V>
    decreases entries.len(),
{
    if entries.len() == 0 {
        Map::empty()
    } else {
        as_map(entries.drop_last()).insert(entries.last().0, entries.last().1)
    }
}

proof fn lemma_as_map<K, V>(entries: Seq<(K, V)>)
    requires
        distinct_keys(entries),
    ensures
        forall|i: int|
            0 <= i < entries.len() ==> as_map(entries).contains_key((#[trigger] entries[i]).0)
                && as_map(entries)[entries[i].0] == entries[i].1,
        forall|k: K| #[trigger]
            as_map(entries).contains_key(k) ==> exists|i: int|
                0 <= i < entries.len() && (#[trigger] entries[i]).0 == k,
        as_map(entries).dom().finite(),
        as_map(entries).dom().len() == entries.len(),
    decreases entries.len(),
{
    if entries.len() > 0 {
        let rest = entries.drop_last();
        lemma_as_map(rest);
        let k = entries.last().0;
        let m = as_map(rest);
        assert(!m.contains_key(k)) by {
            if m.contains_key(k) {
                let i = choose|i: int| 0 <= i < rest.len() && (#[trigger] rest[i]).0 == k;
                assert(entries[i].0 == entries[entries.len() - 1].0);
            }
        }
        assert(as_map(entries).dom() =~= m.dom().insert(k));
        assert forall|i: int| 0 <= i < entries.len() implies as_map(entries).contains_key(
            (#[trigger] entries[i]).0,
        ) && as_map(entries)[entries[i].0] == entries[i].1 by {
            if i < rest.len() {
                assert(rest[i] == entries[i]);
                assert(entries[i].0 != k);
            }
        }
        assert forall|q: K| #[trigger] as_map(entries).contains_key(q) implies exists|i: int|
            0 <= i < entries.len() && (#[trigger] entries[i]).0 == q by {
            if q == k {
                assert(entries[entries.len() - 1].0 == q);
            } else {
                let i = choose|i: int| 0 <= i < rest.len() && (#[trigger] rest[i]).0 == q;
                assert(entries[i].0 == q);
            }
        }
    }
}

proof fn lemma_as_map_update<K, V>(entries: Seq<(K, V)>, at: int, v: V)
    requires
        distinct_keys(entries),
        0 <= at < entries.len(),
    ensures
        distinct_keys(entries.update(at, (entries[at].0, v))),
        as_map(entries.update(at, (entries[at].0, v))) == as_map(entries).insert(entries[at].0, v),
{
    let after = entries.update(at, (entries[at].0, v));
    lemma_as_map(entries);
    assert(forall|i: int| 0 <= i < entries.len() ==> (#[trigger] after[i]).0 == entries[i].0);
    lemma_as_map(after);
    let m = as_map(entries).insert(entries[at].0, v);
    assert forall|k: K| as_map(after).contains_key(k) <==> m.contains_key(k) by {
        if as_map(after).contains_key(k) {
            let i = choose|i: int| 0 <= i < after.len() && (#[trigger] after[i]).0 == k;
            assert(entries[i].0 == k);
        }
        if m.contains_key(k) && k != entries[at].0 {
            let i = choose|i: int| 0 <= i < entries.len() && (#[trigger] entries[i]).0 == k;
            assert(after[i].0 == k);
        }
        assert(after[at].0 == entries[at].0);
    }
    assert forall|k: K| #[trigger] m.contains_key(k) implies as_map(after)[k] == m[k] by {
        if k == entries[at].0 {
            assert(after[at].0 == k);
        } else {
            let i = choose|i: int| 0 <= i < entries.len() && (#[trigger] entries[i]).0 == k;
            assert(after[i] == entries[i]);
        }
    }
    assert(as_map(after) =~= m);
}

impl ScanState {
    /// No host and no port is listed twice.
    pub closed spec fn wf(&self) -> bool {
        distinct_keys(self.hosts@) && distinct_keys(self.ports@)
    }

    /// The states of the hosts.
    pub closed spec fn hosts(&self) -> Map<IpAddr, HostState> {
        as_map(self.hosts@)
    }

    /// The states of the ports.
    pub closed spec fn ports(&self) -> Map<(IpAddr, u16), PortScanState> {
        as_map(self.ports@)
    }

    /// How far the scan has come.
    pub closed spec fn progressed(&self) -> ScanProgress {
        self.progress
    }

    /// The status of a host, as far as it is known.
    pub open spec fn status_of(&self, ip: IpAddr) -> HostStatus {
        if self.hosts().contains_key(ip) {
            self.hosts()[ip].status
        } else {
            HostStatus::Unknown
        }
    }

    /// Creates a new scan state.
    #[must_use]
    pub fn new() -> (r: Self)
        ensures
            r.wf(),
            r.hosts() == Map::<IpAddr, HostState>::empty(),
            r.ports() == Map::<(IpAddr, u16), PortScanState>::empty(),
            r.progressed() == (ScanProgress { completed: 0, total: 0 }),
    {
        ScanState { hosts: Vec::new(), ports: Vec::new(), progress: ScanProgress::default() }
    }

    fn find_host(&self, ip: IpAddr) -> (r: Option<usize>)
        requires
            self.wf(),
        ensures
            match r {
                Some(i) => i < self.hosts@.len() && self.hosts@[i as int].0 == ip
                    && self.hosts().contains_key(ip) && self.hosts()[ip] == self.hosts@[i as int].1,
                None => !self.hosts().contains_key(ip) && forall|j: int|
                    0 <= j < self.hosts@.len() ==> (#[trigger] self.hosts@[j]).0 != ip,
            },
    {
        proof {
            lemma_as_map(self.hosts@);
        }
        let mut i: usize = 0;
        while i < self.hosts.len()
            invariant
                i <= self.hosts.len(),
                self.wf(),
                forall|j: int| 0 <= j < i ==> (#[trigger] self.hosts@[j]).0 != ip,
            decreases self.hosts.len() - i,
        {
            if self.hosts[i].0 == ip {
                proof {
                    lemma_as_map(self.hosts@);
                }
                return Some(i);
            }
            i += 1;
        }
        None
    }

    /// Gets or creates a host state.
    pub fn host_state(&mut self, ip: IpAddr) -> (r: &mut HostState)
        requires
            old(self).wf(),
        ensures
            *r == if old(self).hosts().contains_key(ip) {
                old(self).hosts()[ip]
            } else {
                HostState::unknown()
            },
            final(self).wf(),
            final(self).hosts() == old(self).hosts().insert(ip, *final(r)),
            final(self).ports() == old(self).ports(),
            final(self).progressed() == old(self).progressed(),
    {
        let found = self.find_host(ip);
        let i: usize = match found {
            Some(i) => i,
            None => {
                let ghost before = self.hosts@;
                self.hosts.push((ip, HostState::default()));
                proof {
                    assert(self.hosts@.drop_last() =~= before);
                }
                self.hosts.len() - 1
            },
        };
        proof {
            assert(distinct_keys(self.hosts@));
            assert(self.hosts@[i as int].0 == ip);
            assert forall|v: HostState| #[trigger]
                as_map(self.hosts@.update(i as int, (ip, v))) == old(self).hosts().insert(
                    ip,
                    v,
                ) && distinct_keys(self.hosts@.update(i as int, (ip, v))) by {
                lemma_as_map_update(self.hosts@, i as int, v);
                if found is None {
                    assert(old(self).hosts().insert(ip, HostState::unknown()).insert(ip, v)
                        =~= old(self).hosts().insert(ip, v));
                }
            }
        }
        &mut self.hosts[i].1
    }

    /// Gets a host state if it exists (read-only).
    #[must_use]
    pub fn get_host_state(&self, ip: IpAddr) -> (r: Option<&HostState>)
        requires
            self.wf(),
        ensures
            match r {
                Some(h) => self.hosts().contains_key(ip) && *h == self.hosts()[ip],
                None => !self.hosts().contains_key(ip),
            },
    {
        match self.find_host(ip) {
            Some(i) => Some(&self.hosts[i].1),
            None => None,
        }
    }

    /// The status of a host, as far as it is known.
    #[must_use]
    pub fn host_status(&self, ip: IpAddr) -> (r: HostStatus)
        requires
            self.wf(),
        ensures
            r == self.status_of(ip),
    {
        match self.get_host_state(ip) {
            Some(h) => h.status,
            None => HostStatus::Unknown,
        }
    }

    /// Gets or creates a port state.
    pub fn port_state(&mut self, ip: IpAddr, port: u16) -> (r: &mut PortScanState)
        requires
            old(self).wf(),
        ensures
            *r == if old(self).ports().contains_key((ip, port)) {
                old(self).ports()[(ip, port)]
            } else {
                PortScanState { state: None }
            },
            final(self).wf(),
            final(self).ports() == old(self).ports().insert((ip, port), *final(r)),
            final(self).hosts() == old(self).hosts(),
            final(self).progressed() == old(self).progressed(),
    {
        proof {
            lemma_as_map(self.ports@);
        }
        let mut i: usize = 0;
        while i < self.ports.len() && !(self.ports[i].0.0 == ip && self.ports[i].0.1 == port)
            invariant
                i <= self.ports.len(),
                forall|j: int| 0 <= j < i ==> (#[trigger] self.ports@[j]).0 != (ip, port),
            decreases self.ports.len() - i,
        {
            i += 1;
        }
        let ghost found = i < self.ports@.len();
        if i == self.ports.len() {
            let ghost before = self.ports@;
            self.ports.push(((ip, port), PortScanState::default()));
            proof {
                assert(self.ports@.drop_last() =~= before);
            }
        }
        proof {
            assert(distinct_keys(self.ports@));
            assert(self.ports@[i as int].0 == (ip, port));
            assert forall|v: PortScanState| #[trigger]
                as_map(self.ports@.update(i as int, ((ip, port), v))) == old(self).ports().insert(
                    (ip, port),
                    v,
                ) && distinct_keys(self.ports@.update(i as int, ((ip, port), v))) by {
                lemma_as_map_update(self.ports@, i as int, v);
                if !found {
                    assert(old(self).ports().insert(
                        (ip, port),
                        (PortScanState { state: None }),
                    ).insert((ip, port), v) =~= old(self).ports().insert((ip, port), v));
                }
            }
        }
        &mut self.ports[i].1
    }

    /// Sets the scan progress.
    pub fn set_progress(&mut self, progress: ScanProgress)
        requires
            old(self).wf(),
        ensures
            final(self).wf(),
            final(self).progressed() == progress,
            final(self).hosts() == old(self).hosts(),
            final(self).ports() == old(self).ports(),
    {
        self.progress = progress;
    }

    /// Returns the current scan progress.
    #[must_use]
    pub fn progress(&self) -> (r: &ScanProgress)
        ensures
            *r == self.progressed(),
    {
        &self.progress
    }

    /// Returns the number of hosts.
    #[must_use]
    pub fn host_count(&self) -> (r: usize)
        requires
            self.wf(),
        ensures
            r == self.hosts().dom().len(),
    {
        proof {
            lemma_as_map(self.hosts@);
        }
        self.hosts.len()
    }

    /// Returns the number of ports.
    #[must_use]
    pub fn port_count(&self) -> (r: usize)
        requires
            self.wf(),
        ensures
            r == self.ports().dom().len(),
    {
        proof {
            lemma_as_map(self.ports@);
        }
        self.ports.len()
    }
}

impl Default for ScanState {
    fn default() -> (r: Self)
        ensures
            r.wf(),
            r.hosts() == Map::<IpAddr, HostState>::empty(),
            r.ports() == Map::<(IpAddr, u16), PortScanState>::empty(),
            r.progressed() == (ScanProgress { completed: 0, total: 0 }),
    {
        ScanState::new()
    }
}

/// Counters of a scan. They wrap around.
#[derive(Clone, Copy, Debug, PartialEq, Eq, Structural)]
pub struct ScanStats {
    pub packets_sent: u64,
    pub packets_received: u64,
    pub open_ports: u64,
    pub hosts_completed: u64,
}

impl ScanStats {
    /// Creates counters at zero.
    #[must_use]
    pub fn new() -> (r: Self)
        ensures
            r == (ScanStats {
                packets_sent: 0,
                packets_received: 0,
                open_ports: 0,
                hosts_completed: 0,
            }),
    {
        ScanStats { packets_sent: 0, packets_received: 0, open_ports: 0, hosts_completed: 0 }
    }

    /// The counters after some more probes, of which some found an open port.
    pub open spec fn probed(self, sent: int, open: int) -> ScanStats {
        ScanStats {
            packets_sent: ((self.packets_sent + sent) % 0x1_0000_0000_0000_0000) as u64,
            open_ports: ((self.open_ports + open) % 0x1_0000_0000_0000_0000) as u64,
            ..self
        }
    }

    /// The counters after some more hosts are done.
    pub open spec fn completed(self, hosts: int) -> ScanStats {
        ScanStats {
            hosts_completed: ((self.hosts_completed + hosts) % 0x1_0000_0000_0000_0000) as u64,
            ..self
        }
    }

    /// Counts a probe, and an open port if it found one.
    pub fn record_probe(&mut self, state: PortState)
        ensures
            *final(self) == old(self).probed(
                1,
                if state == PortState::Open {
                    1
                } else {
                    0
                },
            ),
    {
        if state == PortState::Open {
            self.open_ports = self.open_ports.wrapping_add(1);
        }
        self.packets_sent = self.packets_sent.wrapping_add(1);
    }

    /// Counts a host that is done.
    pub fn mark_host_complete(&mut self)
        ensures
            *final(self) == old(self).completed(1),
    {
        self.hosts_completed = self.hosts_completed.wrapping_add(1);
    }
}

/// Counting hosts in two steps is counting them at once.
pub proof fn completed_twice(s: ScanStats, first: int, second: int)
    requires
        first >= 0,
        second >= 0,
    ensures
        s.completed(first).completed(second) == s.completed(first + second),
{
    let m = 0x1_0000_0000_0000_0000int;
    vstd::arithmetic::div_mod::lemma_add_mod_noop(s.hosts_completed + first, second, m);
    assert((((s.hosts_completed + first) % m) + second) % m == (s.hosts_completed + first + second)
        % m);
}

/// Counting in two steps is counting at once.
pub proof fn probed_twice(s: ScanStats, sent1: int, open1: int, sent2: int, open2: int)
    requires
        sent1 >= 0,
        open1 >= 0,
        sent2 >= 0,
        open2 >= 0,
    ensures
        s.probed(sent1, open1).probed(sent2, open2) == s.probed(sent1 + sent2, open1 + open2),
{
    let m = 0x1_0000_0000_0000_0000int;
    vstd::arithmetic::div_mod::lemma_add_mod_noop(s.packets_sent + sent1, sent2, m);
    vstd::arithmetic::div_mod::lemma_add_mod_noop(s.open_ports + open1, open2, m);
    assert((((s.packets_sent + sent1) % m) + sent2) % m == (s.packets_sent + sent1 + sent2) % m);
    assert((((s.open_ports + open1) % m) + open2) % m == (s.open_ports + open1 + open2) % m);
}

/// What is known of a host is found under its address: with distinct keys, an entry is in
/// the map if and only if it is in the list.
pub proof fn entries_are_found_by_key<K, V>(entries: Seq<(K, V)>, key: K, i: int)
    requires
        distinct_keys(entries),
    ensures
        0 <= i < entries.len() ==> as_map(entries).contains_key(entries[i].0) && as_map(
            entries,
        )[entries[i].0] == entries[i].1,
        as_map(entries).contains_key(key) ==> exists|j: int|
            0 <= j < entries.len() && (#[trigger] entries[j]).0 == key,
    decreases entries.len(),
{
    if entries.len() > 0 {
        let rest = entries.drop_last();
        assert forall|a: int, b: int| 0 <= a < b < rest.len() implies (#[trigger] rest[a]).0 != (
        #[trigger] rest[b]).0 by {
            assert(entries[a].0 != entries[b].0);
        }
        entries_are_found_by_key(rest, key, i);
        if 0 <= i < rest.len() {
            assert(entries[i].0 != entries[entries.len() - 1].0);
            assert(rest[i] == entries[i]);
        }
        if as_map(entries).contains_key(key) {
            if key == entries.last().0 {
                assert(entries[entries.len() - 1].0 == key);
            } else {
                let j = choose|j: int| 0 <= j < rest.len() && (#[trigger] rest[j]).0 == key;
                assert(entries[j].0 == key);
            }
        }
    }
}

/// A host of which nothing is known is neither up nor down, and one that was marked has
/// the status and the method that it was marked with.
pub proof fn marks_are_read_back(h: HostState, status: HostStatus, method: Seq<char>)
    ensures
        HostState::unknown().status == HostStatus::Unknown,
        HostState::unknown().discovery_method is None,
        h.is(status, method) <==> h.status == status && h.discovery_method is Some
            && h.discovery_method.unwrap()@ == method,
{
}

/// The status of a host is the one that is known of it, and unknown if none is.
pub proof fn the_known_status_counts(s: ScanState, ip: IpAddr)
    ensures
        s.hosts().contains_key(ip) ==> s.status_of(ip) == s.hosts()[ip].status,
        !s.hosts().contains_key(ip) ==> s.status_of(ip) == HostStatus::Unknown,
{
}

/// Probes count as packets that were sent and the open ports as found, hosts that are done
/// count as completed; nothing else changes.
pub proof fn counters_count(s: ScanStats, sent: int, open: int, hosts: int)
    requires
        0 <= sent,
        0 <= open,
        0 <= hosts,
        s.packets_sent + sent <= u64::MAX,
        s.open_ports + open <= u64::MAX,
        s.hosts_completed + hosts <= u64::MAX,
    ensures
        s.probed(sent, open).packets_sent == s.packets_sent + sent,
        s.probed(sent, open).open_ports == s.open_ports + open,
        s.probed(sent, open).packets_received == s.packets_received,
        s.probed(sent, open).hosts_completed == s.hosts_completed,
        s.completed(hosts).hosts_completed == s.hosts_completed + hosts,
        s.completed(hosts).packets_sent == s.packets_sent,
        s.completed(hosts).packets_received == s.packets_received,
        s.completed(hosts).open_ports == s.open_ports,
{
}

} // verus!
