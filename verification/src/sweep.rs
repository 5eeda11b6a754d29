//! Scanning ports one after the other.
//!
//! A sweep knows which port is to be probed next, and whose hardware address is
//! then to be found out; probing is done by its user, who hands the results in.
use crate::addr::IpAddr;
use crate::config::has_port;
use crate::models;
use crate::models::{host_result, HostResult, MacAddress, PortResult, PortState, Target};
use crate::ports;
use crate::ports::{mac_to_report, ASSUMED_LATENCY};
use crate::state::ScanStats;
use vstd::prelude::*;

verus! {

/// What is to be done next in a sweep.
#[derive(Clone, Copy, Debug, PartialEq, Eq, Structural)]
pub enum SweepAction {
    /// Probe a port of the target at this place.
    Probe { target: usize, port: u16 },
    /// Find out the hardware address of the target at this place.
    ResolveMac { target: usize },
    /// Nothing: the sweep has ended.
    Done,
}

/// A sweep over all ports of all targets.
#[derive(Debug)]
pub struct SequentialSweep {
    pub targets: Vec<Target>,
    pub ports: Vec<u16>,
    /// The target that is being scanned.
    pub target: usize,
    /// The port that is to be probed.
    pub port: usize,
    /// The results for the ports of this target.
    pub current: Vec<PortResult>,
    /// The results for the targets before.
    pub results: Vec<HostResult>,
}

/// The result for a target has a result for each port, in their order.
pub open spec fn covers_ports(results: Seq<PortResult>, ports: Seq<u16>) -> bool {
    &&& results.len() == ports.len()
    &&& forall|j: int| 0 <= j < ports.len() ==> (#[trigger] results[j]).number == ports[j]
}

impl SequentialSweep {
    /// The sweep has results for the targets before the current one, and for the
    /// ports before the current one.
    pub open spec fn wf(&self) -> bool {
        &&& self.target <= self.targets@.len()
        &&& self.port <= self.ports@.len()
        &&& self.target == self.targets@.len() ==> self.port == 0
        &&& covers_ports(self.current@, self.ports@.take(self.port as int))
        &&& self.results@.len() == self.target
        &&& forall|i: int|
            0 <= i < self.results@.len() ==> self.reported(i, #[trigger] self.results@[i])
    }

    /// `r` is a result for the target at `i` with all its ports.
    pub open spec fn reported(&self, i: int, r: HostResult) -> bool {
        &&& covers_ports(r.ports@, self.ports@)
        &&& models::is_host_result(
            r,
            self.targets@[i],
            r.mac,
            "syn-ack"@,
            1_000_000,
            r.ports@,
            None,
        )
    }

    /// What is to be done next.
    pub open spec fn next_action(&self) -> SweepAction {
        if self.target >= self.targets@.len() {
            SweepAction::Done
        } else if self.port < self.ports@.len() {
            SweepAction::Probe { target: self.target, port: self.ports@[self.port as int] }
        } else {
            SweepAction::ResolveMac { target: self.target }
        }
    }

    /// Begins a sweep.
    #[must_use]
    pub fn new(targets: Vec<Target>, ports: Vec<u16>) -> (r: Self)
        ensures
            r.wf(),
            r.targets == targets,
            r.ports == ports,
            r.target == 0,
            r.port == 0,
    {
        SequentialSweep {
            targets,
            ports,
            target: 0,
            port: 0,
            current: Vec::new(),
            results: Vec::new(),
        }
    }

    /// Tells what is to be done next.
    #[must_use]
    pub fn next(&self) -> (r: SweepAction)
        ensures
            r == self.next_action(),
    {
        if self.target >= self.targets.len() {
            SweepAction::Done
        } else if self.port < self.ports.len() {
            SweepAction::Probe { target: self.target, port: self.ports[self.port] }
        } else {
            SweepAction::ResolveMac { target: self.target }
        }
    }

    /// Takes in the result for the port that was to be probed.
    pub fn port_scanned(&mut self, result: PortResult, stats: &mut ScanStats)
        requires
            old(self).wf(),
            old(self).next_action() is Probe,
            result.number == old(self).next_action()->port,
        ensures
            final(self).wf(),
            final(self).targets == old(self).targets,
            final(self).ports == old(self).ports,
            final(self).target == old(self).target,
            final(self).port == old(self).port + 1,
            final(self).current@ == old(self).current@.push(result),
            final(self).results == old(self).results,
            *final(stats) == old(stats).probed(
                1,
                if result.state == PortState::Open {
                    1
                } else {
                    0
                },
            ),
    {
        stats.record_probe(result.state);
        let ghost before = self.ports@.take(self.port as int);
        self.current.push(result);
        let count: usize = self.ports.len();
        assert(self.port < count);
        self.port = self.port + 1;
        proof {
            assert(self.ports@.take(self.port as int) =~= before.push(
                self.ports@[self.port - 1],
            ));
        }
    }

    /// Takes in the hardware address of the target whose ports are all probed, and
    /// goes on to the next target.
    pub fn mac_resolved(&mut self, mac: Option<MacAddress>)
        requires
            old(self).wf(),
            old(self).next_action() is ResolveMac,
        ensures
            final(self).wf(),
            final(self).targets == old(self).targets,
            final(self).ports == old(self).ports,
            final(self).target == old(self).target + 1,
            final(self).port == 0,
            final(self).results@.len() == old(self).results@.len() + 1,
            final(self).results@.drop_last() == old(self).results@,
            models::is_host_result(
                final(self).results@.last(),
                old(self).targets@[old(self).target as int],
                ports::reported_mac(old(self).targets@[old(self).target as int].ip, mac),
                "syn-ack"@,
                1_000_000,
                old(self).current@,
                None,
            ),
    {
        let mut ports: Vec<PortResult> = Vec::new();
        std::mem::swap(&mut ports, &mut self.current);
        proof {
            assert(self.ports@.take(self.port as int) =~= self.ports@);
        }
        let ghost before = self.results@;
        let result = host_result(
            &self.targets[self.target],
            mac_to_report(self.targets[self.target].ip, mac),
            "syn-ack",
            ASSUMED_LATENCY,
            ports,
            None,
        );
        self.results.push(result);
        let count: usize = self.targets.len();
        assert(self.target < count);
        self.target = self.target + 1;
        self.port = 0;
        proof {
            assert(self.results@.drop_last() =~= before);
            assert(self.ports@.take(0) =~= Seq::<u16>::empty());
            assert forall|i: int| 0 <= i < self.results@.len() implies self.reported(
                i,
                #[trigger] self.results@[i],
            ) by {
                if i < before.len() {
                    assert(self.results@[i] == before[i]);
                    assert(old(self).reported(i, before[i]));
                }
            }
        }
    }

    /// The results of a sweep that has ended: one for each target, with all ports.
    #[must_use]
    pub fn finish(self) -> (r: Vec<HostResult>)
        requires
            self.wf(),
            self.next_action() is Done,
        ensures
            r == self.results,
            r@.len() == self.targets@.len(),
            forall|i: int| 0 <= i < r@.len() ==> self.reported(i, #[trigger] r@[i]),
    {
        self.results
    }
}

/// A host that has an open port among those that are probed first.
#[derive(Debug)]
pub struct FirstPhaseHost {
    /// The place of the target.
    pub target: usize,
    /// The open ports that were found.
    pub open: Vec<PortResult>,
}

/// Where a sweep in two phases is.
#[derive(Clone, Copy, Debug, PartialEq, Eq, Structural)]
pub enum SweepPlace {
    /// Probing the first ports: at this target and port.
    First { target: usize, port: usize },
    /// Probing the other ports of a host with an open one: at this port.
    Deep { port: usize },
    /// Adding the hosts without an open port: at this target.
    Rest { target: usize },
    /// At the end.
    Ended,
}

/// A sweep that probes a few ports of each target first, and all the others only of
/// the hosts of which one was open.
#[derive(Debug)]
pub struct TwoPhaseSweep {
    pub targets: Vec<Target>,
    pub first_ports: Vec<u16>,
    pub all_ports: Vec<u16>,
    pub place: SweepPlace,
    /// The hosts with an open port that wait for their other ports.
    pub waiting: Vec<FirstPhaseHost>,
    /// The places of the targets with an open port among those probed first.
    pub opened: Vec<usize>,
    /// The target whose other ports are probed.
    pub deep_target: usize,
    /// The results for the ports of the current target.
    pub current: Vec<PortResult>,
    pub results: Vec<HostResult>,
}

/// The first place from `from` on of a port that is not among the first ones.
pub open spec fn next_other(all: Seq<u16>, first: Seq<u16>, from: int) -> int
    decreases all.len() - from,
{
    if 0 <= from < all.len() && first.contains(all[from]) {
        next_other(all, first, from + 1)
    } else {
        from
    }
}

/// One of the results is for this address.
pub open spec fn has_result(results: Seq<HostResult>, ip: IpAddr) -> bool {
    exists|i: int| 0 <= i < results.len() && (#[trigger] results[i]).ip == ip
}

/// The first place from `from` on of a target without a result.
pub open spec fn next_missing(
    targets: Seq<Target>,
    results: Seq<HostResult>,
    from: int,
) -> int
    decreases targets.len() - from,
{
    if 0 <= from < targets.len() && has_result(results, targets[from].ip) {
        next_missing(targets, results, from + 1)
    } else {
        from
    }
}

/// Open ones of the ports that are probed first.
pub open spec fn first_open(open: Seq<PortResult>, first: Seq<u16>) -> bool {
    forall|i: int|
        0 <= i < open.len() ==> (#[trigger] open[i]).state == PortState::Open && first.contains(
            open[i].number,
        )
}

/// Those of the first `n` ports that are not among the ones probed first.
pub open spec fn others(all: Seq<u16>, first: Seq<u16>, n: int) -> Seq<u16>
    decreases n,
{
    if n <= 0 {
        Seq::empty()
    } else if first.contains(all[n - 1]) {
        others(all, first, n - 1)
    } else {
        others(all, first, n - 1).push(all[n - 1])
    }
}

/// The first `k` of the results are open ports of those probed first, and the rest is
/// for the others of the first `n` ports, in their order.
pub open spec fn splits(
    results: Seq<PortResult>,
    first: Seq<u16>,
    all: Seq<u16>,
    n: int,
    k: int,
) -> bool {
    let rest = others(all, first, n);
    &&& 0 < k
    &&& results.len() == k + rest.len()
    &&& first_open(results.take(k), first)
    &&& forall|j: int| k <= j < results.len() ==> (#[trigger] results[j]).number == rest[j - k]
}

/// The results of a host with an open port: its open ones of the ports probed first,
/// then all the others of the first `n` ports, in their order.
pub open spec fn covers_others(
    results: Seq<PortResult>,
    first: Seq<u16>,
    all: Seq<u16>,
    n: int,
) -> bool {
    exists|k: int| splits(results, first, all, n, k)
}

/// Every host that is reported with ports is reported with all of them.
pub open spec fn all_covered(results: Seq<HostResult>, first: Seq<u16>, all: Seq<u16>) -> bool {
    forall|i: int|
        0 <= i < results.len() && (#[trigger] results[i]).ports@.len() > 0 ==> covers_others(
            results[i].ports@,
            first,
            all,
            all.len() as int,
        )
}

/// The places are in their order, each once, and lie before the `n`th one.
pub open spec fn ordered(places: Seq<usize>, n: int) -> bool {
    &&& forall|i: int| 0 <= i < places.len() ==> #[trigger] places[i] < n
    &&& forall|i: int, j: int|
        0 <= i < j < places.len() ==> #[trigger] places[i] < #[trigger] places[j]
}

/// A target at one of the places has the address.
pub open spec fn found_at(targets: Seq<Target>, places: Seq<usize>, ip: IpAddr) -> bool {
    exists|i: int| 0 <= i < places.len() && targets[#[trigger] places[i] as int].ip == ip
}

/// A target at one of the places has the address.
pub open spec fn listed_at(targets: Seq<Target>, places: Seq<int>, ip: IpAddr) -> bool {
    exists|i: int| 0 <= i < places.len() && targets[#[trigger] places[i]].ip == ip
}

/// The places of those of the first `n` targets that are reported without ports: no
/// target with an open port has their address, and none of them before.
pub open spec fn portless(targets: Seq<Target>, opened: Seq<usize>, n: int) -> Seq<int>
    decreases n,
{
    if n <= 0 {
        Seq::empty()
    } else {
        let before = portless(targets, opened, n - 1);
        let ip = targets[n - 1].ip;
        if found_at(targets, opened, ip) || listed_at(targets, before, ip) {
            before
        } else {
            before.push(n - 1)
        }
    }
}

/// The results are for the targets with an open port, with ports, and then for those
/// at the other places, without.
pub open spec fn reports(
    results: Seq<HostResult>,
    targets: Seq<Target>,
    opened: Seq<usize>,
    rest: Seq<int>,
) -> bool {
    &&& results.len() == opened.len() + rest.len()
    &&& forall|i: int|
        0 <= i < opened.len() ==> (#[trigger] results[i]).ip == targets[opened[i] as int].ip
            && results[i].hostname == targets[opened[i] as int].hostname
            && results[i].ports@.len() > 0
    &&& forall|i: int|
        opened.len() <= i < results.len() ==> (#[trigger] results[i]).ip == targets[rest[i
            - opened.len()]].ip && results[i].hostname == targets[rest[i - opened.len()]].hostname
            && results[i].ports@.len() == 0
}

/// The hosts with an open port are the reported ones, then `turn` hosts whose turn it
/// is, then the waiting ones.
pub open spec fn lined_up(
    results: Seq<HostResult>,
    targets: Seq<Target>,
    opened: Seq<usize>,
    turn: int,
    waiting: Seq<FirstPhaseHost>,
) -> bool {
    let n = results.len() as int;
    &&& n + turn + waiting.len() == opened.len()
    &&& reports(results, targets, opened.take(n), Seq::empty())
    &&& forall|i: int|
        0 <= i < waiting.len() ==> (#[trigger] waiting[i]).target == opened[n + turn + i]
}

/// An address has a result if and only if a target that is reported has it.
proof fn lemma_has_result(
    results: Seq<HostResult>,
    targets: Seq<Target>,
    opened: Seq<usize>,
    rest: Seq<int>,
    ip: IpAddr,
)
    requires
        reports(results, targets, opened, rest),
    ensures
        has_result(results, ip) <==> found_at(targets, opened, ip) || listed_at(targets, rest, ip),
{
    let m = opened.len() as int;
    if has_result(results, ip) {
        let i = choose|i: int| 0 <= i < results.len() && (#[trigger] results[i]).ip == ip;
        if i < m {
            assert(targets[opened[i] as int].ip == ip);
        } else {
            assert(targets[rest[i - m]].ip == ip);
        }
    }
    if found_at(targets, opened, ip) {
        let i = choose|i: int|
            0 <= i < opened.len() && targets[#[trigger] opened[i] as int].ip == ip;
        assert(results[i].ip == ip);
    }
    if listed_at(targets, rest, ip) {
        let i = choose|i: int| 0 <= i < rest.len() && targets[#[trigger] rest[i]].ip == ip;
        assert(results[m + i].ip == ip);
    }
}

/// One more result without ports.
proof fn lemma_reported(
    before: Seq<HostResult>,
    after: Seq<HostResult>,
    targets: Seq<Target>,
    opened: Seq<usize>,
    rest: Seq<int>,
)
    requires
        reports(before, targets, opened, rest),
        after.len() == before.len() + 1,
        after.drop_last() == before,
        after.last().ports@.len() == 0,
    ensures
        forall|t: int|
            after.last().ip == (#[trigger] targets[t]).ip && after.last().hostname
                == targets[t].hostname ==> reports(after, targets, opened, rest.push(t)),
{
    let m = opened.len() as int;
    assert forall|t: int|
        after.last().ip == (#[trigger] targets[t]).ip && after.last().hostname
            == targets[t].hostname implies reports(after, targets, opened, rest.push(t)) by {
        let now = rest.push(t);
        assert forall|i: int| 0 <= i < m implies (#[trigger] after[i]).ip
            == targets[opened[i] as int].ip && after[i].hostname == targets[opened[i] as int].hostname && after[i].ports@.len()
            > 0 by {
            assert(after.drop_last()[i] == before[i]);
        }
        assert forall|i: int| m <= i < after.len() implies (#[trigger] after[i]).ip == targets[now[i
            - m]].ip && after[i].hostname == targets[now[i - m]].hostname && after[i].ports@.len()
            == 0 by {
            if i < before.len() {
                assert(after.drop_last()[i] == before[i]);
            }
        }
    }
}

proof fn lemma_portless(targets: Seq<Target>, opened: Seq<usize>, n: int)
    requires
        n <= targets.len(),
    ensures
        forall|i: int|
            0 <= i < portless(targets, opened, n).len() ==> 0 <= #[trigger] portless(
                targets,
                opened,
                n,
            )[i] < n && !found_at(targets, opened, targets[portless(targets, opened, n)[i]].ip),
        forall|i: int, j: int|
            0 <= i < j < portless(targets, opened, n).len() ==> #[trigger] portless(
                targets,
                opened,
                n,
            )[i] < #[trigger] portless(targets, opened, n)[j],
        forall|t: int|
            0 <= t < n ==> found_at(targets, opened, (#[trigger] targets[t]).ip) || listed_at(
                targets,
                portless(targets, opened, n),
                targets[t].ip,
            ),
    decreases n,
{
    if n > 0 {
        lemma_portless(targets, opened, n - 1);
        let before = portless(targets, opened, n - 1);
        let now = portless(targets, opened, n);
        assert forall|t: int| 0 <= t < n implies found_at(
            targets,
            opened,
            (#[trigger] targets[t]).ip,
        ) || listed_at(targets, now, targets[t].ip) by {
            let ip = targets[t].ip;
            if t < n - 1 {
                if listed_at(targets, before, ip) {
                    let i = choose|i: int|
                        0 <= i < before.len() && targets[#[trigger] before[i]].ip == ip;
                    assert(now[i] == before[i]);
                }
            } else if !found_at(targets, opened, ip) && !listed_at(targets, before, ip) {
                assert(now[now.len() - 1] == t);
            }
        }
    }
}

/// Where no two targets have the same address, every target has exactly one result,
/// and it is without ports if and only if none of the ports probed first is open.
pub proof fn one_result_for_each_target(
    results: Seq<HostResult>,
    targets: Seq<Target>,
    opened: Seq<usize>,
    t: int,
)
    requires
        forall|i: int, j: int|
            0 <= i < j < targets.len() ==> (#[trigger] targets[i]).ip != (#[trigger] targets[j]).ip,
        ordered(opened, targets.len() as int),
        reports(results, targets, opened, portless(targets, opened, targets.len() as int)),
        0 <= t < targets.len(),
    ensures
        exists|i: int| 0 <= i < results.len() && (#[trigger] results[i]).ip == targets[t].ip,
        forall|i: int, j: int|
            0 <= i < results.len() && 0 <= j < results.len() && (#[trigger] results[i]).ip
                == targets[t].ip && (#[trigger] results[j]).ip == targets[t].ip ==> i == j,
        forall|i: int|
            0 <= i < results.len() && (#[trigger] results[i]).ip == targets[t].ip ==> (
            results[i].ports@.len() == 0 <==> !(exists|k: int|
                0 <= k < opened.len() && #[trigger] opened[k] == t)),
{
    let n = targets.len() as int;
    let m = opened.len() as int;
    let rest = portless(targets, opened, n);
    let ip = targets[t].ip;
    lemma_portless(targets, opened, n);
    lemma_has_result(results, targets, opened, rest, ip);
    assert(found_at(targets, opened, ip) || listed_at(targets, rest, ip));
    assert forall|i: int| 0 <= i < results.len() && (#[trigger] results[i]).ip == ip implies (if i
        < m {
        opened[i] == t
    } else {
        rest[i - m] == t
    }) by {
        let p = if i < m {
            opened[i] as int
        } else {
            rest[i - m]
        };
        assert(targets[p].ip == ip);
        assert(0 <= p < n);
        if p < t {
            assert(targets[p].ip != targets[t].ip);
        } else if t < p {
            assert(targets[t].ip != targets[p].ip);
        }
    }
    assert forall|i: int, j: int|
        0 <= i < results.len() && 0 <= j < results.len() && (#[trigger] results[i]).ip == ip && (
        #[trigger] results[j]).ip == ip implies i == j by {
        if i < m && j >= m {
            assert(targets[opened[i] as int].ip == ip);
            assert(found_at(targets, opened, ip));
        } else if i >= m && j < m {
            assert(targets[opened[j] as int].ip == ip);
            assert(found_at(targets, opened, ip));
        } else if i < m {
            assert(opened[i] == opened[j]);
        } else {
            assert(rest[i - m] == rest[j - m]);
        }
    }
    assert forall|i: int| 0 <= i < results.len() && (#[trigger] results[i]).ip == ip implies (
    results[i].ports@.len() == 0 <==> !(exists|k: int|
        0 <= k < opened.len() && #[trigger] opened[k] == t)) by {
        if i < m {
            assert(opened[i] == t);
        } else if exists|k: int| 0 <= k < opened.len() && #[trigger] opened[k] == t {
            let k = choose|k: int| 0 <= k < opened.len() && #[trigger] opened[k] == t;
            assert(targets[opened[k] as int].ip == ip);
            assert(found_at(targets, opened, ip));
        }
    }
}

/// Every waiting host is one of the `n` targets and has an open port.
pub open spec fn all_waiting(waiting: Seq<FirstPhaseHost>, first: Seq<u16>, n: int) -> bool {
    forall|i: int|
        0 <= i < waiting.len() ==> (#[trigger] waiting[i]).target < n && waiting[i].open@.len() > 0
            && first_open(waiting[i].open@, first)
}

/// Passing over ports that were probed first adds none to the others.
proof fn lemma_others_skip(all: Seq<u16>, first: Seq<u16>, from: int)
    requires
        0 <= from <= all.len(),
    ensures
        from <= next_other(all, first, from) <= all.len(),
        others(all, first, next_other(all, first, from)) == others(all, first, from),
    decreases all.len() - from,
{
    if from < all.len() && first.contains(all[from]) {
        lemma_others_skip(all, first, from + 1);
    }
}

/// A result for the next of the others is one more of them.
proof fn lemma_covers_step(
    results: Seq<PortResult>,
    first: Seq<u16>,
    all: Seq<u16>,
    n: int,
    result: PortResult,
)
    requires
        0 <= n < all.len(),
        covers_others(results, first, all, n),
        !first.contains(all[n]),
        result.number == all[n],
    ensures
        covers_others(results.push(result), first, all, n + 1),
{
    let k = choose|k: int| splits(results, first, all, n, k);
    let now = results.push(result);
    assert(now.take(k) =~= results.take(k));
    assert(splits(now, first, all, n + 1, k));
}

/// A covered host has an open port, and a result for every port that was not probed
/// first.
pub proof fn covered_hosts_are_complete(
    results: Seq<PortResult>,
    first: Seq<u16>,
    all: Seq<u16>,
    port: u16,
)
    requires
        covers_others(results, first, all, all.len() as int),
    ensures
        exists|i: int| 0 <= i < results.len() && (#[trigger] results[i]).state == PortState::Open,
        all.contains(port) && !first.contains(port) ==> exists|i: int|
            0 <= i < results.len() && (#[trigger] results[i]).number == port,
{
    let n = all.len() as int;
    let k = choose|k: int| splits(results, first, all, n, k);
    assert(results.take(k)[0] == results[0]);
    assert(results[0].state == PortState::Open);
    if all.contains(port) && !first.contains(port) {
        lemma_others_contains(all, first, n, port);
        let rest = others(all, first, n);
        let j = choose|j: int| 0 <= j < rest.len() && rest[j] == port;
        assert(results[k + j].number == port);
    }
}

proof fn lemma_others_contains(all: Seq<u16>, first: Seq<u16>, n: int, port: u16)
    requires
        0 <= n <= all.len(),
        exists|i: int| 0 <= i < n && all[i] == port,
        !first.contains(port),
    ensures
        others(all, first, n).contains(port),
    decreases n,
{
    let before = others(all, first, n - 1);
    let now = others(all, first, n);
    if all[n - 1] == port {
        assert(now[now.len() - 1] == port);
    } else {
        lemma_others_contains(all, first, n - 1, port);
        let j = choose|j: int| 0 <= j < before.len() && before[j] == port;
        assert(now[j] == port);
    }
}

/// The open ports, with a further one if it is open.
pub open spec fn kept_open(open: Seq<PortResult>, result: PortResult) -> Seq<PortResult> {
    if result.state == PortState::Open {
        open.push(result)
    } else {
        open
    }
}

/// A host waits for its other ports, behind those that did before, if an open port
/// was found.
pub open spec fn waits(
    waiting: Seq<FirstPhaseHost>,
    before: Seq<FirstPhaseHost>,
    target: usize,
    found: Seq<PortResult>,
) -> bool {
    if found.len() > 0 {
        &&& waiting.len() == before.len() + 1
        &&& waiting.drop_last() == before
        &&& waiting.last().target == target
        &&& waiting.last().open@ == found
    } else {
        waiting == before
    }
}

/// The ports that are probed first if the configuration names none.
pub open spec fn default_first_ports() -> Seq<u16> {
    seq![22u16, 80, 443, 8080]
}

impl TwoPhaseSweep {
    /// Every waiting host has an open port; the deep scan is of such a host, at a port
    /// that was not probed first, with results for the ports before; every host that
    /// is reported with ports is reported with all of them; all hosts with an open port
    /// are reported or wait; and all targets before the current one have a result at
    /// the end.
    pub open spec fn wf(&self) -> bool {
        &&& self.first_ports@.len() > 0
        &&& all_waiting(self.waiting@, self.first_ports@, self.targets@.len() as int)
        &&& all_covered(self.results@, self.first_ports@, self.all_ports@)
        &&& match self.place {
            SweepPlace::First { target, port } => {
                &&& target < self.targets@.len()
                &&& port < self.first_ports@.len()
                &&& first_open(self.current@, self.first_ports@)
                &&& self.results@.len() == 0
                &&& ordered(self.opened@, target as int)
                &&& lined_up(self.results@, self.targets@, self.opened@, 0, self.waiting@)
            },
            SweepPlace::Deep { port } => {
                &&& self.deep_target < self.targets@.len()
                &&& ordered(self.opened@, self.targets@.len() as int)
                &&& lined_up(self.results@, self.targets@, self.opened@, 1, self.waiting@)
                &&& self.opened@[self.results@.len() as int] == self.deep_target
                &&& port <= self.all_ports@.len()
                &&& port < self.all_ports@.len() ==> !self.first_ports@.contains(
                    self.all_ports@[port as int],
                )
                &&& covers_others(
                    self.current@,
                    self.first_ports@,
                    self.all_ports@,
                    port as int,
                )
            },
            SweepPlace::Rest { target } => {
                &&& self.waiting@.len() == 0
                &&& target < self.targets@.len()
                &&& ordered(self.opened@, self.targets@.len() as int)
                &&& reports(
                    self.results@,
                    self.targets@,
                    self.opened@,
                    portless(self.targets@, self.opened@, target as int),
                )
                &&& forall|i: int|
                    0 <= i < target ==> has_result(self.results@, (#[trigger] self.targets@[i]).ip)
                &&& !has_result(self.results@, self.targets@[target as int].ip)
            },
            SweepPlace::Ended => {
                &&& self.waiting@.len() == 0
                &&& ordered(self.opened@, self.targets@.len() as int)
                &&& reports(
                    self.results@,
                    self.targets@,
                    self.opened@,
                    portless(self.targets@, self.opened@, self.targets@.len() as int),
                )
                &&& forall|i: int|
                    0 <= i < self.targets@.len() ==> has_result(
                        self.results@,
                        (#[trigger] self.targets@[i]).ip,
                    )
            },
        }
    }

    /// The same targets and ports are swept.
    pub open spec fn same_sweep(&self, other: &Self) -> bool {
        self.targets == other.targets && self.first_ports == other.first_ports && self.all_ports
            == other.all_ports
    }

    /// What is to be done next.
    pub open spec fn next_action(&self) -> SweepAction {
        match self.place {
            SweepPlace::First { target, port } => SweepAction::Probe {
                target,
                port: self.first_ports@[port as int],
            },
            SweepPlace::Deep { port } => if port < self.all_ports@.len() {
                SweepAction::Probe { target: self.deep_target, port: self.all_ports@[port as int] }
            } else {
                SweepAction::ResolveMac { target: self.deep_target }
            },
            SweepPlace::Rest { target } => SweepAction::ResolveMac { target },
            SweepPlace::Ended => SweepAction::Done,
        }
    }

    /// The place among the targets without a result.
    pub open spec fn rest_place(&self, from: int) -> SweepPlace {
        let t = next_missing(self.targets@, self.results@, from);
        if t < self.targets@.len() {
            SweepPlace::Rest { target: t as usize }
        } else {
            SweepPlace::Ended
        }
    }

    /// The deep scan of the first of the `waiting` hosts has begun, or, if there is
    /// none, the rest.
    pub open spec fn has_turned(&self, waiting: Seq<FirstPhaseHost>) -> bool {
        if waiting.len() > 0 {
            &&& self.place == (SweepPlace::Deep {
                port: next_other(self.all_ports@, self.first_ports@, 0) as usize,
            })
            &&& self.deep_target == waiting[0].target
            &&& self.current@ == waiting[0].open@
            &&& self.waiting@ == waiting.drop_first()
        } else {
            self.place == self.rest_place(0) && self.waiting@.len() == 0
        }
    }

    /// Begins a sweep in two phases. Without ports to probe first, common ones are.
    #[must_use]
    pub fn new(targets: Vec<Target>, first_ports: Vec<u16>, all_ports: Vec<u16>) -> (r: Self)
        ensures
            r.wf(),
            r.targets == targets,
            r.all_ports == all_ports,
            r.first_ports@ == if first_ports@.len() > 0 {
                first_ports@
            } else {
                default_first_ports()
            },
            r.results@.len() == 0,
            r.waiting@.len() == 0,
            r.opened@.len() == 0,
            r.current@.len() == 0,
            r.place == if targets@.len() > 0 {
                SweepPlace::First { target: 0, port: 0 }
            } else {
                SweepPlace::Ended
            },
    {
        let first_ports: Vec<u16> = if first_ports.len() > 0 {
            first_ports
        } else {
            let common: Vec<u16> = vec![22, 80, 443, 8080];
            assert(common@ =~= default_first_ports());
            common
        };
        let place = if targets.len() > 0 {
            SweepPlace::First { target: 0, port: 0 }
        } else {
            SweepPlace::Ended
        };
        TwoPhaseSweep {
            targets,
            first_ports,
            all_ports,
            place,
            waiting: Vec::new(),
            opened: Vec::new(),
            deep_target: 0,
            current: Vec::new(),
            results: Vec::new(),
        }
    }

    /// Tells what is to be done next.
    #[must_use]
    pub fn next(&self) -> (r: SweepAction)
        requires
            self.wf(),
        ensures
            r == self.next_action(),
    {
        match self.place {
            SweepPlace::First { target, port } => SweepAction::Probe {
                target,
                port: self.first_ports[port],
            },
            SweepPlace::Deep { port } => if port < self.all_ports.len() {
                SweepAction::Probe { target: self.deep_target, port: self.all_ports[port] }
            } else {
                SweepAction::ResolveMac { target: self.deep_target }
            },
            SweepPlace::Rest { target } => SweepAction::ResolveMac { target },
            SweepPlace::Ended => SweepAction::Done,
        }
    }

    fn skip_first_ports(&self, from: usize) -> (r: usize)
        requires
            from <= self.all_ports@.len(),
        ensures
            r == next_other(self.all_ports@, self.first_ports@, from as int),
            from <= r <= self.all_ports@.len(),
            r < self.all_ports@.len() ==> !self.first_ports@.contains(self.all_ports@[r as int]),
    {
        let mut q: usize = from;
        while q < self.all_ports.len() && has_port(&self.first_ports, self.all_ports[q])
            invariant
                from <= q <= self.all_ports@.len(),
                next_other(self.all_ports@, self.first_ports@, from as int) == next_other(
                    self.all_ports@,
                    self.first_ports@,
                    q as int,
                ),
            decreases self.all_ports.len() - q,
        {
            q += 1;
        }
        q
    }

    fn reported(&self, ip: IpAddr) -> (r: bool)
        ensures
            r == has_result(self.results@, ip),
    {
        let mut i: usize = 0;
        while i < self.results.len()
            invariant
                i <= self.results.len(),
                forall|j: int| 0 <= j < i ==> (#[trigger] self.results@[j]).ip != ip,
            decreases self.results.len() - i,
        {
            if self.results[i].ip == ip {
                assert(self.results@[i as int].ip == ip);
                return true;
            }
            i += 1;
        }
        false
    }

    /// Goes on to the next target without a result.
    fn turn_to_rest(&mut self, from: usize)
        requires
            from <= old(self).targets@.len(),
            old(self).first_ports@.len() > 0,
            old(self).waiting@.len() == 0,
            ordered(old(self).opened@, old(self).targets@.len() as int),
            reports(
                old(self).results@,
                old(self).targets@,
                old(self).opened@,
                portless(old(self).targets@, old(self).opened@, from as int),
            ),
            forall|i: int|
                0 <= i < from ==> has_result(
                    old(self).results@,
                    (#[trigger] old(self).targets@[i]).ip,
                ),
            all_covered(old(self).results@, old(self).first_ports@, old(self).all_ports@),
        ensures
            final(self).wf(),
            final(self).same_sweep(old(self)),
            final(self).waiting@.len() == 0,
            final(self).opened == old(self).opened,
            final(self).results == old(self).results,
            final(self).place == final(self).rest_place(from as int),
    {
        let mut t: usize = from;
        while t < self.targets.len() && self.reported(self.targets[t].ip)
            invariant
                from <= t <= self.targets@.len(),
                *self == *old(self),
                next_missing(self.targets@, self.results@, from as int) == next_missing(
                    self.targets@,
                    self.results@,
                    t as int,
                ),
                reports(
                    self.results@,
                    self.targets@,
                    self.opened@,
                    portless(self.targets@, self.opened@, t as int),
                ),
                forall|i: int|
                    0 <= i < t ==> has_result(self.results@, (#[trigger] self.targets@[i]).ip),
            decreases self.targets.len() - t,
        {
            proof {
                lemma_has_result(
                    self.results@,
                    self.targets@,
                    self.opened@,
                    portless(self.targets@, self.opened@, t as int),
                    self.targets@[t as int].ip,
                );
            }
            t += 1;
        }
        if t < self.targets.len() {
            self.place = SweepPlace::Rest { target: t };
        } else {
            self.place = SweepPlace::Ended;
        }
    }

    /// Goes on to the next waiting host, or, if there is none, to the rest.
    fn turn(&mut self)
        requires
            old(self).first_ports@.len() > 0,
            all_waiting(
                old(self).waiting@,
                old(self).first_ports@,
                old(self).targets@.len() as int,
            ),
            ordered(old(self).opened@, old(self).targets@.len() as int),
            lined_up(
                old(self).results@,
                old(self).targets@,
                old(self).opened@,
                0,
                old(self).waiting@,
            ),
            all_covered(old(self).results@, old(self).first_ports@, old(self).all_ports@),
        ensures
            final(self).wf(),
            final(self).same_sweep(old(self)),
            final(self).opened == old(self).opened,
            final(self).results == old(self).results,
            final(self).has_turned(old(self).waiting@),
    {
        if self.waiting.len() > 0 {
            let ghost before = self.waiting@;
            let host = self.waiting.remove(0);
            proof {
                assert(self.waiting@ =~= before.drop_first());
                assert(host == before[0]);
                assert forall|i: int| 0 <= i < self.waiting@.len() implies (
                #[trigger] self.waiting@[i]).target < self.targets@.len()
                    && self.waiting@[i].open@.len() > 0 && first_open(
                    self.waiting@[i].open@,
                    self.first_ports@,
                ) by {
                    assert(self.waiting@[i] == before[i + 1]);
                }
            }
            self.deep_target = host.target;
            self.current = host.open;
            let q: usize = self.skip_first_ports(0);
            proof {
                let open = self.current@;
                let k = open.len() as int;
                lemma_others_skip(self.all_ports@, self.first_ports@, 0);
                assert(open.take(k) =~= open);
                assert(splits(open, self.first_ports@, self.all_ports@, q as int, k));
            }
            self.place = SweepPlace::Deep { port: q };
        } else {
            proof {
                assert(self.opened@.take(self.results@.len() as int) =~= self.opened@);
            }
            self.turn_to_rest(0);
        }
    }

    /// Takes in the result for the port that was to be probed.
    pub fn port_scanned(&mut self, result: PortResult, stats: &mut ScanStats)
        requires
            old(self).wf(),
            old(self).next_action() is Probe,
            result.number == old(self).next_action()->port,
        ensures
            final(self).wf(),
            final(self).same_sweep(old(self)),
            final(self).results == old(self).results,
            *final(stats) == old(stats).probed(
                1,
                if result.state == PortState::Open {
                    1
                } else {
                    0
                },
            ),
            match old(self).place {
                SweepPlace::First { target, port } => {
                    let found = kept_open(old(self).current@, result);
                    if port + 1 < old(self).first_ports@.len() {
                        &&& final(self).place == (SweepPlace::First {
                            target,
                            port: (port + 1) as usize,
                        })
                        &&& final(self).current@ == found
                        &&& final(self).waiting == old(self).waiting
                        &&& final(self).opened == old(self).opened
                    } else {
                        // The target is done: it waits for its other ports if one was open.
                        &&& final(self).opened@ == if found.len() > 0 {
                            old(self).opened@.push(target)
                        } else {
                            old(self).opened@
                        }
                        &&& exists|waiting: Seq<FirstPhaseHost>| #[trigger]
                            waits(waiting, old(self).waiting@, target, found) && if target + 1
                                < old(self).targets@.len() {
                                &&& final(self).place == (SweepPlace::First {
                                    target: (target + 1) as usize,
                                    port: 0,
                                })
                                &&& final(self).current@.len() == 0
                                &&& final(self).waiting@ == waiting
                            } else {
                                final(self).has_turned(waiting)
                            }
                    }
                },
                SweepPlace::Deep { port } => {
                    &&& final(self).current@ == old(self).current@.push(result)
                    &&& final(self).waiting == old(self).waiting
                    &&& final(self).opened == old(self).opened
                    &&& final(self).deep_target == old(self).deep_target
                    &&& final(self).place == (SweepPlace::Deep {
                        port: next_other(
                            old(self).all_ports@,
                            old(self).first_ports@,
                            port + 1,
                        ) as usize,
                    })
                },
                _ => false,
            },
    {
        stats.record_probe(result.state);
        match self.place {
            SweepPlace::First { target, port } => {
                if result.state == PortState::Open {
                    self.current.push(result);
                }
                let ghost found = kept_open(old(self).current@, result);
                assert(self.current@ =~= found);
                let port_count: usize = self.first_ports.len();
                let target_count: usize = self.targets.len();
                assert(port < port_count && target < target_count);
                if port + 1 < self.first_ports.len() {
                    self.place = SweepPlace::First { target, port: port + 1 };
                } else {
                    let mut open: Vec<PortResult> = Vec::new();
                    std::mem::swap(&mut open, &mut self.current);
                    let ghost before = self.waiting@;
                    if open.len() > 0 {
                        let ghost opened = self.opened@;
                        self.waiting.push(FirstPhaseHost { target, open });
                        self.opened.push(target);
                        proof {
                            assert(self.waiting@.drop_last() =~= before);
                            assert(self.opened@.take(0) =~= opened.take(0));
                        }
                    }
                    let ghost waiting = self.waiting@;
                    assert(waits(waiting, before, target, found));
                    if target + 1 < self.targets.len() {
                        self.place = SweepPlace::First { target: target + 1, port: 0 };
                    } else {
                        self.turn();
                    }
                }
            },
            SweepPlace::Deep { port } => {
                let ghost before = self.current@;
                self.current.push(result);
                let port_count: usize = self.all_ports.len();
                assert(port < port_count);
                let q: usize = self.skip_first_ports(port + 1);
                self.place = SweepPlace::Deep { port: q };
                proof {
                    lemma_covers_step(
                        before,
                        self.first_ports@,
                        self.all_ports@,
                        port as int,
                        result,
                    );
                    lemma_others_skip(self.all_ports@, self.first_ports@, port + 1);
                    let n = port + 1;
                    let k = choose|k: int|
                        splits(self.current@, self.first_ports@, self.all_ports@, n, k);
                    assert(splits(
                        self.current@,
                        self.first_ports@,
                        self.all_ports@,
                        q as int,
                        k,
                    ));
                }
            },
            _ => {},
        }
    }

    /// Takes in the hardware address that was to be found out: the host is reported,
    /// with its ports if it has an open one.
    pub fn mac_resolved(&mut self, mac: Option<MacAddress>)
        requires
            old(self).wf(),
            old(self).next_action() is ResolveMac,
        ensures
            final(self).wf(),
            final(self).same_sweep(old(self)),
            final(self).opened == old(self).opened,
            final(self).results@.len() == old(self).results@.len() + 1,
            final(self).results@.drop_last() == old(self).results@,
            match old(self).place {
                SweepPlace::Deep { port } => {
                    &&& models::is_host_result(
                        final(self).results@.last(),
                        old(self).targets@[old(self).deep_target as int],
                        ports::reported_mac(
                            old(self).targets@[old(self).deep_target as int].ip,
                            mac,
                        ),
                        "syn-ack"@,
                        1_000_000,
                        old(self).current@,
                        None,
                    )
                    &&& final(self).has_turned(old(self).waiting@)
                },
                SweepPlace::Rest { target } => {
                    &&& models::is_host_result(
                        final(self).results@.last(),
                        old(self).targets@[target as int],
                        ports::reported_mac(old(self).targets@[target as int].ip, mac),
                        "host-alive"@,
                        1_000_000,
                        Seq::empty(),
                        None,
                    )
                    &&& final(self).place == final(self).rest_place(target + 1)
                },
                _ => false,
            },
    {
        let ghost before = self.results@;
        match self.place {
            SweepPlace::Deep { port } => {
                let mut ports: Vec<PortResult> = Vec::new();
                std::mem::swap(&mut ports, &mut self.current);
                let result = host_result(
                    &self.targets[self.deep_target],
                    mac_to_report(self.targets[self.deep_target].ip, mac),
                    "syn-ack",
                    ASSUMED_LATENCY,
                    ports,
                    None,
                );
                self.results.push(result);
                proof {
                    assert(self.results@.drop_last() =~= before);
                    assert forall|i: int|
                        0 <= i < self.results@.len() && (#[trigger] self.results@[i]).ports@.len()
                            > 0 implies covers_others(
                        self.results@[i].ports@,
                        self.first_ports@,
                        self.all_ports@,
                        self.all_ports@.len() as int,
                    ) by {
                        if i < before.len() {
                            assert(self.results@[i] == before[i]);
                        }
                    }
                    let n = before.len() as int;
                    let done = self.opened@.take(n + 1);
                    assert forall|i: int| 0 <= i < done.len() implies (
                    #[trigger] self.results@[i]).ip == self.targets@[done[i] as int].ip
                        && self.results@[i].hostname == self.targets@[done[i] as int].hostname
                        && self.results@[i].ports@.len() > 0 by {
                        if i < n {
                            assert(self.results@[i] == before[i]);
                            assert(self.opened@.take(n)[i] == done[i]);
                        }
                    }
                    assert(reports(self.results@, self.targets@, done, Seq::empty()));
                }
                self.turn();
            },
            SweepPlace::Rest { target } => {
                let ports: Vec<PortResult> = Vec::new();
                assert(ports@ =~= Seq::<PortResult>::empty());
                let result = host_result(
                    &self.targets[target],
                    mac_to_report(self.targets[target].ip, mac),
                    "host-alive",
                    ASSUMED_LATENCY,
                    ports,
                    None,
                );
                self.results.push(result);
                proof {
                    assert(self.results@.drop_last() =~= before);
                    assert forall|i: int|
                        0 <= i < self.results@.len() && (#[trigger] self.results@[i]).ports@.len()
                            > 0 implies covers_others(
                        self.results@[i].ports@,
                        self.first_ports@,
                        self.all_ports@,
                        self.all_ports@.len() as int,
                    ) by {
                        if i < before.len() {
                            assert(self.results@[i] == before[i]);
                        }
                    }
                    assert forall|i: int| 0 <= i < target + 1 implies has_result(
                        self.results@,
                        (#[trigger] self.targets@[i]).ip,
                    ) by {
                        if i < target {
                            let j = choose|j: int|
                                0 <= j < before.len() && (#[trigger] before[j]).ip
                                    == self.targets@[i].ip;
                            assert(self.results@[j].ip == self.targets@[i].ip);
                        } else {
                            assert(self.results@[before.len() as int].ip == self.targets@[i].ip);
                        }
                    }
                }
                proof {
                    let rest = portless(self.targets@, self.opened@, target as int);
                    lemma_has_result(
                        before,
                        self.targets@,
                        self.opened@,
                        rest,
                        self.targets@[target as int].ip,
                    );
                    assert(portless(self.targets@, self.opened@, target + 1) == rest.push(
                        target as int,
                    ));
                    lemma_reported(before, self.results@, self.targets@, self.opened@, rest);
                }
                let target_count: usize = self.targets.len();
                assert(target < target_count);
                self.turn_to_rest(target + 1);
            },
            _ => {},
        }
    }

    /// The results of a sweep that has ended: one for each host with an open port among
    /// those probed first, with its open ones of these and with all others, and then one
    /// without ports for every other address; every target has one.
    #[must_use]
    pub fn finish(self) -> (r: Vec<HostResult>)
        requires
            self.wf(),
            self.next_action() is Done,
        ensures
            r == self.results,
            ordered(self.opened@, self.targets@.len() as int),
            reports(
                r@,
                self.targets@,
                self.opened@,
                portless(self.targets@, self.opened@, self.targets@.len() as int),
            ),
            forall|i: int|
                0 <= i < self.targets@.len() ==> has_result(r@, (#[trigger] self.targets@[i]).ip),
            all_covered(r@, self.first_ports@, self.all_ports@),
    {
        self.results
    }
}

/// A sweep probes every port of a target in order, then asks for its hardware address, and
/// goes through all targets.
pub proof fn a_sweep_probes_port_by_port(s: SequentialSweep)
    ensures
        s.next_action() is Done <==> s.target >= s.targets@.len(),
        s.target < s.targets@.len() && s.port < s.ports@.len() ==> s.next_action() == (
        SweepAction::Probe { target: s.target, port: s.ports@[s.port as int] }),
        s.target < s.targets@.len() && s.port >= s.ports@.len() ==> s.next_action() == (
        SweepAction::ResolveMac { target: s.target }),
{
}

/// Every target of a sweep that has ended is reported in its place, as up, with a result
/// for each port in order.
pub proof fn sweeps_report_every_target(s: SequentialSweep, i: int, j: int)
    requires
        s.wf(),
        s.next_action() is Done,
        0 <= i < s.targets@.len(),
        0 <= j < s.ports@.len(),
    ensures
        s.results@.len() == s.targets@.len(),
        s.results@[i].ip == s.targets@[i].ip,
        s.results@[i].hostname == s.targets@[i].hostname,
        s.results@[i].status is Up,
        s.results@[i].ports@.len() == s.ports@.len(),
        s.results@[i].ports@[j].number == s.ports@[j],
{
    assert(s.reported(i, s.results@[i]));
}

/// The ports that are probed in the second phase are those that were not probed in the
/// first: none twice, and none left out.
pub proof fn the_second_phase_probes_the_rest(all: Seq<u16>, first: Seq<u16>, n: int, port: u16)
    requires
        0 <= n <= all.len(),
    ensures
        others(all, first, n).contains(port) <==> !first.contains(port) && exists|i: int|
            0 <= i < n && all[i] == port,
    decreases n,
{
    let now = others(all, first, n);
    if n > 0 {
        the_second_phase_probes_the_rest(all, first, n - 1, port);
        let before = others(all, first, n - 1);
        if before.contains(port) {
            let k = before.index_of(port);
            assert(now[k] == port);
        }
        if now.contains(port) {
            let k = now.index_of(port);
            if k < before.len() {
                assert(before[k] == port);
            } else {
                assert(all[n - 1] == port);
            }
        }
        if all[n - 1] == port && !first.contains(port) {
            assert(now[now.len() - 1] == port);
        }
    } else {
        assert(now.len() == 0);
    }
}

/// The next port of the second phase is the next that was not probed in the first, and the
/// next host without ports the next that has no result.
pub proof fn the_next_place_is_the_next_missing(
    all: Seq<u16>,
    first: Seq<u16>,
    from: int,
)
    requires
        0 <= from <= all.len(),
    ensures
        from <= next_other(all, first, from) <= all.len(),
        forall|i: int|
            from <= i < next_other(all, first, from) ==> first.contains(#[trigger] all[i]),
        next_other(all, first, from) < all.len() ==> !first.contains(
            all[next_other(all, first, from)],
        ),
    decreases all.len() - from,
{
    if from < all.len() && first.contains(all[from]) {
        the_next_place_is_the_next_missing(all, first, from + 1);
    }
}

/// The next target that is reported without ports is the next one without a result.
pub proof fn the_next_target_has_no_result(
    targets: Seq<Target>,
    results: Seq<HostResult>,
    from: int,
)
    requires
        0 <= from <= targets.len(),
    ensures
        from <= next_missing(targets, results, from) <= targets.len(),
        forall|i: int|
            from <= i < next_missing(targets, results, from) ==> has_result(
                results,
                (#[trigger] targets[i]).ip,
            ),
        next_missing(targets, results, from) < targets.len() ==> forall|j: int|
            0 <= j < results.len() ==> (#[trigger] results[j]).ip != targets[next_missing(
                targets,
                results,
                from,
            )].ip,
    decreases targets.len() - from,
{
    if from < targets.len() && has_result(results, targets[from].ip) {
        the_next_target_has_no_result(targets, results, from + 1);
    } else if from < targets.len() {
        assert forall|j: int| 0 <= j < results.len() implies (#[trigger] results[j]).ip
            != targets[from].ip by {
            if results[j].ip == targets[from].ip {
                assert(has_result(results, targets[from].ip));
            }
        }
    }
}

/// A host has its turn in the second phase if and only if one of its first ports is open;
/// of these ports the open ones are kept, and hosts have their turns in order.
pub proof fn open_hosts_have_their_turn(
    open: Seq<PortResult>,
    result: PortResult,
    before: Seq<FirstPhaseHost>,
    waiting: Seq<FirstPhaseHost>,
    target: usize,
)
    requires
        waits(waiting, before, target, kept_open(open, result)),
    ensures
        kept_open(open, result).contains(result) || !(result.state is Open),
        result.state is Open ==> kept_open(open, result) == open.push(result),
        !(result.state is Open) ==> kept_open(open, result) == open,
        waiting.len() == before.len() + 1 <==> open.len() > 0 || result.state is Open,
        waiting.len() == before.len() ==> waiting == before,
        waiting.len() == before.len() + 1 ==> waiting.last().target == target
            && waiting.last().open@ == kept_open(open, result),
        forall|i: int| 0 <= i < before.len() ==> #[trigger] waiting[i] == before[i],
{
    let now = kept_open(open, result);
    if result.state is Open {
        assert(now[open.len() as int] == result);
    }
    if now.len() > 0 {
        assert forall|i: int| 0 <= i < before.len() implies #[trigger] waiting[i] == before[i] by {
            assert(waiting.drop_last()[i] == before[i]);
        }
    }
}

/// Unless others are named, the ports of the secure shell and of web servers are probed
/// first.
pub proof fn common_ports_are_probed_first(port: u16)
    ensures
        default_first_ports().contains(port) <==> port == 22 || port == 80 || port == 443 || port
            == 8080,
        default_first_ports().len() == 4,
        default_first_ports()[0] == 22,
{
    let d = default_first_ports();
    assert(d[0] == 22 && d[1] == 80 && d[2] == 443 && d[3] == 8080);
}

/// The port that is probed next is one of the first in the first phase, and one of all
/// in the second; a sweep is done when it has ended and not before.
pub proof fn a_two_phase_sweep_probes_its_ports(s: TwoPhaseSweep)
    ensures
        s.next_action() is Done <==> s.place is Ended,
        s.place matches SweepPlace::First { target, port } ==> s.next_action() == (
        SweepAction::Probe { target, port: s.first_ports@[port as int] }),
        s.place matches SweepPlace::Deep { port } ==> if port < s.all_ports@.len() {
            s.next_action() == (SweepAction::Probe {
                target: s.deep_target,
                port: s.all_ports@[port as int],
            })
        } else {
            s.next_action() == (SweepAction::ResolveMac { target: s.deep_target })
        },
        s.place matches SweepPlace::Rest { target } ==> s.next_action() == (
        SweepAction::ResolveMac { target }),
{
}

/// At the end a sweep goes from one target without a result to the next, and ends where
/// every target has one.
pub proof fn the_rest_is_what_has_no_result(s: TwoPhaseSweep, from: int)
    requires
        0 <= from <= s.targets@.len(),
    ensures
        match s.rest_place(from) {
            SweepPlace::Rest { target } => {
                &&& from <= target < s.targets@.len()
                &&& !has_result(s.results@, s.targets@[target as int].ip)
                &&& forall|i: int|
                    from <= i < target ==> has_result(s.results@, (#[trigger] s.targets@[i]).ip)
            },
            SweepPlace::Ended => forall|i: int|
                from <= i < s.targets@.len() ==> has_result(
                    s.results@,
                    (#[trigger] s.targets@[i]).ip,
                ),
            _ => false,
        },
{
    the_next_target_has_no_result(s.targets@, s.results@, from);
    assert(s.targets.len() <= usize::MAX);
}

} // verus!
