//! Scanning all ports of a target at once, one target after the other.
//!
//! A batch knows which target is to be scanned next, and whose hardware address is
//! then to be found out; scanning is done by its user, who hands the results in.
use crate::addr::IpAddr;
use crate::config::ServiceDatabase;
use crate::models::{HostResult, MacAddress, ScanType, Target};
use crate::ports;
use crate::ports::{
    batch_scanner, connect_result, mac_to_report, stealth_result, ScannedPorts, Scanner,
};
use crate::state::ScanStats;
use vstd::prelude::*;

verus! {

/// How the ports of a target are scanned.
#[derive(Clone, Copy, Debug, PartialEq, Eq, Structural)]
pub enum BatchMode {
    /// By connecting.
    Connect,
    /// By raw probes.
    Stealth(Scanner),
}

/// What is to be done next in a batch.
#[derive(Clone, Copy, Debug, PartialEq, Eq, Structural)]
pub enum BatchAction {
    /// Scan the ports of the target at this place.
    Scan { target: usize },
    /// Find out the hardware address of the target at this place.
    ResolveMac { target: usize },
    /// Nothing: the batch has ended.
    Done,
}

/// Targets of which all ports are scanned at once.
#[derive(Debug)]
pub struct BatchSweep {
    pub targets: Vec<Target>,
    pub ports: Vec<u16>,
    pub mode: BatchMode,
    /// The target that is being scanned.
    pub target: usize,
    /// What the scan of this target found.
    pub found: Option<ScannedPorts>,
    /// The places of the targets whose scan failed.
    pub failed: Vec<usize>,
    pub results: Vec<HostResult>,
}

/// The target is scanned: raw probes cannot reach IPv6.
pub open spec fn takes_part(mode: BatchMode, t: Target) -> bool {
    mode is Connect || t.ip is V4
}

/// The place of the first target from `from` on that is scanned.
pub open spec fn next_target(mode: BatchMode, targets: Seq<Target>, from: int) -> int
    decreases targets.len() - from,
{
    if 0 <= from < targets.len() && !takes_part(mode, targets[from]) {
        next_target(mode, targets, from + 1)
    } else {
        from
    }
}

/// The way to scan a target in a batch with a scan type; there is none for types
/// that are scanned port by port.
pub open spec fn mode_for(scan_type: ScanType) -> Option<BatchMode> {
    match scan_type {
        ScanType::TcpConnect => Some(BatchMode::Connect),
        ScanType::TcpFin => Some(BatchMode::Stealth(Scanner::Fin)),
        ScanType::TcpNull => Some(BatchMode::Stealth(Scanner::Null)),
        ScanType::TcpXmas => Some(BatchMode::Stealth(Scanner::Xmas)),
        ScanType::TcpMaimon => Some(BatchMode::Stealth(Scanner::Maimon)),
        ScanType::TcpAck => Some(BatchMode::Stealth(Scanner::Ack)),
        ScanType::TcpWindow => Some(BatchMode::Stealth(Scanner::Window)),
        ScanType::Udp => Some(BatchMode::Stealth(Scanner::Udp)),
        _ => None,
    }
}

/// The way to scan a target in a batch with a scan type.
#[must_use]
pub fn batch_mode(scan_type: ScanType) -> (r: Option<BatchMode>)
    ensures
        r == mode_for(scan_type),
{
    if scan_type == ScanType::TcpConnect {
        return Some(BatchMode::Connect);
    }
    match batch_scanner(scan_type) {
        Some(s) => Some(BatchMode::Stealth(s)),
        None => None,
    }
}

/// The scan of the target at this place failed.
pub open spec fn is_failed(failed: Seq<usize>, target: int) -> bool {
    exists|i: int| 0 <= i < failed.len() && #[trigger] failed[i] == target
}

/// The places of those of the first `n` targets that take part and whose scan did not
/// fail, in their order.
pub open spec fn scanned_places(
    mode: BatchMode,
    targets: Seq<Target>,
    failed: Seq<usize>,
    n: int,
) -> Seq<int>
    decreases n,
{
    if n <= 0 {
        Seq::empty()
    } else if takes_part(mode, targets[n - 1]) && !is_failed(failed, n - 1) {
        scanned_places(mode, targets, failed, n - 1).push(n - 1)
    } else {
        scanned_places(mode, targets, failed, n - 1)
    }
}

/// Every target that takes part and whose scan did not fail is among the scanned ones,
/// once and in the order of the targets, and no other is.
pub proof fn scanned_places_are_complete(
    mode: BatchMode,
    targets: Seq<Target>,
    failed: Seq<usize>,
    n: int,
)
    ensures
        forall|i: int, j: int|
            0 <= i < j < scanned_places(mode, targets, failed, n).len()
                ==> #[trigger] scanned_places(mode, targets, failed, n)[i]
                < #[trigger] scanned_places(mode, targets, failed, n)[j],
        forall|i: int|
            0 <= i < scanned_places(mode, targets, failed, n).len() ==> {
                let t = #[trigger] scanned_places(mode, targets, failed, n)[i];
                0 <= t < n && takes_part(mode, targets[t]) && !is_failed(failed, t)
            },
        forall|t: int|
            0 <= t < n && takes_part(mode, #[trigger] targets[t]) && !is_failed(failed, t)
                ==> scanned_places(mode, targets, failed, n).contains(t),
    decreases n,
{
    if n > 0 {
        scanned_places_are_complete(mode, targets, failed, n - 1);
        let before = scanned_places(mode, targets, failed, n - 1);
        let now = scanned_places(mode, targets, failed, n);
        assert forall|t: int|
            0 <= t < n && takes_part(mode, #[trigger] targets[t]) && !is_failed(
                failed,
                t,
            ) implies now.contains(t) by {
            if t < n - 1 {
                let i = choose|i: int| 0 <= i < before.len() && before[i] == t;
                assert(now[i] == t);
            } else {
                assert(now[now.len() - 1] == t);
            }
        }
    }
}

/// A failure further on does not matter.
proof fn lemma_failed_later(
    mode: BatchMode,
    targets: Seq<Target>,
    failed: Seq<usize>,
    later: usize,
    n: int,
)
    requires
        n <= later,
    ensures
        scanned_places(mode, targets, failed.push(later), n) == scanned_places(
            mode,
            targets,
            failed,
            n,
        ),
    decreases n,
{
    if n > 0 {
        lemma_failed_later(mode, targets, failed, later, n - 1);
        let now = failed.push(later);
        if is_failed(failed, n - 1) {
            let i = choose|i: int| 0 <= i < failed.len() && #[trigger] failed[i] == n - 1;
            assert(now[i] == n - 1);
        }
        if is_failed(now, n - 1) {
            let i = choose|i: int| 0 <= i < now.len() && #[trigger] now[i] == n - 1;
            assert(failed[i] == n - 1);
        }
    }
}

/// The results are for the targets at these places, one for each, in their order.
pub open spec fn reports_in_order(
    results: Seq<HostResult>,
    targets: Seq<Target>,
    places: Seq<int>,
) -> bool {
    &&& results.len() == places.len()
    &&& forall|i: int|
        0 <= i < results.len() ==> (#[trigger] results[i]).ip == targets[places[i]].ip
            && results[i].hostname == targets[places[i]].hostname
}

/// A port is reported for a host.
pub open spec fn reports_port(r: HostResult, port: u16) -> bool {
    exists|i: int| 0 <= i < r.ports@.len() && (#[trigger] r.ports@[i]).number == port
}

/// Every port is reported for every host.
pub open spec fn reports_all(results: Seq<HostResult>, ports: Seq<u16>) -> bool {
    forall|i: int, port: u16|
        0 <= i < results.len() && ports.contains(port) ==> #[trigger] reports_port(
            results[i],
            port,
        )
}

/// The places lie before this one.
pub open spec fn all_before(places: Seq<usize>, target: int) -> bool {
    forall|i: int| 0 <= i < places.len() ==> #[trigger] places[i] < target
}

impl BatchSweep {
    /// The batch is at a target that takes part, or at the end; each target before that
    /// takes part has one result unless its scan failed; and every result is for all
    /// ports.
    pub open spec fn wf(&self) -> bool {
        &&& self.target <= self.targets@.len()
        &&& self.target < self.targets@.len() ==> takes_part(
            self.mode,
            self.targets@[self.target as int],
        )
        &&& self.target == self.targets@.len() ==> self.found is None
        &&& all_before(self.failed@, self.target as int)
        &&& reports_in_order(
            self.results@,
            self.targets@,
            scanned_places(self.mode, self.targets@, self.failed@, self.target as int),
        )
        &&& reports_all(self.results@, self.ports@)
    }

    /// What is to be done next.
    pub open spec fn next_action(&self) -> BatchAction {
        if self.target >= self.targets@.len() {
            BatchAction::Done
        } else if self.found is None {
            BatchAction::Scan { target: self.target }
        } else {
            BatchAction::ResolveMac { target: self.target }
        }
    }

    /// The same targets and ports are scanned in the same way.
    pub open spec fn same_batch(&self, other: &Self) -> bool {
        self.targets == other.targets && self.ports == other.ports && self.mode == other.mode
    }

    /// Begins a batch.
    #[must_use]
    pub fn new(targets: Vec<Target>, ports: Vec<u16>, mode: BatchMode) -> (r: Self)
        ensures
            r.wf(),
            r.targets == targets,
            r.ports == ports,
            r.mode == mode,
            r.target == next_target(mode, targets@, 0),
            r.found is None,
            r.failed@.len() == 0,
            r.results@.len() == 0,
    {
        let mut r = BatchSweep {
            targets,
            ports,
            mode,
            target: 0,
            found: None,
            failed: Vec::new(),
            results: Vec::new(),
        };
        r.seek(0);
        r
    }

    /// Goes on to the next target that takes part.
    fn seek(&mut self, from: usize)
        requires
            from <= old(self).targets@.len(),
            old(self).found is None,
            all_before(old(self).failed@, from as int),
            reports_in_order(
                old(self).results@,
                old(self).targets@,
                scanned_places(
                    old(self).mode,
                    old(self).targets@,
                    old(self).failed@,
                    from as int,
                ),
            ),
            reports_all(old(self).results@, old(self).ports@),
        ensures
            final(self).wf(),
            final(self).same_batch(old(self)),
            final(self).results == old(self).results,
            final(self).failed == old(self).failed,
            final(self).found is None,
            final(self).target == next_target(old(self).mode, old(self).targets@, from as int),
    {
        let mut t: usize = from;
        let connect = match self.mode {
            BatchMode::Connect => true,
            BatchMode::Stealth(_) => false,
        };
        while t < self.targets.len() && !(connect || is_v4(&self.targets[t]))
            invariant
                from <= t <= self.targets@.len(),
                *self == *old(self),
                connect == (self.mode is Connect),
                next_target(self.mode, self.targets@, from as int) == next_target(
                    self.mode,
                    self.targets@,
                    t as int,
                ),
                scanned_places(self.mode, self.targets@, self.failed@, from as int)
                    == scanned_places(self.mode, self.targets@, self.failed@, t as int),
            decreases self.targets.len() - t,
        {
            t += 1;
        }
        self.target = t;
    }

    /// Tells what is to be done next.
    #[must_use]
    pub fn next(&self) -> (r: BatchAction)
        ensures
            r == self.next_action(),
    {
        if self.target >= self.targets.len() {
            BatchAction::Done
        } else if self.found.is_none() {
            BatchAction::Scan { target: self.target }
        } else {
            BatchAction::ResolveMac { target: self.target }
        }
    }

    /// Takes in what the scan of the target found; a target of which there is no scan,
    /// because the scanner could not be made or failed, is left out.
    pub fn scanned(&mut self, found: Option<ScannedPorts>)
        requires
            old(self).wf(),
            old(self).next_action() is Scan,
        ensures
            final(self).wf(),
            final(self).same_batch(old(self)),
            final(self).results == old(self).results,
            final(self).found == found,
            final(self).failed@ == if found is Some {
                old(self).failed@
            } else {
                old(self).failed@.push(old(self).target)
            },
            final(self).target == if found is Some {
                old(self).target as int
            } else {
                next_target(old(self).mode, old(self).targets@, old(self).target + 1)
            },
    {
        match found {
            Some(ports) => {
                self.found = Some(ports);
            },
            None => {
                let count: usize = self.targets.len();
                assert(self.target < count);
                let at: usize = self.target;
                let ghost before = self.failed@;
                self.failed.push(at);
                proof {
                    lemma_failed_later(self.mode, self.targets@, before, at, at as int);
                    assert(self.failed@[before.len() as int] == at);
                    assert(is_failed(self.failed@, at as int));
                    assert forall|i: int| 0 <= i < self.failed@.len() implies
                        #[trigger] self.failed@[i] < at + 1 by {
                        if i < before.len() {
                            assert(before[i] < at);
                        }
                    }
                }
                self.seek(at + 1);
            },
        }
    }

    /// Takes in the hardware address of the target that was scanned: the target is
    /// reported, and the batch goes on to the next one.
    pub fn mac_resolved(
        &mut self,
        mac: Option<MacAddress>,
        db: &ServiceDatabase,
        stats: &mut ScanStats,
    )
        requires
            old(self).wf(),
            old(self).next_action() is ResolveMac,
        ensures
            final(self).wf(),
            final(self).same_batch(old(self)),
            final(self).found is None,
            final(self).failed == old(self).failed,
            final(self).target == next_target(
                old(self).mode,
                old(self).targets@,
                old(self).target + 1,
            ),
            final(self).results@.len() == old(self).results@.len() + 1,
            final(self).results@.drop_last() == old(self).results@,
            ({
                let target = old(self).targets@[old(self).target as int];
                let found = old(self).found->0@;
                let ports = old(self).ports@;
                let r = final(self).results@.last();
                match old(self).mode {
                    BatchMode::Connect => {
                        &&& ports::is_connect_result(
                            r,
                            target,
                            ports,
                            found,
                            ports::reported_mac(target.ip, mac),
                            *db,
                        )
                        &&& *final(stats) == old(stats).probed(
                            ports.len() as int,
                            ports::open_count(
                                ports::connected_states(ports, found),
                                ports.len() as int,
                            ) as int,
                        )
                    },
                    BatchMode::Stealth(_) => {
                        &&& ports::is_stealth_result(
                            r,
                            target,
                            ports,
                            found,
                            ports::reported_mac(target.ip, mac),
                            *db,
                        )
                        &&& *final(stats) == old(stats).probed(
                            (found.len() + ports::unanswered(
                                ports,
                                found,
                                ports.len() as int,
                            ).len()) as int,
                            ports::open_count(found, found.len() as int) as int,
                        )
                    },
                }
            }),
    {
        let mut taken: Option<ScannedPorts> = None;
        std::mem::swap(&mut taken, &mut self.found);
        let ghost before = self.results@;
        let count: usize = self.targets.len();
        assert(self.target < count);
        let from: usize = self.target + 1;
        if let Some(found) = taken {
            let target = &self.targets[self.target];
            let mac = mac_to_report(target.ip, mac);
            let result = match self.mode {
                BatchMode::Connect => connect_result(target, &self.ports, &found, mac, db, stats),
                BatchMode::Stealth(_) => stealth_result(
                    target,
                    &self.ports,
                    &found,
                    mac,
                    db,
                    stats,
                ),
            };
            self.results.push(result);
            proof {
                assert(self.results@.drop_last() =~= before);
                let at = self.target as int;
                assert(!is_failed(self.failed@, at));
                let places = scanned_places(self.mode, self.targets@, self.failed@, at);
                assert(scanned_places(self.mode, self.targets@, self.failed@, from as int)
                    == places.push(at));
                assert forall|i: int| 0 <= i < self.results@.len() implies (
                #[trigger] self.results@[i]).ip == self.targets@[places.push(at)[i]].ip
                    && self.results@[i].hostname == self.targets@[places.push(at)[i]].hostname by {
                    if i < before.len() {
                        assert(self.results@[i] == before[i]);
                    }
                }
                assert forall|i: int, port: u16|
                    0 <= i < self.results@.len() && self.ports@.contains(
                        port,
                    ) implies #[trigger] reports_port(self.results@[i], port) by {
                    if i < before.len() {
                        assert(reports_port(before[i], port));
                    } else if self.mode is Connect {
                        ports::connect_results_cover_all_ports(
                            result,
                            *target,
                            self.ports@,
                            found@,
                            mac,
                            *db,
                        );
                        let j = self.ports@.index_of(port);
                        assert(result.ports@[j].number == port);
                    } else {
                        ports::stealth_results_cover_all_ports(
                            result,
                            *target,
                            self.ports@,
                            found@,
                            mac,
                            *db,
                            port,
                        );
                    }
                }
            }
            self.seek(from);
        }
    }

    /// The results of a batch that has ended: every target that takes part and whose
    /// scan did not fail is reported once, in the order of the targets, with all ports,
    /// and no other is.
    #[must_use]
    pub fn finish(self) -> (r: Vec<HostResult>)
        requires
            self.wf(),
            self.next_action() is Done,
        ensures
            r == self.results,
            reports_in_order(
                r@,
                self.targets@,
                scanned_places(
                    self.mode,
                    self.targets@,
                    self.failed@,
                    self.targets@.len() as int,
                ),
            ),
            reports_all(r@, self.ports@),
    {
        self.results
    }
}

fn is_v4(t: &Target) -> (r: bool)
    ensures
        r == (t.ip is V4),
{
    match t.ip {
        IpAddr::V4(_) => true,
        IpAddr::V6(_) => false,
    }
}

/// The ports of a target are scanned at once with the scanner of the scan type: by
/// connecting for a connect scan alone, and by raw probes for the types that send them,
/// save SYN and IP protocol scans.
pub proof fn batches_have_the_scanner_of_their_type(t: ScanType)
    ensures
        mode_for(t) == Some(BatchMode::Connect) <==> t is TcpConnect,
        mode_for(t) matches Some(BatchMode::Stealth(s)) ==> ports::scanner_for(t) == Some(s),
        mode_for(t) is None <==> t is TcpSyn || t is SctpInit || t is IpProtocol,
{
}

/// Connecting reaches every target, raw probes reach those of IPv4.
pub proof fn targets_that_take_part(t: Target)
    ensures
        takes_part(BatchMode::Connect, t),
        forall|s: Scanner| #[trigger] takes_part(BatchMode::Stealth(s), t) <==> t.ip is V4,
{
}

/// A batch goes on to the next target that takes part and passes over no such target.
pub proof fn no_target_is_passed_over(mode: BatchMode, targets: Seq<Target>, from: int)
    requires
        0 <= from <= targets.len(),
    ensures
        from <= next_target(mode, targets, from) <= targets.len(),
        forall|t: int|
            from <= t < next_target(mode, targets, from) ==> !takes_part(
                mode,
                #[trigger] targets[t],
            ),
        next_target(mode, targets, from) < targets.len() ==> takes_part(
            mode,
            targets[next_target(mode, targets, from)],
        ),
    decreases targets.len() - from,
{
    if from < targets.len() && !takes_part(mode, targets[from]) {
        no_target_is_passed_over(mode, targets, from + 1);
    }
}

/// The results are for the targets at the given places, one for each and in their order:
/// each has the address and the name of its target.
pub proof fn reports_are_for_their_targets(
    results: Seq<HostResult>,
    targets: Seq<Target>,
    places: Seq<int>,
    i: int,
)
    requires
        reports_in_order(results, targets, places),
        0 <= i < places.len(),
    ensures
        results.len() == places.len(),
        results[i].ip == targets[places[i]].ip,
        results[i].hostname == targets[places[i]].hostname,
{
}

/// The targets whose scan failed are those that were noted.
pub proof fn failed_targets_are_noted(failed: Seq<usize>, noted: usize, target: int)
    ensures
        !is_failed(Seq::empty(), target),
        is_failed(failed.push(noted), target) <==> target == noted || is_failed(failed, target),
{
    let now = failed.push(noted);
    assert(now[failed.len() as int] == noted);
    if is_failed(failed, target) {
        let i = choose|i: int| 0 <= i < failed.len() && #[trigger] failed[i] == target;
        assert(now[i] == target);
    }
    if is_failed(now, target) && target != noted {
        let i = choose|i: int| 0 <= i < now.len() && #[trigger] now[i] == target;
        assert(failed[i] == target);
    }
}

} // verus!
