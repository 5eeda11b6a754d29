//! What is added to the results of a port scan: services, operating systems,
//! script output and routes.
use crate::addr::{IpAddr, Ipv4Addr};
use crate::error::CoreError;
use crate::models::{
    clone_text, HostResult, OsMatch, PortResult, PortState, Protocol, ScriptResult, ServiceInfo,
    TracerouteHop, TracerouteResult,
};
use vstd::prelude::*;

verus! {

/// The longest time span in nanoseconds: the largest number of whole seconds in 64
/// bits, and all but one nanosecond more.
pub const LONGEST_SPAN: u128 = 18446744073709551615999999999;

/// All but the ports is the same.
pub open spec fn same_but_ports(a: HostResult, b: HostResult) -> bool {
    &&& a.ip == b.ip
    &&& a.mac == b.mac
    &&& a.hostname == b.hostname
    &&& a.status == b.status
    &&& a.status_reason == b.status_reason
    &&& a.latency == b.latency
    &&& a.os_matches == b.os_matches
    &&& a.scripts == b.scripts
    &&& a.traceroute == b.traceroute
    &&& a.times == b.times
    &&& a.ports@.len() == b.ports@.len()
}

/// All but the service is the same.
pub open spec fn same_but_service(a: PortResult, b: PortResult) -> bool {
    &&& a.number == b.number
    &&& a.protocol == b.protocol
    &&& a.state == b.state
    &&& a.state_reason == b.state_reason
    &&& a.state_ttl == b.state_ttl
    &&& a.scripts == b.scripts
}

/// An open port whose service is to be found out.
#[derive(Debug)]
pub struct ServiceProbeWork {
    /// The place of the host.
    pub host: usize,
    /// The place of the port at the host.
    pub index: usize,
    pub ip: IpAddr,
    pub port: u16,
    /// The protocol as a word.
    pub protocol: &'static str,
}

/// The word for a protocol in a service probe.
pub open spec fn probe_protocol(p: Protocol) -> Seq<char> {
    if p == Protocol::Udp {
        "udp"@
    } else {
        "tcp"@
    }
}

/// The places of the open ports among the first `m` of a host.
pub open spec fn open_places(ports: Seq<PortResult>, host: int, m: int) -> Seq<(int, int)>
    decreases m,
{
    if m <= 0 {
        Seq::empty()
    } else if ports[m - 1].state == PortState::Open {
        open_places(ports, host, m - 1).push((host, m - 1))
    } else {
        open_places(ports, host, m - 1)
    }
}

/// The places of the open ports of the first `n` hosts.
pub open spec fn all_open_places(hosts: Seq<HostResult>, n: int) -> Seq<(int, int)>
    decreases n,
{
    if n <= 0 {
        Seq::empty()
    } else {
        all_open_places(hosts, n - 1) + open_places(
            hosts[n - 1].ports@,
            n - 1,
            hosts[n - 1].ports@.len() as int,
        )
    }
}

/// `w` is the work for the port at `place`.
pub open spec fn is_work(w: ServiceProbeWork, hosts: Seq<HostResult>, place: (int, int)) -> bool {
    &&& w.host == place.0
    &&& w.index == place.1
    &&& 0 <= place.0 < hosts.len()
    &&& 0 <= place.1 < hosts[place.0].ports@.len()
    &&& w.ip == hosts[place.0].ip
    &&& w.port == hosts[place.0].ports@[place.1].number
    &&& w.protocol@ == probe_protocol(hosts[place.0].ports@[place.1].protocol)
}

/// Collects the open ports of all hosts, in their order.
#[must_use]
pub fn collect_service_work(hosts: &Vec<HostResult>) -> (r: Vec<ServiceProbeWork>)
    ensures
        ({
            let places = all_open_places(hosts@, hosts@.len() as int);
            &&& r@.len() == places.len()
            &&& forall|k: int|
                0 <= k < r@.len() ==> is_work(#[trigger] r@[k], hosts@, places[k])
        }),
        valid_work(r@, hosts@),
{
    let mut work: Vec<ServiceProbeWork> = Vec::new();
    let mut h: usize = 0;
    while h < hosts.len()
        invariant
            h <= hosts.len(),
            work@.len() == all_open_places(hosts@, h as int).len(),
            forall|k: int|
                0 <= k < work@.len() ==> is_work(
                    #[trigger] work@[k],
                    hosts@,
                    all_open_places(hosts@, h as int)[k],
                ),
        decreases hosts.len() - h,
    {
        let ghost before = all_open_places(hosts@, h as int);
        let mut p: usize = 0;
        while p < hosts[h as usize].ports.len()
            invariant
                h < hosts.len(),
                p <= hosts@[h as int].ports@.len(),
                before == all_open_places(hosts@, h as int),
                work@.len() == before.len() + open_places(
                    hosts@[h as int].ports@,
                    h as int,
                    p as int,
                ).len(),
                forall|k: int|
                    0 <= k < work@.len() ==> is_work(
                        #[trigger] work@[k],
                        hosts@,
                        (before + open_places(hosts@[h as int].ports@, h as int, p as int))[k],
                    ),
            decreases hosts@[h as int].ports@.len() - p,
        {
            let port = &hosts[h].ports[p];
            let ghost here = open_places(hosts@[h as int].ports@, h as int, p as int);
            if port.state == PortState::Open {
                let protocol = match port.protocol {
                    Protocol::Udp => "udp",
                    _ => "tcp",
                };
                work.push(
                    ServiceProbeWork {
                        host: h,
                        index: p,
                        ip: hosts[h].ip,
                        port: port.number,
                        protocol,
                    },
                );
                proof {
                    let now = here.push((h as int, p as int));
                    assert(before + now =~= (before + here).push((h as int, p as int)));
                }
            }
            p += 1;
        }
        h += 1;
    }
    proof {
        open_ports_are_probed(hosts@, hosts@.len() as int);
    }
    work
}

/// Every open port is in the work exactly once.
pub proof fn open_ports_are_probed(hosts: Seq<HostResult>, n: int)
    requires
        0 <= n <= hosts.len(),
    ensures
        all_open_places(hosts, n).no_duplicates(),
        forall|h: int, p: int| #[trigger]
            all_open_places(hosts, n).contains((h, p)) <==> 0 <= h < n && 0 <= p
                < hosts[h].ports@.len() && hosts[h].ports@[p].state == PortState::Open,
    decreases n,
{
    if n > 0 {
        open_ports_are_probed(hosts, n - 1);
        let before = all_open_places(hosts, n - 1);
        let ports = hosts[n - 1].ports@;
        let here = open_places(ports, n - 1, ports.len() as int);
        lemma_open_places(ports, n - 1, ports.len() as int);
        let all = all_open_places(hosts, n);
        assert forall|h: int, p: int| #[trigger] all.contains((h, p)) <==> before.contains((h, p))
            || here.contains((h, p)) by {
            if before.contains((h, p)) {
                let k = before.index_of((h, p));
                assert(all[k] == (h, p));
            }
            if here.contains((h, p)) {
                let k = here.index_of((h, p));
                assert(all[before.len() + k] == (h, p));
            }
            if all.contains((h, p)) {
                let k = all.index_of((h, p));
                if k < before.len() {
                    assert(before[k] == (h, p));
                } else {
                    assert(here[k - before.len()] == (h, p));
                }
            }
        }
        assert(all.no_duplicates()) by {
            assert forall|i: int, j: int| 0 <= i < j < all.len() implies all[i] != all[j] by {
                if i < before.len() && j >= before.len() {
                    assert(before[i] == all[i]);
                    assert(here[j - before.len()] == all[j]);
                    assert(before.contains(all[i]));
                    assert(here.contains(all[j]));
                    let (h1, p1) = all[i];
                    let (h2, p2) = all[j];
                    assert(before.contains((h1, p1)));
                    assert(here.contains((h2, p2)));
                } else if j < before.len() {
                    assert(before[i] == all[i] && before[j] == all[j]);
                } else {
                    assert(here[i - before.len()] == all[i] && here[j - before.len()] == all[j]);
                }
            }
        }
    }
}

proof fn lemma_open_places(ports: Seq<PortResult>, host: int, m: int)
    requires
        0 <= m <= ports.len(),
    ensures
        open_places(ports, host, m).no_duplicates(),
        forall|h: int, p: int| #[trigger]
            open_places(ports, host, m).contains((h, p)) <==> h == host && 0 <= p < m
                && ports[p].state == PortState::Open,
    decreases m,
{
    if m > 0 {
        lemma_open_places(ports, host, m - 1);
        let before = open_places(ports, host, m - 1);
        let now = open_places(ports, host, m);
        if ports[m - 1].state == PortState::Open {
            assert forall|h: int, p: int| #[trigger] now.contains((h, p)) <==> before.contains(
                (h, p),
            ) || (h, p) == (host, m - 1) by {
                if before.contains((h, p)) {
                    let k = before.index_of((h, p));
                    assert(now[k] == (h, p));
                }
                assert(now[before.len() as int] == (host, m - 1));
            }
            assert(!before.contains((host, m - 1)));
        }
    }
}

/// A service that was found out by probing.
#[derive(Debug)]
pub struct DetectedService {
    pub name: String,
    pub product: Option<String>,
    pub version: Option<String>,
    pub info: Option<String>,
    pub hostname: Option<String>,
    pub os_type: Option<String>,
    pub device_type: Option<String>,
    pub confidence: u8,
    pub cpe: Option<String>,
}

/// The list of an optional text.
pub open spec fn listed(t: Option<String>) -> Seq<String> {
    match t {
        Some(s) => seq![s],
        None => Seq::empty(),
    }
}

/// The service as it is reported.
pub open spec fn is_probed_service(service: Option<ServiceInfo>, d: DetectedService) -> bool {
    &&& service matches Some(s)
    &&& s.name == d.name
    &&& s.product == d.product
    &&& s.version == d.version
    &&& s.extrainfo == d.info
    &&& s.hostname == d.hostname
    &&& s.ostype == d.os_type
    &&& s.devicetype == d.device_type
    &&& s.method@ == "probed"@
    &&& s.confidence == d.confidence
    &&& s.cpe@ == listed(d.cpe)
}

fn listing(t: &Option<String>) -> (r: Vec<String>)
    ensures
        r@ == listed(*t),
{
    let mut r: Vec<String> = Vec::new();
    if let Some(s) = t {
        r.push(s.clone());
    }
    assert(r@ =~= listed(*t));
    r
}

fn probed_service(d: &DetectedService) -> (r: Option<ServiceInfo>)
    ensures
        is_probed_service(r, *d),
{
    Some(
        ServiceInfo {
            name: d.name.clone(),
            product: clone_text(&d.product),
            version: clone_text(&d.version),
            extrainfo: clone_text(&d.info),
            hostname: clone_text(&d.hostname),
            ostype: clone_text(&d.os_type),
            devicetype: clone_text(&d.device_type),
            method: "probed".to_string(),
            confidence: d.confidence,
            cpe: listing(&d.cpe),
        },
    )
}

/// What was found out for a piece of work: the first of the services, if there is
/// any, and none if the probe failed.
pub open spec fn first_service(found: Result<Vec<DetectedService>, String>) -> Option<
    DetectedService,
> {
    match found {
        Ok(services) => if services@.len() > 0 {
            Some(services@[0])
        } else {
            None
        },
        Err(_) => None,
    }
}

/// Why the first of the attempts that failed did so.
pub open spec fn first_failure<T>(found: Seq<Result<T, String>>) -> Option<Seq<char>>
    decreases found.len(),
{
    if found.len() == 0 {
        None
    } else {
        match found[0] {
            Err(e) => Some(e@),
            Ok(_) => first_failure(found.skip(1)),
        }
    }
}

/// There is a first failure if and only if some attempt failed, and those before it
/// did not.
pub proof fn first_failure_is_the_first<T>(found: Seq<Result<T, String>>)
    ensures
        first_failure(found) is Some <==> exists|k: int|
            0 <= k < found.len() && #[trigger] found[k] is Err,
        first_failure(found) matches Some(text) ==> exists|k: int|
            {
                &&& 0 <= k < found.len()
                &&& #[trigger] found[k] matches Err(e)
                &&& e@ == text
                &&& forall|j: int| 0 <= j < k ==> #[trigger] found[j] is Ok
            },
    decreases found.len(),
{
    if found.len() > 0 && found[0] is Ok {
        let rest = found.skip(1);
        first_failure_is_the_first(rest);
        if exists|k: int| 0 <= k < found.len() && #[trigger] found[k] is Err {
            let k = choose|k: int| 0 <= k < found.len() && #[trigger] found[k] is Err;
            assert(rest[k - 1] is Err);
        }
        if let Some(text) = first_failure(rest) {
            let k = choose|k: int|
                {
                    &&& 0 <= k < rest.len()
                    &&& #[trigger] rest[k] matches Err(e)
                    &&& e@ == text
                    &&& forall|j: int| 0 <= j < k ==> #[trigger] rest[j] is Ok
                };
            assert(found[k + 1] == rest[k]);
            assert forall|j: int| 0 <= j < k + 1 implies #[trigger] found[j] is Ok by {
                if j > 0 {
                    assert(rest[j - 1] is Ok);
                }
            }
        }
    }
}

/// The work is at existing ports, each at most once.
pub open spec fn valid_work(work: Seq<ServiceProbeWork>, hosts: Seq<HostResult>) -> bool {
    &&& forall|k: int|
        0 <= k < work.len() ==> (#[trigger] work[k]).host < hosts.len() && work[k].index
            < hosts[work[k].host as int].ports@.len()
    &&& forall|j: int, k: int|
        0 <= j < k < work.len() ==> (#[trigger] work[j]).host != (#[trigger] work[k]).host
            || work[j].index != work[k].index
}

/// One of the first `n` pieces of work is at this port and found a service.
pub open spec fn detected_at(
    work: Seq<ServiceProbeWork>,
    found: Seq<Result<Vec<DetectedService>, String>>,
    n: int,
    h: int,
    p: int,
) -> bool {
    exists|k: int|
        0 <= k < n && (#[trigger] work[k]).host == h && work[k].index == p && first_service(
            found[k],
        ) is Some
}

/// Only the services of ports where one was found have changed.
pub open spec fn services_applied(
    before: Seq<HostResult>,
    after: Seq<HostResult>,
    work: Seq<ServiceProbeWork>,
    found: Seq<Result<Vec<DetectedService>, String>>,
    n: int,
) -> bool {
    &&& after.len() == before.len()
    &&& forall|h: int| 0 <= h < before.len() ==> same_but_ports(#[trigger] after[h], before[h])
    &&& forall|h: int, p: int|
        #![trigger after[h].ports@[p]]
        0 <= h < before.len() && 0 <= p < before[h].ports@.len() ==> same_but_service(
            after[h].ports@[p],
            before[h].ports@[p],
        ) && (!detected_at(work, found, n, h, p) ==> after[h].ports@[p].service
            == before[h].ports@[p].service)
    &&& forall|k: int|
        0 <= k < n && first_service(found[k]) is Some ==> is_probed_service(
            after[(#[trigger] work[k]).host as int].ports@[work[k].index as int].service,
            first_service(found[k]).unwrap(),
        )
}

/// Applies what probing the services brought: the first service that was found for
/// a port replaces what was known. Fails if any probe failed, after the others have
/// been applied.
pub fn apply_services(
    hosts: &mut Vec<HostResult>,
    work: &Vec<ServiceProbeWork>,
    found: &Vec<Result<Vec<DetectedService>, String>>,
) -> (r: Result<(), CoreError>)
    requires
        valid_work(work@, old(hosts)@),
        found@.len() == work@.len(),
    ensures
        services_applied(old(hosts)@, final(hosts)@, work@, found@, work@.len() as int),
        forall|k: int|
            0 <= k < work@.len() && (found@[k] matches Ok(s) && s@.len() > 0) ==> {
                let d = found@[k]->Ok_0@[0];
                let port = final(hosts)@[(#[trigger] work@[k]).host as int].ports@[work@[k].index as int];
                &&& port.service matches Some(s)
                &&& s.name == d.name
                &&& s.product == d.product
                &&& s.version == d.version
                &&& s.extrainfo == d.info
                &&& s.hostname == d.hostname
                &&& s.ostype == d.os_type
                &&& s.devicetype == d.device_type
                &&& s.confidence == d.confidence
                &&& s.method@ == "probed"@
            },
        r is Err <==> exists|k: int| 0 <= k < found@.len() && #[trigger] found@[k] is Err,
        match r {
            Ok(_) => first_failure(found@) is None,
            Err(CoreError::ServiceDetection(m)) => first_failure(found@) == Some(m@),
            Err(_) => false,
        },
{
    let ghost start = hosts@;
    let mut k: usize = 0;
    while k < work.len()
        invariant
            k <= work.len(),
            start == old(hosts)@,
            valid_work(work@, start),
            found@.len() == work@.len(),
            services_applied(start, hosts@, work@, found@, k as int),
        decreases work.len() - k,
    {
        let ghost before = hosts@;
        let h: usize = work[k].host;
        let p: usize = work[k].index;
        let mut done = false;
        if let Ok(services) = &found[k] {
            if services.len() > 0 {
                done = true;
                let host = &mut hosts[h];
                let port = &mut host.ports[p];
                port.service = probed_service(&services[0]);
            }
        }
        proof {
            if !done {
                assert(hosts@ == before);
                assert forall|h2: int, p2: int| #[trigger]
                    detected_at(work@, found@, k + 1, h2, p2) == detected_at(
                        work@,
                        found@,
                        k as int,
                        h2,
                        p2,
                    ) by {
                    lemma_detected_step(work@, found@, k as int, h2, p2);
                }
            } else {
                lemma_service_applied(start, before, hosts@, work@, found@, k as int);
            }
        }
        k += 1;
    }
    proof {
        first_failure_is_the_first(found@);
    }
    match find_failure(found) {
        Some(text) => Err(CoreError::ServiceDetection(text)),
        None => Ok(()),
    }
}

/// Finds out why the first of the attempts that failed did so.
fn find_failure<T>(found: &Vec<Result<T, String>>) -> (r: Option<String>)
    ensures
        match r {
            Some(text) => first_failure(found@) == Some(text@),
            None => first_failure(found@) is None,
        },
{
    let mut i: usize = 0;
    assert(found@.skip(0) =~= found@);
    while i < found.len()
        invariant
            i <= found.len(),
            first_failure(found@.skip(i as int)) == first_failure(found@),
        decreases found.len() - i,
    {
        assert(found@.skip(i as int).skip(1) =~= found@.skip(i + 1));
        if let Err(text) = &found[i] {
            return Some(text.clone());
        }
        i += 1;
    }
    None
}

proof fn lemma_detected_step(
    work: Seq<ServiceProbeWork>,
    found: Seq<Result<Vec<DetectedService>, String>>,
    k: int,
    h: int,
    p: int,
)
    requires
        0 <= k < work.len(),
    ensures
        detected_at(work, found, k + 1, h, p) == (detected_at(work, found, k, h, p) || (
        first_service(found[k]) is Some && work[k].host == h && work[k].index == p)),
{
    if detected_at(work, found, k + 1, h, p) {
        let j = choose|j: int|
            0 <= j < k + 1 && (#[trigger] work[j]).host == h && work[j].index == p
                && first_service(found[j]) is Some;
        if j < k {
            assert(work[j].host == h);
        }
    }
    if detected_at(work, found, k, h, p) {
        let j = choose|j: int|
            0 <= j < k && (#[trigger] work[j]).host == h && work[j].index == p && first_service(
                found[j],
            ) is Some;
        assert(work[j].host == h);
    }
    if first_service(found[k]) is Some && work[k].host == h && work[k].index == p {
        assert(work[k].host == h);
    }
}

proof fn lemma_service_applied(
    start: Seq<HostResult>,
    before: Seq<HostResult>,
    after: Seq<HostResult>,
    work: Seq<ServiceProbeWork>,
    found: Seq<Result<Vec<DetectedService>, String>>,
    k: int,
)
    requires
        0 <= k < work.len(),
        valid_work(work, start),
        services_applied(start, before, work, found, k),
        first_service(found[k]) is Some,
        after.len() == before.len(),
        forall|h: int|
            0 <= h < before.len() && h != work[k].host ==> #[trigger] after[h] == before[h],
        same_but_ports(after[work[k].host as int], before[work[k].host as int]),
        forall|p: int|
            0 <= p < before[work[k].host as int].ports@.len() && p != work[k].index
                ==> #[trigger] after[work[k].host as int].ports@[p]
                == before[work[k].host as int].ports@[p],
        same_but_service(
            after[work[k].host as int].ports@[work[k].index as int],
            before[work[k].host as int].ports@[work[k].index as int],
        ),
        is_probed_service(
            after[work[k].host as int].ports@[work[k].index as int].service,
            first_service(found[k]).unwrap(),
        ),
    ensures
        services_applied(start, after, work, found, k + 1),
{
    let hk = work[k].host as int;
    let pk = work[k].index as int;
    assert forall|h: int| 0 <= h < start.len() implies same_but_ports(
        #[trigger] after[h],
        start[h],
    ) by {
        assert(same_but_ports(before[h], start[h]));
        if h != hk {
            assert(after[h] == before[h]);
        }
    }
    assert forall|h: int, p: int|
        #![trigger after[h].ports@[p]]
        0 <= h < start.len() && 0 <= p < start[h].ports@.len() implies same_but_service(
        after[h].ports@[p],
        start[h].ports@[p],
    ) && (!detected_at(work, found, k + 1, h, p) ==> after[h].ports@[p].service
        == start[h].ports@[p].service) by {
        lemma_detected_step(work, found, k, h, p);
        assert(same_but_ports(before[h], start[h]));
        assert(same_but_service(before[h].ports@[p], start[h].ports@[p]));
        if h != hk {
            assert(after[h] == before[h]);
        } else if p != pk {
            assert(after[h].ports@[p] == before[h].ports@[p]);
        }
    }
    assert forall|j: int|
        0 <= j < k + 1 && first_service(found[j]) is Some implies is_probed_service(
        after[(#[trigger] work[j]).host as int].ports@[work[j].index as int].service,
        first_service(found[j]).unwrap(),
    ) by {
        if j < k {
            let hj = work[j].host as int;
            let pj = work[j].index as int;
            assert(work[k].host == hk);
            assert(hj != hk || pj != pk);
            assert(same_but_ports(before[hj], start[hj]));
            if hj != hk {
                assert(after[hj] == before[hj]);
            } else {
                assert(after[hj].ports@[pj] == before[hj].ports@[pj]);
            }
        }
    }
}

/// How the operating system of a host is to be found out.
#[derive(Clone, Copy, Debug, PartialEq, Eq, Structural)]
pub struct OsProbePlan {
    pub target: Ipv4Addr,
    pub open_port: u16,
    pub closed_port: u16,
    /// In nanoseconds.
    pub timeout: u128,
}

/// The number of the first port with this state, from `from` on.
pub open spec fn first_with_state(
    ports: Seq<PortResult>,
    state: PortState,
    from: int,
) -> Option<u16>
    decreases ports.len() - from,
{
    if from < 0 || from >= ports.len() {
        None
    } else if ports[from].state == state {
        Some(ports[from].number)
    } else {
        first_with_state(ports, state, from + 1)
    }
}

fn find_with_state(ports: &Vec<PortResult>, state: PortState) -> (r: Option<u16>)
    ensures
        r == first_with_state(ports@, state, 0),
{
    let mut i: usize = 0;
    while i < ports.len()
        invariant
            i <= ports.len(),
            first_with_state(ports@, state, 0) == first_with_state(ports@, state, i as int),
        decreases ports.len() - i,
    {
        if ports[i].state == state {
            return Some(ports[i].number);
        }
        i += 1;
    }
    None
}

/// `n` times the round trip time, brought between two limits; the upper one if no
/// round trip time is known.
pub open spec fn scaled_timeout(rtt: u128, n: int, least: int, most: int) -> int {
    if rtt == 0 {
        most
    } else if rtt * n < least {
        least
    } else if rtt * n > most {
        most
    } else {
        rtt * n
    }
}

fn scale_timeout(rtt: u128, n: u128, least: u128, most: u128) -> (r: u128)
    requires
        rtt * n <= u128::MAX,
        least <= most,
    ensures
        r == scaled_timeout(rtt, n as int, least as int, most as int),
{
    if rtt == 0 {
        return most;
    }
    let t: u128 = rtt * n;
    if t < least {
        least
    } else if t > most {
        most
    } else {
        t
    }
}

/// Plans the probes for the operating system of a host. They need an open and a
/// closed port, and wait ten round trip times, but at least half a second and at
/// most five. There is no plan for IPv6.
#[must_use]
pub fn os_probe_plan(host: &HostResult) -> (r: Option<OsProbePlan>)
    requires
        host.latency * 10 <= LONGEST_SPAN,
    ensures
        match host.ip {
            IpAddr::V6(_) => r is None,
            IpAddr::V4(a) => {
                &&& r matches Some(plan)
                &&& plan.target == a
                &&& plan.open_port == match first_with_state(host.ports@, PortState::Open, 0) {
                    Some(p) => p,
                    None => 80,
                }
                &&& plan.closed_port == match first_with_state(
                    host.ports@,
                    PortState::Closed,
                    0,
                ) {
                    Some(p) => p,
                    None => 443,
                }
                &&& plan.timeout == scaled_timeout(host.latency, 10, 500_000_000, 5_000_000_000)
            },
        },
{
    match host.ip {
        IpAddr::V6(_) => None,
        IpAddr::V4(target) => {
            let open_port: u16 = match find_with_state(&host.ports, PortState::Open) {
                Some(p) => p,
                None => 80,
            };
            let closed_port: u16 = match find_with_state(&host.ports, PortState::Closed) {
                Some(p) => p,
                None => 443,
            };
            let timeout: u128 = scale_timeout(host.latency, 10, 500_000_000, 5_000_000_000);
            Some(OsProbePlan { target, open_port, closed_port, timeout })
        },
    }
}

/// Families of operating systems.
#[derive(Debug)]
pub enum OsFamily {
    Linux,
    Windows,
    MacOS,
    BSD,
    Solaris,
    IOS,
    Android,
    Other(String),
}

/// A guess at an operating system.
#[derive(Debug)]
pub struct DetectedOs {
    pub name: String,
    pub accuracy: u8,
    pub family: OsFamily,
    pub generation: Option<String>,
    pub vendor: Option<String>,
    pub device_type: Option<String>,
    pub cpe: Option<String>,
}

/// The name of a family.
pub open spec fn family_name(f: OsFamily) -> Seq<char> {
    match f {
        OsFamily::Linux => "Linux"@,
        OsFamily::Windows => "Windows"@,
        OsFamily::MacOS => "MacOS"@,
        OsFamily::BSD => "BSD"@,
        OsFamily::Solaris => "Solaris"@,
        OsFamily::IOS => "iOS"@,
        OsFamily::Android => "Android"@,
        OsFamily::Other(s) => s@,
    }
}

/// The guess as it is reported.
pub open spec fn is_os_match(m: OsMatch, d: DetectedOs) -> bool {
    &&& m.name == d.name
    &&& m.accuracy == d.accuracy
    &&& m.os_family matches Some(f)
    &&& f@ == family_name(d.family)
    &&& m.os_generation == d.generation
    &&& m.vendor == d.vendor
    &&& m.device_type == d.device_type
    &&& m.cpe@ == listed(d.cpe)
}

fn os_match(d: &DetectedOs) -> (r: OsMatch)
    ensures
        is_os_match(r, *d),
{
    let family = match &d.family {
        OsFamily::Linux => "Linux".to_string(),
        OsFamily::Windows => "Windows".to_string(),
        OsFamily::MacOS => "MacOS".to_string(),
        OsFamily::BSD => "BSD".to_string(),
        OsFamily::Solaris => "Solaris".to_string(),
        OsFamily::IOS => "iOS".to_string(),
        OsFamily::Android => "Android".to_string(),
        OsFamily::Other(s) => s.clone(),
    };
    OsMatch {
        name: d.name.clone(),
        accuracy: d.accuracy,
        os_family: Some(family),
        os_generation: clone_text(&d.generation),
        vendor: clone_text(&d.vendor),
        device_type: clone_text(&d.device_type),
        cpe: listing(&d.cpe),
    }
}

/// Only the guesses at the operating system have changed, to these.
pub open spec fn os_applied(before: HostResult, after: HostResult, found: Seq<DetectedOs>) -> bool {
    &&& after.os_matches@.len() == found.len()
    &&& forall|i: int|
        0 <= i < found.len() ==> is_os_match(#[trigger] after.os_matches@[i], found[i])
    &&& after == (HostResult { os_matches: after.os_matches, ..before })
}

/// Replaces the guesses at the operating system of a host. Fails if the detection
/// failed, and leaves the host as it was.
pub fn apply_os_matches(host: &mut HostResult, outcome: &Result<Vec<DetectedOs>, String>) -> (r:
    Result<(), CoreError>)
    ensures
        match *outcome {
            Ok(found) => r is Ok && os_applied(*old(host), *final(host), found@),
            Err(text) => (r matches Err(CoreError::OsDetection(m)) && m@ == text@) && *final(host)
                == *old(host),
        },
{
    let found = match outcome {
        Ok(found) => found,
        Err(text) => {
            return Err(CoreError::OsDetection(text.clone()));
        },
    };
    let mut matches: Vec<OsMatch> = Vec::new();
    let mut i: usize = 0;
    while i < found.len()
        invariant
            i <= found.len(),
            matches@.len() == i,
            forall|j: int| 0 <= j < i ==> is_os_match(#[trigger] matches@[j], found@[j]),
        decreases found.len() - i,
    {
        matches.push(os_match(&found[i]));
        i += 1;
    }
    host.os_matches = matches;
    Ok(())
}

/// How the route to a host is to be found out.
#[derive(Clone, Copy, Debug, PartialEq, Eq, Structural)]
pub struct TraceroutePlan {
    pub target: Ipv4Addr,
    pub max_hops: u8,
    pub probes_per_hop: u8,
    /// In nanoseconds.
    pub probe_timeout: u128,
}

/// Plans the traceroute to a host: one probe for each of at most twenty hops, each
/// waiting four round trip times, but at least a tenth and at most half of a second.
/// There is no plan for IPv6.
#[must_use]
pub fn traceroute_plan(host: &HostResult) -> (r: Option<TraceroutePlan>)
    requires
        host.latency * 4 <= LONGEST_SPAN,
    ensures
        match host.ip {
            IpAddr::V6(_) => r is None,
            IpAddr::V4(a) => {
                &&& r matches Some(plan)
                &&& plan.target == a
                &&& plan.max_hops == 20
                &&& plan.probes_per_hop == 1
                &&& plan.probe_timeout == scaled_timeout(
                    host.latency,
                    4,
                    100_000_000,
                    500_000_000,
                )
            },
        },
{
    match host.ip {
        IpAddr::V6(_) => None,
        IpAddr::V4(target) => Some(
            TraceroutePlan {
                target,
                max_hops: 20,
                probes_per_hop: 1,
                probe_timeout: scale_timeout(host.latency, 4, 100_000_000, 500_000_000),
            },
        ),
    }
}

/// A hop as it was traced: the address is missing if nothing answered.
#[derive(Debug)]
pub struct TracedHop {
    pub ttl: u8,
    pub ip: Option<Ipv4Addr>,
    pub hostname: Option<String>,
    pub avg_rtt: Option<u128>,
}

/// What a traceroute probes with.
#[derive(Clone, Copy, Debug, PartialEq, Eq, Structural)]
pub enum ProbeType {
    TcpSyn,
    TcpAck,
    Udp,
    Icmp,
}

/// The protocol that a traceroute is reported with: there is none for ICMP, and UDP
/// stands for it.
pub open spec fn trace_protocol(t: ProbeType) -> Protocol {
    if t == ProbeType::TcpSyn || t == ProbeType::TcpAck {
        Protocol::Tcp
    } else {
        Protocol::Udp
    }
}

/// The hops that answered.
pub open spec fn answered(hops: Seq<TracedHop>) -> Seq<TracedHop> {
    hops.filter(|h: TracedHop| h.ip is Some)
}

/// The hop as it is reported.
pub open spec fn is_hop(r: TracerouteHop, h: TracedHop) -> bool {
    &&& h.ip matches Some(a)
    &&& r.ip == IpAddr::V4(a)
    &&& r.ttl == h.ttl
    &&& r.hostname == h.hostname
    &&& r.rtt == h.avg_rtt
}

/// Makes the reported route of the hops that answered; there is none if no hop did.
#[must_use]
pub fn traceroute_result(hops: &Vec<TracedHop>, probe_type: ProbeType, port: u16) -> (r: Option<
    TracerouteResult,
>)
    ensures
        match r {
            None => answered(hops@).len() == 0,
            Some(t) => {
                &&& answered(hops@).len() > 0
                &&& t.protocol == trace_protocol(probe_type)
                &&& t.port == port
                &&& t.hops@.len() == answered(hops@).len()
                &&& forall|i: int|
                    0 <= i < t.hops@.len() ==> is_hop(#[trigger] t.hops@[i], answered(hops@)[i])
            },
        },
{
    let mut kept: Vec<TracerouteHop> = Vec::new();
    let ghost replied = |h: TracedHop| h.ip is Some;
    let mut i: usize = 0;
    proof {
        reveal(Seq::filter);
        assert(hops@.take(0) =~= Seq::<TracedHop>::empty());
    }
    while i < hops.len()
        invariant
            i <= hops.len(),
            replied == (|h: TracedHop| h.ip is Some),
            kept@.len() == hops@.take(i as int).filter(replied).len(),
            forall|j: int|
                0 <= j < kept@.len() ==> is_hop(
                    #[trigger] kept@[j],
                    hops@.take(i as int).filter(replied)[j],
                ),
        decreases hops.len() - i,
    {
        proof {
            reveal(Seq::filter);
            assert(hops@.take(i + 1).drop_last() =~= hops@.take(i as int));
        }
        if let Some(a) = hops[i].ip {
            kept.push(
                TracerouteHop {
                    ttl: hops[i].ttl,
                    ip: IpAddr::V4(a),
                    hostname: clone_text(&hops[i].hostname),
                    rtt: hops[i].avg_rtt,
                },
            );
        }
        i += 1;
    }
    proof {
        assert(hops@.take(i as int) =~= hops@);
    }
    if kept.len() == 0 {
        return None;
    }
    let protocol = match probe_type {
        ProbeType::TcpSyn => Protocol::Tcp,
        ProbeType::TcpAck => Protocol::Tcp,
        _ => Protocol::Udp,
    };
    Some(TracerouteResult { protocol, port, hops: kept })
}

/// A route as it was traced: the hops, what was probed with, and the port.
#[derive(Debug)]
pub struct TracedRoute {
    pub hops: Vec<TracedHop>,
    pub probe_type: ProbeType,
    pub port: u16,
}

/// Only the route has changed: if any hop answered, it is the traced one.
pub open spec fn route_applied(before: HostResult, after: HostResult, route: TracedRoute) -> bool {
    let hops = answered(route.hops@);
    &&& after == (HostResult { traceroute: after.traceroute, ..before })
    &&& hops.len() == 0 ==> after.traceroute == before.traceroute
    &&& hops.len() > 0 ==> {
        &&& after.traceroute matches Some(t)
        &&& t.protocol == trace_protocol(route.probe_type)
        &&& t.port == route.port
        &&& t.hops@.len() == hops.len()
        &&& forall|i: int| 0 <= i < t.hops@.len() ==> is_hop(#[trigger] t.hops@[i], hops[i])
    }
}

/// Reports a traced route for a host, if any hop answered. Fails if the route could
/// not be traced, and leaves the host as it was.
pub fn apply_traceroute(host: &mut HostResult, outcome: &Result<TracedRoute, String>) -> (r: Result<
    (),
    CoreError,
>)
    ensures
        match *outcome {
            Ok(route) => r is Ok && route_applied(*old(host), *final(host), route),
            Err(text) => (r matches Err(CoreError::Traceroute(m)) && m@ == text@) && *final(host)
                == *old(host),
        },
{
    match outcome {
        Ok(route) => {
            let reported = traceroute_result(&route.hops, route.probe_type, route.port);
            if reported.is_some() {
                host.traceroute = reported;
            }
            Ok(())
        },
        Err(text) => Err(CoreError::Traceroute(text.clone())),
    }
}

/// Each family is reported by its own name, and no two known families by the same: from
/// the name of a known family the family can be told.
pub proof fn families_have_their_own_names(f: OsFamily, g: OsFamily)
    ensures
        f is Linux ==> family_name(f) == "Linux"@,
        f is Windows ==> family_name(f) == "Windows"@,
        f is MacOS ==> family_name(f) == "MacOS"@,
        f is BSD ==> family_name(f) == "BSD"@,
        f is Solaris ==> family_name(f) == "Solaris"@,
        f is IOS ==> family_name(f) == "iOS"@,
        f is Android ==> family_name(f) == "Android"@,
        f matches OsFamily::Other(s) ==> family_name(f) == s@,
        !(f is Other) && !(g is Other) && family_name(f) == family_name(g) ==> f == g,
{
    reveal_strlit("Linux");
    reveal_strlit("Windows");
    reveal_strlit("MacOS");
    reveal_strlit("BSD");
    reveal_strlit("Solaris");
    reveal_strlit("iOS");
    reveal_strlit("Android");
    let a = family_name(f);
    let b = family_name(g);
    if a == b {
        assert(a.len() == b.len() && a[0] == b[0]);
    }
}

/// A guess is reported as it was made, field by field.
pub proof fn os_matches_are_reported_as_found(m: OsMatch, d: DetectedOs)
    requires
        is_os_match(m, d),
    ensures
        m.name == d.name,
        m.accuracy == d.accuracy,
        m.os_generation == d.generation,
        m.vendor == d.vendor,
        m.device_type == d.device_type,
        m.os_family is Some,
        d.family is Windows ==> m.os_family.unwrap()@ == "Windows"@,
        d.family is Linux ==> m.os_family.unwrap()@ == "Linux"@,
        d.family is MacOS ==> m.os_family.unwrap()@ == "MacOS"@,
        d.family is BSD ==> m.os_family.unwrap()@ == "BSD"@,
        d.family is Solaris ==> m.os_family.unwrap()@ == "Solaris"@,
        d.family is IOS ==> m.os_family.unwrap()@ == "iOS"@,
        d.family is Android ==> m.os_family.unwrap()@ == "Android"@,
        d.family matches OsFamily::Other(s) ==> m.os_family.unwrap()@ == s@,
        d.cpe is None ==> m.cpe@.len() == 0,
        d.cpe matches Some(c) ==> m.cpe@.len() == 1 && m.cpe@[0] == c,
{
}

/// A service that was found out by probing is reported as it was found, field by field.
pub proof fn services_are_reported_as_found(service: Option<ServiceInfo>, d: DetectedService)
    requires
        is_probed_service(service, d),
    ensures
        service matches Some(s) && {
            &&& s.name == d.name
            &&& s.product == d.product
            &&& s.version == d.version
            &&& s.extrainfo == d.info
            &&& s.hostname == d.hostname
            &&& s.ostype == d.os_type
            &&& s.devicetype == d.device_type
            &&& s.confidence == d.confidence
            &&& s.method@ == "probed"@
            &&& d.cpe is None ==> s.cpe@.len() == 0
            &&& d.cpe matches Some(c) ==> s.cpe@.len() == 1 && s.cpe@[0] == c
        },
{
}

/// Only the service of a port changes when services are applied, and only at a port where
/// one was found: there it is the first of those that were found, field by field.
pub proof fn applied_services_are_the_first_found(
    before: Seq<HostResult>,
    after: Seq<HostResult>,
    work: Seq<ServiceProbeWork>,
    found: Seq<Result<Vec<DetectedService>, String>>,
    h: int,
    p: int,
)
    requires
        services_applied(before, after, work, found, work.len() as int),
        valid_work(work, before),
        work.len() == found.len(),
        0 <= h < before.len(),
        0 <= p < before[h].ports@.len(),
    ensures
        after.len() == before.len(),
        after[h].ip == before[h].ip,
        after[h].mac == before[h].mac,
        after[h].hostname == before[h].hostname,
        after[h].status == before[h].status,
        after[h].status_reason == before[h].status_reason,
        after[h].latency == before[h].latency,
        after[h].os_matches == before[h].os_matches,
        after[h].scripts == before[h].scripts,
        after[h].traceroute == before[h].traceroute,
        after[h].times == before[h].times,
        after[h].ports@.len() == before[h].ports@.len(),
        after[h].ports@[p].number == before[h].ports@[p].number,
        after[h].ports@[p].protocol == before[h].ports@[p].protocol,
        after[h].ports@[p].state == before[h].ports@[p].state,
        after[h].ports@[p].state_reason == before[h].ports@[p].state_reason,
        after[h].ports@[p].state_ttl == before[h].ports@[p].state_ttl,
        after[h].ports@[p].scripts == before[h].ports@[p].scripts,
        (forall|k: int|
            0 <= k < work.len() && (#[trigger] work[k]).host == h && work[k].index == p
                ==> found[k] is Err || found[k]->Ok_0@.len() == 0)
            ==> after[h].ports@[p].service == before[h].ports@[p].service,
        forall|k: int|
            0 <= k < work.len() && (#[trigger] work[k]).host == h && work[k].index == p && found[k]
                is Ok && found[k]->Ok_0@.len() > 0 ==> (after[h].ports@[p].service matches Some(s)
                && s.name == found[k]->Ok_0@[0].name && s.product == found[k]->Ok_0@[0].product
                && s.version == found[k]->Ok_0@[0].version),
{
    assert(same_but_ports(after[h], before[h]));
    assert(same_but_service(after[h].ports@[p], before[h].ports@[p]));
    if forall|k: int|
        0 <= k < work.len() && (#[trigger] work[k]).host == h && work[k].index == p ==> found[k]
            is Err || found[k]->Ok_0@.len() == 0 {
        assert(!detected_at(work, found, work.len() as int, h, p));
    }
}

/// The work for a port names the host's address, the port's number and the word for its
/// protocol, which is "udp" for UDP and for nothing else.
pub proof fn work_names_the_port(w: ServiceProbeWork, hosts: Seq<HostResult>, place: (int, int))
    requires
        is_work(w, hosts, place),
    ensures
        w.host == place.0,
        w.index == place.1,
        w.ip == hosts[w.host as int].ip,
        w.port == hosts[w.host as int].ports@[w.index as int].number,
        hosts[w.host as int].ports@[w.index as int].protocol == Protocol::Udp ==> w.protocol@
            == "udp"@,
        hosts[w.host as int].ports@[w.index as int].protocol != Protocol::Udp ==> w.protocol@
            == "tcp"@,
{
}

/// The port that operating system detection takes for open or closed is the first one in
/// that state, `i` places from the start; there is none if `i` is past the end.
pub proof fn the_first_port_in_a_state_is_taken(
    ports: Seq<PortResult>,
    state: PortState,
    from: int,
) -> (i: int)
    requires
        0 <= from <= ports.len(),
    ensures
        from <= i <= ports.len(),
        forall|j: int| from <= j < i ==> (#[trigger] ports[j]).state != state,
        i < ports.len() ==> ports[i].state == state && first_with_state(ports, state, from) == Some(
            ports[i].number,
        ),
        i == ports.len() ==> first_with_state(ports, state, from) is None,
    decreases ports.len() - from,
{
    if from < ports.len() && ports[from].state != state {
        the_first_port_in_a_state_is_taken(ports, state, from + 1)
    } else {
        from
    }
}

/// A timeout that is scaled from a round trip time lies between its limits, is the exact
/// multiple where that lies between them, and the longest where nothing was measured; a
/// longer round trip never gives a shorter timeout.
pub proof fn timeouts_follow_the_round_trip(a: u128, b: u128, n: int, least: int, most: int)
    requires
        n >= 1,
        0 <= least <= most,
    ensures
        least <= scaled_timeout(a, n, least, most) <= most,
        scaled_timeout(0, n, least, most) == most,
        a > 0 && least <= a * n <= most ==> scaled_timeout(a, n, least, most) == a * n,
        a > 0 && a * n <= least ==> scaled_timeout(a, n, least, most) == least,
        a * n >= most ==> scaled_timeout(a, n, least, most) == most,
        0 < a <= b ==> scaled_timeout(a, n, least, most) <= scaled_timeout(b, n, least, most),
{
    if 0 < a <= b {
        assert(a * n <= b * n) by (nonlinear_arith)
            requires
                0 < a <= b,
                n >= 1,
        ;
    }
    if a == 0 {
        assert(a * n == 0) by (nonlinear_arith)
            requires
                a == 0,
        ;
    }
}

/// A route is reported with UDP if it was probed with UDP or ICMP, and with TCP otherwise.
pub proof fn routes_have_their_protocol(t: ProbeType)
    ensures
        trace_protocol(t) == Protocol::Udp <==> t is Udp || t is Icmp,
        trace_protocol(t) == Protocol::Tcp <==> t is TcpSyn || t is TcpAck,
{
}

/// Only the route of a host changes when a route is applied. It then has one reported hop
/// for each hop that answered, in their order, with the hop's distance, address, name and
/// round trip time; a route without an answer is not reported.
pub proof fn applied_routes_hold_the_answers(
    before: HostResult,
    after: HostResult,
    route: TracedRoute,
)
    requires
        route_applied(before, after, route),
    ensures
        after.ip == before.ip,
        after.ports == before.ports,
        after.status == before.status,
        after.os_matches == before.os_matches,
        (forall|i: int| 0 <= i < route.hops@.len() ==> (#[trigger] route.hops@[i]).ip is None)
            ==> after.traceroute == before.traceroute,
        !(forall|i: int| 0 <= i < route.hops@.len() ==> (#[trigger] route.hops@[i]).ip is None)
            ==> {
            let hops = route.hops@.filter(|h: TracedHop| h.ip is Some);
            &&& after.traceroute matches Some(t)
            &&& t.port == route.port
            &&& t.protocol == Protocol::Tcp <==> route.probe_type is TcpSyn || route.probe_type
                is TcpAck
            &&& t.hops@.len() == hops.len()
            &&& forall|i: int|
                0 <= i < hops.len() ==> (#[trigger] t.hops@[i]).ttl == hops[i].ttl
                    && t.hops@[i].ip == IpAddr::V4(hops[i].ip.unwrap()) && t.hops@[i].hostname
                    == hops[i].hostname && t.hops@[i].rtt == hops[i].avg_rtt
        },
{
    let keep = |h: TracedHop| h.ip is Some;
    assert(answered(route.hops@) == route.hops@.filter(keep));
    lemma_none_answered(route.hops@);
    routes_have_their_protocol(route.probe_type);
}

proof fn lemma_none_answered(hops: Seq<TracedHop>)
    ensures
        hops.filter(|h: TracedHop| h.ip is Some).len() == 0 <==> forall|i: int|
            0 <= i < hops.len() ==> (#[trigger] hops[i]).ip is None,
    decreases hops.len(),
{
    reveal(Seq::filter);
    if hops.len() > 0 {
        let rest = hops.drop_last();
        lemma_none_answered(rest);
        if forall|i: int| 0 <= i < hops.len() ==> (#[trigger] hops[i]).ip is None {
            assert forall|i: int| 0 <= i < rest.len() implies (#[trigger] rest[i]).ip is None by {
                assert(hops[i].ip is None);
            }
            assert(hops[hops.len() - 1].ip is None);
        }
        if hops.filter(|h: TracedHop| h.ip is Some).len() == 0 {
            assert forall|i: int| 0 <= i < hops.len() implies (#[trigger] hops[i]).ip is None by {
                if i < rest.len() {
                    assert(rest[i].ip is None);
                }
            }
        }
    }
}

/// Only the guesses at the operating system of a host change when some are applied: there
/// is one for each that was made, in their order.
pub proof fn applied_guesses_are_those_made(
    before: HostResult,
    after: HostResult,
    found: Seq<DetectedOs>,
)
    requires
        os_applied(before, after, found),
    ensures
        after.ip == before.ip,
        after.ports == before.ports,
        after.status == before.status,
        after.traceroute == before.traceroute,
        after.os_matches@.len() == found.len(),
        forall|i: int|
            0 <= i < found.len() ==> (#[trigger] after.os_matches@[i]).name == found[i].name
                && after.os_matches@[i].accuracy == found[i].accuracy
                && after.os_matches@[i].vendor == found[i].vendor
                && after.os_matches@[i].os_generation == found[i].generation
                && after.os_matches@[i].device_type == found[i].device_type,
{
}

/// UDP ports are asked over UDP, all others over TCP.
pub proof fn ports_are_asked_over_their_protocol(p: Protocol, q: Protocol)
    ensures
        probe_protocol(p) == probe_protocol(q) <==> (p is Udp <==> q is Udp),
        probe_protocol(p).len() == 3,
        p is Udp <==> probe_protocol(p)[0] == 'u',
        p is Udp || probe_protocol(p)[0] == 't',
        probe_protocol(p).last() == 'p',
{
    reveal_strlit("udp");
    reveal_strlit("tcp");
    if (p is Udp) != (q is Udp) {
        assert("udp"@[0] != "tcp"@[0]);
    }
}

/// What is known is listed, and nothing else.
pub proof fn known_texts_are_listed(t: Option<String>, s: String)
    ensures
        listed(t).contains(s) <==> t == Some(s),
        listed(t).len() <= 1,
        listed(t).len() == 0 <==> t is None,
{
    match t {
        Some(x) => {
            assert(listed(t)[0] == x);
        },
        None => {},
    }
}

/// What is taken of the services found is the first, and nothing only where there is none.
pub proof fn the_first_service_is_taken(found: Result<Vec<DetectedService>, String>)
    ensures
        found matches Ok(services) ==> services@.len() > 0 ==> first_service(found) == Some(
            services@[0],
        ),
        first_service(found) is Some <==> (found matches Ok(services) && services@.len() > 0),
{
}

/// The open ports of a host are listed in their order, and each of them is.
pub proof fn open_ports_have_their_places(ports: Seq<PortResult>, host: int, m: int, p: int)
    requires
        0 <= m <= ports.len(),
    ensures
        open_places(ports, host, m).contains((host, p)) <==> 0 <= p < m && ports[p].state
            == PortState::Open,
        forall|i: int|
            0 <= i < open_places(ports, host, m).len() ==> (#[trigger] open_places(
                ports,
                host,
                m,
            )[i]).0 == host && open_places(ports, host, m)[i].1 < m,
    decreases m,
{
    if m > 0 {
        open_ports_have_their_places(ports, host, m - 1, p);
        let before = open_places(ports, host, m - 1);
        let after = open_places(ports, host, m);
        if ports[m - 1].state == PortState::Open {
            assert(after == before.push((host, m - 1)));
            assert(after[before.len() as int] == (host, m - 1));
            if before.contains((host, p)) {
                let i = choose|i: int| 0 <= i < before.len() && before[i] == (host, p);
                assert(after[i] == (host, p));
            }
            if after.contains((host, p)) && p != m - 1 {
                let i = choose|i: int| 0 <= i < after.len() && after[i] == (host, p);
                assert(before[i] == (host, p));
            }
        }
    }
}

} // verus!
