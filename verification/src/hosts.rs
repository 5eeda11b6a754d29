//! Finding out which hosts are up.
use crate::addr::{IpAddr, Ipv4Addr};
use crate::discovery;
use crate::discovery::ScanError;
use crate::models::{clone_target, HostStatus, Target};
use crate::net::has_addr;
use crate::state::{HostState, ScanState, ScanStats};
use vstd::prelude::*;

verus! {

/// An address that ends in 0 or 255 is taken for that of a network or for a
/// broadcast address, and not for a host.
pub open spec fn is_no_host(a: Ipv4Addr) -> bool {
    a.d == 0 || a.d == 255
}

/// How such an address is marked.
pub open spec fn no_host_method(a: Ipv4Addr) -> Seq<char> {
    if a.d == 0 {
        "network-address"@
    } else {
        "broadcast-address"@
    }
}

/// The targets, sorted by how they are to be looked for.
#[derive(Debug)]
pub struct SortedTargets {
    /// On the local segment.
    pub direct: Vec<Ipv4Addr>,
    /// Behind a router.
    pub remote: Vec<Target>,
    /// IPv6.
    pub ipv6: Vec<Target>,
    /// The number of addresses that are no hosts.
    pub no_hosts: usize,
}

/// The part of the first `n` targets that is on the local segment. `direct` tells
/// of each target whether it is.
pub open spec fn direct_targets(targets: Seq<Target>, direct: Seq<bool>, n: int) -> Seq<Ipv4Addr>
    decreases n,
{
    if n <= 0 {
        Seq::empty()
    } else {
        let before = direct_targets(targets, direct, n - 1);
        match targets[n - 1].ip {
            IpAddr::V4(a) => if !is_no_host(a) && direct[n - 1] {
                before.push(a)
            } else {
                before
            },
            IpAddr::V6(_) => before,
        }
    }
}

/// The part of the first `n` targets that is behind a router.
pub open spec fn remote_targets(targets: Seq<Target>, direct: Seq<bool>, n: int) -> Seq<Target>
    decreases n,
{
    if n <= 0 {
        Seq::empty()
    } else {
        let before = remote_targets(targets, direct, n - 1);
        match targets[n - 1].ip {
            IpAddr::V4(a) => if !is_no_host(a) && !direct[n - 1] {
                before.push(targets[n - 1])
            } else {
                before
            },
            IpAddr::V6(_) => before,
        }
    }
}

/// The part of the first `n` targets that is IPv6.
pub open spec fn ipv6_targets(targets: Seq<Target>, n: int) -> Seq<Target>
    decreases n,
{
    if n <= 0 {
        Seq::empty()
    } else {
        let before = ipv6_targets(targets, n - 1);
        match targets[n - 1].ip {
            IpAddr::V4(_) => before,
            IpAddr::V6(_) => before.push(targets[n - 1]),
        }
    }
}

/// The number of the first `n` targets that are no hosts.
pub open spec fn no_host_count(targets: Seq<Target>, n: int) -> nat
    decreases n,
{
    if n <= 0 {
        0
    } else {
        no_host_count(targets, n - 1) + match targets[n - 1].ip {
            IpAddr::V4(a) => if is_no_host(a) {
                1nat
            } else {
                0nat
            },
            IpAddr::V6(_) => 0nat,
        }
    }
}

/// One of the first `n` targets has the address `ip`.
pub open spec fn targeted(targets: Seq<Target>, n: int, ip: IpAddr) -> bool {
    exists|i: int| 0 <= i < n && (#[trigger] targets[i]).ip == ip
}

/// The states of all hosts but those of the first `n` targets that are no hosts are
/// kept, and those are marked as down.
pub open spec fn no_hosts_marked(
    targets: Seq<Target>,
    n: int,
    before: ScanState,
    after: ScanState,
) -> bool {
    &&& forall|a: Ipv4Addr|
        is_no_host(a) && #[trigger] targeted(targets, n, IpAddr::V4(a)) ==> after.hosts().contains_key(
            IpAddr::V4(a),
        ) && after.hosts()[IpAddr::V4(a)].is(HostStatus::Down, no_host_method(a))
    &&& forall|ip: IpAddr|
        !(ip matches IpAddr::V4(a) && is_no_host(a) && targeted(targets, n, ip)) ==> (
        #[trigger] after.hosts().contains_key(ip) <==> before.hosts().contains_key(ip)) && (
        before.hosts().contains_key(ip) ==> after.hosts()[ip] == before.hosts()[ip])
}

/// Sorts the targets by how they are to be looked for. Those that are no hosts are
/// marked as down. `direct` tells of each target whether it is on the local segment;
/// it only counts for IPv4.
pub fn sort_targets(targets: &Vec<Target>, direct: &Vec<bool>, state: &mut ScanState) -> (r:
    SortedTargets)
    requires
        direct@.len() == targets@.len(),
        old(state).wf(),
    ensures
        final(state).wf(),
        final(state).ports() == old(state).ports(),
        final(state).progressed() == old(state).progressed(),
        no_hosts_marked(targets@, targets@.len() as int, *old(state), *final(state)),
        r.direct@ == direct_targets(targets@, direct@, targets@.len() as int),
        r.remote@ == remote_targets(targets@, direct@, targets@.len() as int),
        r.ipv6@ == ipv6_targets(targets@, targets@.len() as int),
        r.no_hosts == no_host_count(targets@, targets@.len() as int),
{
    let mut near: Vec<Ipv4Addr> = Vec::new();
    let mut remote: Vec<Target> = Vec::new();
    let mut ipv6: Vec<Target> = Vec::new();
    let mut no_hosts: usize = 0;
    let mut i: usize = 0;
    while i < targets.len()
        invariant
            i <= targets.len(),
            direct@.len() == targets@.len(),
            state.wf(),
            state.ports() == old(state).ports(),
            state.progressed() == old(state).progressed(),
            no_hosts_marked(targets@, i as int, *old(state), *state),
            near@ == direct_targets(targets@, direct@, i as int),
            remote@ == remote_targets(targets@, direct@, i as int),
            ipv6@ == ipv6_targets(targets@, i as int),
            no_hosts == no_host_count(targets@, i as int),
            no_hosts <= i,
        decreases targets.len() - i,
    {
        let ghost before = *state;
        let ip = targets[i].ip;
        match ip {
            IpAddr::V4(addr) => {
                if addr.d == 255 || addr.d == 0 {
                    let host = state.host_state(ip);
                    host.set(
                        HostStatus::Down,
                        if addr.d == 0 {
                            "network-address"
                        } else {
                            "broadcast-address"
                        },
                    );
                    no_hosts += 1;
                } else if direct[i] {
                    near.push(addr);
                } else {
                    remote.push(clone_target(&targets[i]));
                }
            },
            IpAddr::V6(_) => {
                ipv6.push(clone_target(&targets[i]));
            },
        }
        proof {
            lemma_marked_step(targets@, i as int, *old(state), before, *state);
        }
        i += 1;
    }
    SortedTargets { direct: near, remote, ipv6, no_hosts }
}

/// Every target is in exactly one part, or is no host.
pub proof fn sorting_loses_no_target(targets: Seq<Target>, direct: Seq<bool>, n: int)
    requires
        0 <= n <= targets.len(),
        direct.len() == targets.len(),
    ensures
        direct_targets(targets, direct, n).len() + remote_targets(targets, direct, n).len()
            + ipv6_targets(targets, n).len() + no_host_count(targets, n) == n,
    decreases n,
{
    if n > 0 {
        sorting_loses_no_target(targets, direct, n - 1);
    }
}

proof fn lemma_marked_step(
    targets: Seq<Target>,
    i: int,
    start: ScanState,
    before: ScanState,
    after: ScanState,
)
    requires
        0 <= i < targets.len(),
        no_hosts_marked(targets, i, start, before),
        match targets[i].ip {
            IpAddr::V4(a) => if is_no_host(a) {
                exists|h: HostState|
                    h.is(HostStatus::Down, no_host_method(a)) && after.hosts()
                        == #[trigger] before.hosts().insert(targets[i].ip, h)
            } else {
                after.hosts() == before.hosts()
            },
            IpAddr::V6(_) => after.hosts() == before.hosts(),
        },
    ensures
        no_hosts_marked(targets, i + 1, start, after),
{
    let here = targets[i].ip;
    assert forall|ip: IpAddr| #[trigger] targeted(targets, i + 1, ip) <==> targeted(targets, i, ip)
        || ip == here by {
        if targeted(targets, i + 1, ip) {
            let j = choose|j: int| 0 <= j < i + 1 && (#[trigger] targets[j]).ip == ip;
            if j < i {
                assert(targets[j].ip == ip);
            }
        }
        if targeted(targets, i, ip) {
            let j = choose|j: int| 0 <= j < i && (#[trigger] targets[j]).ip == ip;
            assert(targets[j].ip == ip);
        }
        assert(targets[i].ip == here);
    }
}

/// Members of a batch of ARP requests: targets that are reached from the same
/// address.
#[derive(Debug)]
pub struct ArpGroup {
    pub source: Ipv4Addr,
    pub members: Vec<Ipv4Addr>,
}

/// The first `n` targets that are reached from `source`, in their order.
pub open spec fn reached_from(
    targets: Seq<Ipv4Addr>,
    sources: Seq<Ipv4Addr>,
    n: int,
    source: Ipv4Addr,
) -> Seq<Ipv4Addr>
    decreases n,
{
    if n <= 0 {
        Seq::empty()
    } else if sources[n - 1] == source {
        reached_from(targets, sources, n - 1, source).push(targets[n - 1])
    } else {
        reached_from(targets, sources, n - 1, source)
    }
}

/// One of the groups is that of `source`.
pub open spec fn has_group(groups: Seq<ArpGroup>, source: Ipv4Addr) -> bool {
    exists|g: int| 0 <= g < groups.len() && (#[trigger] groups[g]).source == source
}

/// The groups of the first `n` targets: one for each source, with the targets that
/// are reached from it.
pub open spec fn grouped(
    targets: Seq<Ipv4Addr>,
    sources: Seq<Ipv4Addr>,
    n: int,
    groups: Seq<ArpGroup>,
) -> bool {
    &&& forall|g: int, h: int|
        0 <= g < h < groups.len() ==> (#[trigger] groups[g]).source != (
        #[trigger] groups[h]).source
    &&& forall|g: int|
        0 <= g < groups.len() ==> (#[trigger] groups[g]).members@ == reached_from(
            targets,
            sources,
            n,
            groups[g].source,
        ) && groups[g].members@.len() > 0
    &&& forall|i: int| 0 <= i < n ==> has_group(groups, #[trigger] sources[i])
}

/// Groups targets by the address from which they are reached: `sources` gives it
/// for each. Targets on different segments need requests from different addresses.
#[must_use]
pub fn group_by_source(targets: &Vec<Ipv4Addr>, sources: &Vec<Ipv4Addr>) -> (r: Vec<ArpGroup>)
    requires
        sources@.len() == targets@.len(),
    ensures
        grouped(targets@, sources@, targets@.len() as int, r@),
{
    let mut groups: Vec<ArpGroup> = Vec::new();
    let mut i: usize = 0;
    while i < targets.len()
        invariant
            i <= targets.len(),
            sources@.len() == targets@.len(),
            grouped(targets@, sources@, i as int, groups@),
        decreases targets.len() - i,
    {
        let source = sources[i];
        let mut g: usize = 0;
        while g < groups.len() && groups[g].source != source
            invariant
                g <= groups.len(),
                forall|j: int| 0 <= j < g ==> (#[trigger] groups@[j]).source != source,
            decreases groups.len() - g,
        {
            g += 1;
        }
        let ghost before = groups@;
        if g < groups.len() {
            let group = &mut groups[g];
            group.members.push(targets[i]);
            proof {
                assert(forall|h: int|
                    0 <= h < before.len() ==> (#[trigger] groups@[h]).source == before[h].source);
                assert forall|h: int| 0 <= h < groups@.len() implies (
                #[trigger] groups@[h]).members@ == reached_from(
                    targets@,
                    sources@,
                    i + 1,
                    groups@[h].source,
                ) && groups@[h].members@.len() > 0 by {
                    if h == g {
                        assert(groups@[h].members@ =~= before[h].members@.push(targets@[i as int]));
                    } else {
                        assert(groups@[h] == before[h]);
                    }
                }
                assert forall|k: int| 0 <= k < i + 1 implies has_group(
                    groups@,
                    #[trigger] sources@[k],
                ) by {
                    if k == i {
                        assert(groups@[g as int].source == sources@[k]);
                    } else {
                        let h = choose|h: int|
                            0 <= h < before.len() && (#[trigger] before[h]).source == sources@[k];
                        assert(groups@[h].source == sources@[k]);
                    }
                }
            }
        } else {
            groups.push(ArpGroup { source, members: vec![targets[i]] });
            proof {
                assert(forall|h: int| 0 <= h < before.len() ==> #[trigger] groups@[h] == before[h]);
                lemma_none_reached(targets@, sources@, i as int, source, before);
                assert forall|h: int| 0 <= h < groups@.len() implies (
                #[trigger] groups@[h]).members@ == reached_from(
                    targets@,
                    sources@,
                    i + 1,
                    groups@[h].source,
                ) && groups@[h].members@.len() > 0 by {
                    if h == before.len() {
                        assert(groups@[h].members@ =~= Seq::<Ipv4Addr>::empty().push(
                            targets@[i as int],
                        ));
                    } else {
                        assert(groups@[h] == before[h]);
                    }
                }
                assert forall|k: int| 0 <= k < i + 1 implies has_group(
                    groups@,
                    #[trigger] sources@[k],
                ) by {
                    if k == i {
                        assert(groups@[before.len() as int].source == sources@[k]);
                    } else {
                        let h = choose|h: int|
                            0 <= h < before.len() && (#[trigger] before[h]).source == sources@[k];
                        assert(groups@[h].source == sources@[k]);
                    }
                }
            }
        }
        i += 1;
    }
    groups
}

proof fn lemma_none_reached(
    targets: Seq<Ipv4Addr>,
    sources: Seq<Ipv4Addr>,
    n: int,
    source: Ipv4Addr,
    groups: Seq<ArpGroup>,
)
    requires
        0 <= n <= sources.len(),
        forall|g: int| 0 <= g < groups.len() ==> (#[trigger] groups[g]).source != source,
        forall|i: int| 0 <= i < n ==> has_group(groups, #[trigger] sources[i]),
    ensures
        reached_from(targets, sources, n, source) == Seq::<Ipv4Addr>::empty(),
    decreases n,
{
    if n > 0 {
        lemma_none_reached(targets, sources, n - 1, source, groups);
        assert(sources[n - 1] != source) by {
            assert(has_group(groups, sources[n - 1]));
            let g = choose|g: int|
                0 <= g < groups.len() && (#[trigger] groups[g]).source == sources[n - 1];
            assert(groups[g].source != source);
        }
    }
}

/// What a batch of ARP requests says of a member: it is up if it replied, if it is
/// this machine, which does not reply to itself, or if the batch failed.
pub open spec fn arp_verdict(
    replied: Option<Seq<Ipv4Addr>>,
    own: Seq<Ipv4Addr>,
    member: Ipv4Addr,
) -> (HostStatus, Seq<char>) {
    match replied {
        Some(replied) => if replied.contains(member) {
            (HostStatus::Up, "arp-response"@)
        } else if own.contains(member) {
            (HostStatus::Up, "local-address"@)
        } else {
            (HostStatus::Down, "no-arp-response"@)
        },
        None => (HostStatus::Up, "arp-error"@),
    }
}

/// The number of the first `n` members with this verdict.
pub open spec fn verdict_count(
    replied: Option<Seq<Ipv4Addr>>,
    own: Seq<Ipv4Addr>,
    members: Seq<Ipv4Addr>,
    n: int,
    status: HostStatus,
) -> nat
    decreases n,
{
    if n <= 0 {
        0
    } else {
        verdict_count(replied, own, members, n - 1, status) + if arp_verdict(
            replied,
            own,
            members[n - 1],
        ).0 == status {
            1nat
        } else {
            0nat
        }
    }
}

/// The states of all hosts but the first `n` members are kept, and those have the
/// verdict of the batch.
pub open spec fn verdicts_applied(
    replied: Option<Seq<Ipv4Addr>>,
    own: Seq<Ipv4Addr>,
    members: Seq<Ipv4Addr>,
    n: int,
    before: ScanState,
    after: ScanState,
) -> bool {
    &&& forall|i: int|
        0 <= i < n ==> after.hosts().contains_key(IpAddr::V4(#[trigger] members[i]))
            && after.hosts()[IpAddr::V4(members[i])].is(
            arp_verdict(replied, own, members[i]).0,
            arp_verdict(replied, own, members[i]).1,
        )
    &&& forall|ip: IpAddr|
        !(ip matches IpAddr::V4(a) && members.take(n).contains(a)) ==> (
        #[trigger] after.hosts().contains_key(ip) <==> before.hosts().contains_key(ip)) && (
        before.hosts().contains_key(ip) ==> after.hosts()[ip] == before.hosts()[ip])
}

proof fn lemma_verdict_step(
    replied: Option<Seq<Ipv4Addr>>,
    own: Seq<Ipv4Addr>,
    members: Seq<Ipv4Addr>,
    i: int,
    start: ScanState,
    before: ScanState,
    after: ScanState,
)
    requires
        0 <= i < members.len(),
        verdicts_applied(replied, own, members, i, start, before),
        exists|h: HostState|
            h.is(
                arp_verdict(replied, own, members[i]).0,
                arp_verdict(replied, own, members[i]).1,
            ) && after.hosts() == #[trigger] before.hosts().insert(IpAddr::V4(members[i]), h),
    ensures
        verdicts_applied(replied, own, members, i + 1, start, after),
{
    let here = IpAddr::V4(members[i]);
    let now = members.take(i + 1);
    let was = members.take(i);
    assert(now =~= was.push(members[i]));
    assert forall|ip: IpAddr| !(ip matches IpAddr::V4(a) && now.contains(a)) implies (
    #[trigger] after.hosts().contains_key(ip) <==> start.hosts().contains_key(ip)) && (
    start.hosts().contains_key(ip) ==> after.hosts()[ip] == start.hosts()[ip]) by {
        assert(now[i] == members[i]);
        assert(ip != here);
        if let IpAddr::V4(a) = ip {
            if was.contains(a) {
                assert(now[was.index_of(a)] == a);
            }
        }
        assert(before.hosts().contains_key(ip) <==> start.hosts().contains_key(ip));
    }
}

/// The addresses that replied, as a sequence.
pub open spec fn replies(replied: Option<Vec<Ipv4Addr>>) -> Option<Seq<Ipv4Addr>> {
    match replied {
        Some(v) => Some(v@),
        None => None,
    }
}

/// Applies what a batch of ARP requests brought to the states of its members:
/// `replied` holds the addresses that replied, or nothing if the batch failed. The
/// result is how many members are up and how many are down.
pub fn apply_arp_batch(
    state: &mut ScanState,
    members: &Vec<Ipv4Addr>,
    replied: &Option<Vec<Ipv4Addr>>,
    own: &Vec<Ipv4Addr>,
) -> (r: (usize, usize))
    requires
        old(state).wf(),
    ensures
        final(state).wf(),
        final(state).ports() == old(state).ports(),
        final(state).progressed() == old(state).progressed(),
        verdicts_applied(
            replies(*replied),
            own@,
            members@,
            members@.len() as int,
            *old(state),
            *final(state),
        ),
        r.0 == verdict_count(
            replies(*replied),
            own@,
            members@,
            members@.len() as int,
            HostStatus::Up,
        ),
        r.1 == verdict_count(
            replies(*replied),
            own@,
            members@,
            members@.len() as int,
            HostStatus::Down,
        ),
        r.0 + r.1 == members@.len(),
{
    let ghost said = replies(*replied);
    let mut up: usize = 0;
    let mut down: usize = 0;
    let mut i: usize = 0;
    while i < members.len()
        invariant
            i <= members.len(),
            said == replies(*replied),
            state.wf(),
            state.ports() == old(state).ports(),
            state.progressed() == old(state).progressed(),
            verdicts_applied(said, own@, members@, i as int, *old(state), *state),
            up == verdict_count(said, own@, members@, i as int, HostStatus::Up),
            down == verdict_count(said, own@, members@, i as int, HostStatus::Down),
            up + down == i,
        decreases members.len() - i,
    {
        let member = members[i];
        let ghost before = *state;
        let (status, method) = match replied {
            Some(v) => if has_addr(v, member) {
                (HostStatus::Up, "arp-response")
            } else if has_addr(own, member) {
                (HostStatus::Up, "local-address")
            } else {
                (HostStatus::Down, "no-arp-response")
            },
            None => (HostStatus::Up, "arp-error"),
        };
        let host = state.host_state(IpAddr::V4(member));
        host.set(status, method);
        proof {
            lemma_verdict_step(said, own@, members@, i as int, *old(state), before, *state);
        }
        match status {
            HostStatus::Up => {
                up += 1;
            },
            _ => {
                down += 1;
            },
        }
        i += 1;
    }
    (up, down)
}

/// How a pinged host is marked: what cannot be decided counts as up.
pub open spec fn ping_mark(verdict: Result<discovery::HostState, ScanError>) -> (
    HostStatus,
    Seq<char>,
) {
    match verdict {
        Ok(discovery::HostState::Up) => (HostStatus::Up, "icmp/tcp-ping"@),
        Ok(discovery::HostState::Down) => (HostStatus::Down, "icmp/tcp-ping"@),
        _ => (HostStatus::Up, "fallback"@),
    }
}

/// The pinged host is marked, and the states of all other hosts are kept.
pub open spec fn ping_applied(
    before: ScanState,
    after: ScanState,
    ip: IpAddr,
    verdict: Result<discovery::HostState, ScanError>,
) -> bool {
    exists|h: HostState|
        h.is(ping_mark(verdict).0, ping_mark(verdict).1) && after.hosts()
            == #[trigger] before.hosts().insert(ip, h)
}

/// Applies what pinging a host brought, and counts the host as done.
pub fn apply_ping(
    state: &mut ScanState,
    stats: &mut ScanStats,
    ip: IpAddr,
    verdict: &Result<discovery::HostState, ScanError>,
)
    requires
        old(state).wf(),
    ensures
        final(state).wf(),
        final(state).ports() == old(state).ports(),
        final(state).progressed() == old(state).progressed(),
        ping_applied(*old(state), *final(state), ip, *verdict),
        *final(stats) == old(stats).completed(1),
{
    let host = state.host_state(ip);
    match verdict {
        Ok(discovery::HostState::Up) => host.set(HostStatus::Up, "icmp/tcp-ping"),
        Ok(discovery::HostState::Down) => host.set(HostStatus::Down, "icmp/tcp-ping"),
        _ => host.set(HostStatus::Up, "fallback"),
    }
    stats.mark_host_complete();
}

/// The first `n` targets are marked as up because the user said so, and the states of
/// all other hosts are kept.
pub open spec fn user_set(targets: Seq<Target>, n: int, before: ScanState, after: ScanState) -> bool {
    &&& forall|ip: IpAddr| #[trigger]
        targeted(targets, n, ip) ==> after.hosts().contains_key(ip) && after.hosts()[ip].is(
            HostStatus::Up,
            "user-set"@,
        )
    &&& forall|ip: IpAddr|
        !targeted(targets, n, ip) ==> (#[trigger] after.hosts().contains_key(ip)
            <==> before.hosts().contains_key(ip)) && (before.hosts().contains_key(ip)
            ==> after.hosts()[ip] == before.hosts()[ip])
}

proof fn lemma_user_set_step(
    targets: Seq<Target>,
    i: int,
    start: ScanState,
    before: ScanState,
    after: ScanState,
)
    requires
        0 <= i < targets.len(),
        user_set(targets, i, start, before),
        exists|h: HostState|
            h.is(HostStatus::Up, "user-set"@) && after.hosts() == #[trigger] before.hosts().insert(
                targets[i].ip,
                h,
            ),
    ensures
        user_set(targets, i + 1, start, after),
{
    let here = targets[i].ip;
    assert forall|ip: IpAddr| #[trigger] targeted(targets, i + 1, ip) <==> targeted(targets, i, ip)
        || ip == here by {
        if targeted(targets, i + 1, ip) {
            let j = choose|j: int| 0 <= j < i + 1 && (#[trigger] targets[j]).ip == ip;
            if j < i {
                assert(targets[j].ip == ip);
            }
        }
        if targeted(targets, i, ip) {
            let j = choose|j: int| 0 <= j < i && (#[trigger] targets[j]).ip == ip;
            assert(targets[j].ip == ip);
        }
        assert(targets[i].ip == here);
    }
    assert forall|ip: IpAddr| !targeted(targets, i + 1, ip) implies (
    #[trigger] after.hosts().contains_key(ip) <==> start.hosts().contains_key(ip)) && (
    start.hosts().contains_key(ip) ==> after.hosts()[ip] == start.hosts()[ip]) by {
        assert(targeted(targets, i + 1, here));
        assert(!targeted(targets, i, ip));
        assert(before.hosts().contains_key(ip) <==> start.hosts().contains_key(ip));
    }
}

/// Marks targets that are not looked for as up, because the user said so.
pub fn mark_user_set(state: &mut ScanState, targets: &Vec<Target>)
    requires
        old(state).wf(),
    ensures
        final(state).wf(),
        final(state).ports() == old(state).ports(),
        final(state).progressed() == old(state).progressed(),
        user_set(targets@, targets@.len() as int, *old(state), *final(state)),
{
    let mut i: usize = 0;
    while i < targets.len()
        invariant
            i <= targets.len(),
            state.wf(),
            state.ports() == old(state).ports(),
            state.progressed() == old(state).progressed(),
            user_set(targets@, i as int, *old(state), *state),
        decreases targets.len() - i,
    {
        let ghost before = *state;
        let host = state.host_state(targets[i].ip);
        host.set(HostStatus::Up, "user-set");
        proof {
            lemma_user_set_step(targets@, i as int, *old(state), before, *state);
        }
        i += 1;
    }
}

/// Whether the hosts are looked for at all: not for a single target, unless finding
/// hosts is all that is asked for.
#[must_use]
pub fn discovers_hosts(target_count: usize, no_port_scan: bool) -> (r: bool)
    ensures
        r == (target_count != 1 || no_port_scan),
{
    target_count != 1 || no_port_scan
}

/// The first and the last address of a network of 256 are no hosts, and all others are.
pub proof fn addresses_that_are_no_hosts(a: Ipv4Addr)
    ensures
        is_no_host(a) <==> a.number() % 256 == 0 || a.number() % 256 == 255,
        a.number() % 256 == 0 ==> no_host_method(a) == "network-address"@,
        a.number() % 256 == 255 ==> no_host_method(a) == "broadcast-address"@,
{
}

/// Each target goes to the part that it belongs to: an IPv6 target to the IPv6 ones, an
/// IPv4 target that is a host to the near or to the remote ones, and one that is no host
/// to none of them.
pub proof fn targets_are_sorted_by_what_they_are(
    targets: Seq<Target>,
    direct: Seq<bool>,
    n: int,
    i: int,
)
    requires
        0 <= i < n <= targets.len(),
        direct.len() == targets.len(),
    ensures
        targets[i].ip matches IpAddr::V4(a) ==> a.d != 0 && a.d != 255 && direct[i]
            ==> direct_targets(targets, direct, n).contains(a),
        targets[i].ip matches IpAddr::V4(a) ==> a.d != 0 && a.d != 255 && !direct[i]
            ==> remote_targets(targets, direct, n).contains(targets[i]),
        targets[i].ip is V6 ==> ipv6_targets(targets, n).contains(targets[i]),
    decreases n,
{
    let near = direct_targets(targets, direct, n);
    let far = remote_targets(targets, direct, n);
    let six = ipv6_targets(targets, n);
    let t = targets[i];
    if i < n - 1 {
        targets_are_sorted_by_what_they_are(targets, direct, n - 1, i);
        let near0 = direct_targets(targets, direct, n - 1);
        let far0 = remote_targets(targets, direct, n - 1);
        let six0 = ipv6_targets(targets, n - 1);
        if let IpAddr::V4(a) = t.ip {
            if near0.contains(a) {
                assert(near[near0.index_of(a)] == a);
            }
        }
        if far0.contains(t) {
            assert(far[far0.index_of(t)] == t);
        }
        if six0.contains(t) {
            assert(six[six0.index_of(t)] == t);
        }
    } else {
        match t.ip {
            IpAddr::V4(a) => {
                if a.d != 0 && a.d != 255 {
                    if direct[i] {
                        assert(near[near.len() - 1] == a);
                    } else {
                        assert(far[far.len() - 1] == t);
                    }
                }
            },
            IpAddr::V6(_) => {
                assert(six[six.len() - 1] == t);
            },
        }
    }
}

/// What is in a part belongs there.
pub proof fn parts_hold_nothing_else(targets: Seq<Target>, direct: Seq<bool>, n: int, k: int)
    requires
        0 <= n <= targets.len(),
        direct.len() == targets.len(),
    ensures
        0 <= k < direct_targets(targets, direct, n).len() ==> direct_targets(
            targets,
            direct,
            n,
        )[k].d != 0 && direct_targets(targets, direct, n)[k].d != 255 && exists|i: int|
            0 <= i < n && direct[i] && (#[trigger] targets[i]).ip == IpAddr::V4(
                direct_targets(targets, direct, n)[k],
            ),
        0 <= k < remote_targets(targets, direct, n).len() ==> exists|i: int|
            0 <= i < n && !direct[i] && (#[trigger] targets[i]) == remote_targets(
                targets,
                direct,
                n,
            )[k] && targets[i].ip is V4,
        0 <= k < ipv6_targets(targets, n).len() ==> ipv6_targets(targets, n)[k].ip is V6
            && exists|i: int|
            0 <= i < n && (#[trigger] targets[i]) == ipv6_targets(targets, n)[k],
    decreases n,
{
    if n > 0 {
        parts_hold_nothing_else(targets, direct, n - 1, k);
        assert(targets[n - 1] == targets[n - 1]);
    } else {
        assert(direct_targets(targets, direct, n).len() == 0);
        assert(remote_targets(targets, direct, n).len() == 0);
        assert(ipv6_targets(targets, n).len() == 0);
    }
}

/// A group holds the targets that are reached from its address, and no others.
pub proof fn groups_hold_their_targets(
    targets: Seq<Ipv4Addr>,
    sources: Seq<Ipv4Addr>,
    n: int,
    source: Ipv4Addr,
    a: Ipv4Addr,
)
    requires
        0 <= n <= targets.len(),
        sources.len() == targets.len(),
    ensures
        reached_from(targets, sources, n, source).contains(a) <==> exists|i: int|
            0 <= i < n && (#[trigger] targets[i]) == a && sources[i] == source,
    decreases n,
{
    let now = reached_from(targets, sources, n, source);
    if n > 0 {
        groups_hold_their_targets(targets, sources, n - 1, source, a);
        let before = reached_from(targets, sources, n - 1, source);
        if before.contains(a) {
            let k = before.index_of(a);
            assert(now[k] == a);
        }
        if now.contains(a) {
            let k = now.index_of(a);
            if k < before.len() {
                assert(before[k] == a);
            } else {
                assert(targets[n - 1] == a);
            }
        }
        if targets[n - 1] == a && sources[n - 1] == source {
            assert(now[now.len() - 1] == a);
        }
    } else {
        assert(now.len() == 0);
    }
}

/// A host of the segment is down if and only if the batch went well, it did not reply and
/// it is not this machine; a batch that failed decides against no host. The method tells
/// why.
pub proof fn only_silent_neighbors_are_down(
    replied: Option<Seq<Ipv4Addr>>,
    own: Seq<Ipv4Addr>,
    member: Ipv4Addr,
)
    ensures
        arp_verdict(replied, own, member).0 == HostStatus::Down <==> (replied matches Some(r)
            && !r.contains(member) && !own.contains(member)),
        arp_verdict(replied, own, member).0 != HostStatus::Unknown,
        replied is None ==> arp_verdict(replied, own, member).1 == "arp-error"@,
        replied matches Some(r) ==> {
            let method = arp_verdict(replied, own, member).1;
            &&& r.contains(member) ==> method == "arp-response"@
            &&& !r.contains(member) && own.contains(member) ==> method == "local-address"@
            &&& !r.contains(member) && !own.contains(member) ==> method == "no-arp-response"@
        },
{
}

/// As many hosts are counted as have the verdict.
pub proof fn verdicts_are_counted(
    replied: Option<Seq<Ipv4Addr>>,
    own: Seq<Ipv4Addr>,
    members: Seq<Ipv4Addr>,
    n: int,
    status: HostStatus,
)
    requires
        0 <= n <= members.len(),
    ensures
        verdict_count(replied, own, members, n, status) == members.take(n).filter(
            |m: Ipv4Addr| arp_verdict(replied, own, m).0 == status,
        ).len(),
        verdict_count(replied, own, members, n, HostStatus::Up) + verdict_count(
            replied,
            own,
            members,
            n,
            HostStatus::Down,
        ) == n,
    decreases n,
{
    reveal(Seq::filter);
    if n > 0 {
        verdicts_are_counted(replied, own, members, n - 1, status);
        assert(members.take(n).drop_last() =~= members.take(n - 1));
    } else {
        assert(members.take(n) =~= Seq::empty());
    }
}

/// A pinged host is down if and only if the ping found it down; one whose state the ping
/// could not find out counts as up, as a fallback.
pub proof fn pings_decide(verdict: Result<discovery::HostState, ScanError>)
    ensures
        ping_mark(verdict).0 == HostStatus::Down <==> (verdict matches Ok(s) && s is Down),
        ping_mark(verdict).0 != HostStatus::Unknown,
        (verdict matches Ok(s) && !(s is Unknown)) ==> ping_mark(verdict).1 == "icmp/tcp-ping"@,
        (verdict is Err || (verdict matches Ok(s) && s is Unknown)) ==> ping_mark(verdict) == (
            HostStatus::Up,
            "fallback"@,
        ),
{
}

/// What an ARP batch, a ping and the user say of a host is what is known of it afterwards,
/// and of no other host anything changes.
pub proof fn verdicts_are_kept(
    replied: Option<Seq<Ipv4Addr>>,
    own: Seq<Ipv4Addr>,
    members: Seq<Ipv4Addr>,
    before: ScanState,
    after: ScanState,
    a: Ipv4Addr,
)
    requires
        verdicts_applied(replied, own, members, members.len() as int, before, after),
    ensures
        members.contains(a) && replied is Some && !replied.unwrap().contains(a) && !own.contains(a)
            ==> after.status_of(IpAddr::V4(a)) == HostStatus::Down,
        members.contains(a) && (replied is None || replied.unwrap().contains(a) || own.contains(a))
            ==> after.status_of(IpAddr::V4(a)) == HostStatus::Up,
        !members.contains(a) ==> after.status_of(IpAddr::V4(a)) == before.status_of(IpAddr::V4(a)),
{
    let ip = IpAddr::V4(a);
    assert(members.take(members.len() as int) =~= members);
    only_silent_neighbors_are_down(replied, own, a);
    if members.contains(a) {
        let i = members.index_of(a);
        assert(members[i] == a);
    } else {
        assert(after.hosts().contains_key(ip) <==> before.hosts().contains_key(ip));
    }
}

/// After a ping the pinged host has the status that the ping showed, and every other host
/// the status that it had.
pub proof fn pings_are_kept(
    before: ScanState,
    after: ScanState,
    ip: IpAddr,
    verdict: Result<discovery::HostState, ScanError>,
    other: IpAddr,
)
    requires
        ping_applied(before, after, ip, verdict),
    ensures
        verdict matches Ok(s) ==> (after.status_of(ip) == HostStatus::Down <==> s is Down),
        verdict is Err ==> after.status_of(ip) == HostStatus::Up,
        after.status_of(ip) != HostStatus::Unknown,
        other != ip ==> after.status_of(other) == before.status_of(other),
{
    pings_decide(verdict);
}

/// Targets that are taken for up unseen are up, and nothing else changes.
pub proof fn user_set_targets_are_up(
    targets: Seq<Target>,
    before: ScanState,
    after: ScanState,
    ip: IpAddr,
)
    requires
        user_set(targets, targets.len() as int, before, after),
    ensures
        (exists|i: int| 0 <= i < targets.len() && (#[trigger] targets[i]).ip == ip)
            ==> after.status_of(ip) == HostStatus::Up,
        !(exists|i: int| 0 <= i < targets.len() && (#[trigger] targets[i]).ip == ip)
            ==> after.status_of(ip) == before.status_of(ip),
{
    if targeted(targets, targets.len() as int, ip) {
    } else {
        assert(after.hosts().contains_key(ip) <==> before.hosts().contains_key(ip));
    }
}

/// Targets that are no hosts are known to be down, and nothing else is learned of any
/// host.
pub proof fn only_targets_that_are_no_hosts_are_marked(
    targets: Seq<Target>,
    before: ScanState,
    after: ScanState,
    i: int,
    ip: IpAddr,
)
    requires
        no_hosts_marked(targets, targets.len() as int, before, after),
        0 <= i < targets.len(),
    ensures
        (targets[i].ip matches IpAddr::V4(a) && is_no_host(a)) ==> after.hosts().contains_key(
            targets[i].ip,
        ) && after.hosts()[targets[i].ip].status == HostStatus::Down,
        (forall|k: int| 0 <= k < targets.len() ==> (#[trigger] targets[k]).ip != ip) ==> (
        after.hosts().contains_key(ip) <==> before.hosts().contains_key(ip)) && (
        before.hosts().contains_key(ip) ==> after.hosts()[ip] == before.hosts()[ip]),
        !(ip matches IpAddr::V4(a) && is_no_host(a)) ==> (after.hosts().contains_key(ip)
            <==> before.hosts().contains_key(ip)) && (before.hosts().contains_key(ip)
            ==> after.hosts()[ip] == before.hosts()[ip]),
{
    match targets[i].ip {
        IpAddr::V4(a) => {
            assert(targeted(targets, targets.len() as int, IpAddr::V4(a)));
        },
        IpAddr::V6(_) => {},
    }
}

} // verus!
