//! Finding out of all targets which are up.
//!
//! A sweep knows which batch of ARP requests, or which ping, is next; sending is done
//! by its user, who hands the outcomes in.
use crate::addr::{IpAddr, Ipv4Addr};
use crate::discovery;
use crate::discovery::ScanError;
use crate::hosts;
use crate::hosts::{
    apply_arp_batch, apply_ping, group_by_source, mark_user_set, ArpGroup, SortedTargets,
};
use crate::models::{HostStatus, Target};
use crate::state;
use crate::state::{ScanState, ScanStats};
use vstd::prelude::*;

verus! {

/// What is to be done next in a sweep.
#[derive(Clone, Copy, Debug, PartialEq, Eq, Structural)]
pub enum HostAction {
    /// Send ARP requests to the group at this place.
    ArpBatch { group: usize },
    /// Ping the target at this place.
    Ping { target: usize },
    /// Nothing: the sweep has ended.
    Done,
}

/// A sweep over targets, with what is known of the hosts.
#[derive(Debug)]
pub struct HostSweep {
    pub state: ScanState,
    /// The batches of ARP requests.
    pub groups: Vec<ArpGroup>,
    pub group: usize,
    /// The targets to ping.
    pub pings: Vec<Target>,
    pub ping: usize,
    /// Whether the hosts of a batch count as done.
    pub completes: bool,
}

/// It has been found out whether the host is up.
pub open spec fn decided(state: ScanState, ip: IpAddr) -> bool {
    state.status_of(ip) != HostStatus::Unknown
}

/// The address belongs to one of the groups.
pub open spec fn in_group(groups: Seq<ArpGroup>, a: Ipv4Addr) -> bool {
    exists|g: int| 0 <= g < groups.len() && (#[trigger] groups[g]).members@.contains(a)
}

/// What was decided stays so.
pub open spec fn keeps_decided(before: ScanState, after: ScanState) -> bool {
    forall|ip: IpAddr| decided(before, ip) ==> #[trigger] decided(after, ip)
}

impl HostSweep {
    /// All members of the groups before, and all targets that were pinged before, are
    /// decided.
    pub open spec fn wf(&self) -> bool {
        &&& self.state.wf()
        &&& self.group <= self.groups@.len()
        &&& self.ping <= self.pings@.len()
        &&& forall|g: int, a: Ipv4Addr|
            0 <= g < self.group && #[trigger] self.groups@[g].members@.contains(a) ==> decided(
                self.state,
                IpAddr::V4(a),
            )
        &&& forall|p: int|
            0 <= p < self.ping ==> decided(self.state, (#[trigger] self.pings@[p]).ip)
    }

    /// What is to be done next: first the batches, then the pings.
    pub open spec fn next_action(&self) -> HostAction {
        if self.group < self.groups@.len() {
            HostAction::ArpBatch { group: self.group }
        } else if self.ping < self.pings@.len() {
            HostAction::Ping { target: self.ping }
        } else {
            HostAction::Done
        }
    }

    /// The same targets are looked for.
    pub open spec fn same_sweep(&self, other: &Self) -> bool {
        self.groups == other.groups && self.pings == other.pings && self.completes
            == other.completes
    }

    fn begin(
        state: ScanState,
        direct: &Vec<Ipv4Addr>,
        sources: &Vec<Ipv4Addr>,
        pings: Vec<Target>,
        completes: bool,
    ) -> (r: Self)
        requires
            state.wf(),
            sources@.len() == direct@.len(),
        ensures
            r.wf(),
            r.state == state,
            r.group == 0,
            r.ping == 0,
            r.pings == pings,
            r.completes == completes,
            hosts::grouped(direct@, sources@, direct@.len() as int, r.groups@),
            forall|i: int| 0 <= i < direct@.len() ==> in_group(r.groups@, #[trigger] direct@[i]),
    {
        let groups = group_by_source(direct, sources);
        proof {
            assert forall|i: int| 0 <= i < direct@.len() implies in_group(
                groups@,
                #[trigger] direct@[i],
            ) by {
                assert(hosts::has_group(groups@, sources@[i]));
                let g = choose|g: int|
                    0 <= g < groups@.len() && (#[trigger] groups@[g]).source == sources@[i];
                lemma_reached(direct@, sources@, direct@.len() as int, i);
                assert(groups@[g].members@.contains(direct@[i]));
            }
        }
        HostSweep { state, groups, group: 0, pings, ping: 0, completes }
    }

    /// Begins host discovery: targets on the local segment are looked for by ARP from
    /// the addresses that `sources` gives, the others by ping, those with an IPv6
    /// address last.
    #[must_use]
    pub fn discovery(state: ScanState, sorted: SortedTargets, sources: &Vec<Ipv4Addr>) -> (r: Self)
        requires
            state.wf(),
            sources@.len() == sorted.direct@.len(),
        ensures
            r.wf(),
            r.state == state,
            r.group == 0,
            r.ping == 0,
            r.pings@ == sorted.remote@ + sorted.ipv6@,
            r.completes,
            hosts::grouped(sorted.direct@, sources@, sorted.direct@.len() as int, r.groups@),
            forall|i: int|
                0 <= i < sorted.direct@.len() ==> in_group(r.groups@, #[trigger] sorted.direct@[i]),
    {
        let mut pings = sorted.remote;
        let mut rest = sorted.ipv6;
        pings.append(&mut rest);
        Self::begin(state, &sorted.direct, sources, pings, true)
    }

    /// Begins a quick look by ARP at the targets on the local segment, for a scan that
    /// takes all hosts for up: those behind a router are marked so at once, and nothing
    /// is said of those with an IPv6 address.
    #[must_use]
    pub fn prefilter(state: ScanState, sorted: SortedTargets, sources: &Vec<Ipv4Addr>) -> (r: Self)
        requires
            state.wf(),
            sources@.len() == sorted.direct@.len(),
        ensures
            r.wf(),
            r.group == 0,
            r.pings@.len() == 0,
            !r.completes,
            hosts::grouped(sorted.direct@, sources@, sorted.direct@.len() as int, r.groups@),
            forall|i: int|
                0 <= i < sorted.direct@.len() ==> in_group(r.groups@, #[trigger] sorted.direct@[i]),
            r.state.ports() == state.ports(),
            r.state.progressed() == state.progressed(),
            hosts::user_set(sorted.remote@, sorted.remote@.len() as int, state, r.state),
            keeps_decided(state, r.state),
    {
        let mut state = state;
        let ghost before = state;
        mark_user_set(&mut state, &sorted.remote);
        proof {
            assert forall|ip: IpAddr| decided(before, ip) implies #[trigger] decided(state, ip) by {
                if hosts::targeted(sorted.remote@, sorted.remote@.len() as int, ip) {
                    assert(state.hosts()[ip].is(HostStatus::Up, "user-set"@));
                } else {
                    assert(state.hosts().contains_key(ip) <==> before.hosts().contains_key(ip));
                }
            }
        }
        Self::begin(state, &sorted.direct, sources, Vec::new(), false)
    }

    /// Tells what is to be done next.
    #[must_use]
    pub fn next(&self) -> (r: HostAction)
        ensures
            r == self.next_action(),
    {
        if self.group < self.groups.len() {
            HostAction::ArpBatch { group: self.group }
        } else if self.ping < self.pings.len() {
            HostAction::Ping { target: self.ping }
        } else {
            HostAction::Done
        }
    }

    /// Takes in what a batch of ARP requests brought: the addresses that replied, or
    /// nothing if the batch failed. `own` holds the addresses of this machine. The
    /// result is how many members are up and how many are down.
    pub fn arp_done(
        &mut self,
        replied: &Option<Vec<Ipv4Addr>>,
        own: &Vec<Ipv4Addr>,
        stats: &mut ScanStats,
    ) -> (r: (usize, usize))
        requires
            old(self).wf(),
            old(self).next_action() is ArpBatch,
        ensures
            final(self).wf(),
            final(self).same_sweep(old(self)),
            final(self).group == old(self).group + 1,
            final(self).ping == old(self).ping,
            final(self).state.ports() == old(self).state.ports(),
            final(self).state.progressed() == old(self).state.progressed(),
            keeps_decided(old(self).state, final(self).state),
            ({
                let members = old(self).groups@[old(self).group as int].members@;
                let said = hosts::replies(*replied);
                let n = members.len() as int;
                &&& hosts::verdicts_applied(
                    said,
                    own@,
                    members,
                    n,
                    old(self).state,
                    final(self).state,
                )
                &&& r.0 == hosts::verdict_count(said, own@, members, n, HostStatus::Up)
                &&& r.1 == hosts::verdict_count(said, own@, members, n, HostStatus::Down)
                &&& *final(stats) == if old(self).completes {
                    old(stats).completed(n)
                } else {
                    *old(stats)
                }
            }),
    {
        let ghost before = *self;
        let ghost counted = *stats;
        let r = apply_arp_batch(&mut self.state, &self.groups[self.group].members, replied, own);
        let n: usize = self.groups[self.group].members.len();
        if self.completes {
            let mut i: usize = 0;
            while i < n
                invariant
                    i <= n,
                    *stats == counted.completed(i as int),
                decreases n - i,
            {
                proof {
                    state::completed_twice(counted, i as int, 1);
                }
                stats.mark_host_complete();
                i += 1;
            }
        }
        let count: usize = self.groups.len();
        assert(self.group < count);
        self.group = self.group + 1;
        proof {
            let members = before.groups@[before.group as int].members@;
            let said = hosts::replies(*replied);
            assert(members.take(members.len() as int) =~= members);
            assert forall|ip: IpAddr| decided(before.state, ip) implies #[trigger] decided(
                self.state,
                ip,
            ) by {
                lemma_batch_decides(said, own@, members, before.state, self.state, ip);
            }
            assert forall|g: int, a: Ipv4Addr|
                0 <= g < self.group && #[trigger] self.groups@[g].members@.contains(
                    a,
                ) implies decided(self.state, IpAddr::V4(a)) by {
                if g < before.group {
                    assert(decided(before.state, IpAddr::V4(a)));
                } else {
                    lemma_batch_decides(
                        said,
                        own@,
                        members,
                        before.state,
                        self.state,
                        IpAddr::V4(a),
                    );
                }
            }
        }
        r
    }

    /// Takes in what pinging a target brought.
    pub fn pinged(&mut self, verdict: &Result<discovery::HostState, ScanError>, stats: &mut ScanStats)
        requires
            old(self).wf(),
            old(self).next_action() is Ping,
        ensures
            final(self).wf(),
            final(self).same_sweep(old(self)),
            final(self).group == old(self).group,
            final(self).ping == old(self).ping + 1,
            final(self).state.ports() == old(self).state.ports(),
            final(self).state.progressed() == old(self).state.progressed(),
            keeps_decided(old(self).state, final(self).state),
            hosts::ping_applied(
                old(self).state,
                final(self).state,
                old(self).pings@[old(self).ping as int].ip,
                *verdict,
            ),
            *final(stats) == old(stats).completed(1),
    {
        let ghost before = *self;
        let ip = self.pings[self.ping].ip;
        apply_ping(&mut self.state, stats, ip, verdict);
        let count: usize = self.pings.len();
        assert(self.ping < count);
        self.ping = self.ping + 1;
        proof {
            assert forall|other: IpAddr| decided(before.state, other) || other
                == ip implies #[trigger] decided(self.state, other) by {}
        }
    }

    /// What is known of the hosts after a sweep that has ended: all members of groups
    /// and all targets that were to be pinged are decided.
    #[must_use]
    pub fn finish(self) -> (r: ScanState)
        requires
            self.wf(),
            self.next_action() is Done,
        ensures
            r == self.state,
            r.wf(),
            forall|a: Ipv4Addr| #[trigger]
                in_group(self.groups@, a) ==> decided(r, IpAddr::V4(a)),
            forall|p: int|
                0 <= p < self.pings@.len() ==> decided(r, (#[trigger] self.pings@[p]).ip),
    {
        self.state
    }
}

proof fn lemma_reached(targets: Seq<Ipv4Addr>, sources: Seq<Ipv4Addr>, n: int, i: int)
    requires
        0 <= i < n <= targets.len(),
        sources.len() == targets.len(),
    ensures
        hosts::reached_from(targets, sources, n, sources[i]).contains(targets[i]),
    decreases n,
{
    let all = hosts::reached_from(targets, sources, n, sources[i]);
    let before = hosts::reached_from(targets, sources, n - 1, sources[i]);
    if i == n - 1 {
        assert(all[before.len() as int] == targets[i]);
    } else {
        lemma_reached(targets, sources, n - 1, i);
        let k = before.index_of(targets[i]);
        assert(all[k] == targets[i]);
    }
}

proof fn lemma_batch_decides(
    said: Option<Seq<Ipv4Addr>>,
    own: Seq<Ipv4Addr>,
    members: Seq<Ipv4Addr>,
    before: ScanState,
    after: ScanState,
    ip: IpAddr,
)
    requires
        hosts::verdicts_applied(said, own, members, members.len() as int, before, after),
        decided(before, ip) || (ip matches IpAddr::V4(a) && members.contains(a)),
    ensures
        decided(after, ip),
{
    assert(members.take(members.len() as int) =~= members);
    match ip {
        IpAddr::V4(a) => {
            if members.contains(a) {
                let i = members.index_of(a);
                assert(members[i] == a);
            } else {
                assert(after.hosts().contains_key(ip) <==> before.hosts().contains_key(ip));
            }
        },
        IpAddr::V6(_) => {
            assert(after.hosts().contains_key(ip) <==> before.hosts().contains_key(ip));
        },
    }
}

/// Host discovery leaves no target undecided: once every address that is no host has
/// been marked, and all parts of the sorted targets are decided, every target is.
pub proof fn discovery_decides_every_target(
    targets: Seq<Target>,
    direct: Seq<bool>,
    start: ScanState,
    marked: ScanState,
    end: ScanState,
    i: int,
)
    requires
        direct.len() == targets.len(),
        0 <= i < targets.len(),
        hosts::no_hosts_marked(targets, targets.len() as int, start, marked),
        keeps_decided(marked, end),
        forall|a: Ipv4Addr|
            hosts::direct_targets(targets, direct, targets.len() as int).contains(a)
                ==> #[trigger] decided(end, IpAddr::V4(a)),
        forall|t: Target| #[trigger]
            (hosts::remote_targets(targets, direct, targets.len() as int)
                + hosts::ipv6_targets(targets, targets.len() as int)).contains(t) ==> decided(
                end,
                t.ip,
            ),
    ensures
        decided(end, targets[i].ip),
{
    let n = targets.len() as int;
    let ip = targets[i].ip;
    let remote = hosts::remote_targets(targets, direct, n);
    let ipv6 = hosts::ipv6_targets(targets, n);
    lemma_sorted(targets, direct, n, i);
    match ip {
        IpAddr::V4(a) => {
            if hosts::is_no_host(a) {
                assert(targets[i].ip == ip);
                assert(hosts::targeted(targets, n, ip));
                assert(decided(marked, ip));
            } else if direct[i] {
                assert(decided(end, IpAddr::V4(a)));
            } else {
                let k = remote.index_of(targets[i]);
                assert((remote + ipv6)[k] == targets[i]);
                assert((remote + ipv6).contains(targets[i]));
            }
        },
        IpAddr::V6(_) => {
            let k = ipv6.index_of(targets[i]);
            assert((remote + ipv6)[remote.len() + k] == targets[i]);
            assert((remote + ipv6).contains(targets[i]));
        },
    }
}

/// A target is in the part that it belongs to.
proof fn lemma_sorted(targets: Seq<Target>, direct: Seq<bool>, n: int, i: int)
    requires
        direct.len() == targets.len(),
        0 <= i < n <= targets.len(),
    ensures
        match targets[i].ip {
            IpAddr::V4(a) => hosts::is_no_host(a) || if direct[i] {
                hosts::direct_targets(targets, direct, n).contains(a)
            } else {
                hosts::remote_targets(targets, direct, n).contains(targets[i])
            },
            IpAddr::V6(_) => hosts::ipv6_targets(targets, n).contains(targets[i]),
        },
    decreases n,
{
    let d = hosts::direct_targets(targets, direct, n);
    let r = hosts::remote_targets(targets, direct, n);
    let s = hosts::ipv6_targets(targets, n);
    let d0 = hosts::direct_targets(targets, direct, n - 1);
    let r0 = hosts::remote_targets(targets, direct, n - 1);
    let s0 = hosts::ipv6_targets(targets, n - 1);
    if i == n - 1 {
        match targets[i].ip {
            IpAddr::V4(a) => {
                if !hosts::is_no_host(a) {
                    if direct[i] {
                        assert(d[d0.len() as int] == a);
                    } else {
                        assert(r[r0.len() as int] == targets[i]);
                    }
                }
            },
            IpAddr::V6(_) => {
                assert(s[s0.len() as int] == targets[i]);
            },
        }
    } else {
        lemma_sorted(targets, direct, n - 1, i);
        match targets[i].ip {
            IpAddr::V4(a) => {
                if !hosts::is_no_host(a) {
                    if direct[i] {
                        assert(d[d0.index_of(a)] == a);
                    } else {
                        assert(r[r0.index_of(targets[i])] == targets[i]);
                    }
                }
            },
            IpAddr::V6(_) => {
                assert(s[s0.index_of(targets[i])] == targets[i]);
            },
        }
    }
}

/// A host is decided if it is known to be up or down.
pub proof fn decided_hosts_are_up_or_down(state: ScanState, ip: IpAddr)
    ensures
        decided(state, ip) <==> state.status_of(ip) == HostStatus::Up || state.status_of(ip)
            == HostStatus::Down,
{
}

/// A sweep asks every group before it pings any target, and ends when nothing is left.
pub proof fn a_sweep_leaves_nothing_out(s: HostSweep)
    ensures
        s.next_action() is ArpBatch <==> s.group < s.groups@.len(),
        s.next_action() is Ping <==> s.group >= s.groups@.len() && s.ping < s.pings@.len(),
        s.next_action() is Done <==> s.group >= s.groups@.len() && s.ping >= s.pings@.len(),
        s.next_action() matches HostAction::ArpBatch { group } ==> group == s.group,
        s.next_action() matches HostAction::Ping { target } ==> target == s.ping,
{
}

/// An address belongs to the groups where it belongs to the last or to those before.
pub proof fn addresses_belong_to_their_groups(groups: Seq<ArpGroup>, last: ArpGroup, a: Ipv4Addr)
    ensures
        !in_group(Seq::empty(), a),
        in_group(groups.push(last), a) <==> last.members@.contains(a) || in_group(groups, a),
{
    let now = groups.push(last);
    assert(now[groups.len() as int] == last);
    if in_group(groups, a) {
        let g = choose|g: int|
            0 <= g < groups.len() && (#[trigger] groups[g]).members@.contains(a);
        assert(now[g].members@.contains(a));
    }
    if in_group(now, a) && !last.members@.contains(a) {
        let g = choose|g: int| 0 <= g < now.len() && (#[trigger] now[g]).members@.contains(a);
        assert(groups[g].members@.contains(a));
    }
}

} // verus!
