//! Decisions about interfaces, routes and hardware addresses.
use crate::addr::{Ipv4Addr, MacAddr};
use std::collections::HashMap;
use vstd::prelude::*;

verus! {

/// An entry of the system's list of interfaces.
#[derive(Debug)]
pub struct InterfaceEntry {
    /// The name, if it is text.
    pub name: Option<String>,
    /// The IPv4 address, if the entry has one.
    pub addr: Option<Ipv4Addr>,
    /// The netmask, if the entry has one.
    pub netmask: Option<Ipv4Addr>,
}

/// The entry has this address and a name.
pub open spec fn names_addr(e: InterfaceEntry, addr: Ipv4Addr) -> bool {
    e.addr == Some(addr) && e.name is Some
}

/// Finds the name of the interface that has the given local IPv4 address: that of
/// the first entry with this address whose name is text.
#[must_use]
pub fn get_interface_name_for_addr(entries: &Vec<InterfaceEntry>, local_addr: Ipv4Addr) -> (r:
    Option<&String>)
    ensures
        match r {
            Some(n) => exists|i: int|
                #![trigger entries@[i]]
                0 <= i < entries@.len() && names_addr(entries@[i], local_addr)
                    && entries@[i].name == Some(*n) && forall|j: int|
                    0 <= j < i ==> !names_addr(#[trigger] entries@[j], local_addr),
            None => forall|j: int|
                0 <= j < entries@.len() ==> !names_addr(#[trigger] entries@[j], local_addr),
        },
{
    let mut i: usize = 0;
    while i < entries.len()
        invariant
            i <= entries.len(),
            forall|j: int| 0 <= j < i ==> !names_addr(#[trigger] entries@[j], local_addr),
        decreases entries.len() - i,
    {
        let here = match entries[i].addr {
            Some(a) => a == local_addr,
            None => false,
        };
        if here {
            if let Some(name) = &entries[i].name {
                assert(names_addr(entries@[i as int], local_addr));
                return Some(name);
            }
        }
        i += 1;
    }
    None
}

/// The entry is the interface of `src`, and `target` is in its network.
pub open spec fn reaches(e: InterfaceEntry, src: Ipv4Addr, target: Ipv4Addr) -> bool {
    e.addr == Some(src) && (e.netmask matches Some(m) && src.number() & m.number()
        == target.number() & m.number())
}

/// Checks if two addresses are on the same subnet, going by the interfaces.
#[must_use]
pub fn is_on_same_subnet(
    entries: &Vec<InterfaceEntry>,
    src_ip: Ipv4Addr,
    target_ip: Ipv4Addr,
) -> (r: bool)
    ensures
        r == exists|i: int|
            0 <= i < entries@.len() && reaches(#[trigger] entries@[i], src_ip, target_ip),
{
    let mut i: usize = 0;
    while i < entries.len()
        invariant
            i <= entries.len(),
            forall|j: int| 0 <= j < i ==> !reaches(#[trigger] entries@[j], src_ip, target_ip),
        decreases entries.len() - i,
    {
        if let Some(addr) = entries[i].addr {
            if let Some(mask) = entries[i].netmask {
                let src: u32 = src_ip.to_bits();
                let target: u32 = target_ip.to_bits();
                let netmask: u32 = mask.to_bits();
                if addr == src_ip && (src & netmask) == (target & netmask) {
                    assert(reaches(entries@[i as int], src_ip, target_ip));
                    return true;
                }
            }
        }
        i += 1;
    }
    false
}

/// Checks if a target is on the local segment. `src_ip` is the address from which
/// the system would reach it, if that could be found out.
#[must_use]
pub fn is_directly_connected(
    target_ip: Ipv4Addr,
    src_ip: Option<Ipv4Addr>,
    entries: &Vec<InterfaceEntry>,
) -> (r: bool)
    ensures
        r == (target_ip.a == 127 || match src_ip {
            Some(src) => exists|i: int|
                0 <= i < entries@.len() && reaches(#[trigger] entries@[i], src, target_ip),
            None => false,
        }),
{
    if target_ip.is_loopback() {
        return true;
    }
    match src_ip {
        Some(src) => is_on_same_subnet(entries, src, target_ip),
        None => false,
    }
}

/// The local IPv4 addresses: those of all entries, each once.
#[must_use]
pub fn detect_local_ipv4_addresses(entries: &Vec<InterfaceEntry>) -> (r: Vec<Ipv4Addr>)
    ensures
        r@.no_duplicates(),
        forall|a: Ipv4Addr| #[trigger]
            r@.contains(a) <==> exists|i: int|
                0 <= i < entries@.len() && (#[trigger] entries@[i]).addr == Some(a),
{
    let mut found: Vec<Ipv4Addr> = Vec::new();
    let mut i: usize = 0;
    while i < entries.len()
        invariant
            i <= entries.len(),
            found@.no_duplicates(),
            forall|a: Ipv4Addr| #[trigger]
                found@.contains(a) <==> exists|j: int|
                    0 <= j < i && (#[trigger] entries@[j]).addr == Some(a),
        decreases entries.len() - i,
    {
        let ghost before = found@;
        if let Some(addr) = entries[i].addr {
            if !has_addr(&found, addr) {
                found.push(addr);
                proof {
                    assert(found@[before.len() as int] == addr);
                    assert forall|a: Ipv4Addr| #[trigger] found@.contains(a) <==> before.contains(a)
                        || a == addr by {
                        if before.contains(a) {
                            let k = before.index_of(a);
                            assert(found@[k] == a);
                        }
                    }
                }
            }
        }
        proof {
            assert forall|a: Ipv4Addr| #[trigger] found@.contains(a) <==> exists|j: int|
                0 <= j < i + 1 && (#[trigger] entries@[j]).addr == Some(a) by {
                if found@.contains(a) {
                    if before.contains(a) {
                        let j = choose|j: int|
                            0 <= j < i && (#[trigger] entries@[j]).addr == Some(a);
                        assert(entries@[j].addr == Some(a));
                    } else {
                        assert(entries@[i as int].addr == Some(a));
                    }
                }
                if exists|j: int| 0 <= j < i + 1 && (#[trigger] entries@[j]).addr == Some(a) {
                    let j = choose|j: int|
                        0 <= j < i + 1 && (#[trigger] entries@[j]).addr == Some(a);
                    if j < i {
                        assert(before.contains(a));
                    }
                }
            }
        }
        i += 1;
    }
    found
}

/// Tells whether an address is in a list.
pub fn has_addr(addrs: &Vec<Ipv4Addr>, addr: Ipv4Addr) -> (r: bool)
    ensures
        r == addrs@.contains(addr),
{
    let mut i: usize = 0;
    while i < addrs.len()
        invariant
            i <= addrs.len(),
            forall|j: int| 0 <= j < i ==> addrs@[j] != addr,
        decreases addrs.len() - i,
    {
        if addrs[i] == addr {
            assert(addrs@[i as int] == addr);
            return true;
        }
        i += 1;
    }
    false
}

/// The hardware address that the kernel filled in, if the request succeeded.
#[must_use]
pub fn get_interface_mac(ret: i32, sa_data: [i8; 14]) -> (r: Option<MacAddr>)
    ensures
        match r {
            Some(m) => ret >= 0 && m.octets() == Seq::new(6, |i: int| sa_data@[i] as u8),
            None => ret < 0,
        },
{
    if ret < 0 {
        return None;
    }
    Some(mac_of(sa_data))
}

/// The flag of a complete entry in the kernel's ARP table.
pub const ATF_COM: i32 = 0x02;

/// The hardware address from the kernel's ARP table, if the request succeeded and
/// the entry is complete.
#[must_use]
pub fn get_mac_from_system_arp_cache(ret: i32, arp_flags: i32, sa_data: [i8; 14]) -> (r: Option<
    MacAddr,
>)
    ensures
        match r {
            Some(m) => ret >= 0 && arp_flags & 0x02 != 0 && m.octets() == Seq::new(
                6,
                |i: int| sa_data@[i] as u8,
            ),
            None => ret < 0 || arp_flags & 0x02 == 0,
        },
{
    if ret < 0 {
        return None;
    }
    if (arp_flags & ATF_COM) == 0 {
        return None;
    }
    Some(mac_of(sa_data))
}

fn mac_of(sa_data: [i8; 14]) -> (m: MacAddr)
    ensures
        m.octets() == Seq::new(6, |i: int| sa_data@[i] as u8),
{
    let m = MacAddr {
        b0: #[verifier::truncate]
        (sa_data[0] as u8),
        b1: #[verifier::truncate]
        (sa_data[1] as u8),
        b2: #[verifier::truncate]
        (sa_data[2] as u8),
        b3: #[verifier::truncate]
        (sa_data[3] as u8),
        b4: #[verifier::truncate]
        (sa_data[4] as u8),
        b5: #[verifier::truncate]
        (sa_data[5] as u8),
    };
    assert(m.octets() =~= Seq::new(6, |i: int| sa_data@[i] as u8));
    m
}

/// What an ARP reply says: the sender's hardware address, if it is the target that
/// replied.
#[must_use]
pub fn get_mac_address_via_arp(target_ip: Ipv4Addr, reply: Option<(MacAddr, Ipv4Addr)>) -> (r:
    Option<MacAddr>)
    ensures
        r == match reply {
            Some((mac, sender)) => if sender == target_ip {
                Some(mac)
            } else {
                None
            },
            None => None,
        },
{
    match reply {
        Some((mac, sender)) => if sender == target_ip {
            Some(mac)
        } else {
            None
        },
        None => None,
    }
}

/// The hardware addresses that have been found, by the number of the IPv4 address.
#[derive(Debug)]
pub struct MacCache {
    known: HashMap<u32, MacAddr>,
}

impl View for MacCache {
    type V = Map<u32, MacAddr>;

    closed spec fn view(&self) -> Map<u32, MacAddr> {
        self.known@
    }
}

impl MacCache {
    /// Creates an empty cache.
    #[must_use]
    pub fn new() -> (r: Self)
        ensures
            r@ == Map::<u32, MacAddr>::empty(),
    {
        MacCache { known: HashMap::new() }
    }

    /// Retrieves a cached MAC address for the given IP.
    #[must_use]
    pub fn get(&self, ip: Ipv4Addr) -> (r: Option<MacAddr>)
        ensures
            r == if self@.contains_key(ip.number()) {
                Some(self@[ip.number()])
            } else {
                None
            },
    {
        broadcast use vstd::std_specs::hash::group_hash_axioms;

        match self.known.get(&ip.to_bits()) {
            Some(m) => Some(*m),
            None => None,
        }
    }

    /// Stores a MAC address in the cache for the given IP.
    pub fn set(&mut self, ip: Ipv4Addr, mac: MacAddr)
        ensures
            final(self)@ == old(self)@.insert(ip.number(), mac),
    {
        broadcast use vstd::std_specs::hash::group_hash_axioms;

        self.known.insert(ip.to_bits(), mac);
    }
}

/// What is stored for an address is found for it, and nothing else changes.
pub proof fn cache_returns_what_was_stored(
    cache: Map<u32, MacAddr>,
    ip: Ipv4Addr,
    mac: MacAddr,
    other: Ipv4Addr,
)
    ensures
        cache.insert(ip.number(), mac)[ip.number()] == mac,
        other != ip ==> cache.insert(ip.number(), mac).contains_key(other.number())
            == cache.contains_key(other.number()) && cache.insert(ip.number(), mac)[other.number()]
            == cache[other.number()],
{
}

/// The next place to look for a hardware address.
#[derive(Clone, Copy, Debug, PartialEq, Eq, Structural)]
pub enum MacStep {
    /// Ask the kernel's ARP table.
    AskKernel,
    /// Send an ARP request.
    AskTarget,
    /// The search has ended.
    Done(Option<MacAddr>),
}

/// Begins the search for the hardware address of a target: there is none for a
/// target that is not on the local segment, and the cache is asked first.
#[must_use]
pub fn resolve_mac_begin(cache: &MacCache, target_ip: Ipv4Addr, direct: bool) -> (r: MacStep)
    ensures
        r == if !direct {
            MacStep::Done(None)
        } else if cache@.contains_key(target_ip.number()) {
            MacStep::Done(Some(cache@[target_ip.number()]))
        } else {
            MacStep::AskKernel
        },
{
    if !direct {
        return MacStep::Done(None);
    }
    match cache.get(target_ip) {
        Some(mac) => MacStep::Done(Some(mac)),
        None => MacStep::AskKernel,
    }
}

/// Goes on with the search after `step`, which brought this answer. What was found
/// is stored. After the kernel's table comes the request, and after that nothing.
#[must_use]
pub fn resolve_mac_next(
    cache: &mut MacCache,
    target_ip: Ipv4Addr,
    step: MacStep,
    answer: Option<MacAddr>,
) -> (r: MacStep)
    ensures
        match step {
            MacStep::Done(_) => r == step && final(cache)@ == old(cache)@,
            _ => match answer {
                Some(mac) => r == MacStep::Done(Some(mac)) && final(cache)@ == old(cache)@.insert(
                    target_ip.number(),
                    mac,
                ),
                None => final(cache)@ == old(cache)@ && r == if step == MacStep::AskKernel {
                    MacStep::AskTarget
                } else {
                    MacStep::Done(None)
                },
            },
        },
{
    match step {
        MacStep::Done(_) => step,
        _ => match answer {
            Some(mac) => {
                cache.set(target_ip, mac);
                MacStep::Done(Some(mac))
            },
            None => match step {
                MacStep::AskKernel => MacStep::AskTarget,
                _ => MacStep::Done(None),
            },
        },
    }
}

/// The address to send from: the one that the system would use, or the loopback
/// address if that could not be found out.
#[must_use]
pub fn source_address(found: Option<Ipv4Addr>) -> (r: Ipv4Addr)
    ensures
        r == match found {
            Some(a) => a,
            None => Ipv4Addr { a: 127, b: 0, c: 0, d: 1 },
        },
{
    match found {
        Some(a) => a,
        None => Ipv4Addr::new(127, 0, 0, 1),
    }
}

/// A probe for the round trip time.
#[derive(Clone, Copy, Debug, PartialEq, Eq, Structural)]
pub struct RttProbe {
    pub src_port: u16,
    pub dst_port: u16,
    pub seq: u32,
}

/// The time to wait for an answer to a probe, in nanoseconds.
pub const RTT_PORT_TIMEOUT: u128 = 500_000_000;

/// The shortest round trip time that is reported, in nanoseconds.
pub const RTT_FLOOR: u128 = 100_000;

/// The ports that are probed, one after the other.
pub open spec fn rtt_ports() -> Seq<u16> {
    seq![80u16, 443, 22]
}

/// The probe to the port at `idx`, sent by the process `pid`.
#[must_use]
pub fn rtt_probe(pid: u32, idx: usize) -> (r: Option<RttProbe>)
    ensures
        r == if idx < 3 {
            Some(
                RttProbe {
                    src_port: (50000 + pid % 1000 + idx) as u16,
                    dst_port: rtt_ports()[idx as int],
                    seq: (1000 + idx) as u32,
                },
            )
        } else {
            None
        },
{
    if idx >= 3 {
        return None;
    }
    let dst_port: u16 = if idx == 0 {
        80
    } else if idx == 1 {
        443
    } else {
        22
    };
    let base: u16 = 50000 + (pid % 1000) as u16;
    Some(RttProbe { src_port: base + idx as u16, dst_port, seq: 1000 + idx as u32 })
}

/// What came back while waiting for the answer to a probe.
#[derive(Clone, Copy, Debug, PartialEq, Eq, Structural)]
pub enum RttEvent {
    /// The probe could not be sent.
    SendFailed,
    /// A packet came that is a TCP segment, from this address and port, `elapsed`
    /// nanoseconds after the probe.
    Segment { src_ip: Ipv4Addr, src_port: u16, elapsed: u128 },
    /// A packet came that is none.
    OtherPacket,
    /// Nothing came in time, or receiving failed.
    Nothing,
}

/// What to do next while measuring a round trip time.
#[derive(Clone, Copy, Debug, PartialEq, Eq, Structural)]
pub enum RttStep {
    /// Probe the port at this place.
    Probe(usize),
    /// Wait for the answer to this probe, while there is time left.
    Wait(usize),
    /// The measurement has ended.
    Done(Option<u128>),
}

/// Goes on with measuring the round trip time to `dst_addr`, after an event for the
/// probe at `idx`. The first answer from a probed port ends the measurement; a probe
/// without one is followed by the next.
#[must_use]
pub fn rtt_next(dst_addr: Ipv4Addr, idx: usize, event: RttEvent) -> (r: RttStep)
    requires
        idx < 3,
    ensures
        r == match event {
            RttEvent::Segment { src_ip, src_port, elapsed } => if src_ip == dst_addr && src_port
                == rtt_ports()[idx as int] {
                RttStep::Done(
                    Some(
                        if elapsed >= 100_000 {
                            elapsed
                        } else {
                            100_000
                        },
                    ),
                )
            } else {
                RttStep::Wait(idx)
            },
            RttEvent::OtherPacket => RttStep::Wait(idx),
            _ => if idx < 2 {
                RttStep::Probe((idx + 1) as usize)
            } else {
                RttStep::Done(None)
            },
        },
{
    match event {
        RttEvent::Segment { src_ip, src_port, elapsed } => {
            let dst_port: u16 = if idx == 0 {
                80
            } else if idx == 1 {
                443
            } else {
                22
            };
            if src_ip == dst_addr && src_port == dst_port {
                let rtt: u128 = if elapsed >= RTT_FLOOR {
                    elapsed
                } else {
                    RTT_FLOOR
                };
                RttStep::Done(Some(rtt))
            } else {
                RttStep::Wait(idx)
            }
        },
        RttEvent::OtherPacket => RttStep::Wait(idx),
        _ => if idx < 2 {
            RttStep::Probe(idx + 1)
        } else {
            RttStep::Done(None)
        },
    }
}

/// The time left for a probe that was sent `elapsed` nanoseconds ago; at zero the
/// wait is over.
#[must_use]
pub fn rtt_remaining(elapsed: u128) -> (r: u128)
    ensures
        r == if elapsed <= 500_000_000 {
            (500_000_000 - elapsed) as u128
        } else {
            0
        },
{
    if elapsed <= RTT_PORT_TIMEOUT {
        RTT_PORT_TIMEOUT - elapsed
    } else {
        0
    }
}

/// Paces probes: how long to wait before the next one.
#[derive(Clone, Copy, Debug, PartialEq, Eq, Structural)]
pub struct ProbePacer {
    /// When the last probe was sent, in nanoseconds of some clock; nothing before
    /// the first probe.
    pub last_probe: Option<u128>,
}

/// The wait before a probe at the time `now`: what is left of the larger of the two
/// delays since the last probe, and nothing before the first one.
pub open spec fn probe_wait(
    last_probe: Option<u128>,
    template_delay: u128,
    adaptive_delay: u128,
    now: u128,
) -> int {
    let delay = if template_delay >= adaptive_delay {
        template_delay
    } else {
        adaptive_delay
    };
    match last_probe {
        None => 0,
        Some(last) => if now - last < delay {
            if now >= last {
                delay - (now - last)
            } else {
                delay as int
            }
        } else {
            0
        },
    }
}

impl ProbePacer {
    /// Creates a pacer that has sent nothing.
    #[must_use]
    pub fn new() -> (r: Self)
        ensures
            r.last_probe is None,
    {
        ProbePacer { last_probe: None }
    }

    /// How long to wait before the next probe, at the time `now`. Without any delay
    /// there is nothing to wait for, and the probe is not noted.
    #[must_use]
    pub fn enforce_scan_delay(&self, template_delay: u128, adaptive_delay: u128, now: u128) -> (r:
        Option<u128>)
        ensures
            match r {
                None => template_delay == 0 && adaptive_delay == 0,
                Some(wait) => (template_delay > 0 || adaptive_delay > 0) && wait == probe_wait(
                    self.last_probe,
                    template_delay,
                    adaptive_delay,
                    now,
                ),
            },
    {
        if template_delay == 0 && adaptive_delay == 0 {
            return None;
        }
        let delay: u128 = if template_delay >= adaptive_delay {
            template_delay
        } else {
            adaptive_delay
        };
        match self.last_probe {
            None => Some(0),
            Some(last) => {
                let elapsed: u128 = if now >= last {
                    now - last
                } else {
                    0
                };
                if elapsed < delay {
                    Some(delay - elapsed)
                } else {
                    Some(0)
                }
            },
        }
    }

    /// Notes that a probe is sent at the time `now`.
    pub fn probe_sent(&mut self, now: u128)
        ensures
            final(self).last_probe == Some(now),
    {
        self.last_probe = Some(now);
    }
}

/// Two probes are at least the scan delay apart, if each waits as the pacer says.
pub proof fn probes_keep_their_distance(
    last: u128,
    template_delay: u128,
    adaptive_delay: u128,
    now: u128,
)
    requires
        now >= last,
    ensures
        now + probe_wait(Some(last), template_delay, adaptive_delay, now) - last >= template_delay,
        now + probe_wait(Some(last), template_delay, adaptive_delay, now) - last >= adaptive_delay,
{
}

/// An interface reaches a target if it has the source address and the two addresses agree
/// wherever its netmask has a bit; an entry without a netmask reaches nothing.
pub proof fn netmasks_decide(e: InterfaceEntry, src: Ipv4Addr, target: Ipv4Addr)
    ensures
        e.netmask is None ==> !reaches(e, src, target),
        e.addr != Some(src) ==> !reaches(e, src, target),
        e.addr == Some(src) ==> (e.netmask matches Some(m) ==> (reaches(e, src, target) <==> (
        src.number() ^ target.number()) & m.number() == 0)),
        e.addr == Some(src) && e.netmask is Some ==> reaches(e, src, src),
        reaches(e, src, target) && e.addr == Some(target) ==> reaches(e, target, src),
        names_addr(e, src) <==> e.addr is Some && e.addr.unwrap() == src && e.name is Some,
{
    if let Some(mask) = e.netmask {
        let s = src.number();
        let t = target.number();
        let m = mask.number();
        assert((s & m == t & m) <==> ((s ^ t) & m == 0)) by (bit_vector);
    }
}

/// Round trip times are measured at the ports of web servers first and then at that of
/// the secure shell.
pub proof fn round_trips_are_measured_at_common_ports()
    ensures
        rtt_ports().len() == 3,
        rtt_ports()[0] == 80,
        rtt_ports()[1] == 443,
        rtt_ports()[2] == 22,
{
}

/// The first probe need not wait; any other waits until the longer of the two delays has
/// passed since the one before, and no longer.
pub proof fn probes_wait_for_the_longer_delay(
    last: u128,
    template_delay: u128,
    adaptive_delay: u128,
    now: u128,
)
    requires
        last <= now,
    ensures
        probe_wait(None, template_delay, adaptive_delay, now) == 0,
        probe_wait(Some(last), template_delay, adaptive_delay, now) >= 0,
        now + probe_wait(Some(last), template_delay, adaptive_delay, now) >= last + template_delay,
        now + probe_wait(Some(last), template_delay, adaptive_delay, now) >= last + adaptive_delay,
        probe_wait(Some(last), template_delay, adaptive_delay, now) > 0 ==> now + probe_wait(
            Some(last),
            template_delay,
            adaptive_delay,
            now,
        ) == last + template_delay || now + probe_wait(
            Some(last),
            template_delay,
            adaptive_delay,
            now,
        ) == last + adaptive_delay,
{
}

} // verus!
