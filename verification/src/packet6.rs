//! Probes over IPv6: how they are built, and how the answers are read.
use crate::addr::{Ipv6Addr, MacAddr};
use crate::wire;
use crate::wire::{
    high_byte, length_half, low_byte, put_half, put_ipv6, put_word, read_half, read_word,
    segment_checksum,
};
use vstd::prelude::*;

verus! {

/// The 40 bytes of an IPv6 header without traffic class and flow label.
pub open spec fn ipv6_header(
    len: u16,
    next_header: u8,
    hop_limit: u8,
    src: Ipv6Addr,
    dst: Ipv6Addr,
) -> Seq<u8> {
    seq![0x60u8, 0, 0, 0] + wire::half_bytes(len) + seq![next_header, hop_limit] + src.octet_seq()
        + dst.octet_seq()
}

fn put_ipv6_header(
    packet: &mut Vec<u8>,
    len: u16,
    next_header: u8,
    hop_limit: u8,
    src: &Ipv6Addr,
    dst: &Ipv6Addr,
)
    requires
        old(packet)@.len() == 0,
    ensures
        final(packet)@ == ipv6_header(len, next_header, hop_limit, *src, *dst),
        final(packet)@.len() == 40,
{
    packet.push(0x60);
    packet.push(0x00);
    packet.push(0x00);
    packet.push(0x00);
    put_half(packet, len);
    packet.push(next_header);
    packet.push(hop_limit);
    proof {
        assert(packet@ =~= seq![0x60u8, 0, 0, 0] + wire::half_bytes(len) + seq![
            next_header,
            hop_limit,
        ]);
    }
    put_ipv6(packet, src);
    put_ipv6(packet, dst);
    proof {
        assert(packet@ =~= ipv6_header(len, next_header, hop_limit, *src, *dst));
    }
}

/// Appends the bytes of `tail`.
fn put_all(packet: &mut Vec<u8>, tail: &Vec<u8>)
    ensures
        final(packet)@ == old(packet)@ + tail@,
{
    let mut i: usize = 0;
    while i < tail.len()
        invariant
            i <= tail.len(),
            packet@ == old(packet)@ + tail@.take(i as int),
        decreases tail.len() - i,
    {
        packet.push(tail[i]);
        proof {
            assert(packet@ =~= old(packet)@ + tail@.take(i + 1));
        }
        i += 1;
    }
    proof {
        assert(tail@.take(i as int) =~= tail@);
    }
}

/// `ICMPv6` packet builder.
#[derive(Debug)]
pub struct Icmpv6PacketBuilder {
    src_ip: Ipv6Addr,
    dst_ip: Ipv6Addr,
    kind: u8,
    code: u8,
    identifier: u16,
    sequence: u16,
    target_address: Option<Ipv6Addr>,
}

/// What an `ICMPv6` packet is built from.
pub struct Icmpv6Model {
    pub src_ip: Ipv6Addr,
    pub dst_ip: Ipv6Addr,
    pub kind: u8,
    pub code: u8,
    pub identifier: u16,
    pub sequence: u16,
    pub target_address: Option<Ipv6Addr>,
}

/// The body of the message: identifier and sequence number of an echo request or
/// reply; four zeros and the target address of a neighbor solicitation.
pub open spec fn icmpv6_body(m: Icmpv6Model) -> Seq<u8> {
    if m.kind == 128 || m.kind == 129 {
        wire::half_bytes(m.identifier) + wire::half_bytes(m.sequence)
    } else if m.kind == 135 {
        seq![0u8, 0, 0, 0] + match m.target_address {
            Some(t) => t.octet_seq(),
            None => Seq::empty(),
        }
    } else {
        Seq::empty()
    }
}

/// The message with this checksum.
pub open spec fn icmpv6_segment(m: Icmpv6Model, checksum: u16) -> Seq<u8> {
    seq![m.kind, m.code] + wire::half_bytes(checksum) + icmpv6_body(m)
}

/// The sum that the checksum of the message is made from.
pub open spec fn icmpv6_sum(m: Icmpv6Model, checksum: u16) -> nat {
    let segment = icmpv6_segment(m, checksum);
    wire::pseudo_sum(m.src_ip, m.dst_ip, segment.len(), 58) + wire::half_sum(segment)
}

/// The length of the message.
pub open spec fn icmpv6_len(m: Icmpv6Model) -> nat {
    if m.kind == 128 || m.kind == 129 {
        8
    } else if m.kind == 135 {
        if m.target_address is Some {
            24
        } else {
            8
        }
    } else {
        4
    }
}

/// The whole packet: an IPv6 header with the largest hop limit, and the message with
/// its checksum.
pub open spec fn icmpv6_packet(m: Icmpv6Model) -> Seq<u8> {
    ipv6_header(half_of(icmpv6_len(m)), 58, 255, m.src_ip, m.dst_ip) + icmpv6_segment(
        m,
        wire::checksum_of(icmpv6_sum(m, 0)),
    )
}

/// A small number as a half-word.
pub open spec fn half_of(n: nat) -> u16 {
    n as u16
}

/// The length of the message is as stated.
pub proof fn icmpv6_len_is_length(m: Icmpv6Model, checksum: u16)
    ensures
        icmpv6_segment(m, checksum).len() == icmpv6_len(m),
{
}

/// A receiver who adds up the message and its pseudo-header sees that it is whole.
pub proof fn icmpv6_checksum_verifies(m: Icmpv6Model)
    ensures
        wire::folded(icmpv6_sum(m, wire::checksum_of(icmpv6_sum(m, 0)))) == 65535,
{
    let sum = icmpv6_sum(m, 0);
    let c = wire::checksum_of(sum);
    let zero = icmpv6_segment(m, 0);
    let full = icmpv6_segment(m, c);
    wire::half_sum_fill(zero, 2, c);
    assert(full =~= zero.update(2, wire::half_bytes(c)[0]).update(3, wire::half_bytes(c)[1]));
    wire::checksum_completes(sum);
}

impl View for Icmpv6PacketBuilder {
    type V = Icmpv6Model;

    closed spec fn view(&self) -> Icmpv6Model {
        Icmpv6Model {
            src_ip: self.src_ip,
            dst_ip: self.dst_ip,
            kind: self.kind,
            code: self.code,
            identifier: self.identifier,
            sequence: self.sequence,
            target_address: self.target_address,
        }
    }
}

impl Icmpv6PacketBuilder {
    /// Creates a new `ICMPv6` packet builder for echo request.
    #[must_use]
    pub fn echo_request(src_ip: Ipv6Addr, dst_ip: Ipv6Addr) -> (r: Self)
        ensures
            r@ == (Icmpv6Model {
                src_ip,
                dst_ip,
                kind: 128,
                code: 0,
                identifier: 0,
                sequence: 0,
                target_address: None,
            }),
    {
        Self {
            src_ip,
            dst_ip,
            kind: 128,
            code: 0,
            identifier: 0,
            sequence: 0,
            target_address: None,
        }
    }

    /// Creates a new `ICMPv6` packet builder for neighbor solicitation.
    #[must_use]
    pub fn neighbor_solicitation(src_ip: Ipv6Addr, dst_ip: Ipv6Addr) -> (r: Self)
        ensures
            r@ == (Icmpv6Model {
                src_ip,
                dst_ip,
                kind: 135,
                code: 0,
                identifier: 0,
                sequence: 0,
                target_address: None,
            }),
    {
        Self {
            src_ip,
            dst_ip,
            kind: 135,
            code: 0,
            identifier: 0,
            sequence: 0,
            target_address: None,
        }
    }

    /// Sets the `ICMPv6` identifier.
    #[must_use]
    pub fn identifier(self, identifier: u16) -> (r: Self)
        ensures
            r@ == (Icmpv6Model { identifier, ..self@ }),
    {
        let mut r = self;
        r.identifier = identifier;
        r
    }

    /// Sets the `ICMPv6` sequence number.
    #[must_use]
    pub fn sequence(self, sequence: u16) -> (r: Self)
        ensures
            r@ == (Icmpv6Model { sequence, ..self@ }),
    {
        let mut r = self;
        r.sequence = sequence;
        r
    }

    /// Sets the target address for Neighbor Solicitation.
    #[must_use]
    pub fn target_address(self, target: Ipv6Addr) -> (r: Self)
        ensures
            r@ == (Icmpv6Model { target_address: Some(target), ..self@ }),
    {
        let mut r = self;
        r.target_address = Some(target);
        r
    }

    /// Builds the `ICMPv6` packet, with its IPv6 header.
    #[must_use]
    pub fn build(self) -> (r: Vec<u8>)
        ensures
            r@ == icmpv6_packet(self@),
    {
        let mut segment: Vec<u8> = Vec::new();
        segment.push(self.kind);
        segment.push(self.code);
        segment.push(0);
        segment.push(0);
        if self.kind == 128 || self.kind == 129 {
            put_half(&mut segment, self.identifier);
            put_half(&mut segment, self.sequence);
        } else if self.kind == 135 {
            segment.push(0);
            segment.push(0);
            segment.push(0);
            segment.push(0);
            if let Some(target) = &self.target_address {
                put_ipv6(&mut segment, target);
            }
        }
        proof {
            assert(segment@ =~= icmpv6_segment(self@, 0));
        }
        let checksum: u16 = segment_checksum(&self.src_ip, &self.dst_ip, 58, segment.as_slice());
        segment.set(2, high_byte(checksum));
        segment.set(3, low_byte(checksum));
        proof {
            assert(segment@ =~= icmpv6_segment(self@, checksum));
        }
        let mut packet: Vec<u8> = Vec::new();
        put_ipv6_header(
            &mut packet,
            length_half(segment.len()),
            58,
            255,
            &self.src_ip,
            &self.dst_ip,
        );
        put_all(&mut packet, &segment);
        packet
    }
}

/// TCP packet builder for IPv6.
#[derive(Debug)]
pub struct Tcpv6PacketBuilder {
    src_ip: Ipv6Addr,
    dst_ip: Ipv6Addr,
    src_port: u16,
    dst_port: u16,
    seq: u32,
    ack: u32,
    flags: u8,
    window: u16,
}

/// What a TCP packet is built from.
pub struct Tcpv6Model {
    pub src_ip: Ipv6Addr,
    pub dst_ip: Ipv6Addr,
    pub src_port: u16,
    pub dst_port: u16,
    pub seq: u32,
    pub ack: u32,
    pub flags: u8,
    pub window: u16,
}

/// The 20 bytes of the TCP header with this checksum.
pub open spec fn tcpv6_segment(m: Tcpv6Model, checksum: u16) -> Seq<u8> {
    wire::half_bytes(m.src_port) + wire::half_bytes(m.dst_port) + wire::word_bytes(m.seq)
        + wire::word_bytes(m.ack) + seq![0x50u8, m.flags] + wire::half_bytes(m.window)
        + wire::half_bytes(checksum) + seq![0u8, 0]
}

/// The sum that the checksum of the segment is made from.
pub open spec fn tcpv6_sum(m: Tcpv6Model, checksum: u16) -> nat {
    wire::pseudo_sum(m.src_ip, m.dst_ip, 20, 6) + wire::half_sum(tcpv6_segment(m, checksum))
}

/// The whole packet: an IPv6 header with a hop limit of 64, and the segment with its
/// checksum.
pub open spec fn tcpv6_packet(m: Tcpv6Model) -> Seq<u8> {
    ipv6_header(20, 6, 64, m.src_ip, m.dst_ip) + tcpv6_segment(
        m,
        wire::checksum_of(tcpv6_sum(m, 0)),
    )
}

/// A receiver who adds up the segment and its pseudo-header sees that it is whole.
pub proof fn tcpv6_checksum_verifies(m: Tcpv6Model)
    ensures
        wire::folded(tcpv6_sum(m, wire::checksum_of(tcpv6_sum(m, 0)))) == 65535,
{
    let sum = tcpv6_sum(m, 0);
    let c = wire::checksum_of(sum);
    let zero = tcpv6_segment(m, 0);
    let full = tcpv6_segment(m, c);
    wire::half_sum_fill(zero, 16, c);
    assert(full =~= zero.update(16, (c / 256) as u8).update(17, (c % 256) as u8));
    wire::checksum_completes(sum);
}

impl View for Tcpv6PacketBuilder {
    type V = Tcpv6Model;

    closed spec fn view(&self) -> Tcpv6Model {
        Tcpv6Model {
            src_ip: self.src_ip,
            dst_ip: self.dst_ip,
            src_port: self.src_port,
            dst_port: self.dst_port,
            seq: self.seq,
            ack: self.ack,
            flags: self.flags,
            window: self.window,
        }
    }
}

impl Tcpv6PacketBuilder {
    /// Creates a new `TCPv6` packet builder.
    #[must_use]
    pub fn new(src_ip: Ipv6Addr, dst_ip: Ipv6Addr, src_port: u16, dst_port: u16) -> (r: Self)
        ensures
            r@ == (Tcpv6Model {
                src_ip,
                dst_ip,
                src_port,
                dst_port,
                seq: 0,
                ack: 0,
                flags: 0,
                window: 65535,
            }),
    {
        Self { src_ip, dst_ip, src_port, dst_port, seq: 0, ack: 0, flags: 0, window: 65535 }
    }

    /// Sets the sequence number.
    #[must_use]
    pub fn seq(self, seq: u32) -> (r: Self)
        ensures
            r@ == (Tcpv6Model { seq, ..self@ }),
    {
        let mut r = self;
        r.seq = seq;
        r
    }

    /// Sets the SYN flag.
    #[must_use]
    pub fn syn(self) -> (r: Self)
        ensures
            r@ == (Tcpv6Model { flags: self@.flags | 0x02, ..self@ }),
    {
        let mut r = self;
        r.flags = r.flags | 0x02;
        r
    }

    /// Sets the ACK flag.
    #[must_use]
    pub fn ack_flag(self) -> (r: Self)
        ensures
            r@ == (Tcpv6Model { flags: self@.flags | 0x10, ..self@ }),
    {
        let mut r = self;
        r.flags = r.flags | 0x10;
        r
    }

    /// Sets the window size.
    #[must_use]
    pub fn window(self, window: u16) -> (r: Self)
        ensures
            r@ == (Tcpv6Model { window, ..self@ }),
    {
        let mut r = self;
        r.window = window;
        r
    }

    /// Builds the `TCPv6` packet, with its IPv6 header.
    #[must_use]
    pub fn build(self) -> (r: Vec<u8>)
        ensures
            r@ == tcpv6_packet(self@),
    {
        let mut segment: Vec<u8> = Vec::new();
        put_half(&mut segment, self.src_port);
        put_half(&mut segment, self.dst_port);
        put_word(&mut segment, self.seq);
        put_word(&mut segment, self.ack);
        segment.push(0x50);
        segment.push(self.flags);
        put_half(&mut segment, self.window);
        put_half(&mut segment, 0);
        segment.push(0);
        segment.push(0);
        proof {
            assert(segment@ =~= tcpv6_segment(self@, 0));
        }
        let checksum: u16 = segment_checksum(&self.src_ip, &self.dst_ip, 6, segment.as_slice());
        segment.set(16, high_byte(checksum));
        segment.set(17, low_byte(checksum));
        proof {
            assert(segment@ =~= tcpv6_segment(self@, checksum));
        }
        let mut packet: Vec<u8> = Vec::new();
        put_ipv6_header(&mut packet, 20, 6, 64, &self.src_ip, &self.dst_ip);
        put_all(&mut packet, &segment);
        packet
    }
}

/// The packet is IPv6 with this protocol.
pub open spec fn is_ipv6_proto(p: Seq<u8>, next_header: u8) -> bool {
    p[0] / 16 == 6 && p[6] == next_header
}

/// The echo reply in a packet: identifier and sequence number.
pub open spec fn echo_reply_in(p: Seq<u8>) -> Option<(u16, u16)> {
    if p.len() >= 48 && is_ipv6_proto(p, 58) && p[40] == 129 && p[41] == 0 {
        Some((wire::be16_at(p, 44), wire::be16_at(p, 46)))
    } else {
        None
    }
}

/// Parses an `ICMPv6` echo reply packet: the identifier and the sequence number if it
/// is one.
#[must_use]
pub fn parse_icmpv6_echo_reply(packet: &[u8]) -> (r: Option<(u16, u16)>)
    ensures
        r == echo_reply_in(packet@),
{
    if packet.len() < 48 {
        return None;
    }
    if packet[0] / 16 != 6 {
        return None;
    }
    if packet[6] != 58 {
        return None;
    }
    if packet[40] != 129 || packet[41] != 0 {
        return None;
    }
    Some((read_half(packet, 44), read_half(packet, 46)))
}

/// The IPv6 address at `off`.
pub open spec fn ipv6_at(p: Seq<u8>, off: int) -> Ipv6Addr {
    Ipv6Addr {
        s0: wire::be16_at(p, off),
        s1: wire::be16_at(p, off + 2),
        s2: wire::be16_at(p, off + 4),
        s3: wire::be16_at(p, off + 6),
        s4: wire::be16_at(p, off + 8),
        s5: wire::be16_at(p, off + 10),
        s6: wire::be16_at(p, off + 12),
        s7: wire::be16_at(p, off + 14),
    }
}

/// The target's link-layer address behind a neighbor advertisement: there is one if
/// the first option is of that kind and whole.
pub open spec fn advertised_mac(p: Seq<u8>) -> Option<MacAddr> {
    if p.len() >= 72 && p[64] == 2 && p[65] >= 1 && p.len() >= 64 + p[65] * 8 {
        Some(
            MacAddr { b0: p[66], b1: p[67], b2: p[68], b3: p[69], b4: p[70], b5: p[71] },
        )
    } else {
        None
    }
}

/// The neighbor advertisement in a packet: the target and its link-layer address.
pub open spec fn advertisement_in(p: Seq<u8>) -> Option<(Ipv6Addr, Option<MacAddr>)> {
    if p.len() >= 64 && is_ipv6_proto(p, 58) && p[40] == 136 && p[41] == 0 {
        Some((ipv6_at(p, 48), advertised_mac(p)))
    } else {
        None
    }
}

/// The length of an option in bytes, from its length in units of eight.
fn option_bytes(units: u8) -> (r: usize)
    ensures
        r == units * 8,
{
    units as usize * 8
}

/// Parses an `ICMPv6` Neighbor Advertisement packet: the target address, and its
/// hardware address if that is given, if it is one.
#[must_use]
pub fn parse_icmpv6_neighbor_advertisement(packet: &[u8]) -> (r: Option<
    (Ipv6Addr, Option<MacAddr>),
>)
    ensures
        r == advertisement_in(packet@),
{
    if packet.len() < 64 {
        return None;
    }
    if packet[0] / 16 != 6 {
        return None;
    }
    if packet[6] != 58 {
        return None;
    }
    if packet[40] != 136 || packet[41] != 0 {
        return None;
    }
    let target = Ipv6Addr::new(
        read_half(packet, 48),
        read_half(packet, 50),
        read_half(packet, 52),
        read_half(packet, 54),
        read_half(packet, 56),
        read_half(packet, 58),
        read_half(packet, 60),
        read_half(packet, 62),
    );
    let mut mac: Option<MacAddr> = None;
    if packet.len() >= 72 {
        let option_len: usize = option_bytes(packet[65]);
        if packet[64] == 2 && option_len >= 8 && packet.len() >= 64 + option_len {
            mac =
            Some(
                MacAddr {
                    b0: packet[66],
                    b1: packet[67],
                    b2: packet[68],
                    b3: packet[69],
                    b4: packet[70],
                    b5: packet[71],
                },
            );
        }
    }
    Some((target, mac))
}

/// The TCP segment in a packet: flags, sequence number, acknowledgment number and
/// source port.
pub open spec fn tcp_response_in(p: Seq<u8>) -> Option<(u8, u32, u32, u16)> {
    if p.len() >= 60 && is_ipv6_proto(p, 6) {
        Some((p[53], wire::be32_at(p, 44), wire::be32_at(p, 48), wire::be16_at(p, 40)))
    } else {
        None
    }
}

/// Parses a TCP response packet over `IPv6`.
#[must_use]
pub fn parse_tcpv6_response(packet: &[u8]) -> (r: Option<(u8, u32, u32, u16)>)
    ensures
        r == tcp_response_in(packet@),
{
    if packet.len() < 60 {
        return None;
    }
    if packet[0] / 16 != 6 {
        return None;
    }
    if packet[6] != 6 {
        return None;
    }
    Some((packet[53], read_word(packet, 44), read_word(packet, 48), read_half(packet, 40)))
}

/// What is built into a TCP packet is read out of it.
pub proof fn tcpv6_round_trip(m: Tcpv6Model)
    ensures
        tcp_response_in(tcpv6_packet(m)) == Some((m.flags, m.seq, m.ack, m.src_port)),
{
    let p = tcpv6_packet(m);
    let c = wire::checksum_of(tcpv6_sum(m, 0));
    let segment = tcpv6_segment(m, c);
    assert(p.len() == 60);
    assert(p[0] == 0x60 && p[6] == 6);
    assert forall|i: int| 0 <= i < 20 implies p[40 + i] == segment[i] by {}
    wire::word_round_trip(m.seq);
    wire::word_round_trip(m.ack);
    let sb = wire::word_bytes(m.seq);
    let ab = wire::word_bytes(m.ack);
    assert(p[44] == segment[4] && p[45] == segment[5] && p[46] == segment[6] && p[47]
        == segment[7]);
    assert(segment[4] == sb[0] && segment[5] == sb[1] && segment[6] == sb[2] && segment[7]
        == sb[3]);
    assert(p[48] == segment[8] && p[49] == segment[9] && p[50] == segment[10] && p[51]
        == segment[11]);
    assert(segment[8] == ab[0] && segment[9] == ab[1] && segment[10] == ab[2] && segment[11]
        == ab[3]);
    assert(p[40] == segment[0] && p[41] == segment[1]);
    assert(p[53] == segment[13]);
}

/// A probe of our own is not taken for an answer: neither an echo request nor a
/// neighbor solicitation is an echo reply or an advertisement.
pub proof fn icmpv6_probes_are_no_answers(m: Icmpv6Model)
    requires
        m.kind == 128 || m.kind == 135,
    ensures
        echo_reply_in(icmpv6_packet(m)) is None,
        advertisement_in(icmpv6_packet(m)) is None,
        tcp_response_in(icmpv6_packet(m)) is None,
{
    let p = icmpv6_packet(m);
    assert(p[40] == m.kind);
    assert(p[6] == 58);
}

/// An answer that carries identifier and sequence number of an echo request is read
/// as such: the reply differs from the request in its kind alone.
pub proof fn echo_round_trip(m: Icmpv6Model)
    requires
        m.kind == 129,
        m.code == 0,
    ensures
        echo_reply_in(icmpv6_packet(m)) == Some((m.identifier, m.sequence)),
{
    let p = icmpv6_packet(m);
    assert(p.len() == 48);
    assert(p[0] == 0x60 && p[6] == 58 && p[40] == 129 && p[41] == 0);
    assert(p[44] == wire::half_bytes(m.identifier)[0] && p[45] == wire::half_bytes(
        m.identifier,
    )[1]);
    assert(p[46] == wire::half_bytes(m.sequence)[0] && p[47] == wire::half_bytes(m.sequence)[1]);
}

/// An IPv6 header stands as the network expects it: version 6 first, then the length of
/// what follows, the protocol of that, the hop limit, and source and destination.
pub proof fn header_layout(
    len: u16,
    next_header: u8,
    hop_limit: u8,
    src: Ipv6Addr,
    dst: Ipv6Addr,
    rest: Seq<u8>,
)
    ensures
        ({
            let p = ipv6_header(len, next_header, hop_limit, src, dst) + rest;
            &&& p.len() == 40 + rest.len()
            &&& p[0] / 16 == 6
            &&& p[4] * 256 + p[5] == len
            &&& p[6] == next_header
            &&& p[7] == hop_limit
            &&& forall|i: int| 0 <= i < 16 ==> p[8 + i] == #[trigger] src.octet_seq()[i]
            &&& forall|i: int| 0 <= i < 16 ==> p[24 + i] == #[trigger] dst.octet_seq()[i]
            &&& forall|i: int| 0 <= i < rest.len() ==> p[40 + i] == #[trigger] rest[i]
        }),
{
}

/// A TCP packet is a header of IPv6 for 20 bytes of TCP, from the source to the
/// destination and over up to 64 hops, with the segment behind it.
pub proof fn tcp_packets_have_their_header(m: Tcpv6Model)
    ensures
        tcpv6_packet(m) == ipv6_header(20, 6, 64, m.src_ip, m.dst_ip) + tcpv6_segment(
            m,
            wire::checksum_of(tcpv6_sum(m, 0)),
        ),
{
}

/// A TCP segment has the ports, the numbers, the flags and the window at the places of a
/// TCP header without options.
pub proof fn tcp_segment_layout(m: Tcpv6Model, checksum: u16)
    ensures
        ({
            let s = tcpv6_segment(m, checksum);
            &&& s.len() == 20
            &&& s[0] * 256 + s[1] == m.src_port
            &&& s[2] * 256 + s[3] == m.dst_port
            &&& s[4] == m.seq / 0x100_0000
            &&& s[7] == m.seq % 256
            &&& s[8] == m.ack / 0x100_0000
            &&& s[11] == m.ack % 256
            &&& s[12] == 0x50
            &&& s[13] == m.flags
            &&& s[14] * 256 + s[15] == m.window
            &&& s[16] * 256 + s[17] == checksum
            &&& s[18] == 0 && s[19] == 0
        }),
{
}

/// An `ICMPv6` packet is a header of IPv6 for as many bytes of `ICMPv6` as follow, from the
/// source to the destination and over the most hops that there can be, with the message
/// behind it.
pub proof fn messages_have_their_header(m: Icmpv6Model)
    ensures
        icmpv6_packet(m) == ipv6_header(half_of(icmpv6_len(m)), 58, 255, m.src_ip, m.dst_ip)
            + icmpv6_segment(m, wire::checksum_of(icmpv6_sum(m, 0))),
        half_of(icmpv6_len(m)) == icmpv6_segment(m, wire::checksum_of(icmpv6_sum(m, 0))).len(),
{
    icmpv6_len_is_length(m, wire::checksum_of(icmpv6_sum(m, 0)));
}

/// An `ICMPv6` message has its kind and its code and then, for an echo, identifier and
/// sequence number, or, for a solicitation, the address that is asked for.
pub proof fn message_layout(m: Icmpv6Model, checksum: u16)
    ensures
        ({
            let s = icmpv6_segment(m, checksum);
            &&& s[0] == m.kind
            &&& s[1] == m.code
            &&& s[2] * 256 + s[3] == checksum
            &&& m.kind == 128 || m.kind == 129 ==> s.len() == 8 && s[4] * 256 + s[5]
                == m.identifier && s[6] * 256 + s[7] == m.sequence
            &&& m.kind == 135 ==> (m.target_address matches Some(t) ==> s.skip(8) == t.octet_seq())
        }),
{
    let s = icmpv6_segment(m, checksum);
    if m.kind == 135 {
        if let Some(t) = m.target_address {
            assert(s.skip(8) =~= t.octet_seq());
        }
    }
}

/// Answers are read where they stand: an echo reply's identifier and sequence number, an
/// advertisement's target and hardware address, a segment's flags, numbers and source port.
/// Anything of another version, protocol or kind, or too short, is no answer.
pub proof fn answers_are_read_where_they_stand(p: Seq<u8>)
    ensures
        echo_reply_in(p) is Some <==> p.len() >= 48 && p[0] / 16 == 6 && p[6] == 58 && p[40] == 129
            && p[41] == 0,
        echo_reply_in(p) matches Some((id, seq)) ==> id == p[44] * 256 + p[45] && seq == p[46] * 256
            + p[47],
        advertisement_in(p) is Some <==> p.len() >= 64 && p[0] / 16 == 6 && p[6] == 58 && p[40]
            == 136 && p[41] == 0,
        advertisement_in(p) matches Some((t, mac)) ==> {
            &&& t.s0 == p[48] * 256 + p[49]
            &&& t.s1 == p[50] * 256 + p[51]
            &&& t.s2 == p[52] * 256 + p[53]
            &&& t.s3 == p[54] * 256 + p[55]
            &&& t.s4 == p[56] * 256 + p[57]
            &&& t.s5 == p[58] * 256 + p[59]
            &&& t.s6 == p[60] * 256 + p[61]
            &&& t.s7 == p[62] * 256 + p[63]
            &&& mac is Some <==> p.len() >= 72 && p[64] == 2 && p[65] >= 1 && p.len() >= 64 + 8
                * p[65]
            &&& mac matches Some(a) ==> a.b0 == p[66] && a.b1 == p[67] && a.b2 == p[68] && a.b3
                == p[69] && a.b4 == p[70] && a.b5 == p[71]
        },
        tcp_response_in(p) is Some <==> p.len() >= 60 && p[0] / 16 == 6 && p[6] == 6,
        tcp_response_in(p) matches Some((flags, seq, ack, src_port)) ==> {
            &&& flags == p[53]
            &&& src_port == p[40] * 256 + p[41]
            &&& seq == p[44] * 0x100_0000 + p[45] * 0x1_0000 + p[46] * 256 + p[47]
            &&& ack == p[48] * 0x100_0000 + p[49] * 0x1_0000 + p[50] * 256 + p[51]
        },
{
}

/// An address is read back from the place where its bytes stand.
pub proof fn addresses_are_read_back(before: Seq<u8>, x: Ipv6Addr, after: Seq<u8>)
    ensures
        ipv6_at(before + x.octet_seq() + after, before.len() as int) == x,
{
    let p = before + x.octet_seq() + after;
    let n = before.len() as int;
    assert(forall|i: int| 0 <= i < 16 ==> p[n + i] == x.octet_seq()[i]);
    let r = ipv6_at(p, n);
    assert(p[n] == x.octet_seq()[0] && p[n + 1] == x.octet_seq()[1]);
    assert(r.s0 == x.s0);
    assert(p[n + 2] == x.octet_seq()[2] && p[n + 3] == x.octet_seq()[3]);
    assert(r.s1 == x.s1);
    assert(p[n + 4] == x.octet_seq()[4] && p[n + 5] == x.octet_seq()[5]);
    assert(r.s2 == x.s2);
    assert(p[n + 6] == x.octet_seq()[6] && p[n + 7] == x.octet_seq()[7]);
    assert(r.s3 == x.s3);
    assert(p[n + 8] == x.octet_seq()[8] && p[n + 9] == x.octet_seq()[9]);
    assert(r.s4 == x.s4);
    assert(p[n + 10] == x.octet_seq()[10] && p[n + 11] == x.octet_seq()[11]);
    assert(r.s5 == x.s5);
    assert(p[n + 12] == x.octet_seq()[12] && p[n + 13] == x.octet_seq()[13]);
    assert(r.s6 == x.s6);
    assert(p[n + 14] == x.octet_seq()[14] && p[n + 15] == x.octet_seq()[15]);
    assert(r.s7 == x.s7);
}

} // verus!
