//! Host discovery.
use rustnmap::addr::{IpAddr, Ipv4Addr, Ipv6Addr, MacAddr};
use rustnmap::arp::{
    arp_interface, arp_socket, find_interface_name, ArpAction, ArpBatchRun, ArpPing, ArpPingBatch,
    ArpSocket,
};
use rustnmap::config::{ping_config, ScanConfig};
use rustnmap::discovery::{
    Discovery, DiscoveryMethod, HostDiscovery, HostDiscoveryMethod, HostState, NetworkError,
    PingRun, ProbeEvent, ScanError,
};
use rustnmap::error::{OsError, OsErrorKind};
use rustnmap::models::Target;
use rustnmap::net::InterfaceEntry;
use rustnmap::packet6::{
    parse_icmpv6_echo_reply, parse_icmpv6_neighbor_advertisement, parse_tcpv6_response,
    Icmpv6PacketBuilder, Tcpv6PacketBuilder,
};
use rustnmap::ping::{
    generate_sequence_number, generate_source_port, Icmpv6NeighborDiscovery, Icmpv6Ping, IcmpPing,
    IcmpTimestampPing, TcpAckPing, TcpResponse, TcpSynPing, TcpSynPingV6,
};

const SECOND: u128 = 1_000_000_000;

fn os_error(kind: OsErrorKind, message: &str) -> OsError {
    OsError { kind, message: message.to_string() }
}

fn target_v4(a: u8, b: u8, c: u8, d: u8) -> Target {
    Target { ip: IpAddr::V4(Ipv4Addr::new(a, b, c, d)), hostname: None }
}

fn target_v6(addr: Ipv6Addr) -> Target {
    Target { ip: IpAddr::V6(addr), hostname: None }
}

fn localhost_v6() -> Ipv6Addr {
    Ipv6Addr::new(0, 0, 0, 0, 0, 0, 0, 1)
}

fn unspecified_v6() -> Ipv6Addr {
    Ipv6Addr::new(0, 0, 0, 0, 0, 0, 0, 0)
}

fn src_mac() -> MacAddr {
    MacAddr::new([0x00, 0x11, 0x22, 0x33, 0x44, 0x55])
}

/// The sum of the half-words of the pseudo-header and the segment, folded.
fn ipv6_sum(packet: &[u8]) -> u32 {
    let segment = &packet[40..];
    let mut sum = u32::from(packet[6]) + segment.len() as u32;
    for half in packet[8..40].chunks(2).chain(segment.chunks(2)) {
        sum += u32::from(half[0]) << 8 | half.get(1).map_or(0, |b| u32::from(*b));
    }
    while sum > 0xffff {
        sum = (sum & 0xffff) + (sum >> 16);
    }
    sum
}

#[test]
fn test_host_state_equality() {
    assert_eq!(HostState::Up, HostState::Up);
    assert_ne!(HostState::Up, HostState::Down);
    assert_ne!(HostState::Up, HostState::Unknown);
    assert_eq!(HostState::Down, HostState::Down);
    assert_eq!(HostState::Unknown, HostState::Unknown);
}

#[test]
fn test_host_discovery_creation() {
    let config = ping_config(&ScanConfig::default());
    let discovery = HostDiscovery::new(config);
    assert_eq!(discovery.retries, 2);
}

#[test]
fn test_tcp_syn_ping_default_ports() {
    assert_eq!(TcpSynPing::DEFAULT_PORTS, [80, 443, 22]);
}

#[test]
fn test_tcp_ack_ping_default_ports() {
    assert_eq!(TcpAckPing::DEFAULT_PORTS, [80, 443, 22]);
}

#[test]
fn test_tcp_syn_ping_requires_root() {
    let local_addr = Ipv4Addr::new(192, 168, 1, 100);
    let ping = TcpSynPing::new(local_addr, vec![], SECOND, 2, Ok(3)).unwrap();
    assert!(ping.requires_root());
}

#[test]
fn test_tcp_ack_ping_requires_root() {
    let local_addr = Ipv4Addr::new(192, 168, 1, 100);
    let ping = TcpAckPing::new(local_addr, vec![], SECOND, 2, Ok(3)).unwrap();
    assert!(ping.requires_root());
}

#[test]
fn test_icmp_ping_requires_root() {
    let local_addr = Ipv4Addr::new(192, 168, 1, 100);
    let ping = IcmpPing::new(local_addr, SECOND, 2, 7, Ok(3)).unwrap();
    assert!(ping.requires_root());
}

#[test]
fn test_icmp_timestamp_ping_requires_root() {
    let local_addr = Ipv4Addr::new(192, 168, 1, 100);
    let ping = IcmpTimestampPing::new(local_addr, SECOND, 2, 7, Ok(3)).unwrap();
    assert!(ping.requires_root());
}

#[test]
fn test_arp_ping_requires_root() {
    let src_ip = Ipv4Addr::new(192, 168, 1, 100);
    let socket = ArpSocket { fd: 3, if_index: 2 };
    let ping = ArpPing::new(src_mac(), src_ip, SECOND, 2, Ok(socket)).unwrap();
    assert!(ping.requires_root());
}

#[test]
fn test_arp_ping_is_local_target() {
    let src_ip = Ipv4Addr::new(192, 168, 1, 100);
    let socket = ArpSocket { fd: 3, if_index: 2 };
    let arp_ping = ArpPing::new(src_mac(), src_ip, SECOND, 2, Ok(socket)).unwrap();

    // Same subnet
    assert!(arp_ping.is_local_target(&target_v4(192, 168, 1, 50)));

    // Different subnet
    assert!(!arp_ping.is_local_target(&target_v4(10, 0, 0, 1)));

    // IPv6
    assert!(!arp_ping.is_local_target(&target_v6(localhost_v6())));
}

#[test]
fn test_icmpv6_ping_requires_root() {
    let ping = Icmpv6Ping::new(localhost_v6(), SECOND, 2, 7, Ok(3)).unwrap();
    assert!(ping.requires_root());
}

#[test]
fn test_icmpv6_neighbor_discovery_requires_root() {
    let ndp = Icmpv6NeighborDiscovery::new(localhost_v6(), SECOND, 2, Ok(3)).unwrap();
    assert!(ndp.requires_root());
}

#[test]
fn test_tcp_syn_ping_v6_requires_root() {
    let ping = TcpSynPingV6::new(localhost_v6(), vec![], SECOND, 2, Ok(3)).unwrap();
    assert!(ping.requires_root());
}

#[test]
fn test_icmpv6_ping_default_ports() {
    assert_eq!(TcpSynPingV6::DEFAULT_PORTS, [80, 443, 22]);
}

#[test]
fn test_solicited_node_multicast() {
    // Test address: 2001:db8::1
    let target = Ipv6Addr::new(0x2001, 0x0db8, 0, 0, 0, 0, 0, 1);
    let multicast = Icmpv6NeighborDiscovery::solicited_node_multicast(target);

    // Expected: ff02::1:ff00:1
    let expected = Ipv6Addr::new(0xff02, 0, 0, 0, 0, 0x0001, 0xff00, 1);
    assert_eq!(multicast, expected);

    // Test address: fe80::1
    let target2 = Ipv6Addr::new(0xfe80, 0, 0, 0, 0, 0, 0, 1);
    let multicast2 = Icmpv6NeighborDiscovery::solicited_node_multicast(target2);
    let expected2 = Ipv6Addr::new(0xff02, 0, 0, 0, 0, 0x0001, 0xff00, 1);
    assert_eq!(multicast2, expected2);

    let target3 = Ipv6Addr::new(0xfe80, 0, 0, 0, 1, 2, 0x3456, 0x789a);
    let multicast3 = Icmpv6NeighborDiscovery::solicited_node_multicast(target3);
    assert_eq!(multicast3, Ipv6Addr::new(0xff02, 0, 0, 0, 0, 1, 0xff56, 0x789a));
}

#[test]
fn test_icmpv6_neighbor_discovery_skips_multicast() {
    let ndp = Icmpv6NeighborDiscovery::new(unspecified_v6(), SECOND, 2, Ok(3)).unwrap();

    // Test with multicast address - should return Unknown
    let multicast_target = target_v6(Ipv6Addr::new(0xff02, 0, 0, 0, 0, 0, 0, 1));
    assert!(matches!(ndp.discover(&multicast_target), Discovery::Settled(HostState::Unknown)));

    // Test with loopback address - should return Up
    let loopback_target = target_v6(localhost_v6());
    assert!(matches!(ndp.discover(&loopback_target), Discovery::Settled(HostState::Up)));
}

#[test]
fn test_host_discovery_ipv6_methods() {
    let discovery = HostDiscovery::new(ping_config(&ScanConfig::default()));

    let mut chain = discovery.discover(&target_v6(localhost_v6()));
    assert_eq!(chain.next(), Some(DiscoveryMethod::Icmpv6Echo));
    chain.tried(Ok(HostState::Down));
    assert_eq!(chain.next(), Some(DiscoveryMethod::NeighborDiscovery));
    chain.tried(Ok(HostState::Unknown));
    assert_eq!(chain.next(), Some(DiscoveryMethod::TcpSynV6));
    chain.tried(Ok(HostState::Down));
    assert_eq!(chain.next(), None);
    assert_eq!(chain.finish().unwrap(), HostState::Down);
}

#[test]
fn chains_for_ipv4() {
    let discovery = HostDiscovery::new(ping_config(&ScanConfig::default()));
    let mut chain = discovery.discover(&target_v4(10, 0, 0, 1));
    let mut order = Vec::new();
    while let Some(method) = chain.next() {
        order.push(method);
        chain.tried(Ok(HostState::Down));
    }
    assert_eq!(
        order,
        [
            DiscoveryMethod::IcmpEcho,
            DiscoveryMethod::IcmpTimestamp,
            DiscoveryMethod::TcpSyn,
            DiscoveryMethod::TcpAck
        ]
    );

    let mut up = discovery.discover_icmp();
    up.tried(Ok(HostState::Up));
    assert_eq!(up.next(), None);
    assert_eq!(up.finish().unwrap(), HostState::Up);

    let mut failed = discovery.discover_tcp_ping();
    failed.tried(Err(ScanError::PermissionDenied { operation: "x".to_string() }));
    assert_eq!(failed.next(), None);
    assert!(failed.finish().is_err());

    assert_eq!(discovery.discover_arp().next(), Some(DiscoveryMethod::Arp));
    assert_eq!(discovery.discover_icmpv6().next(), Some(DiscoveryMethod::Icmpv6Echo));
    assert_eq!(discovery.discover_tcp_ping_v6().next(), Some(DiscoveryMethod::TcpSynV6));
}

#[test]
fn the_pings_of_the_engine() {
    let discovery = HostDiscovery::new(ping_config(&ScanConfig::default()));
    let here = discovery.get_local_ipv4_address(Some(IpAddr::V4(Ipv4Addr::new(10, 0, 0, 9))));
    assert_eq!(here, Ipv4Addr::new(10, 0, 0, 9));
    assert_eq!(
        discovery.get_local_ipv4_address(Some(IpAddr::V6(localhost_v6()))),
        Ipv4Addr::new(0, 0, 0, 0)
    );
    assert_eq!(discovery.get_local_ipv4_address(None), Ipv4Addr::new(0, 0, 0, 0));
    let rtt = discovery.config.initial_rtt;
    let syn = discovery.tcp_syn_ping(here, Ok(4)).unwrap();
    assert_eq!((syn.ports, syn.timeout, syn.retries), (vec![80, 443, 22], rtt, 2));
    let ack = discovery.tcp_ack_ping(here, Ok(4)).unwrap();
    assert_eq!(ack.local_addr, here);
    assert_eq!(discovery.echo_ping(here, 0x12345, Ok(4)).unwrap().identifier, 0x2345);
    assert_eq!(discovery.timestamp_ping(here, 0x12345, Ok(4)).unwrap().identifier, 0x2345);
    assert_eq!(discovery.echo_ping_v6(9, Ok(4)).unwrap().local_addr, unspecified_v6());
    assert_eq!(discovery.neighbor_discovery(Ok(4)).unwrap().socket, 4);
    assert_eq!(discovery.tcp_syn_ping_v6(Ok(4)).unwrap().ports, [80, 443, 22]);
    let socket = ArpSocket { fd: 3, if_index: 2 };
    let arp = discovery.arp_ping(here, None, Ok(socket)).unwrap();
    assert_eq!(arp.src_mac.bytes(), [255; 6]);
    let (batch, timeout) = discovery.discover_arp_batch(here, Some(src_mac()), Ok(socket)).unwrap();
    assert_eq!(batch.src_mac, src_mac());
    assert_eq!(timeout, rtt);
    assert!(discovery
        .discover_arp_batch(
            here,
            None,
            Err(ScanError::PermissionDenied { operation: "no".to_string() })
        )
        .is_err());
}

#[test]
fn no_raw_socket_no_ping() {
    let denied = || Err(os_error(OsErrorKind::Other, "Operation not permitted"));
    let here = Ipv4Addr::new(10, 0, 0, 9);
    match TcpSynPing::new(here, vec![], SECOND, 2, denied()) {
        Err(ScanError::PermissionDenied { operation }) => {
            assert_eq!(operation, "create raw socket: Operation not permitted");
        }
        other => panic!("unexpected {other:?}"),
    }
    assert!(IcmpPing::new(here, SECOND, 2, 1, denied()).is_err());
    assert!(Icmpv6Ping::new(localhost_v6(), SECOND, 2, 1, denied()).is_err());
}

#[test]
fn the_wrong_ip_version_settles_nothing() {
    let here = Ipv4Addr::new(10, 0, 0, 9);
    let six = target_v6(Ipv6Addr::new(0x2001, 0xdb8, 0, 0, 0, 0, 0, 1));
    let four = target_v4(10, 0, 0, 1);
    let unknown = |d: Discovery| matches!(d, Discovery::Settled(HostState::Unknown));
    assert!(unknown(TcpSynPing::new(here, vec![], 1, 0, Ok(1)).unwrap().discover(&six)));
    assert!(unknown(TcpAckPing::new(here, vec![], 1, 0, Ok(1)).unwrap().discover(&six)));
    assert!(unknown(IcmpPing::new(here, 1, 0, 1, Ok(1)).unwrap().discover(&six)));
    assert!(unknown(IcmpTimestampPing::new(here, 1, 0, 1, Ok(1)).unwrap().discover(&six)));
    assert!(unknown(Icmpv6Ping::new(localhost_v6(), 1, 0, 1, Ok(1)).unwrap().discover(&four)));
    assert!(unknown(TcpSynPingV6::new(localhost_v6(), vec![], 1, 0, Ok(1))
        .unwrap()
        .discover(&four)));
    let socket = ArpSocket { fd: 3, if_index: 2 };
    let arp = ArpPing::new(src_mac(), here, 1, 0, Ok(socket)).unwrap();
    assert!(unknown(arp.discover(&six)));
    assert!(unknown(arp.discover(&target_v4(10, 0, 1, 1))));
    assert!(matches!(arp.discover(&four), Discovery::Probe(_)));
}

#[test]
fn a_run_probes_each_port_and_retries() {
    let mut run = PingRun::new(vec![80, 443], 1);
    let mut probes = Vec::new();
    while let Some(probe) = run.next() {
        probes.push(probe);
        run.answered(Ok(false));
    }
    assert_eq!(probes, [(80, 0), (80, 1), (443, 0), (443, 1)]);
    assert_eq!(run.finish().unwrap(), HostState::Down);

    let mut run = PingRun::new(vec![80, 443], 1);
    run.answered(Ok(false));
    run.answered(Ok(true));
    assert_eq!(run.next(), None);
    assert_eq!(run.finish().unwrap(), HostState::Up);

    let mut run = PingRun::new(vec![80], 255);
    run.answered(Err(ScanError::PermissionDenied { operation: "x".to_string() }));
    assert_eq!(run.next(), None);
    assert!(run.finish().is_err());

    assert_eq!(PingRun::new(vec![], 3).next(), None);
}

#[test]
fn answers_to_a_syn() {
    let ping = TcpSynPing::new(Ipv4Addr::new(10, 0, 0, 9), vec![], SECOND, 0, Ok(3)).unwrap();
    let probe = ping.send_syn_probe(Ipv4Addr::new(10, 0, 0, 1), 80, 4321, 0xffff_ffff_0000_0000);
    assert_eq!(probe.src_port, 60321);
    assert_eq!(probe.seq, 4321);
    assert_eq!((probe.flags, probe.window), (0x02, 65535));
    let answer = |flags, ack, src_port| {
        let response = TcpResponse { flags, seq: 0, ack, src_port };
        TcpSynPing::syn_answer(&probe, ProbeEvent::Received(Some(response))).unwrap()
    };
    assert!(answer(0x12, 4322, 80));
    assert!(answer(0x04, 4322, 80));
    assert!(answer(0x14, 4322, 80));
    assert!(!answer(0x02, 4322, 80));
    assert!(!answer(0x10, 4322, 80));
    assert!(!answer(0x12, 4321, 80));
    assert!(!answer(0x12, 4322, 81));
    assert!(!TcpSynPing::syn_answer(&probe, ProbeEvent::Received(None)).unwrap());
    let failed = |kind| ProbeEvent::ReceiveFailed(os_error(kind, "e"));
    assert!(!TcpSynPing::syn_answer(&probe, failed(OsErrorKind::WouldBlock)).unwrap());
    assert!(!TcpSynPing::syn_answer(&probe, failed(OsErrorKind::TimedOut)).unwrap());
    assert!(matches!(
        TcpSynPing::syn_answer(&probe, failed(OsErrorKind::Other)),
        Err(ScanError::Network(NetworkError::ReceiveError { .. }))
    ));
    assert!(matches!(
        TcpSynPing::syn_answer(&probe, ProbeEvent::SendFailed(os_error(OsErrorKind::Other, "e"))),
        Err(ScanError::Network(NetworkError::SendError { .. }))
    ));
}

#[test]
fn the_acknowledgment_wraps_around() {
    let ping = TcpSynPing::new(Ipv4Addr::new(10, 0, 0, 9), vec![], SECOND, 0, Ok(3)).unwrap();
    let probe = ping.send_syn_probe(Ipv4Addr::new(10, 0, 0, 1), 80, 0, 0xffff_ffff);
    assert_eq!(probe.seq, u32::MAX);
    let response = TcpResponse { flags: 0x12, seq: 0, ack: 0, src_port: 80 };
    assert!(TcpSynPing::syn_answer(&probe, ProbeEvent::Received(Some(response))).unwrap());
}

#[test]
fn answers_to_an_ack() {
    let ping = TcpAckPing::new(Ipv4Addr::new(10, 0, 0, 9), vec![8080], SECOND, 0, Ok(3)).unwrap();
    assert_eq!(ping.ports, [8080]);
    let probe = ping.send_ack_probe(Ipv4Addr::new(10, 0, 0, 1), 8080, 1, 2);
    assert_eq!(probe.flags, 0x10);
    let answer = |flags, src_port| {
        let response = TcpResponse { flags, seq: 0, ack: 0, src_port };
        TcpAckPing::ack_answer(&probe, ProbeEvent::Received(Some(response))).unwrap()
    };
    assert!(answer(0x04, 8080));
    assert!(!answer(0x12, 8080));
    assert!(!answer(0x04, 80));
}

#[test]
fn answers_to_an_echo_request() {
    let ping = IcmpPing::new(Ipv4Addr::new(10, 0, 0, 9), SECOND, 0, 77, Ok(3)).unwrap();
    let probe = ping.send_echo_probe(Ipv4Addr::new(10, 0, 0, 1), 2);
    assert_eq!((probe.identifier, probe.sequence), (77, 2));
    assert!(ping.echo_answer(2, ProbeEvent::Received(Some((77, 2)))).unwrap());
    assert!(!ping.echo_answer(2, ProbeEvent::Received(Some((78, 2)))).unwrap());
    assert!(!ping.echo_answer(2, ProbeEvent::Received(Some((77, 1)))).unwrap());
    assert!(!ping.echo_answer(2, ProbeEvent::Received(None)).unwrap());
    let stamp = IcmpTimestampPing::new(Ipv4Addr::new(10, 0, 0, 9), SECOND, 0, 77, Ok(3)).unwrap();
    assert_eq!(stamp.send_timestamp_probe(Ipv4Addr::new(10, 0, 0, 1), 5).sequence, 5);
    assert!(stamp.timestamp_answer(5, ProbeEvent::Received(Some((77, 5)))).unwrap());
}

#[test]
fn echo_over_ipv6() {
    let here = Ipv6Addr::new(0x2001, 0xdb8, 0, 0, 0, 0, 0, 9);
    let there = Ipv6Addr::new(0x2001, 0xdb8, 0, 0, 0, 0, 0, 1);
    let ping = Icmpv6Ping::new(here, SECOND, 0, 0x0102, Ok(3)).unwrap();
    let packet = ping.send_echo_probe(there, 0x0304);
    assert_eq!(packet.len(), 48);
    assert_eq!(packet[..8], [0x60, 0, 0, 0, 0, 8, 58, 255]);
    assert_eq!(packet[40..42], [128, 0]);
    assert_eq!(packet[44..], [1, 2, 3, 4]);
    assert_eq!(ipv6_sum(&packet), 0xffff);
    // The request itself is no answer.
    assert!(!ping.echo_answer(0x0304, ProbeEvent::Received(packet.clone())).unwrap());
    let mut reply = packet;
    reply[40] = 129;
    assert_eq!(parse_icmpv6_echo_reply(&reply), Some((0x0102, 0x0304)));
    assert!(ping.echo_answer(0x0304, ProbeEvent::Received(reply.clone())).unwrap());
    assert!(!ping.echo_answer(0x0305, ProbeEvent::Received(reply.clone())).unwrap());
    assert_eq!(parse_icmpv6_echo_reply(&reply[..47]), None);
    reply[0] = 0x40;
    assert_eq!(parse_icmpv6_echo_reply(&reply), None);
}

#[test]
fn neighbor_solicitation_and_advertisement() {
    let here = unspecified_v6();
    let there = Ipv6Addr::new(0xfe80, 0, 0, 0, 0, 0, 0x12ab, 0xcdef);
    let ndp = Icmpv6NeighborDiscovery::new(here, SECOND, 0, Ok(3)).unwrap();
    let (to, packet) = ndp.send_neighbor_solicitation(there);
    assert_eq!(to, Ipv6Addr::new(0xff02, 0, 0, 0, 0, 1, 0xffab, 0xcdef));
    assert_eq!(packet.len(), 64);
    assert_eq!(packet[40], 135);
    assert_eq!(packet[48..64], there.octets());
    assert_eq!(ipv6_sum(&packet), 0xffff);
    assert_eq!(parse_icmpv6_neighbor_advertisement(&packet), None);

    let mut reply = packet;
    reply[40] = 136;
    assert_eq!(parse_icmpv6_neighbor_advertisement(&reply), Some((there, None)));
    assert!(Icmpv6NeighborDiscovery::advertisement_answer(
        there,
        ProbeEvent::Received(reply.clone())
    )
    .unwrap());
    assert!(!Icmpv6NeighborDiscovery::advertisement_answer(
        here,
        ProbeEvent::Received(reply.clone())
    )
    .unwrap());
    reply.extend_from_slice(&[2, 1, 10, 11, 12, 13, 14]);
    assert_eq!(parse_icmpv6_neighbor_advertisement(&reply), Some((there, None)));
    reply.push(15);
    let mac = MacAddr::new([10, 11, 12, 13, 14, 15]);
    assert_eq!(parse_icmpv6_neighbor_advertisement(&reply), Some((there, Some(mac))));
    reply.push(0);
    assert_eq!(parse_icmpv6_neighbor_advertisement(&reply), Some((there, Some(mac))));
    reply[65] = 2;
    assert_eq!(parse_icmpv6_neighbor_advertisement(&reply), Some((there, None)));
}

#[test]
fn an_advertisement_with_one_option() {
    let mut p = [0u8; 72];
    p[0] = 0x60;
    p[6] = 58;
    p[40] = 136;
    p[48] = 0xfe;
    p[49] = 0x80;
    p[63] = 1;
    p[64] = 2;
    p[65] = 1;
    p[66..72].copy_from_slice(&[0x00, 0x11, 0x22, 0x33, 0x44, 0x55]);
    let target = Ipv6Addr::new(0xfe80, 0, 0, 0, 0, 0, 0, 1);
    let mac = MacAddr::new([0x00, 0x11, 0x22, 0x33, 0x44, 0x55]);
    assert_eq!(parse_icmpv6_neighbor_advertisement(&p), Some((target, Some(mac))));
    p[64] = 1;
    assert_eq!(parse_icmpv6_neighbor_advertisement(&p), Some((target, None)));
    p[64] = 2;
    p[65] = 0;
    assert_eq!(parse_icmpv6_neighbor_advertisement(&p), Some((target, None)));
}

#[test]
fn syn_over_ipv6() {
    let here = Ipv6Addr::new(0x2001, 0xdb8, 0, 0, 0, 0, 0, 9);
    let there = Ipv6Addr::new(0x2001, 0xdb8, 0, 0, 0, 0, 0, 1);
    let ping = TcpSynPingV6::new(here, vec![], SECOND, 0, Ok(3)).unwrap();
    let (seq, packet) = ping.send_syn_probe(there, 443, 1001, 0x1_0000_0005);
    assert_eq!(seq, 1006);
    assert_eq!(packet.len(), 60);
    assert_eq!(packet[..8], [0x60, 0, 0, 0, 0, 20, 6, 64]);
    assert_eq!(packet[40..44], [0xea, 0x61, 1, 187]);
    assert_eq!(packet[52..54], [0x50, 0x02]);
    assert_eq!(ipv6_sum(&packet), 0xffff);
    assert_eq!(parse_tcpv6_response(&packet), Some((0x02, 1006, 0, 60001)));
    assert!(!TcpSynPingV6::syn_answer(60001, u32::MAX, ProbeEvent::Received(packet)).unwrap());

    let mut answer =
        Tcpv6PacketBuilder::new(there, here, 443, 60001).seq(9).syn().ack_flag().window(7).build();
    answer[48..52].copy_from_slice(&1007u32.to_be_bytes());
    assert!(TcpSynPingV6::syn_answer(443, seq, ProbeEvent::Received(answer.clone())).unwrap());
    assert!(!TcpSynPingV6::syn_answer(80, seq, ProbeEvent::Received(answer.clone())).unwrap());
    assert_eq!(parse_tcpv6_response(&answer[..59]), None);
    answer[6] = 17;
    assert_eq!(parse_tcpv6_response(&answer), None);
}

#[test]
fn a_solicitation_without_a_target() {
    let packet = Icmpv6PacketBuilder::neighbor_solicitation(unspecified_v6(), localhost_v6())
        .identifier(1)
        .sequence(2)
        .build();
    assert_eq!(packet.len(), 48);
    assert_eq!(packet[44..], [0, 0, 0, 0]);
    assert_eq!(ipv6_sum(&packet), 0xffff);
}

#[test]
fn source_ports_and_sequence_numbers() {
    assert_eq!(generate_source_port(0), 60000);
    assert_eq!(generate_source_port(12999), 60999);
    assert_eq!(generate_sequence_number(u128::MAX, 1), 0);
}

fn entry(name: Option<&str>, addr: Option<Ipv4Addr>) -> InterfaceEntry {
    InterfaceEntry { name: name.map(str::to_string), addr, netmask: None }
}

#[test]
fn opening_a_socket_for_arp() {
    let here = Ipv4Addr::new(192, 168, 1, 100);
    let entries = vec![
        entry(Some("lo"), Some(Ipv4Addr::new(127, 0, 0, 1))),
        entry(None, Some(here)),
        entry(Some("eth0"), Some(here)),
        entry(Some("eth1"), Some(here)),
    ];
    assert_eq!(find_interface_name(&entries, here), Some(&"eth0".to_string()));
    assert_eq!(arp_interface(&entries, here).unwrap(), "eth0");
    match arp_interface(&entries, Ipv4Addr::new(10, 20, 30, 40)) {
        Err(ScanError::PermissionDenied { operation }) => {
            assert_eq!(operation, "cannot find network interface for 10.20.30.40");
        }
        other => panic!("unexpected {other:?}"),
    }
    match arp_interface(&vec![entry(Some("a\0b"), Some(here))], here) {
        Err(ScanError::PermissionDenied { operation }) => {
            assert_eq!(operation, "invalid interface name: a\0b");
        }
        other => panic!("unexpected {other:?}"),
    }
    let e = os_error(OsErrorKind::Other, "why");
    assert_eq!(arp_socket("eth0", 2, &e, 5, &e).unwrap(), ArpSocket { fd: 5, if_index: 2 });
    match arp_socket("eth0", 0, &e, 5, &e) {
        Err(ScanError::PermissionDenied { operation }) => {
            assert_eq!(operation, "cannot get interface index for eth0: why");
        }
        other => panic!("unexpected {other:?}"),
    }
    match arp_socket("eth0", 2, &e, -1, &e) {
        Err(ScanError::PermissionDenied { operation }) => {
            assert_eq!(operation, "cannot create AF_PACKET socket: why");
        }
        other => panic!("unexpected {other:?}"),
    }
}

#[test]
fn arp_requests_and_answers() {
    let here = Ipv4Addr::new(192, 168, 1, 100);
    let there = Ipv4Addr::new(192, 168, 1, 1);
    let socket = ArpSocket { fd: 3, if_index: 2 };
    let ping = ArpPing::new(src_mac(), here, SECOND, 0, Ok(socket)).unwrap();
    let request = ping.send_arp_probe(there);
    assert_eq!(request.target_ip, there);
    assert_eq!(request.destination.ifindex, 2);
    assert_eq!(request.destination.addr.bytes(), [255; 6]);
    assert_eq!(request.destination.protocol, 0x0806);
    let batch =
        ArpPingBatch::new(src_mac(), here, Ok(ArpSocket { fd: 3, if_index: u32::MAX })).unwrap();
    assert_eq!(batch.send_arp_request(there).destination.ifindex, 0);
    let reply = |ip| ProbeEvent::Received(Some((src_mac(), ip)));
    assert!(ArpPing::arp_answer(there, reply(there)).unwrap());
    assert!(!ArpPing::arp_answer(there, reply(here)).unwrap());
    assert!(!ArpPing::arp_answer(there, ProbeEvent::Received(None)).unwrap());
    assert!(matches!(
        ArpPing::arp_answer(there, ProbeEvent::TimeoutNotSet(os_error(OsErrorKind::TimedOut, ""))),
        Err(ScanError::Network(NetworkError::ReceiveError { .. }))
    ));
}

#[test]
fn a_batch_asks_in_bursts_of_fifty() {
    let targets: Vec<Ipv4Addr> = (1..=120).map(|d| Ipv4Addr::new(10, 0, 0, d)).collect();
    let mut run = ArpBatchRun::discover_batch(targets.clone(), 200_000_000);
    let mut sent: Vec<Ipv4Addr> = Vec::new();
    let mut bursts = Vec::new();
    let mut waits = Vec::new();
    loop {
        match run.next() {
            ArpAction::Send(ip) => {
                sent.push(ip);
                run.sent(Ok(())).unwrap();
            }
            ArpAction::Drain { pause } => {
                bursts.push((sent.len(), pause));
                let replies = if sent.len() == 100 { targets[..60].to_vec() } else { Vec::new() };
                run.drained(&replies);
            }
            ArpAction::Poll { wait } => {
                waits.push(wait);
                assert_eq!(run.poll_replies_with_limit(200_000_000), Some(100));
                assert_eq!(run.poll_replies_with_limit(30_500_000), Some(30));
                assert_eq!(run.poll_replies_with_limit(0), None);
                run.replied(&vec![targets[119], targets[119]]);
                run.polled();
            }
            ArpAction::Done => break,
        }
    }
    // 60 of them reply in the first bursts and one more later; the other 59 are asked
    // in each of the three rounds.
    assert_eq!(sent[..120], targets[..]);
    assert_eq!(sent[120..179], targets[60..119]);
    assert_eq!(sent[179..], targets[60..119]);
    assert_eq!(
        bursts,
        [
            (50, true),
            (100, true),
            (120, false),
            (170, false),
            (179, false),
            (229, false),
            (238, false),
            (238, false),
        ]
    );
    assert_eq!(waits, [100_000_000, 50_000_000, 50_000_000]);
    assert_eq!(run.finish().len(), 61);
}

#[test]
fn a_batch_asks_silent_targets_again() {
    let targets = vec![Ipv4Addr::new(10, 0, 0, 1), Ipv4Addr::new(10, 0, 0, 2)];
    let mut run = ArpBatchRun::discover_batch(targets.clone(), 2_000_000_000);
    let mut sent = Vec::new();
    let mut waits = Vec::new();
    loop {
        match run.next() {
            ArpAction::Send(ip) => {
                sent.push(ip);
                run.sent(Ok(())).unwrap();
            }
            ArpAction::Drain { .. } => {
                let replies = if sent.len() == 2 { vec![targets[0]] } else { Vec::new() };
                run.drained(&replies);
            }
            ArpAction::Poll { wait } => {
                waits.push(wait);
                run.polled();
            }
            ArpAction::Done => break,
        }
    }
    assert_eq!(sent, [targets[0], targets[1], targets[1], targets[1]]);
    assert_eq!(waits, [1_000_000_000, 500_000_000, 500_000_000]);
    assert_eq!(run.finish(), [targets[0]]);
}

#[test]
fn a_batch_ends_when_all_have_replied() {
    let targets = vec![Ipv4Addr::new(10, 0, 0, 1)];
    let mut run = ArpBatchRun::discover_batch(targets.clone(), SECOND);
    run.sent(Ok(())).unwrap();
    run.drained(&targets);
    assert_eq!(run.poll_replies_with_limit(SECOND), None);
    assert_eq!(run.next(), ArpAction::Drain { pause: false });
    run.drained(&Vec::new());
    assert_eq!(run.next(), ArpAction::Done);
    assert_eq!(run.finish(), targets);
    let empty = ArpBatchRun::discover_batch(Vec::new(), SECOND);
    assert_eq!(empty.next(), ArpAction::Drain { pause: false });
}

#[test]
fn a_batch_without_time_asks_three_times() {
    let target = Ipv4Addr::new(10, 0, 0, 1);
    let mut run = ArpBatchRun::discover_batch(vec![target], 0);
    let mut sent = 0;
    loop {
        match run.next() {
            ArpAction::Send(ip) => {
                assert_eq!(ip, target);
                sent += 1;
                run.sent(Ok(())).unwrap();
            }
            ArpAction::Drain { .. } => run.drained(&Vec::new()),
            ArpAction::Poll { wait } => {
                assert_eq!(wait, 0);
                run.polled();
            }
            ArpAction::Done => break,
        }
    }
    assert_eq!(sent, 3);
    assert!(run.finish().is_empty());
}

#[test]
fn a_request_that_cannot_be_sent() {
    let target = Ipv4Addr::new(10, 0, 0, 1);
    let mut run = ArpBatchRun::discover_batch(vec![target], SECOND);
    match run.sent(Err(os_error(OsErrorKind::Other, "down"))) {
        Err(ScanError::Network(NetworkError::SendError { source })) => {
            assert_eq!(source.message, "down");
        }
        _ => panic!("the failure was not reported"),
    }
    assert_eq!(run.next(), ArpAction::Send(target));
}

#[test]
fn failing_to_wait_for_replies() {
    let e = || os_error(OsErrorKind::Other, "poll");
    assert!(ArpBatchRun::poll_outcome(0, false, e()).is_ok());
    assert!(ArpBatchRun::poll_outcome(-1, true, e()).is_ok());
    assert!(matches!(
        ArpBatchRun::poll_outcome(-1, false, e()),
        Err(ScanError::Network(NetworkError::ReceiveError { .. }))
    ));
}
