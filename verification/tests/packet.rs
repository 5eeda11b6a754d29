//! Packet buffers and packet engines.
use bytes::Bytes;
use rustnmap::addr::MacAddr;
use rustnmap::async_engine::{
    AsyncPacketEngine, BackgroundReceiver, ReceiverAction, ReceiverEvent, CHANNEL_SIZE,
};
use rustnmap::engine::{EngineStats, PacketBuffer, RingConfig};
use rustnmap::error::{OsError, OsErrorKind, PacketError};
use rustnmap::recvfrom::{
    RecvTask, RecvfromPacket, RecvfromPacketEngine, RecvfromStats, DEFAULT_RECV_TIMEOUT_MS,
    MAX_PACKET_SIZE,
};
use rustnmap::unsupported::MmapPacketEngine;
use rustnmap::zero_copy::ZeroCopyPacket;
use rustnmap::{DEFAULT_BLOCK_NR, DEFAULT_BLOCK_SIZE, DEFAULT_BUFFER_SIZE, DEFAULT_FRAME_SIZE};
use std::time::Instant;

fn os_error(kind: OsErrorKind, message: &str) -> OsError {
    OsError { kind, message: message.to_string() }
}

fn mac() -> MacAddr {
    MacAddr::new([2, 0, 0, 0, 0, 1])
}

#[test]
fn test_channel_size() {
    assert_eq!(CHANNEL_SIZE, 1024);
}

#[test]
fn test_ring_config_default() {
    let config = RingConfig::default();
    assert_eq!(config.block_size, 65536);
    assert_eq!(config.block_nr, 64);
    assert_eq!(config.frame_size, 4096);
    assert_eq!(config.frame_timeout, 64);
    assert!(config.enable_rx);
    assert!(!config.enable_tx);
}

#[test]
fn test_ring_config_builder() {
    let config =
        RingConfig::new(8192, 128, 2048).with_frame_timeout(128).with_rx(true).with_tx(true);
    assert_eq!(config.block_size, 8192);
    assert_eq!(config.block_nr, 128);
    assert_eq!(config.frame_size, 2048);
    assert_eq!(config.frame_timeout, 128);
    assert!(config.enable_rx);
    assert!(config.enable_tx);
}

#[test]
fn test_ring_config_validate() {
    let config = RingConfig::default();
    config.validate(4096).unwrap();

    // Invalid: block_size not power of two
    let config = RingConfig { block_size: 65535, ..Default::default() };
    assert!(config.validate(4096).is_err());

    // Invalid: block_nr zero
    let config = RingConfig { block_nr: 0, ..Default::default() };
    assert!(config.validate(4096).is_err());
}

#[test]
fn each_problem_of_a_ring_config() {
    let problem = |c: RingConfig| match c.validate(4096) {
        Ok(()) => String::new(),
        Err(PacketError::InvalidConfig(m)) => m,
        Err(other) => panic!("unexpected {other:?}"),
    };
    let good = RingConfig::default();
    assert_eq!(problem(good), "");
    assert_eq!(
        problem(RingConfig { block_size: 0, ..good }),
        "block_size (0) must be a power of two"
    );
    assert_eq!(
        problem(RingConfig { block_size: 2048, ..good }),
        "block_size (2048) must be >= page size (4096)"
    );
    assert_eq!(problem(RingConfig { block_nr: 0, ..good }), "block_nr must be > 0");
    assert_eq!(
        problem(RingConfig { frame_size: 15, ..good }),
        "frame_size (15) must be >= TPACKET_ALIGNMENT (16)"
    );
    assert_eq!(
        problem(RingConfig { frame_size: 65537, ..good }),
        "frame_size (65537) must be <= block_size (65536)"
    );
}

#[test]
fn test_ring_config_total_size() {
    let config = RingConfig::default();
    assert_eq!(config.total_size(), 65536 * 64);
}

#[test]
fn test_ring_config_frames_per_block() {
    let config = RingConfig::default();
    assert_eq!(config.frames_per_block(), 65536 / 4096);
}

#[test]
fn test_engine_stats_default() {
    let stats = EngineStats::default();
    assert_eq!(stats.packets_received, 0);
    assert_eq!(stats.packets_sent, 0);
}

#[test]
fn test_engine_stats_new() {
    let stats = EngineStats::new();
    assert_eq!(stats.packets_received, 0);
    assert_eq!(stats.packets_sent, 0);
}

#[test]
fn test_packet_buffer_empty() {
    let buf = PacketBuffer::empty();
    assert!(buf.is_empty());
    assert_eq!(buf.len(), 0);
}

#[test]
fn test_packet_buffer_default() {
    let buf = PacketBuffer::default();
    assert!(buf.is_empty());
}

#[test]
fn test_packet_buffer_from_data() {
    let data = vec![1u8, 2, 3, 4, 5];
    let buf = PacketBuffer::from_data(data.clone());
    assert_eq!(buf.len(), 5);
    assert_eq!(buf.data(), &data[..]);
    assert_eq!(buf.captured_len(), 5);
    assert_eq!(buf.original_len(), 5);
}

#[test]
fn test_packet_buffer_from_vec() {
    let data = vec![1u8, 2, 3, 4, 5];
    let buf = PacketBuffer::from(data.clone());
    assert_eq!(buf.len(), 5);
    assert_eq!(buf.data(), &data[..]);
}

#[test]
fn test_packet_buffer_from_slice() {
    let data = vec![1u8, 2, 3, 4, 5];
    let buf = PacketBuffer::from(data.as_slice());
    assert_eq!(buf.len(), 5);
    assert_eq!(buf.data(), &data[..]);
}

#[test]
fn test_packet_buffer_with_capacity() {
    let buf = PacketBuffer::with_capacity(1024);
    assert_eq!(buf.len(), 1024);
    assert!(buf.data().iter().all(|&b| b == 0));
    assert_eq!(buf.captured_len(), 1024);
    assert_eq!(buf.original_len(), 1024);
}

#[test]
fn test_packet_buffer_clear() {
    let mut buf = PacketBuffer::with_capacity(100);
    assert_eq!(buf.len(), 100);
    buf.clear();
    assert!(buf.is_empty());
    assert_eq!(buf.len(), 0);
}

#[test]
fn test_packet_buffer_resize() {
    let mut buf = PacketBuffer::empty();
    buf.resize(50);
    assert_eq!(buf.len(), 50);
    buf.resize(100);
    assert_eq!(buf.len(), 100);
    buf.resize(25);
    assert_eq!(buf.len(), 25);
}

#[test]
fn test_packet_buffer_to_bytes() {
    let data = vec![1u8, 2, 3];
    let buf = PacketBuffer::from_data(data.clone());
    let bytes = buf.to_bytes();
    assert_eq!(&bytes[..], &data[..]);
}

#[test]
fn test_packet_buffer_into_vec() {
    let data = vec![1u8, 2, 3];
    let buf = PacketBuffer::from(data.clone());
    let vec = buf.into_vec();
    assert_eq!(&vec[..], &data[..]);
}

#[test]
fn test_packet_buffer_vlan() {
    let mut buf = PacketBuffer::empty();
    buf.set_vlan(1, 0x8100);
    assert_eq!(buf.vlan_tci(), Some(1));
    assert_eq!(buf.vlan_tpid(), Some(0x8100));
}

#[test]
fn resizing_keeps_what_fits() {
    let mut buf = PacketBuffer::from(vec![1u8, 2, 3]);
    buf.resize(5);
    assert_eq!(buf.data(), &[1u8, 2, 3, 0, 0][..]);
    buf.resize(2);
    assert_eq!(buf.data(), &[1u8, 2][..]);
    let copy = buf.clone();
    assert_eq!(copy.data(), buf.data());
    assert_eq!(copy.timestamp(), buf.timestamp());
}

#[test]
fn test_constants() {
    assert_eq!(DEFAULT_BUFFER_SIZE, 4 * 1024 * 1024);
    assert_eq!(DEFAULT_BLOCK_SIZE, 65536);
    assert_eq!(DEFAULT_FRAME_SIZE, 4096);
    assert_eq!(DEFAULT_BLOCK_NR, 256);
}

#[test]
fn test_max_packet_size() {
    assert_eq!(MAX_PACKET_SIZE, 65535);
}

#[test]
fn test_default_recv_timeout() {
    assert_eq!(DEFAULT_RECV_TIMEOUT_MS, 100);
}

#[test]
fn test_stats_default() {
    let stats = RecvfromStats::default();
    assert_eq!(stats.packets_received, 0);
    assert_eq!(stats.packets_sent, 0);
}

#[test]
fn test_stats_clone() {
    let mut stats = RecvfromStats::default();
    stats.packets_received += 10;
    stats.bytes_received += 1000;

    let cloned = stats.clone();
    assert_eq!(cloned.packets_received, 10);
    assert_eq!(cloned.bytes_received, 1000);
}

#[test]
fn test_recvfrom_packet_new() {
    let data = Bytes::from(vec![1u8, 2, 3, 4, 5]);
    let timestamp = Instant::now();
    let packet = RecvfromPacket::new(data.clone(), timestamp, 5, 5);

    assert_eq!(packet.data(), &data);
    assert_eq!(packet.len(), 5);
    assert!(!packet.is_empty());
    assert_eq!(packet.timestamp(), timestamp);
    assert_eq!(packet.captured_len(), 5);
    assert_eq!(packet.original_len(), 5);
}

#[test]
fn test_recvfrom_packet_empty() {
    let data = Bytes::new();
    let packet = RecvfromPacket::new(data, Instant::now(), 0, 0);

    assert!(packet.is_empty());
    assert_eq!(packet.len(), 0);
}

#[test]
fn test_recvfrom_packet_into_bytes() {
    let data = Bytes::from(vec![1u8, 2, 3, 4, 5]);
    let packet = RecvfromPacket::new(data.clone(), Instant::now(), 5, 5);

    let converted = packet.into_bytes();
    assert_eq!(converted, data);
}

#[test]
fn test_recvfrom_to_zero_copy_conversion() {
    let data = vec![1u8, 2, 3, 4, 5];
    let timestamp = Instant::now();
    let packet = RecvfromPacket::new(Bytes::from(data.clone()), timestamp, 5, 5);

    let zero_copy_packet = RecvfromPacketEngine::recvfrom_to_zero_copy(packet);
    assert_eq!(zero_copy_packet.len(), 5);
    assert_eq!(zero_copy_packet.captured_len(), 5);
    assert_eq!(zero_copy_packet.original_len(), 5);
    assert!(!zero_copy_packet.is_zero_copy());
    assert_eq!(zero_copy_packet.data(), &data[..]);
    assert_eq!(zero_copy_packet.timestamp(), timestamp);
}

#[test]
fn test_stats_to_engine_stats() {
    let mut engine = RecvfromPacketEngine::opened("eth0".to_string(), 2, mac(), 0);
    engine.start().unwrap();
    let none = || os_error(OsErrorKind::Other, "");
    engine.try_recv(engine.ready(), 3, vec![1, 2, 3, 4], none()).unwrap();
    engine.try_send(engine.ready(), 7, none()).unwrap();
    let stats = engine.stats_to_engine_stats();
    assert_eq!(stats.packets_received, 1);
    assert_eq!(stats.bytes_received, 3);
    assert_eq!(stats.packets_sent, 1);
    assert_eq!(stats.bytes_sent, 7);
    assert_eq!(stats.packets_dropped, 0);
}

#[test]
fn receiving_through_a_socket() {
    let mut engine = RecvfromPacketEngine::opened(
        "eth0".to_string(),
        2,
        mac(),
        RecvfromPacketEngine::default_timeout(),
    );
    assert_eq!(engine.recv_timeout(), 100_000_000);
    let error = |kind| os_error(kind, "reason");
    assert!(matches!(
        engine.try_recv(engine.ready(), 1, vec![9], error(OsErrorKind::Other)),
        Err(PacketError::NotStarted)
    ));
    engine.start().unwrap();
    assert!(matches!(engine.start(), Err(PacketError::AlreadyStarted)));
    let ready = engine.ready();
    let packet = engine.try_recv(ready, 2, vec![7, 8, 9], error(OsErrorKind::Other));
    let packet = packet.unwrap().unwrap();
    assert_eq!(packet.data(), &[7u8, 8][..]);
    assert!(engine.try_recv(engine.ready(), 0, vec![0], error(OsErrorKind::Other)).unwrap().is_none());
    assert!(engine.try_recv(engine.ready(), -1, vec![0], error(OsErrorKind::WouldBlock)).unwrap().is_none());
    assert!(engine.try_recv(engine.ready(), -1, vec![0], error(OsErrorKind::TimedOut)).unwrap().is_none());
    assert!(matches!(
        engine.try_recv(engine.ready(), -1, vec![0], error(OsErrorKind::Other)),
        Err(PacketError::SocketCreation(_))
    ));
    assert_eq!(engine.stats().receive_errors, 1);
    assert!(matches!(
        engine.try_send(engine.ready(), -1, error(OsErrorKind::Other)),
        Err(PacketError::SocketCreation(_))
    ));
    assert_eq!(engine.stats().send_errors, 1);
    // What came of a call is reported, though the engine was stopped meanwhile.
    let before = (engine.ready(), engine.ready());
    engine.stop().unwrap();
    let packet = engine.try_recv(before.0, 1, vec![5], error(OsErrorKind::Other));
    assert_eq!(packet.unwrap().unwrap().data(), &[5u8][..]);
    assert_eq!(engine.try_send(before.1, 4, error(OsErrorKind::Other)).unwrap(), 4);
    assert_eq!((engine.stats().packets_received, engine.stats().packets_sent), (2, 1));
    assert!(matches!(
        engine.try_send(engine.ready(), 4, error(OsErrorKind::Other)),
        Err(PacketError::NotStarted)
    ));
    assert!(matches!(engine.stop(), Err(PacketError::NotStarted)));
}

#[test]
fn opening_a_socket() {
    let error = || os_error(OsErrorKind::Other, "denied");
    assert!(matches!(
        RecvfromPacketEngine::socket_outcome(-1, error()),
        Err(PacketError::SocketCreation(_))
    ));
    assert_eq!(RecvfromPacketEngine::socket_outcome(5, error()).unwrap(), 5);
    match RecvfromPacketEngine::invalid_name("a\0b", "nul byte") {
        PacketError::InvalidInterfaceName(m) => assert_eq!(m, "a\0b: nul byte"),
        other => panic!("unexpected {other:?}"),
    }
    assert!(matches!(
        RecvfromPacketEngine::get_interface_index("eth9", 0),
        Err(PacketError::InterfaceNotFound(n)) if n == "eth9"
    ));
    assert!(matches!(
        RecvfromPacketEngine::bind_outcome(-1, "eth0", error()),
        Err(PacketError::BindFailed { .. })
    ));
    assert!(matches!(
        RecvfromPacketEngine::timeout_outcome(-1, error()),
        Err(PacketError::SocketOption { option, .. }) if option == "SO_RCVTIMEO"
    ));
    assert!(matches!(
        RecvfromPacketEngine::get_mac_address(-1, "eth0", [0; 14], error()),
        Err(PacketError::MacAddressFailed { .. })
    ));
    let mut data = [0i8; 14];
    data[0] = -1;
    data[5] = 16;
    let found = RecvfromPacketEngine::get_mac_address(0, "eth0", data, error()).unwrap();
    assert_eq!(found.bytes(), [255, 0, 0, 0, 0, 16]);
    assert_eq!(RecvfromPacketEngine::request_name("eth0")[..5], [101, 116, 104, 48, 0]);
    assert_eq!(RecvfromPacketEngine::request_name("a-name-that-is-too-long").len(), 16);
    let value = RecvfromPacketEngine::timeout_value(1_500_000_000);
    assert_eq!((value.sec, value.usec), (1, 500_000));
    assert_eq!(RecvfromPacketEngine::bind_address(4).ifindex, 4);
}

#[test]
fn receiving_on_another_thread() {
    assert!(RecvfromPacketEngine::recv(RecvTask::Elapsed).unwrap().is_none());
    match RecvfromPacketEngine::recv(RecvTask::JoinFailed("cancelled".to_string())) {
        Err(PacketError::SocketCreation(e)) => {
            assert_eq!(e.message, "spawn_blocking join error: cancelled");
        }
        other => panic!("unexpected {other:?}"),
    }
    let packet = RecvfromPacket::new(Bytes::from(vec![4u8]), Instant::now(), 1, 1);
    let got = RecvfromPacketEngine::recv(RecvTask::Done(Ok(Some(packet)))).unwrap().unwrap();
    assert_eq!(got.data(), &[4u8][..]);
    assert!(matches!(
        RecvfromPacketEngine::send(Err("gone".to_string())),
        Err(PacketError::SocketCreation(_))
    ));
    assert_eq!(RecvfromPacketEngine::send(Ok(Ok(3))).unwrap(), 3);
}

#[test]
fn the_background_receiver_drains_the_ring() {
    let mut engine = AsyncPacketEngine::opened("eth0", 2, mac());
    assert!(engine.start(Ok(())).unwrap());
    assert!(matches!(engine.start(Ok(())), Err(PacketError::AlreadyStarted)));
    let mut receiver = BackgroundReceiver::new();
    let a = engine.background_step(&mut receiver, ReceiverEvent::Continue);
    assert!(matches!(a, ReceiverAction::AwaitReadable));
    let a = engine.background_step(&mut receiver, ReceiverEvent::Readable);
    assert!(matches!(a, ReceiverAction::TakePacket));
    let packet = ZeroCopyPacket::owned(vec![1, 2, 3], Instant::now(), 3, 3, None, None);
    let a = engine.background_step(&mut receiver, ReceiverEvent::Taken(Ok(Some(packet))));
    assert!(matches!(a, ReceiverAction::Deliver(Ok(_))));
    let a = engine.background_step(&mut receiver, ReceiverEvent::Delivered);
    assert!(matches!(a, ReceiverAction::TakePacket));
    let a = engine.background_step(&mut receiver, ReceiverEvent::Taken(Ok(None)));
    assert!(matches!(a, ReceiverAction::ClearReady));
    let stats = engine.own_stats();
    assert_eq!((stats.packets_received, stats.bytes_received), (1, 3));
    assert_eq!(AsyncPacketEngine::stats(Some(stats), EngineStats::new()), stats);
    assert_eq!(AsyncPacketEngine::stats(None, EngineStats::new()), EngineStats::new());
    engine.stop().unwrap();
    let a = engine.background_step(&mut receiver, ReceiverEvent::Continue);
    assert!(matches!(a, ReceiverAction::Exit));
}

#[test]
fn the_background_receiver_ends_with_its_channel() {
    let mut receiver = BackgroundReceiver::new();
    let mut running = true;
    let mut stats = EngineStats::new();
    receiver.step(ReceiverEvent::Readable, &mut running, &mut stats);
    let packet = ZeroCopyPacket::owned(vec![1, 2, 3], Instant::now(), 3, 3, None, None);
    receiver.step(ReceiverEvent::Taken(Ok(Some(packet))), &mut running, &mut stats);
    assert_eq!((stats.packets_received, stats.bytes_received), (1, 3));
    let a = receiver.step(ReceiverEvent::ChannelClosed, &mut running, &mut stats);
    assert!(matches!(a, ReceiverAction::Exit));
    assert!(!running);
}

#[test]
fn the_background_receiver_hands_packets_on_in_order() {
    let mut receiver = BackgroundReceiver::new();
    let mut running = true;
    let mut stats = EngineStats::new();
    receiver.step(ReceiverEvent::Readable, &mut running, &mut stats);
    let mut lengths = Vec::new();
    for n in [3usize, 1, 2] {
        let packet = ZeroCopyPacket::owned(vec![0; n], Instant::now(), n, n, None, None);
        let taken = ReceiverEvent::Taken(Ok(Some(packet)));
        match receiver.step(taken, &mut running, &mut stats) {
            ReceiverAction::Deliver(Ok(p)) => lengths.push(p.len()),
            _ => panic!("the packet was not handed on"),
        }
        receiver.step(ReceiverEvent::Delivered, &mut running, &mut stats);
    }
    assert_eq!(lengths, vec![3, 1, 2]);
    assert_eq!((stats.packets_received, stats.bytes_received), (3, 6));
}

#[test]
fn the_background_receiver_ends_with_its_socket() {
    let mut receiver = BackgroundReceiver::new();
    let mut running = true;
    let mut stats = EngineStats::new();
    let failed = ReceiverEvent::ReadableFailed(os_error(OsErrorKind::Other, "gone"));
    match receiver.step(failed, &mut running, &mut stats) {
        ReceiverAction::Deliver(Err(PacketError::SocketOption { option, source })) => {
            assert_eq!((option.as_str(), source.message.as_str()), ("async_fd.readable", "gone"));
        }
        _ => panic!("the error was not handed on"),
    }
    let a = receiver.step(ReceiverEvent::Delivered, &mut running, &mut stats);
    assert!(matches!(a, ReceiverAction::Exit));
    assert!(!running);
}

#[test]
fn a_stopped_engine_hands_nothing_out() {
    let mut engine = AsyncPacketEngine::opened("eth0", 2, mac());
    let recv = AsyncPacketEngine::recv;
    let recv_timeout = AsyncPacketEngine::recv_timeout;
    assert!(matches!(recv(engine.check_running(), None), Err(PacketError::NotStarted)));
    assert!(matches!(recv_timeout(engine.check_running(), None), Err(PacketError::NotStarted)));
    assert!(matches!(engine.stop(), Err(PacketError::NotStarted)));
    assert!(!engine.start_no_background(Ok(())).unwrap());
    assert!(recv(engine.check_running(), None).unwrap().is_none());
    assert!(recv_timeout(engine.check_running(), None).unwrap().is_none());
    assert!(matches!(
        AsyncPacketEngine::dup_outcome(-1, os_error(OsErrorKind::Other, "dup")),
        Err(PacketError::FdDupFailed(_))
    ));
    assert_eq!(engine.interface_name(), "eth0");
    assert_eq!(engine.interface_index(), 2);
    assert_eq!(engine.mac_address(), mac());
}

#[test]
fn the_last_error_of_the_receiver_arrives() {
    let mut engine = AsyncPacketEngine::opened("eth0", 2, mac());
    assert!(engine.start(Ok(())).unwrap());
    let ready = engine.check_running();
    // While the caller waits, the receiver fails, hands its error on and ends.
    let mut receiver = BackgroundReceiver::new();
    let failed = ReceiverEvent::ReadableFailed(os_error(OsErrorKind::Other, "gone"));
    let handed_on = match engine.background_step(&mut receiver, failed) {
        ReceiverAction::Deliver(packet) => packet,
        _ => panic!("the error was not handed on"),
    };
    let a = engine.background_step(&mut receiver, ReceiverEvent::Delivered);
    assert!(matches!(a, ReceiverAction::Exit));
    assert!(matches!(engine.check_running(), Err(PacketError::NotStarted)));
    match AsyncPacketEngine::recv(ready, Some(handed_on)) {
        Err(PacketError::SocketOption { source, .. }) => assert_eq!(source.message, "gone"),
        _ => panic!("the error was lost"),
    }
    let late = AsyncPacketEngine::recv_timeout(Ok(()), Some(Some(Err(PacketError::NotStarted))));
    assert!(late.is_err());
    assert!(AsyncPacketEngine::recv_timeout(Ok(()), Some(None)).unwrap().is_none());
}

#[test]
fn other_platforms_are_not_supported() {
    assert!(matches!(
        MmapPacketEngine::new("eth0", RingConfig::default()),
        Err(PacketError::NotSupported(_))
    ));
}
