//! The packet engine that reads with one system call per packet.
//!
//! The engine decides what each step of its life means; the socket calls
//! themselves are made by its user, who hands their results in.
use crate::addr::MacAddr;
use crate::engine::EngineStats;
use crate::error::{OsError, OsErrorKind, PacketError};
use crate::payload;
use crate::payload::bytes_to_vec;
use crate::text::joined;
use crate::zero_copy;
use crate::zero_copy::ZeroCopyPacket;
use bytes::Bytes;
use std::time::Instant;
use vstd::prelude::*;
use vstd::string::{StringExecFns, StringSliceAdditionalSpecFns};

verus! {

/// Largest packet that is received.
pub const MAX_PACKET_SIZE: usize = 65535;

/// Receive timeout of a new engine, in milliseconds.
pub const DEFAULT_RECV_TIMEOUT_MS: i32 = 100;

/// Address family of packet sockets.
pub const AF_PACKET: u16 = 17;

/// Number of bytes of an interface name in a request to the kernel.
pub const IFNAMSIZ: usize = 16;

/// Counters of the engine. They wrap around.
#[derive(Debug, Clone, Copy, PartialEq, Eq, Structural)]
pub struct RecvfromStats {
    /// Packets received.
    pub packets_received: u64,
    /// Packets sent.
    pub packets_sent: u64,
    /// Bytes received.
    pub bytes_received: u64,
    /// Bytes sent.
    pub bytes_sent: u64,
    /// Failed receives.
    pub receive_errors: u64,
    /// Failed sends.
    pub send_errors: u64,
}

impl Default for RecvfromStats {
    fn default() -> (r: Self)
        ensures
            r == (RecvfromStats {
                packets_received: 0,
                packets_sent: 0,
                bytes_received: 0,
                bytes_sent: 0,
                receive_errors: 0,
                send_errors: 0,
            }),
    {
        RecvfromStats {
            packets_received: 0,
            packets_sent: 0,
            bytes_received: 0,
            bytes_sent: 0,
            receive_errors: 0,
            send_errors: 0,
        }
    }
}

impl RecvfromStats {
    /// The counters as those of any engine. Nothing counts dropped packets here.
    pub open spec fn as_engine_stats(self) -> EngineStats {
        EngineStats {
            packets_received: self.packets_received,
            packets_sent: self.packets_sent,
            packets_dropped: 0,
            bytes_received: self.bytes_received,
            bytes_sent: self.bytes_sent,
            receive_errors: self.receive_errors,
            send_errors: self.send_errors,
        }
    }
}

/// A received packet.
#[derive(Debug)]
pub struct RecvfromPacket {
    data: Bytes,
    timestamp: Instant,
    captured_len: usize,
    original_len: usize,
}

impl RecvfromPacket {
    pub closed spec fn bytes(&self) -> Seq<u8> {
        payload::contents(self.data)
    }

    pub closed spec fn received_at(&self) -> Instant {
        self.timestamp
    }

    pub closed spec fn captured(&self) -> usize {
        self.captured_len
    }

    pub closed spec fn original(&self) -> usize {
        self.original_len
    }

    /// Creates a packet.
    #[must_use]
    pub fn new(data: Bytes, timestamp: Instant, captured_len: usize, original_len: usize) -> (r:
        Self)
        ensures
            r.bytes() == payload::contents(data),
            r.received_at() == timestamp,
            r.captured() == captured_len,
            r.original() == original_len,
    {
        Self { data, timestamp, captured_len, original_len }
    }

    /// The data.
    #[must_use]
    pub fn data(&self) -> (r: &Bytes)
        ensures
            payload::contents(*r) == self.bytes(),
    {
        &self.data
    }

    /// The number of bytes of data.
    #[must_use]
    pub fn len(&self) -> (r: usize)
        ensures
            r == self.bytes().len(),
    {
        self.data.len()
    }

    /// Whether there is no data.
    #[must_use]
    pub fn is_empty(&self) -> (r: bool)
        ensures
            r == (self.bytes().len() == 0),
    {
        self.data.is_empty()
    }

    /// The time of reception.
    #[must_use]
    pub fn timestamp(&self) -> (r: Instant)
        ensures
            r == self.received_at(),
    {
        self.timestamp
    }

    /// The number of bytes that were captured.
    #[must_use]
    pub fn captured_len(&self) -> (r: usize)
        ensures
            r == self.captured(),
    {
        self.captured_len
    }

    /// The number of bytes that the packet had on the wire.
    #[must_use]
    pub fn original_len(&self) -> (r: usize)
        ensures
            r == self.original(),
    {
        self.original_len
    }

    /// The data, without the rest.
    #[must_use]
    pub fn into_bytes(self) -> (r: Bytes)
        ensures
            payload::contents(r) == self.bytes(),
    {
        self.data
    }
}

impl Clone for RecvfromPacket {
    fn clone(&self) -> (r: Self)
        ensures
            r.bytes() == self.bytes(),
            r.received_at() == self.received_at(),
            r.captured() == self.captured(),
            r.original() == self.original(),
    {
        Self {
            data: self.data.clone(),
            timestamp: self.timestamp,
            captured_len: self.captured_len,
            original_len: self.original_len,
        }
    }
}

/// Address of an interface for a packet socket.
#[derive(Debug, Clone, Copy, PartialEq, Eq, Structural)]
pub struct LinkAddress {
    /// Address family.
    pub family: u16,
    /// Protocol, in host byte order.
    pub protocol: u16,
    /// Index of the interface.
    pub ifindex: i32,
}

/// A time span as the kernel takes it.
#[derive(Debug, Clone, Copy, PartialEq, Eq, Structural)]
pub struct TimeValue {
    /// Whole seconds.
    pub sec: i64,
    /// Microseconds.
    pub usec: i64,
}

/// What became of a receive that was handed to another thread.
#[derive(Debug)]
pub enum RecvTask {
    /// The time ran out first.
    Elapsed,
    /// The thread failed, for this reason.
    JoinFailed(String),
    /// The receive came back.
    Done(Result<Option<RecvfromPacket>, PacketError>),
}

/// The engine without its socket.
#[derive(Debug)]
pub struct RecvfromPacketEngine {
    interface: String,
    if_index: u32,
    mac_addr: MacAddr,
    started: bool,
    stats: RecvfromStats,
    recv_timeout: u128,
}

impl RecvfromPacketEngine {
    pub closed spec fn name(&self) -> Seq<char> {
        self.interface@
    }

    pub closed spec fn index(&self) -> u32 {
        self.if_index
    }

    pub closed spec fn mac(&self) -> MacAddr {
        self.mac_addr
    }

    pub closed spec fn running(&self) -> bool {
        self.started
    }

    pub closed spec fn counters(&self) -> RecvfromStats {
        self.stats
    }

    pub closed spec fn timeout_nanos(&self) -> u128 {
        self.recv_timeout
    }

    /// All but the counters and the running state is the same.
    pub open spec fn same_socket(&self, other: &Self) -> bool {
        self.name() == other.name() && self.index() == other.index() && self.mac() == other.mac()
            && self.timeout_nanos() == other.timeout_nanos()
    }

    /// The engine on an opened socket. It is not started and has counted nothing.
    #[must_use]
    pub fn opened(interface: String, if_index: u32, mac_addr: MacAddr, recv_timeout: u128) -> (r:
        Self)
        ensures
            r.name() == interface@,
            r.index() == if_index,
            r.mac() == mac_addr,
            r.timeout_nanos() == recv_timeout,
            !r.running(),
            r.counters() == (RecvfromStats {
                packets_received: 0,
                packets_sent: 0,
                bytes_received: 0,
                bytes_sent: 0,
                receive_errors: 0,
                send_errors: 0,
            }),
    {
        Self {
            interface,
            if_index,
            mac_addr,
            started: false,
            stats: RecvfromStats::default(),
            recv_timeout,
        }
    }

    /// The receive timeout of a new engine, in nanoseconds.
    #[must_use]
    pub fn default_timeout() -> (r: u128)
        ensures
            r == 100_000_000,
    {
        DEFAULT_RECV_TIMEOUT_MS as u128 * 1_000_000
    }

    /// What the creation of the socket came to.
    pub fn socket_outcome(fd: i32, os_error: OsError) -> (r: Result<i32, PacketError>)
        ensures
            r == if fd == -1 {
                Err::<i32, PacketError>(PacketError::SocketCreation(os_error))
            } else {
                Ok(fd)
            },
    {
        if fd == -1 {
            return Err(PacketError::SocketCreation(os_error));
        }
        Ok(fd)
    }

    /// The error for an interface name that cannot be handed to the kernel, with the
    /// reason behind it.
    #[must_use]
    pub fn invalid_name(interface: &str, reason: &str) -> (r: PacketError)
        ensures
            match r {
                PacketError::InvalidInterfaceName(m) => m@ == interface@ + ": "@ + reason@,
                _ => false,
            },
    {
        PacketError::InvalidInterfaceName(joined(interface, ": ").concat(reason))
    }

    /// What the lookup of the interface came to: index zero stands for none.
    pub fn get_interface_index(interface: &str, if_index: u32) -> (r: Result<u32, PacketError>)
        ensures
            match r {
                Ok(i) => if_index != 0 && i == if_index,
                Err(PacketError::InterfaceNotFound(n)) => if_index == 0 && n@ == interface@,
                Err(_) => false,
            },
    {
        if if_index == 0 {
            return Err(PacketError::InterfaceNotFound(interface.to_string()));
        }
        Ok(if_index)
    }

    /// The address to bind to.
    #[must_use]
    pub fn bind_address(if_index: u32) -> (r: LinkAddress)
        ensures
            r == (LinkAddress { family: 17, protocol: 3, ifindex: if_index as i32 }),
    {
        LinkAddress {
            family: AF_PACKET,
            protocol: crate::ETH_P_ALL,
            ifindex: #[verifier::truncate]
            (if_index as i32),
        }
    }

    /// What binding came to.
    pub fn bind_outcome(ret: i32, interface: &str, os_error: OsError) -> (r: Result<
        (),
        PacketError,
    >)
        ensures
            match r {
                Ok(_) => ret != -1,
                Err(PacketError::BindFailed { interface: n, source }) => ret == -1 && n@
                    == interface@ && source == os_error,
                Err(_) => false,
            },
    {
        if ret == -1 {
            return Err(
                PacketError::BindFailed { interface: interface.to_string(), source: os_error },
            );
        }
        Ok(())
    }

    /// The name field of a request to the kernel: the first sixteen bytes of the
    /// name, with zeros behind a shorter one.
    #[must_use]
    pub fn request_name(interface: &str) -> (r: Vec<u8>)
        ensures
            r@ == Seq::new(
                16,
                |i: int|
                    if i < interface.spec_bytes().len() {
                        interface.spec_bytes()[i]
                    } else {
                        0u8
                    },
            ),
    {
        let bytes = interface.as_bytes();
        let mut name: Vec<u8> = vec![0u8; IFNAMSIZ];
        let mut i: usize = 0;
        while i < bytes.len() && i < name.len()
            invariant
                name.len() == 16,
                i <= 16,
                i <= bytes.len(),
                bytes@ == interface.spec_bytes(),
                forall|j: int|
                    0 <= j < 16 ==> #[trigger] name@[j] == if j < i {
                        bytes@[j]
                    } else {
                        0u8
                    },
            decreases 16 - i,
        {
            name.set(i, bytes[i]);
            i += 1;
        }
        assert(name@ =~= Seq::new(
            16,
            |i: int|
                if i < interface.spec_bytes().len() {
                    interface.spec_bytes()[i]
                } else {
                    0u8
                },
        ));
        name
    }

    /// What the request for the hardware address came to: the first six bytes of the
    /// data that the kernel filled in, read without their sign.
    pub fn get_mac_address(ret: i32, interface: &str, sa_data: [i8; 14], os_error: OsError) -> (r:
        Result<MacAddr, PacketError>)
        ensures
            match r {
                Ok(m) => ret != -1 && m.octets() == Seq::new(6, |i: int| sa_data@[i] as u8),
                Err(PacketError::MacAddressFailed { interface: n, source }) => ret == -1 && n@
                    == interface@ && source == os_error,
                Err(_) => false,
            },
    {
        if ret == -1 {
            return Err(
                PacketError::MacAddressFailed {
                    interface: interface.to_string(),
                    source: os_error,
                },
            );
        }
        let m = MacAddr {
            b0: #[verifier::truncate]
            (sa_data[0] as u8),
            b1: #[verifier::truncate]
            (sa_data[1] as u8),
            b2: #[verifier::truncate]
            (sa_data[2] as u8),
            b3: #[verifier::truncate]
            (sa_data[3] as u8),
            b4: #[verifier::truncate]
            (sa_data[4] as u8),
            b5: #[verifier::truncate]
            (sa_data[5] as u8),
        };
        assert(m.octets() =~= Seq::new(6, |i: int| sa_data@[i] as u8));
        Ok(m)
    }

    /// The receive timeout as the kernel takes it: whole seconds and microseconds.
    #[must_use]
    pub fn timeout_value(timeout: u128) -> (r: TimeValue)
        requires
            timeout / 1_000_000_000 <= u64::MAX,
        ensures
            r.sec == (timeout / 1_000_000_000) as u64 as i64,
            timeout / 1_000_000_000 <= i64::MAX ==> r.sec == timeout / 1_000_000_000,
            r.usec == timeout % 1_000_000_000 / 1000,
    {
        TimeValue {
            sec: #[verifier::truncate]
            ((timeout / 1_000_000_000) as u64 as i64),
            usec: (timeout % 1_000_000_000 / 1000) as i64,
        }
    }

    /// What setting the receive timeout came to.
    pub fn timeout_outcome(ret: i32, os_error: OsError) -> (r: Result<(), PacketError>)
        ensures
            match r {
                Ok(_) => ret != -1,
                Err(PacketError::SocketOption { option, source }) => ret == -1 && option@
                    == "SO_RCVTIMEO"@ && source == os_error,
                Err(_) => false,
            },
    {
        if ret == -1 {
            return Err(
                PacketError::SocketOption { option: "SO_RCVTIMEO".to_string(), source: os_error },
            );
        }
        Ok(())
    }

    /// Starts the engine.
    pub fn start(&mut self) -> (r: Result<(), PacketError>)
        ensures
            final(self).running(),
            final(self).same_socket(old(self)),
            final(self).counters() == old(self).counters(),
            r == if old(self).running() {
                Err::<(), PacketError>(PacketError::AlreadyStarted)
            } else {
                Ok(())
            },
    {
        if self.started {
            return Err(PacketError::AlreadyStarted);
        }
        self.started = true;
        Ok(())
    }

    /// Stops the engine.
    pub fn stop(&mut self) -> (r: Result<(), PacketError>)
        ensures
            !final(self).running(),
            final(self).same_socket(old(self)),
            final(self).counters() == old(self).counters(),
            r == if old(self).running() {
                Ok::<(), PacketError>(())
            } else {
                Err(PacketError::NotStarted)
            },
    {
        if !self.started {
            return Err(PacketError::NotStarted);
        }
        self.started = false;
        Ok(())
    }

    /// Whether the socket may be used: only while the engine is started.
    pub fn ready(&self) -> (r: Result<(), PacketError>)
        ensures
            r == if self.running() {
                Ok::<(), PacketError>(())
            } else {
                Err(PacketError::NotStarted)
            },
    {
        if !self.started {
            return Err(PacketError::NotStarted);
        }
        Ok(())
    }

    /// What a receive came to: `received` is what the call returned and `buffer`
    /// what it was given to fill. `ready` is what the engine said before the call; that
    /// it has been stopped since does not matter.
    pub fn try_recv(
        &mut self,
        ready: Result<(), PacketError>,
        received: isize,
        buffer: Vec<u8>,
        os_error: OsError,
    ) -> (r: Result<Option<RecvfromPacket>, PacketError>)
        requires
            -1 <= received <= buffer.len(),
        ensures
            final(self).same_socket(old(self)),
            final(self).running() == old(self).running(),
            ready matches Err(e) ==> final(self).counters() == old(self).counters() && r == Err::<
                Option<RecvfromPacket>,
                PacketError,
            >(e),
            ready is Ok ==> if received == -1 {
                if os_error.kind == OsErrorKind::Other {
                    &&& r == Err::<Option<RecvfromPacket>, PacketError>(
                        PacketError::SocketCreation(os_error),
                    )
                    &&& final(self).counters() == (RecvfromStats {
                        receive_errors: old(self).counters().receive_errors.wrapping_add(1),
                        ..old(self).counters()
                    })
                } else {
                    &&& r == Ok::<Option<RecvfromPacket>, PacketError>(None)
                    &&& final(self).counters() == old(self).counters()
                }
            } else if received == 0 {
                &&& r == Ok::<Option<RecvfromPacket>, PacketError>(None)
                &&& final(self).counters() == old(self).counters()
            } else {
                &&& r matches Ok(Some(p))
                &&& p.bytes() == buffer@.take(received as int)
                &&& p.captured() == received
                &&& p.original() == received
                &&& final(self).counters() == (RecvfromStats {
                    packets_received: old(self).counters().packets_received.wrapping_add(1),
                    bytes_received: old(self).counters().bytes_received.wrapping_add(
                        received as u32 as u64,
                    ),
                    ..old(self).counters()
                })
            },
    {
        if let Err(e) = ready {
            return Err(e);
        }
        if received == -1 {
            if os_error.kind == OsErrorKind::WouldBlock || os_error.kind == OsErrorKind::TimedOut {
                return Ok(None);
            }
            self.stats.receive_errors = self.stats.receive_errors.wrapping_add(1);
            return Err(PacketError::SocketCreation(os_error));
        }
        if received == 0 {
            return Ok(None);
        }
        self.stats.packets_received = self.stats.packets_received.wrapping_add(1);
        self.stats.bytes_received =
        self.stats.bytes_received.wrapping_add(
            #[verifier::truncate]
            (received as u32) as u64,
        );
        let mut buffer = buffer;
        buffer.truncate(received as usize);
        let data = Bytes::from(buffer);
        Ok(
            Some(
                RecvfromPacket {
                    data,
                    timestamp: Instant::now(),
                    captured_len: received as usize,
                    original_len: received as usize,
                },
            ),
        )
    }

    /// What a send came to: `sent` is what the call returned. `ready` is what the engine
    /// said before the call; that it has been stopped since does not matter.
    pub fn try_send(
        &mut self,
        ready: Result<(), PacketError>,
        sent: isize,
        os_error: OsError,
    ) -> (r: Result<usize, PacketError>)
        requires
            -1 <= sent,
        ensures
            final(self).same_socket(old(self)),
            final(self).running() == old(self).running(),
            ready matches Err(e) ==> final(self).counters() == old(self).counters() && r == Err::<
                usize,
                PacketError,
            >(e),
            ready is Ok ==> if sent == -1 {
                &&& r == Err::<usize, PacketError>(PacketError::SocketCreation(os_error))
                &&& final(self).counters() == (RecvfromStats {
                    send_errors: old(self).counters().send_errors.wrapping_add(1),
                    ..old(self).counters()
                })
            } else {
                &&& r == Ok::<usize, PacketError>(sent as usize)
                &&& final(self).counters() == (RecvfromStats {
                    packets_sent: old(self).counters().packets_sent.wrapping_add(1),
                    bytes_sent: old(self).counters().bytes_sent.wrapping_add(sent as u32 as u64),
                    ..old(self).counters()
                })
            },
    {
        if let Err(e) = ready {
            return Err(e);
        }
        if sent == -1 {
            self.stats.send_errors = self.stats.send_errors.wrapping_add(1);
            return Err(PacketError::SocketCreation(os_error));
        }
        self.stats.packets_sent = self.stats.packets_sent.wrapping_add(1);
        self.stats.bytes_sent =
        self.stats.bytes_sent.wrapping_add(
            #[verifier::truncate]
            (sent as u32) as u64,
        );
        Ok(sent as usize)
    }

    /// What setting a filter came to.
    pub fn set_filter(ret: i32, os_error: &str) -> (r: Result<(), PacketError>)
        ensures
            match r {
                Ok(_) => ret != -1,
                Err(PacketError::BpfFilter(m)) => ret == -1 && m@ == os_error@,
                Err(_) => false,
            },
    {
        if ret == -1 {
            return Err(PacketError::BpfFilter(os_error.to_string()));
        }
        Ok(())
    }

    /// The counters.
    #[must_use]
    pub fn stats(&self) -> (r: RecvfromStats)
        ensures
            r == self.counters(),
    {
        self.stats
    }

    /// The interface.
    #[must_use]
    pub fn interface(&self) -> (r: &String)
        ensures
            r@ == self.name(),
    {
        &self.interface
    }

    /// The index of the interface.
    #[must_use]
    pub fn if_index(&self) -> (r: u32)
        ensures
            r == self.index(),
    {
        self.if_index
    }

    /// The hardware address of the interface.
    #[must_use]
    pub fn mac_addr(&self) -> (r: MacAddr)
        ensures
            r == self.mac(),
    {
        self.mac_addr
    }

    /// The receive timeout in nanoseconds.
    #[must_use]
    pub fn recv_timeout(&self) -> (r: u128)
        ensures
            r == self.timeout_nanos(),
    {
        self.recv_timeout
    }

    /// Whether the engine is started.
    #[must_use]
    pub fn is_started(&self) -> (r: bool)
        ensures
            r == self.running(),
    {
        self.started
    }

    /// The counters as those of any engine.
    #[must_use]
    pub fn stats_to_engine_stats(&self) -> (r: EngineStats)
        ensures
            r == self.counters().as_engine_stats(),
    {
        EngineStats {
            packets_received: self.stats.packets_received,
            packets_sent: self.stats.packets_sent,
            packets_dropped: 0,
            bytes_received: self.stats.bytes_received,
            bytes_sent: self.stats.bytes_sent,
            receive_errors: self.stats.receive_errors,
            send_errors: self.stats.send_errors,
        }
    }

    /// The packet with a copy of its data, and without VLAN information.
    #[must_use]
    pub fn recvfrom_to_zero_copy(packet: RecvfromPacket) -> (r: ZeroCopyPacket)
        ensures
            r@ == (zero_copy::PacketModel {
                data: packet.bytes(),
                timestamp: packet.received_at(),
                captured_len: packet.captured(),
                original_len: packet.original(),
                vlan_tci: None,
                vlan_tpid: None,
            }),
    {
        let timestamp = packet.timestamp();
        let captured_len: usize = packet.captured_len();
        let original_len: usize = packet.original_len();
        let bytes = packet.into_bytes();
        let data = bytes_to_vec(&bytes);
        ZeroCopyPacket::owned(data, timestamp, captured_len, original_len, None, None)
    }

    /// What a receive on another thread means: nothing when the time ran out, else
    /// what it brought back.
    pub fn recv(task: RecvTask) -> (r: Result<Option<ZeroCopyPacket>, PacketError>)
        ensures
            match task {
                RecvTask::Elapsed => r == Ok::<Option<ZeroCopyPacket>, PacketError>(None),
                RecvTask::JoinFailed(reason) => match r {
                    Err(PacketError::SocketCreation(e)) => e.kind == OsErrorKind::Other
                        && e.message@ == "spawn_blocking join error: "@ + reason@,
                    _ => false,
                },
                RecvTask::Done(Err(e)) => r == Err::<Option<ZeroCopyPacket>, PacketError>(e),
                RecvTask::Done(Ok(None)) => r == Ok::<Option<ZeroCopyPacket>, PacketError>(None),
                RecvTask::Done(Ok(Some(p))) => {
                    &&& r matches Ok(Some(z))
                    &&& z@ == (zero_copy::PacketModel {
                        data: p.bytes(),
                        timestamp: p.received_at(),
                        captured_len: p.captured(),
                        original_len: p.original(),
                        vlan_tci: None,
                        vlan_tpid: None,
                    })
                },
            },
    {
        match task {
            RecvTask::Elapsed => Ok(None),
            RecvTask::JoinFailed(reason) => Err(
                PacketError::SocketCreation(
                    OsError {
                        kind: OsErrorKind::Other,
                        message: joined("spawn_blocking join error: ", reason.as_str()),
                    },
                ),
            ),
            RecvTask::Done(Err(e)) => Err(e),
            RecvTask::Done(Ok(None)) => Ok(None),
            RecvTask::Done(Ok(Some(packet))) => Ok(Some(Self::recvfrom_to_zero_copy(packet))),
        }
    }

    /// What a send on another thread means.
    pub fn send(task: Result<Result<usize, PacketError>, String>) -> (r: Result<
        usize,
        PacketError,
    >)
        ensures
            match task {
                Ok(done) => r == done,
                Err(reason) => match r {
                    Err(PacketError::SocketCreation(e)) => e.kind == OsErrorKind::Other
                        && e.message@ == reason@,
                    _ => false,
                },
            },
    {
        match task {
            Ok(done) => done,
            Err(reason) => Err(
                PacketError::SocketCreation(OsError { kind: OsErrorKind::Other, message: reason }),
            ),
        }
    }

    /// Packets are sent at once, so there is nothing to flush.
    pub fn flush(&self) -> (r: Result<(), PacketError>)
        ensures
            r == Ok::<(), PacketError>(()),
    {
        Ok(())
    }
}

/// The counters are handed on as they are; no packet is known to have been dropped.
pub proof fn counters_are_handed_on(s: RecvfromStats)
    ensures
        s.as_engine_stats().packets_received == s.packets_received,
        s.as_engine_stats().packets_sent == s.packets_sent,
        s.as_engine_stats().bytes_received == s.bytes_received,
        s.as_engine_stats().bytes_sent == s.bytes_sent,
        s.as_engine_stats().receive_errors == s.receive_errors,
        s.as_engine_stats().send_errors == s.send_errors,
        s.as_engine_stats().packets_dropped == 0,
{
}

} // verus!
