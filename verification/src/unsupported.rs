//! The engines on platforms without packet sockets: every operation is refused.
use crate::addr::MacAddr;
use crate::bpf::BpfProgram;
use crate::engine::{EngineStats, PacketBuffer, RingConfig};
use crate::error::PacketError;
use crate::payload;
use bytes::Bytes;
use vstd::prelude::*;

verus! {

/// The error of every operation here.
pub open spec fn is_unsupported(e: PacketError) -> bool {
    e matches PacketError::NotSupported(m) && m@ == "raw packet scanning requires Linux"@
}

/// Makes the error of every operation here.
pub fn unsupported() -> (r: PacketError)
    ensures
        is_unsupported(r),
{
    PacketError::NotSupported("raw packet scanning requires Linux".to_string())
}

/// Placeholder for the owner of a ring.
#[derive(Debug)]
pub struct RingRef;

/// Owned packet data.
#[derive(Debug)]
pub struct ZeroCopyPacket(Bytes);

impl ZeroCopyPacket {
    pub closed spec fn bytes(&self) -> Seq<u8> {
        payload::contents(self.0)
    }

    /// Returns packet bytes.
    #[must_use]
    pub fn data(&self) -> (r: &Bytes)
        ensures
            payload::contents(*r) == self.bytes(),
    {
        &self.0
    }
}

impl Clone for ZeroCopyPacket {
    fn clone(&self) -> (r: Self)
        ensures
            r.bytes() == self.bytes(),
    {
        ZeroCopyPacket(self.0.clone())
    }
}

/// Placeholder for the ring engine.
#[derive(Debug)]
pub struct MmapPacketEngine;

impl MmapPacketEngine {
    /// Reports that raw packet scanning is unavailable.
    pub fn new(_if_name: &str, _config: RingConfig) -> (r: Result<Self, PacketError>)
        ensures
            r matches Err(e) && is_unsupported(e),
    {
        Err(unsupported())
    }

    /// No packets are available on unsupported platforms.
    pub fn try_recv(&mut self) -> (r: Result<Option<PacketBuffer>, PacketError>)
        ensures
            r matches Err(e) && is_unsupported(e),
    {
        Err(unsupported())
    }

    /// No zero-copy packets are available on unsupported platforms.
    pub fn try_recv_zero_copy(&mut self) -> (r: Result<Option<ZeroCopyPacket>, PacketError>)
        ensures
            r matches Err(e) && is_unsupported(e),
    {
        Err(unsupported())
    }

    /// Cannot be started.
    pub fn start(&mut self) -> (r: Result<(), PacketError>)
        ensures
            r matches Err(e) && is_unsupported(e),
    {
        Err(unsupported())
    }

    /// Receives nothing.
    pub fn recv(&mut self) -> (r: Result<Option<ZeroCopyPacket>, PacketError>)
        ensures
            r matches Err(e) && is_unsupported(e),
    {
        Err(unsupported())
    }

    /// Sends nothing.
    pub fn send(&self, _packet: &[u8]) -> (r: Result<usize, PacketError>)
        ensures
            r matches Err(e) && is_unsupported(e),
    {
        Err(unsupported())
    }

    /// Cannot be stopped.
    pub fn stop(&mut self) -> (r: Result<(), PacketError>)
        ensures
            r matches Err(e) && is_unsupported(e),
    {
        Err(unsupported())
    }

    /// Has counted nothing.
    pub fn stats(&self) -> (r: EngineStats)
        ensures
            r == EngineStats::zero(),
    {
        EngineStats::default()
    }

    /// Flushes nothing.
    pub fn flush(&self) -> (r: Result<(), PacketError>)
        ensures
            r matches Err(e) && is_unsupported(e),
    {
        Err(unsupported())
    }

    /// Takes no filter.
    pub fn set_filter(&self, _filter: &BpfProgram) -> (r: Result<(), PacketError>)
        ensures
            r matches Err(e) && is_unsupported(e),
    {
        Err(unsupported())
    }
}

/// Placeholder for the asynchronous engine.
#[derive(Debug)]
pub struct AsyncPacketEngine;

impl AsyncPacketEngine {
    /// Reports that raw packet scanning is unavailable.
    pub fn new(_if_name: &str, _config: RingConfig) -> (r: Result<Self, PacketError>)
        ensures
            r matches Err(e) && is_unsupported(e),
    {
        Err(unsupported())
    }

    /// Reports that raw packet scanning is unavailable.
    pub fn start_no_background(&mut self) -> (r: Result<(), PacketError>)
        ensures
            r matches Err(e) && is_unsupported(e),
    {
        Err(unsupported())
    }

    /// Reports that raw packet scanning is unavailable.
    pub fn recv_timeout(&mut self, _timeout: u128) -> (r: Result<
        Option<ZeroCopyPacket>,
        PacketError,
    >)
        ensures
            r matches Err(e) && is_unsupported(e),
    {
        Err(unsupported())
    }

    /// Reports that raw packet scanning is unavailable.
    pub fn try_recv_direct(&self) -> (r: Result<Option<ZeroCopyPacket>, PacketError>)
        ensures
            r matches Err(e) && is_unsupported(e),
    {
        Err(unsupported())
    }

    /// Returns no interface index.
    #[must_use]
    pub fn interface_index(&self) -> (r: u32)
        ensures
            r == 0,
    {
        0
    }

    /// Returns an empty MAC address.
    #[must_use]
    pub fn mac_address(&self) -> (r: MacAddr)
        ensures
            r == (MacAddr { b0: 0, b1: 0, b2: 0, b3: 0, b4: 0, b5: 0 }),
    {
        MacAddr { b0: 0, b1: 0, b2: 0, b3: 0, b4: 0, b5: 0 }
    }

    /// Cannot be started.
    pub fn start(&mut self) -> (r: Result<(), PacketError>)
        ensures
            r matches Err(e) && is_unsupported(e),
    {
        Err(unsupported())
    }

    /// Receives nothing.
    pub fn recv(&mut self) -> (r: Result<Option<ZeroCopyPacket>, PacketError>)
        ensures
            r matches Err(e) && is_unsupported(e),
    {
        Err(unsupported())
    }

    /// Sends nothing.
    pub fn send(&self, _packet: &[u8]) -> (r: Result<usize, PacketError>)
        ensures
            r matches Err(e) && is_unsupported(e),
    {
        Err(unsupported())
    }

    /// Cannot be stopped.
    pub fn stop(&mut self) -> (r: Result<(), PacketError>)
        ensures
            r matches Err(e) && is_unsupported(e),
    {
        Err(unsupported())
    }

    /// Has counted nothing.
    pub fn stats(&self) -> (r: EngineStats)
        ensures
            r == EngineStats::zero(),
    {
        EngineStats::default()
    }

    /// Flushes nothing.
    pub fn flush(&self) -> (r: Result<(), PacketError>)
        ensures
            r matches Err(e) && is_unsupported(e),
    {
        Err(unsupported())
    }

    /// Takes no filter.
    pub fn set_filter(&self, _filter: &BpfProgram) -> (r: Result<(), PacketError>)
        ensures
            r matches Err(e) && is_unsupported(e),
    {
        Err(unsupported())
    }
}

/// The synchronous engine is the same placeholder.
pub type RecvfromPacketEngine = MmapPacketEngine;

/// Placeholder for the packet stream.
#[derive(Debug)]
pub struct PacketStream;

} // verus!
