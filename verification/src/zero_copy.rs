//! Packets as the engines hand them out.
use std::time::Instant;
use vstd::prelude::*;

verus! {

/// A packet that owns its data.
#[derive(Debug)]
pub struct ZeroCopyPacket {
    data: Vec<u8>,
    timestamp: Instant,
    captured_len: usize,
    original_len: usize,
    vlan_tci: Option<u16>,
    vlan_tpid: Option<u16>,
}

/// What a packet holds.
pub struct PacketModel {
    pub data: Seq<u8>,
    pub timestamp: Instant,
    pub captured_len: usize,
    pub original_len: usize,
    pub vlan_tci: Option<u16>,
    pub vlan_tpid: Option<u16>,
}

impl View for ZeroCopyPacket {
    type V = PacketModel;

    closed spec fn view(&self) -> PacketModel {
        PacketModel {
            data: self.data@,
            timestamp: self.timestamp,
            captured_len: self.captured_len,
            original_len: self.original_len,
            vlan_tci: self.vlan_tci,
            vlan_tpid: self.vlan_tpid,
        }
    }
}

impl ZeroCopyPacket {
    /// Creates a packet that owns its data.
    #[must_use]
    pub fn owned(
        data: Vec<u8>,
        timestamp: Instant,
        captured_len: usize,
        original_len: usize,
        vlan_tci: Option<u16>,
        vlan_tpid: Option<u16>,
    ) -> (r: Self)
        ensures
            r@ == (PacketModel {
                data: data@,
                timestamp,
                captured_len,
                original_len,
                vlan_tci,
                vlan_tpid,
            }),
    {
        Self { data, timestamp, captured_len, original_len, vlan_tci, vlan_tpid }
    }

    /// The data.
    #[must_use]
    pub fn data(&self) -> (r: &[u8])
        ensures
            r@ == self@.data,
    {
        self.data.as_slice()
    }

    /// The number of bytes of data.
    #[must_use]
    pub fn len(&self) -> (r: usize)
        ensures
            r == self@.data.len(),
    {
        self.data.len()
    }

    /// Whether there is no data.
    #[must_use]
    pub fn is_empty(&self) -> (r: bool)
        ensures
            r == (self@.data.len() == 0),
    {
        self.data.is_empty()
    }

    /// The number of bytes that were captured.
    #[must_use]
    pub fn captured_len(&self) -> (r: usize)
        ensures
            r == self@.captured_len,
    {
        self.captured_len
    }

    /// The number of bytes that the packet had on the wire.
    #[must_use]
    pub fn original_len(&self) -> (r: usize)
        ensures
            r == self@.original_len,
    {
        self.original_len
    }

    /// The time of capture.
    #[must_use]
    pub fn timestamp(&self) -> (r: Instant)
        ensures
            r == self@.timestamp,
    {
        self.timestamp
    }

    /// Whether the data lies in a ring shared with the kernel. It never does: the
    /// packet owns its data.
    #[must_use]
    pub fn is_zero_copy(&self) -> (r: bool)
        ensures
            !r,
    {
        false
    }
}

} // verus!
