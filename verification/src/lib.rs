//! Packet capture, host discovery, scan orchestration and scan management of a
//! network scanner.
use vstd::prelude::*;

pub mod addr;
pub mod api;
pub mod arp;
pub mod async_engine;
pub mod batch;
pub mod bpf;
pub mod clock;
pub mod config;
pub mod discovery;
pub mod engine;
pub mod enrich;
pub mod error;
pub mod host_sweep;
pub mod hosts;
pub mod index;
pub mod manager;
pub mod models;
pub mod net;
pub mod orchestrator;
pub mod packet6;
pub mod payload;
pub mod phase;
pub mod ping;
pub mod ports;
pub mod recvfrom;
pub mod runner;
pub mod scripts;
pub mod server;
pub mod state;
pub mod sweep;
pub mod text;
pub mod unsupported;
pub mod wire;
pub mod zero_copy;

verus! {

/// Size of the ring buffer in bytes: 4 MiB.
pub const DEFAULT_BUFFER_SIZE: usize = 4194304;

/// Size of a block of the ring buffer in bytes.
pub const DEFAULT_BLOCK_SIZE: usize = 65536;

/// Size of a frame of the ring buffer in bytes.
pub const DEFAULT_FRAME_SIZE: usize = 4096;

/// Number of blocks in the ring buffer.
pub const DEFAULT_BLOCK_NR: usize = 256;

/// Number of frames in the ring buffer.
pub const DEFAULT_FRAME_NR: usize = 4096;

/// Ethernet protocol for all traffic.
pub const ETH_P_ALL: u16 = 0x0003;

/// Packet socket version V3.
pub const TPACKET_V3: i32 = 3;

/// The kernel owns the buffer.
pub const TP_STATUS_KERNEL: u32 = 0;

/// Userspace owns the buffer.
pub const TP_STATUS_USER: u32 = 1;

/// The kernel is copying data to the buffer.
pub const TP_STATUS_COPY: u32 = 2;

/// Packets are being dropped because the buffer is full.
pub const TP_STATUS_LOSING: u32 = 4;

/// The checksum is not yet calculated.
pub const TP_STATUS_CSUMNOTREADY: u32 = 8;

/// The VLAN information is valid.
pub const TP_STATUS_VLAN_VALID: u32 = 16;

/// The VLAN TPID is valid.
pub const TP_STATUS_VLAN_TPID_VALID: u32 = 32;

} // verus!
