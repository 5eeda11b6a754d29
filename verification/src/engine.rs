//! Ring buffer configuration, engine statistics and packet buffers.
use crate::error::PacketError;
use crate::payload;
use crate::payload::bytes_to_vec;
use crate::text;
use crate::text::{decimal_text, joined};
use bytes::Bytes;
use std::time::Instant;
use vstd::arithmetic::power2;
use vstd::prelude::*;
use vstd::std_specs::convert::FromSpecImpl;
use vstd::string::StringExecFns;

verus! {

/// The alignment of the frames in a ring buffer.
pub const TPACKET_ALIGNMENT: u32 = 16;

/// Configuration of a ring buffer.
#[derive(Debug, Clone, Copy, PartialEq, Eq, Structural)]
pub struct RingConfig {
    /// Size of a block in bytes: a power of two, at least a page.
    pub block_size: u32,
    /// Number of blocks.
    pub block_nr: u32,
    /// Size of a frame in bytes.
    pub frame_size: u32,
    /// Frame timeout in milliseconds.
    pub frame_timeout: u32,
    /// Whether packets are received through the ring.
    pub enable_rx: bool,
    /// Whether packets are sent through the ring.
    pub enable_tx: bool,
}

impl Default for RingConfig {
    fn default() -> (r: Self)
        ensures
            r == (RingConfig {
                block_size: 65536,
                block_nr: 64,
                frame_size: 4096,
                frame_timeout: 64,
                enable_rx: true,
                enable_tx: false,
            }),
    {
        Self {
            block_size: 65536,
            block_nr: 64,
            frame_size: 4096,
            frame_timeout: 64,
            enable_rx: true,
            enable_tx: false,
        }
    }
}

/// What is wrong with a configuration on a machine with pages of `page_size`
/// bytes, in words: the first of the conditions that it breaks.
pub open spec fn config_problem(c: RingConfig, page_size: u32) -> Option<Seq<char>> {
    if !power2::is_pow2(c.block_size as int) {
        Some(
            "block_size ("@ + text::decimal(c.block_size as nat) + ") must be a power of two"@,
        )
    } else if c.block_size < page_size {
        Some(
            "block_size ("@ + text::decimal(c.block_size as nat) + ") must be >= page size ("@
                + text::decimal(page_size as nat) + ")"@,
        )
    } else if c.block_nr == 0 {
        Some("block_nr must be > 0"@)
    } else if c.frame_size < 16 {
        Some(
            "frame_size ("@ + text::decimal(c.frame_size as nat)
                + ") must be >= TPACKET_ALIGNMENT ("@ + text::decimal(16) + ")"@,
        )
    } else if c.frame_size > c.block_size {
        Some(
            "frame_size ("@ + text::decimal(c.frame_size as nat) + ") must be <= block_size ("@
                + text::decimal(c.block_size as nat) + ")"@,
        )
    } else {
        None
    }
}

/// Tells whether `n` is a power of two.
fn is_power_of_two(n: u32) -> (r: bool)
    ensures
        r == power2::is_pow2(n as int),
{
    let mut m: u32 = n;
    proof {
        reveal(power2::is_pow2);
    }
    while m > 1 && m % 2 == 0
        invariant
            power2::is_pow2(m as int) == power2::is_pow2(n as int),
        decreases m,
    {
        proof {
            reveal(power2::is_pow2);
        }
        m = m / 2;
    }
    m == 1
}

impl RingConfig {
    /// Creates a configuration that only receives, with a frame timeout of 64 ms.
    #[must_use]
    pub fn new(block_size: u32, block_nr: u32, frame_size: u32) -> (r: Self)
        ensures
            r == (RingConfig {
                block_size,
                block_nr,
                frame_size,
                frame_timeout: 64,
                enable_rx: true,
                enable_tx: false,
            }),
    {
        Self {
            block_size,
            block_nr,
            frame_size,
            frame_timeout: 64,
            enable_rx: true,
            enable_tx: false,
        }
    }

    /// Sets the frame timeout.
    #[must_use]
    pub fn with_frame_timeout(self, timeout: u32) -> (r: Self)
        ensures
            r == (RingConfig { frame_timeout: timeout, ..self }),
    {
        let mut r = self;
        r.frame_timeout = timeout;
        r
    }

    /// Enables or disables receiving.
    #[must_use]
    pub fn with_rx(self, enable: bool) -> (r: Self)
        ensures
            r == (RingConfig { enable_rx: enable, ..self }),
    {
        let mut r = self;
        r.enable_rx = enable;
        r
    }

    /// Enables or disables sending.
    #[must_use]
    pub fn with_tx(self, enable: bool) -> (r: Self)
        ensures
            r == (RingConfig { enable_tx: enable, ..self }),
    {
        let mut r = self;
        r.enable_tx = enable;
        r
    }

    /// Checks the configuration against a machine whose page size is `page_size`,
    /// of which the low 32 bits count.
    pub fn validate(&self, page_size: i64) -> (r: Result<(), PacketError>)
        ensures
            match r {
                Ok(_) => config_problem(*self, page_size as u32) is None,
                Err(PacketError::InvalidConfig(m)) => config_problem(*self, page_size as u32)
                    == Some(m@),
                Err(_) => false,
            },
    {
        if !is_power_of_two(self.block_size) {
            return Err(
                PacketError::InvalidConfig(
                    joined("block_size (", decimal_text(self.block_size as u64).as_str()).concat(
                        ") must be a power of two",
                    ),
                ),
            );
        }
        let page_size: u32 = #[verifier::truncate]
        (page_size as u32);
        if self.block_size < page_size {
            return Err(
                PacketError::InvalidConfig(
                    joined("block_size (", decimal_text(self.block_size as u64).as_str()).concat(
                        ") must be >= page size (",
                    ).concat(decimal_text(page_size as u64).as_str()).concat(")"),
                ),
            );
        }
        if self.block_nr == 0 {
            return Err(PacketError::InvalidConfig("block_nr must be > 0".to_string()));
        }
        if self.frame_size < TPACKET_ALIGNMENT {
            return Err(
                PacketError::InvalidConfig(
                    joined("frame_size (", decimal_text(self.frame_size as u64).as_str()).concat(
                        ") must be >= TPACKET_ALIGNMENT (",
                    ).concat(decimal_text(TPACKET_ALIGNMENT as u64).as_str()).concat(")"),
                ),
            );
        }
        if self.frame_size > self.block_size {
            return Err(
                PacketError::InvalidConfig(
                    joined("frame_size (", decimal_text(self.frame_size as u64).as_str()).concat(
                        ") must be <= block_size (",
                    ).concat(decimal_text(self.block_size as u64).as_str()).concat(")"),
                ),
            );
        }
        Ok(())
    }

    /// Total size of the ring buffer in bytes.
    #[must_use]
    pub fn total_size(&self) -> (r: usize)
        requires
            self.block_size * self.block_nr <= usize::MAX,
        ensures
            r == self.block_size * self.block_nr,
    {
        self.block_size as usize * self.block_nr as usize
    }

    /// Number of frames that fit into a block.
    #[must_use]
    pub fn frames_per_block(&self) -> (r: usize)
        requires
            self.frame_size != 0,
        ensures
            r == self.block_size as int / self.frame_size as int,
    {
        self.block_size as usize / self.frame_size as usize
    }
}

/// Every configuration that [`RingConfig::validate`] lets through has blocks that
/// hold at least one whole frame.
pub proof fn valid_blocks_hold_a_frame(c: RingConfig, page_size: u32)
    requires
        config_problem(c, page_size) is None,
    ensures
        c.frame_size >= 16,
        c.block_size as int / c.frame_size as int >= 1,
        (c.block_size as int / c.frame_size as int) * c.frame_size <= c.block_size,
{
    let b = c.block_size as int;
    let f = c.frame_size as int;
    assert(b / f >= 1 && (b / f) * f <= b) by (nonlinear_arith)
        requires
            b >= f,
            f >= 16,
    ;
}

/// Counters of a packet engine.
#[derive(Debug, Clone, Copy, PartialEq, Eq, Structural)]
pub struct EngineStats {
    /// Packets received.
    pub packets_received: u64,
    /// Packets sent.
    pub packets_sent: u64,
    /// Packets dropped.
    pub packets_dropped: u64,
    /// Bytes received.
    pub bytes_received: u64,
    /// Bytes sent.
    pub bytes_sent: u64,
    /// Failed receives.
    pub receive_errors: u64,
    /// Failed sends.
    pub send_errors: u64,
}

impl EngineStats {
    /// All counters at zero.
    pub open spec fn zero() -> EngineStats {
        EngineStats {
            packets_received: 0,
            packets_sent: 0,
            packets_dropped: 0,
            bytes_received: 0,
            bytes_sent: 0,
            receive_errors: 0,
            send_errors: 0,
        }
    }

    /// Creates counters at zero.
    #[must_use]
    pub fn new() -> (r: Self)
        ensures
            r == Self::zero(),
    {
        Self {
            packets_received: 0,
            packets_sent: 0,
            packets_dropped: 0,
            bytes_received: 0,
            bytes_sent: 0,
            receive_errors: 0,
            send_errors: 0,
        }
    }
}

impl Default for EngineStats {
    fn default() -> (r: Self)
        ensures
            r == EngineStats::zero(),
    {
        Self::new()
    }
}

/// A captured packet with what is known of its capture.
#[derive(Debug)]
pub struct PacketBuffer {
    data: Bytes,
    timestamp: Instant,
    captured_len: usize,
    original_len: usize,
    vlan_tci: Option<u16>,
    vlan_tpid: Option<u16>,
}

/// What a packet buffer holds, but for the time of capture.
pub struct BufferModel {
    pub data: Seq<u8>,
    pub captured_len: usize,
    pub original_len: usize,
    pub vlan_tci: Option<u16>,
    pub vlan_tpid: Option<u16>,
}

/// A buffer of these bytes, wholly captured and without VLAN.
pub open spec fn plain_buffer(data: Seq<u8>) -> BufferModel {
    BufferModel {
        data,
        captured_len: data.len() as usize,
        original_len: data.len() as usize,
        vlan_tci: None,
        vlan_tpid: None,
    }
}

/// The first `n` bytes of `data`, with zeros behind where there are too few.
pub open spec fn resized(data: Seq<u8>, n: nat) -> Seq<u8> {
    Seq::new(
        n,
        |i: int|
            if i < data.len() {
                data[i]
            } else {
                0u8
            },
    )
}

impl View for PacketBuffer {
    type V = BufferModel;

    closed spec fn view(&self) -> BufferModel {
        BufferModel {
            data: payload::contents(self.data),
            captured_len: self.captured_len,
            original_len: self.original_len,
            vlan_tci: self.vlan_tci,
            vlan_tpid: self.vlan_tpid,
        }
    }
}

impl Clone for PacketBuffer {
    fn clone(&self) -> (r: Self)
        ensures
            r@ == self@,
            r.captured_at() == self.captured_at(),
    {
        Self {
            data: self.data.clone(),
            timestamp: self.timestamp,
            captured_len: self.captured_len,
            original_len: self.original_len,
            vlan_tci: self.vlan_tci,
            vlan_tpid: self.vlan_tpid,
        }
    }
}

impl Default for PacketBuffer {
    fn default() -> (r: Self)
        ensures
            r@ == plain_buffer(Seq::empty()),
    {
        Self::empty()
    }
}

impl PacketBuffer {
    /// The time of capture.
    pub closed spec fn captured_at(&self) -> Instant {
        self.timestamp
    }

    /// Creates an empty buffer.
    #[must_use]
    pub fn empty() -> (r: Self)
        ensures
            r@ == plain_buffer(Seq::empty()),
    {
        Self {
            data: Bytes::new(),
            timestamp: Instant::now(),
            captured_len: 0,
            original_len: 0,
            vlan_tci: None,
            vlan_tpid: None,
        }
    }

    /// Creates a buffer from what can become a byte buffer.
    #[must_use]
    pub fn from_data<T: Into<Bytes>>(data: T) -> (r: Self)
        ensures
            exists|b: Bytes| #[trigger]
                call_ensures(<T as Into<Bytes>>::into, (data,), b) && r@ == plain_buffer(
                    payload::contents(b),
                ),
    {
        let bytes: Bytes = data.into();
        let ghost held = bytes;
        let r = Self::holding(bytes);
        assert(call_ensures(<T as Into<Bytes>>::into, (data,), held) && r@ == plain_buffer(
            payload::contents(held),
        ));
        r
    }

    fn holding(bytes: Bytes) -> (r: Self)
        ensures
            r@ == plain_buffer(payload::contents(bytes)),
    {
        let len: usize = bytes.len();
        Self {
            data: bytes,
            timestamp: Instant::now(),
            captured_len: len,
            original_len: len,
            vlan_tci: None,
            vlan_tpid: None,
        }
    }

    /// Creates a buffer of `capacity` zeros.
    #[must_use]
    pub fn with_capacity(capacity: usize) -> (r: Self)
        requires
            capacity <= isize::MAX,
        ensures
            r@ == plain_buffer(Seq::new(capacity as nat, |i: int| 0u8)),
    {
        let zeros: Vec<u8> = vec![0u8; capacity];
        assert(zeros@ =~= Seq::new(capacity as nat, |i: int| 0u8));
        Self {
            data: Bytes::from(zeros),
            timestamp: Instant::now(),
            captured_len: capacity,
            original_len: capacity,
            vlan_tci: None,
            vlan_tpid: None,
        }
    }

    /// The data.
    #[must_use]
    pub fn data(&self) -> (r: &Bytes)
        ensures
            payload::contents(*r) == self@.data,
    {
        &self.data
    }

    /// The number of bytes of data.
    #[must_use]
    pub fn len(&self) -> (r: usize)
        ensures
            r == self@.data.len(),
    {
        self.data.len()
    }

    /// Whether there is no data.
    #[must_use]
    pub fn is_empty(&self) -> (r: bool)
        ensures
            r == (self@.data.len() == 0),
    {
        self.data.is_empty()
    }

    /// The number of bytes that were captured.
    #[must_use]
    pub fn captured_len(&self) -> (r: usize)
        ensures
            r == self@.captured_len,
    {
        self.captured_len
    }

    /// The number of bytes that the packet had on the wire.
    #[must_use]
    pub fn original_len(&self) -> (r: usize)
        ensures
            r == self@.original_len,
    {
        self.original_len
    }

    /// The VLAN tag control information.
    #[must_use]
    pub fn vlan_tci(&self) -> (r: Option<u16>)
        ensures
            r == self@.vlan_tci,
    {
        self.vlan_tci
    }

    /// The VLAN tag protocol identifier.
    #[must_use]
    pub fn vlan_tpid(&self) -> (r: Option<u16>)
        ensures
            r == self@.vlan_tpid,
    {
        self.vlan_tpid
    }

    /// The time of capture.
    #[must_use]
    pub fn timestamp(&self) -> (r: Instant)
        ensures
            r == self.captured_at(),
    {
        self.timestamp
    }

    /// The data, shared with this buffer.
    #[must_use]
    pub fn to_bytes(&self) -> (r: Bytes)
        ensures
            payload::contents(r) == self@.data,
    {
        self.data.clone()
    }

    /// The data as a vector.
    #[must_use]
    pub fn into_vec(self) -> (r: Vec<u8>)
        ensures
            r@ == self@.data,
    {
        bytes_to_vec(&self.data)
    }

    /// Drops the data and the VLAN information.
    pub fn clear(&mut self)
        ensures
            final(self)@ == plain_buffer(Seq::empty()),
            final(self).captured_at() == old(self).captured_at(),
    {
        self.data = Bytes::new();
        self.captured_len = 0;
        self.original_len = 0;
        self.vlan_tci = None;
        self.vlan_tpid = None;
    }

    /// Cuts the data off at `new_len`, or fills it up with zeros. A length of zero
    /// clears the buffer.
    pub fn resize(&mut self, new_len: usize)
        requires
            new_len <= isize::MAX,
        ensures
            new_len == 0 ==> final(self)@ == plain_buffer(Seq::empty()),
            new_len > 0 ==> final(self)@ == (BufferModel {
                data: resized(old(self)@.data, new_len as nat),
                captured_len: new_len,
                original_len: new_len,
                ..old(self)@
            }),
            final(self).captured_at() == old(self).captured_at(),
    {
        if new_len == 0 {
            self.clear();
        } else {
            let ghost before = payload::contents(self.data);
            let held: Vec<u8> = bytes_to_vec(&self.data);
            let mut data: Vec<u8> = vec![0u8; new_len];
            let mut i: usize = 0;
            while i < new_len && i < held.len()
                invariant
                    i <= new_len,
                    i <= held.len(),
                    data.len() == new_len,
                    held@ == before,
                    forall|j: int|
                        0 <= j < new_len ==> #[trigger] data@[j] == if j < i {
                            before[j]
                        } else {
                            0u8
                        },
                decreases new_len - i,
            {
                data.set(i, held[i]);
                i += 1;
            }
            assert(data@ =~= resized(before, new_len as nat));
            self.data = Bytes::from(data);
            self.captured_len = new_len;
            self.original_len = new_len;
        }
    }

    /// Sets the VLAN information.
    pub fn set_vlan(&mut self, tci: u16, tpid: u16)
        ensures
            final(self)@ == (BufferModel {
                vlan_tci: Some(tci),
                vlan_tpid: Some(tpid),
                ..old(self)@
            }),
            final(self).captured_at() == old(self).captured_at(),
    {
        self.vlan_tci = Some(tci);
        self.vlan_tpid = Some(tpid);
    }
}

impl From<Vec<u8>> for PacketBuffer {
    fn from(data: Vec<u8>) -> (r: Self)
        ensures
            r@ == plain_buffer(data@),
    {
        Self::from_data(data)
    }
}

impl FromSpecImpl<Vec<u8>> for PacketBuffer {
    open spec fn obeys_from_spec() -> bool {
        false
    }

    open spec fn from_spec(v: Vec<u8>) -> Self {
        arbitrary()
    }
}

impl<'a> From<&'a [u8]> for PacketBuffer {
    fn from(data: &'a [u8]) -> (r: Self)
        ensures
            r@ == plain_buffer(data@),
    {
        Self::holding(Bytes::copy_from_slice(data))
    }
}

impl<'a> FromSpecImpl<&'a [u8]> for PacketBuffer {
    open spec fn obeys_from_spec() -> bool {
        false
    }

    open spec fn from_spec(v: &'a [u8]) -> Self {
        arbitrary()
    }
}

/// A ring is accepted if and only if its blocks are a power of two in size and at least a
/// page, there is one at least, and a frame fits into a block and is no smaller than the
/// alignment.
pub proof fn valid_rings(c: RingConfig, page_size: u32)
    ensures
        config_problem(c, page_size) is None <==> power2::is_pow2(c.block_size as int)
            && page_size <= c.block_size && c.block_nr > 0 && TPACKET_ALIGNMENT <= c.frame_size
            <= c.block_size,
{
}

/// A buffer of some bytes holds these and has their length, without a tag; one that is
/// resized keeps what fits and is filled up with zeros.
pub proof fn buffers_hold_their_bytes(data: Seq<u8>, n: nat, i: int)
    requires
        data.len() <= usize::MAX,
    ensures
        plain_buffer(data).data == data,
        plain_buffer(data).captured_len == data.len(),
        plain_buffer(data).original_len == data.len(),
        plain_buffer(data).vlan_tci is None,
        plain_buffer(data).vlan_tpid is None,
        resized(data, n).len() == n,
        0 <= i < n && i < data.len() ==> resized(data, n)[i] == data[i],
        data.len() <= i < n ==> resized(data, n)[i] == 0,
        EngineStats::zero().packets_received == 0,
        EngineStats::zero().packets_sent == 0,
        EngineStats::zero().packets_dropped == 0,
        EngineStats::zero().bytes_received == 0,
        EngineStats::zero().bytes_sent == 0,
        EngineStats::zero().receive_errors == 0,
        EngineStats::zero().send_errors == 0,
{
}

} // verus!
