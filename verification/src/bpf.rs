//! Filter programs for the kernel's classic packet filter (BPF).
//!
//! A filter is a list of instructions for a small virtual machine with two
//! registers: the accumulator `A` and the index register `X`. The kernel runs it
//! on each frame; what it returns is the number of bytes to keep, with zero for a
//! frame that is dropped. [`run`] is a model of that machine, for the
//! instructions that the filters of this module are written in, and the contract
//! of each filter says in terms of the frame's fields which frames it keeps.
use crate::error::PacketError;
use crate::text::joined;
use crate::wire;
use vstd::prelude::*;

verus! {

/// Load instruction class.
pub const BPF_LD: u16 = 0x00;

/// ALU operations.
pub const BPF_ALU: u16 = 0x04;

/// Jump operations.
pub const BPF_JMP: u16 = 0x05;

/// Return instruction.
pub const BPF_RET: u16 = 0x06;

/// Miscellaneous.
pub const BPF_MISC: u16 = 0x07;

/// Word size (4 bytes).
pub const BPF_W: u16 = 0x00;

/// Half-word size (2 bytes).
pub const BPF_H: u16 = 0x08;

/// Byte size.
pub const BPF_B: u16 = 0x10;

/// Immediate value.
pub const BPF_IMM: u16 = 0x00;

/// Absolute offset in packet.
pub const BPF_ABS: u16 = 0x20;

/// Indirect offset in packet, counted from `X`.
pub const BPF_IND: u16 = 0x40;

/// Unconditional jump.
pub const BPF_JA: u16 = 0x00;

/// Jump if equal.
pub const BPF_JEQ: u16 = 0x10;

/// Jump if set.
pub const BPF_JSET: u16 = 0x40;

/// Use constant K.
pub const BPF_K: u16 = 0x00;

/// Add.
pub const BPF_ADD: u16 = 0x00;

/// Logical AND.
pub const BPF_AND: u16 = 0x50;

/// Logical shift left.
pub const BPF_LSH: u16 = 0x60;

/// Transfer accumulator to X register.
pub const BPF_TAX: u16 = 0x00;

/// Ethernet header length (14 bytes: 6 dst + 6 src + 2 type).
pub const ETH_HLEN: u32 = 14;

/// `EtherType` field offset within Ethernet header (bytes 12-13).
pub const ETHERTYPE_OFFSET: u32 = 12;

/// Offset of the header length (low 4 bits) in the IP header.
pub const IP_HLEN_OFFSET: u32 = 0;

/// IP protocol field offset in IP header.
pub const IP_PROTO_OFFSET: u32 = 9;

/// IP source address offset in IP header.
pub const IP_SRC_OFFSET: u32 = 12;

/// IP destination address offset in IP header.
pub const IP_DST_OFFSET: u32 = 16;

/// TCP source port offset in TCP header.
pub const TCP_SRC_PORT_OFFSET: u32 = 0;

/// TCP destination port offset in TCP header.
pub const TCP_DST_PORT_OFFSET: u32 = 2;

/// UDP source port offset in UDP header.
pub const UDP_SRC_PORT_OFFSET: u32 = 0;

/// UDP destination port offset in UDP header.
pub const UDP_DST_PORT_OFFSET: u32 = 2;

/// ICMP type field offset in ICMP header.
pub const ICMP_TYPE_OFFSET: u32 = 0;

/// Offset of the flags in the TCP header.
pub const TCP_FLAGS_OFFSET: u32 = 13;

/// SYN bit of the TCP flags.
pub const TCP_FLAG_SYN: u32 = 0x02;

/// ACK bit of the TCP flags.
pub const TCP_FLAG_ACK: u32 = 0x10;

/// `EtherType` for IPv4.
pub const ETHERTYPE_IP: u16 = 0x0800;

/// `EtherType` for IPv6.
pub const ETHERTYPE_IPV6: u16 = 0x86DD;

/// `EtherType` for ARP.
pub const ETHERTYPE_ARP: u16 = 0x0806;

/// Protocol number for TCP.
pub const IPPROTO_TCP: u32 = 6;

/// Protocol number for UDP.
pub const IPPROTO_UDP: u32 = 17;

/// Protocol number for ICMP.
pub const IPPROTO_ICMP: u32 = 1;

/// The error number for "no such entry".
pub const ENOENT: i32 = 2;

/// The operation codes as numbers.
proof fn opcode_values()
    by (bit_vector)
    ensures
        BPF_LD | BPF_W | BPF_ABS == 0x20u16,
        BPF_LD | BPF_H | BPF_ABS == 0x28u16,
        BPF_LD | BPF_B | BPF_ABS == 0x30u16,
        BPF_LD | BPF_H | BPF_IND == 0x48u16,
        BPF_LD | BPF_B | BPF_IND == 0x50u16,
        BPF_LD | BPF_IMM == 0x00u16,
        BPF_JMP | BPF_JA == 0x05u16,
        BPF_JMP | BPF_JEQ | BPF_K == 0x15u16,
        BPF_JMP | BPF_JSET | BPF_K == 0x45u16,
        BPF_RET | BPF_K == 0x06u16,
        BPF_ALU | BPF_ADD | BPF_K == 0x04u16,
        BPF_ALU | BPF_AND | BPF_K == 0x54u16,
        BPF_ALU | BPF_LSH | BPF_K == 0x64u16,
        BPF_MISC | BPF_TAX == 0x07u16,
{
}

/// One instruction, in the layout that the kernel reads.
#[derive(Clone, Copy, Debug, PartialEq, Eq, Structural)]
pub struct BpfInstruction {
    /// Operation code.
    pub code: u16,
    /// Instructions to skip if the condition holds.
    pub jt: u8,
    /// Instructions to skip if the condition does not hold.
    pub jf: u8,
    /// Multiuse field (immediate, offset, constant).
    pub k: u32,
}

/// The instruction with these fields.
pub open spec fn instr(code: u16, jt: u8, jf: u8, k: u32) -> BpfInstruction {
    BpfInstruction { code, jt, jf, k }
}

/// `A` becomes the half-word at an offset.
pub open spec fn ldh_abs(k: u32) -> BpfInstruction {
    instr(0x28, 0, 0, k)
}

/// `A` becomes the word at an offset.
pub open spec fn ldw_abs(k: u32) -> BpfInstruction {
    instr(0x20, 0, 0, k)
}

/// `A` becomes the byte at an offset.
pub open spec fn ldb_abs(k: u32) -> BpfInstruction {
    instr(0x30, 0, 0, k)
}

/// `A` becomes the half-word at an offset from `X`.
pub open spec fn ldh_ind(k: u32) -> BpfInstruction {
    instr(0x48, 0, 0, k)
}

/// `A` becomes the byte at an offset from `X`.
pub open spec fn ldb_ind(k: u32) -> BpfInstruction {
    instr(0x50, 0, 0, k)
}

/// Skips `jt` instructions if `A` is `k`, else `jf`.
pub open spec fn jeq(k: u32, jt: u8, jf: u8) -> BpfInstruction {
    instr(0x15, jt, jf, k)
}

/// Skips `jt` instructions if `A` is the byte `b`, else `jf`.
pub open spec fn jeq_byte(b: u8, jt: u8, jf: u8) -> BpfInstruction {
    jeq(b as u32, jt, jf)
}

/// Skips `jt` instructions if `A` and `k` share a bit, else `jf`.
pub open spec fn jset(k: u32, jt: u8, jf: u8) -> BpfInstruction {
    instr(0x45, jt, jf, k)
}

/// Skips `k` instructions.
pub open spec fn ja(k: u32) -> BpfInstruction {
    instr(0x05, 0, 0, k)
}

/// Ends with the constant `k`.
pub open spec fn ret_k(k: u32) -> BpfInstruction {
    instr(0x06, 0, 0, k)
}

/// `A` becomes `A & k`.
pub open spec fn and_k(k: u32) -> BpfInstruction {
    instr(0x54, 0, 0, k)
}

/// `A` becomes `A << k`.
pub open spec fn lsh_k(k: u32) -> BpfInstruction {
    instr(0x64, 0, 0, k)
}

/// `A` becomes `A + k`, modulo 2^32.
pub open spec fn add_k(k: u32) -> BpfInstruction {
    instr(0x04, 0, 0, k)
}

/// `X` becomes `A`.
pub open spec fn tax() -> BpfInstruction {
    instr(0x07, 0, 0, 0)
}

impl Default for BpfInstruction {
    fn default() -> (r: Self)
        ensures
            r == instr(0, 0, 0, 0),
    {
        BpfInstruction { code: 0, jt: 0, jf: 0, k: 0 }
    }
}

impl BpfInstruction {
    /// Creates a new BPF instruction.
    #[must_use]
    pub fn new(code: u16, jt: u8, jf: u8, k: u32) -> (r: Self)
        ensures
            r == instr(code, jt, jf, k),
    {
        Self { code, jt, jf, k }
    }

    /// Creates a load half-word (16-bit) from packet instruction.
    #[must_use]
    pub fn load_half(offset: u32) -> (r: Self)
        ensures
            r == ldh_abs(offset),
    {
        proof {
            opcode_values();
        }
        Self::new(BPF_LD | BPF_H | BPF_ABS, 0, 0, offset)
    }

    /// Creates a load word (32-bit) from packet instruction.
    #[must_use]
    pub fn load_word(offset: u32) -> (r: Self)
        ensures
            r == ldw_abs(offset),
    {
        proof {
            opcode_values();
        }
        Self::new(BPF_LD | BPF_W | BPF_ABS, 0, 0, offset)
    }

    /// Creates a load byte instruction.
    #[must_use]
    pub fn load_byte(offset: u32) -> (r: Self)
        ensures
            r == ldb_abs(offset),
    {
        proof {
            opcode_values();
        }
        Self::new(BPF_LD | BPF_B | BPF_ABS, 0, 0, offset)
    }

    /// Creates a load immediate instruction.
    #[must_use]
    pub fn load_imm(value: u32) -> (r: Self)
        ensures
            r == instr(0x00, 0, 0, value),
    {
        proof {
            opcode_values();
        }
        Self::new(BPF_LD | BPF_IMM, 0, 0, value)
    }

    /// Creates a jump if equal instruction.
    #[must_use]
    pub fn jump_eq(value: u32, jt: u8, jf: u8) -> (r: Self)
        ensures
            r == jeq(value, jt, jf),
    {
        proof {
            opcode_values();
        }
        Self::new(BPF_JMP | BPF_JEQ | BPF_K, jt, jf, value)
    }

    /// Creates an unconditional jump instruction.
    #[must_use]
    pub fn jump(offset: u8) -> (r: Self)
        ensures
            r == ja(offset as u32),
    {
        proof {
            opcode_values();
        }
        Self::new(BPF_JMP | BPF_JA, 0, 0, offset as u32)
    }

    /// Creates a return instruction with the given value.
    #[must_use]
    pub fn ret(value: u32) -> (r: Self)
        ensures
            r == ret_k(value),
    {
        proof {
            opcode_values();
        }
        Self::new(BPF_RET | BPF_K, 0, 0, value)
    }

    /// Creates a return accept instruction (accept entire packet).
    #[must_use]
    pub fn ret_accept() -> (r: Self)
        ensures
            r == ret_k(u32::MAX),
    {
        Self::ret(u32::MAX)
    }

    /// Creates a return reject instruction (drop packet).
    #[must_use]
    pub fn ret_reject() -> (r: Self)
        ensures
            r == ret_k(0),
    {
        Self::ret(0)
    }
}

/// How a run of a filter ends.
pub enum Outcome {
    /// A return instruction was reached.
    Ret(u32),
    /// A load went past the end of the frame. The kernel drops such a frame.
    Fault,
    /// The run left the program, or met an instruction, or an offset into the
    /// kernel's ancillary data, that the model does not know.
    Stuck,
}

/// What the instruction at `pc`, run with these registers, leads to.
pub enum Step {
    Next(int, u32, u32),
    End(Outcome),
}

/// Loads of `size` bytes at `off`: the value, a fault, or no model.
pub open spec fn load(pkt: Seq<u8>, off: int, size: int) -> Result<u32, Outcome> {
    if off >= 0x8000_0000 {
        Err(Outcome::Stuck)
    } else if off + size > pkt.len() {
        Err(Outcome::Fault)
    } else if size == 1 {
        Ok(pkt[off] as u32)
    } else if size == 2 {
        Ok(wire::be16_at(pkt, off) as u32)
    } else {
        Ok(wire::be32_at(pkt, off))
    }
}

/// One step of the machine.
pub open spec fn step(i: BpfInstruction, pkt: Seq<u8>, pc: int, a: u32, x: u32) -> Step {
    if i.code == 0x20 || i.code == 0x28 || i.code == 0x30 {
        let size = if i.code == 0x20 { 4int } else if i.code == 0x28 { 2int } else { 1int };
        match load(pkt, i.k as int, size) {
            Ok(v) => Step::Next(pc + 1, v, x),
            Err(e) => Step::End(e),
        }
    } else if i.code == 0x48 || i.code == 0x50 {
        match load(pkt, x + i.k, if i.code == 0x48 { 2int } else { 1int }) {
            Ok(v) => Step::Next(pc + 1, v, x),
            Err(e) => Step::End(e),
        }
    } else if i.code == 0x00 {
        Step::Next(pc + 1, i.k, x)
    } else if i.code == 0x05 {
        Step::Next(pc + 1 + i.k, a, x)
    } else if i.code == 0x15 {
        Step::Next(pc + 1 + if a == i.k { i.jt as int } else { i.jf as int }, a, x)
    } else if i.code == 0x45 {
        Step::Next(pc + 1 + if a & i.k != 0 { i.jt as int } else { i.jf as int }, a, x)
    } else if i.code == 0x04 {
        Step::Next(pc + 1, ((a + i.k) % 0x1_0000_0000) as u32, x)
    } else if i.code == 0x54 {
        Step::Next(pc + 1, a & i.k, x)
    } else if i.code == 0x64 && i.k < 32 {
        Step::Next(pc + 1, a << i.k, x)
    } else if i.code == 0x07 {
        Step::Next(pc + 1, a, a)
    } else if i.code == 0x06 {
        Step::End(Outcome::Ret(i.k))
    } else {
        Step::End(Outcome::Stuck)
    }
}

/// Runs `prog` on the frame `pkt` from instruction `pc`, with `a` and `x` in the
/// registers. Jumps only go forward, so every run ends.
pub open spec fn run(prog: Seq<BpfInstruction>, pkt: Seq<u8>, pc: int, a: u32, x: u32) -> Outcome
    decreases prog.len() - pc,
{
    if 0 <= pc < prog.len() {
        match step(prog[pc], pkt, pc, a, x) {
            Step::Next(next, a2, x2) => if pc < next < prog.len() {
                run(prog, pkt, next, a2, x2)
            } else {
                Outcome::Stuck
            },
            Step::End(o) => o,
        }
    } else {
        Outcome::Stuck
    }
}

/// How the filter `prog` ends on `pkt`: the kernel starts with zero in both
/// registers.
pub open spec fn verdict(prog: Seq<BpfInstruction>, pkt: Seq<u8>) -> Outcome {
    run(prog, pkt, 0, 0, 0)
}

/// The filter `prog` keeps the frame `pkt`.
pub open spec fn accepts(prog: Seq<BpfInstruction>, pkt: Seq<u8>) -> bool {
    verdict(prog, pkt) matches Outcome::Ret(k) && k != 0
}

/// On every frame the filter ends in a verdict that the model knows, whatever the
/// registers hold at its start.
pub open spec fn self_contained(prog: Seq<BpfInstruction>) -> bool {
    forall|pkt: Seq<u8>, a: u32, x: u32|
        #![trigger run(prog, pkt, 0, a, x)]
        run(prog, pkt, 0, a, x) == verdict(prog, pkt) && verdict(prog, pkt) != Outcome::Stuck
}

/// The `EtherType` of the frame is `ethertype`.
pub open spec fn is_ethertype(pkt: Seq<u8>, ethertype: u32) -> bool {
    14 <= pkt.len() && wire::be16_at(pkt, 12) == ethertype
}

/// The frame carries IPv4 with this protocol number.
pub open spec fn is_ipv4_proto(pkt: Seq<u8>, protocol: u32) -> bool {
    is_ethertype(pkt, 0x0800) && 24 <= pkt.len() && pkt[23] == protocol
}

/// The word at `off` in the frame is `value`.
pub open spec fn has_word(pkt: Seq<u8>, off: int, value: u32) -> bool {
    off + 4 <= pkt.len() && wire::be32_at(pkt, off) == value
}

/// Where byte `off` of the transport header is in an IPv4 frame: behind the
/// Ethernet header and the words that the IP header gives as its own length.
pub open spec fn transport_at(pkt: Seq<u8>, off: int) -> int {
    14 + (pkt[14] % 16) * 4 + off
}

/// A byte as a register value.
spec fn byte_reg(b: u8) -> u32 {
    b as u32
}

/// [`transport_at`] as a register value.
spec fn transport_reg(pkt: Seq<u8>, off: int) -> u32 {
    transport_at(pkt, off) as u32
}

/// The half-word at `off` in the transport header is `value`.
pub open spec fn has_transport_half(pkt: Seq<u8>, off: int, value: u16) -> bool {
    transport_at(pkt, off) + 2 <= pkt.len() && wire::be16_at(pkt, transport_at(pkt, off)) == value
}

/// The byte at `off` in the transport header is `value`.
pub open spec fn has_transport_byte(pkt: Seq<u8>, off: int, value: u8) -> bool {
    transport_at(pkt, off) < pkt.len() && pkt[transport_at(pkt, off)] == value
}

/// The byte at `off` in the transport header has a bit of `mask` set.
pub open spec fn has_transport_flag(pkt: Seq<u8>, off: int, mask: u32) -> bool {
    transport_at(pkt, off) < pkt.len() && pkt[transport_at(pkt, off)] as u32 & mask != 0
}

/// Loads the `EtherType` and rejects unless it is `ethertype`.
pub open spec fn check_ethertype(ethertype: u32) -> Seq<BpfInstruction> {
    seq![ldh_abs(12), jeq(ethertype, 1, 0), ret_k(0)]
}

/// Loads the IP protocol and rejects unless it is `protocol`.
pub open spec fn check_proto(protocol: u32) -> Seq<BpfInstruction> {
    seq![ldb_abs(23), jeq(protocol, 1, 0), ret_k(0)]
}

/// Loads the word at `off` and rejects unless it is `value`.
pub open spec fn check_word(off: u32, value: u32) -> Seq<BpfInstruction> {
    seq![ldw_abs(off), jeq(value, 1, 0), ret_k(0)]
}

/// Computes where byte `off` of the transport header is, loads from there and
/// rejects unless the test holds.
pub open spec fn check_transport(
    off: u32,
    load: BpfInstruction,
    test: BpfInstruction,
) -> Seq<BpfInstruction> {
    seq![
        ldb_abs(14),
        and_k(0x0F),
        lsh_k(2),
        add_k((14 + off) as u32),
        tax(),
        load,
        test,
        ret_k(0),
    ]
}

/// `part` stands in `prog` at `at`, and something follows it.
pub open spec fn stands_at(prog: Seq<BpfInstruction>, at: int, part: Seq<BpfInstruction>) -> bool {
    &&& 0 <= at
    &&& at + part.len() < prog.len()
    &&& forall|j: int| 0 <= j < part.len() ==> prog[at + j] == #[trigger] part[j]
}

proof fn block_ethertype(prog: Seq<BpfInstruction>, at: int, ethertype: u32, pkt: Seq<u8>, a: u32, x: u32)
    requires
        stands_at(prog, at, check_ethertype(ethertype)),
    ensures
        run(prog, pkt, at, a, x) == if 14 > pkt.len() {
            Outcome::Fault
        } else if wire::be16_at(pkt, 12) != ethertype {
            Outcome::Ret(0)
        } else {
            run(prog, pkt, at + 3, ethertype, x)
        },
{
    let part = check_ethertype(ethertype);
    assert(prog[at + 0] == part[0] && prog[at + 1] == part[1] && prog[at + 2] == part[2]);
    reveal_with_fuel(run, 4);
}

proof fn block_proto(prog: Seq<BpfInstruction>, at: int, protocol: u32, pkt: Seq<u8>, a: u32, x: u32)
    requires
        stands_at(prog, at, check_proto(protocol)),
    ensures
        run(prog, pkt, at, a, x) == if 24 > pkt.len() {
            Outcome::Fault
        } else if pkt[23] != protocol {
            Outcome::Ret(0)
        } else {
            run(prog, pkt, at + 3, protocol, x)
        },
{
    let part = check_proto(protocol);
    assert(prog[at + 0] == part[0] && prog[at + 1] == part[1] && prog[at + 2] == part[2]);
    reveal_with_fuel(run, 4);
}

proof fn block_word(prog: Seq<BpfInstruction>, at: int, off: u32, value: u32, pkt: Seq<u8>, a: u32, x: u32)
    requires
        stands_at(prog, at, check_word(off, value)),
        off < 0x8000_0000,
    ensures
        run(prog, pkt, at, a, x) == if off + 4 > pkt.len() {
            Outcome::Fault
        } else if wire::be32_at(pkt, off as int) != value {
            Outcome::Ret(0)
        } else {
            run(prog, pkt, at + 3, value, x)
        },
{
    let part = check_word(off, value);
    assert(prog[at + 0] == part[0] && prog[at + 1] == part[1] && prog[at + 2] == part[2]);
    reveal_with_fuel(run, 4);
}

proof fn lemma_header_words(b: u8)
    by (bit_vector)
    ensures
        ((b as u32) & 0x0F) << 2 == (b % 16) * 4,
{
}

proof fn block_transport(
    prog: Seq<BpfInstruction>,
    at: int,
    off: u32,
    load_from: BpfInstruction,
    test: BpfInstruction,
    pkt: Seq<u8>,
    a: u32,
    x: u32,
)
    requires
        stands_at(prog, at, check_transport(off, load_from, test)),
        off <= 16,
        load_from == ldh_ind(0) || load_from == ldb_ind(0),
        (test.code == 0x15 || test.code == 0x45) && test.jt == 1 && test.jf == 0,
    ensures
        ({
            let place = transport_at(pkt, off as int);
            let got = load(pkt, place, if load_from == ldh_ind(0) { 2 } else { 1 });
            run(prog, pkt, at, a, x) == if 15 > pkt.len() {
                Outcome::Fault
            } else {
                match got {
                    Err(e) => e,
                    Ok(v) => if (test.code == 0x15 && v != test.k) || (test.code == 0x45 && v
                        & test.k == 0) {
                        Outcome::Ret(0)
                    } else {
                        run(prog, pkt, at + 8, v, transport_reg(pkt, off as int))
                    },
                }
            }
        }),
        0 <= transport_at(pkt, off as int) <= 90,
{
    let part = check_transport(off, load_from, test);
    assert(prog[at + 0] == part[0] && prog[at + 1] == part[1] && prog[at + 2] == part[2]);
    assert(prog[at + 3] == part[3] && prog[at + 4] == part[4] && prog[at + 5] == part[5]);
    assert(prog[at + 6] == part[6] && prog[at + 7] == part[7]);
    if 15 <= pkt.len() {
        let b = pkt[14] as u32;
        let place = transport_at(pkt, off as int);
        lemma_header_words(pkt[14]);
        assert(run(prog, pkt, at, a, x) == run(prog, pkt, at + 1, b, x));
        assert(run(prog, pkt, at + 1, b, x) == run(prog, pkt, at + 2, b & 0x0F, x));
        assert(run(prog, pkt, at + 2, b & 0x0F, x) == run(prog, pkt, at + 3, (b & 0x0F) << 2, x));
        assert(run(prog, pkt, at + 3, (b & 0x0F) << 2, x) == run(
            prog,
            pkt,
            at + 4,
            place as u32,
            x,
        ));
        assert(run(prog, pkt, at + 4, place as u32, x) == run(
            prog,
            pkt,
            at + 5,
            place as u32,
            place as u32,
        ));
        let size = if load_from == ldh_ind(0) { 2int } else { 1int };
        match load(pkt, place, size) {
            Err(e) => {},
            Ok(v) => {
                assert(run(prog, pkt, at + 5, place as u32, place as u32) == run(
                    prog,
                    pkt,
                    at + 6,
                    v,
                    place as u32,
                ));
                assert(run(prog, pkt, at + 7, v, place as u32) == Outcome::Ret(0));
            },
        }
    }
}

/// Keeps IPv4 frames of a protocol with a port at `off` of the transport header.
pub open spec fn port_program(protocol: u32, off: u32, port: u16) -> Seq<BpfInstruction> {
    check_ethertype(0x0800) + check_proto(protocol) + check_transport(
        off,
        ldh_ind(0),
        jeq(port as u32, 1, 0),
    ) + seq![ret_k(u32::MAX)]
}

/// Keeps ICMP frames.
pub open spec fn icmp_program() -> Seq<BpfInstruction> {
    check_ethertype(0x0800) + check_proto(1) + seq![ret_k(u32::MAX)]
}

/// Keeps ICMP frames of one type.
pub open spec fn icmp_type_program(kind: u8) -> Seq<BpfInstruction> {
    check_ethertype(0x0800) + check_proto(1) + check_transport(
        0,
        ldb_ind(0),
        jeq_byte(kind, 1, 0),
    ) + seq![ret_k(u32::MAX)]
}

/// Keeps IPv4 frames of a protocol for a destination address.
pub open spec fn proto_dst_program(protocol: u32, addr: u32) -> Seq<BpfInstruction> {
    check_ethertype(0x0800) + check_proto(protocol) + check_word(30, addr) + seq![
        ret_k(u32::MAX),
    ]
}

/// Keeps TCP frames with a flag of `mask` set.
pub open spec fn tcp_flag_program(mask: u32) -> Seq<BpfInstruction> {
    check_ethertype(0x0800) + check_proto(6) + check_transport(
        13,
        ldb_ind(0),
        jset(mask, 1, 0),
    ) + seq![ret_k(u32::MAX)]
}

/// Keeps TCP frames from an address and port to a port.
pub open spec fn tcp_response_program(src_ip: u32, src_port: u16, dst_port: u16) -> Seq<BpfInstruction> {
    check_ethertype(0x0800) + check_word(26, src_ip) + check_proto(6) + check_transport(
        0,
        ldh_ind(0),
        jeq(src_port as u32, 1, 0),
    ) + check_transport(2, ldh_ind(0), jeq(dst_port as u32, 1, 0)) + seq![ret_k(u32::MAX)]
}

/// Keeps TCP frames from an address.
pub open spec fn tcp_from_program(src_ip: u32) -> Seq<BpfInstruction> {
    check_ethertype(0x0800) + check_word(26, src_ip) + check_proto(6) + seq![ret_k(u32::MAX)]
}

/// Keeps frames of one `EtherType`.
pub open spec fn ethertype_program(ethertype: u32) -> Seq<BpfInstruction> {
    check_ethertype(ethertype) + seq![ret_k(u32::MAX)]
}

/// Keeps IPv4 frames with an address at `off` of the IP header.
pub open spec fn ipv4_addr_program(off: u32, addr: u32) -> Seq<BpfInstruction> {
    check_ethertype(0x0800) + check_word((14 + off) as u32, addr) + seq![ret_k(u32::MAX)]
}

/// Keeps ICMP and UDP frames for a destination address.
pub open spec fn icmp_or_udp_dst_program(addr: u32) -> Seq<BpfInstruction> {
    check_ethertype(0x0800) + seq![ldb_abs(23), jeq(1, 2, 0), jeq(17, 5, 0), ret_k(0)]
        + check_word(30, addr) + seq![ret_k(u32::MAX)] + check_word(30, addr) + seq![
        ret_k(u32::MAX),
    ]
}

/// A check that has ended the run, or else what comes behind it.
spec fn after(check: Option<Outcome>, rest: Outcome) -> Outcome {
    match check {
        Some(o) => o,
        None => rest,
    }
}

spec fn ethertype_check(pkt: Seq<u8>, ethertype: u32) -> Option<Outcome> {
    if 14 > pkt.len() {
        Some(Outcome::Fault)
    } else if wire::be16_at(pkt, 12) != ethertype {
        Some(Outcome::Ret(0))
    } else {
        None
    }
}

spec fn proto_check(pkt: Seq<u8>, protocol: u32) -> Option<Outcome> {
    if 24 > pkt.len() {
        Some(Outcome::Fault)
    } else if pkt[23] != protocol {
        Some(Outcome::Ret(0))
    } else {
        None
    }
}

spec fn word_check(pkt: Seq<u8>, off: int, value: u32) -> Option<Outcome> {
    if off + 4 > pkt.len() {
        Some(Outcome::Fault)
    } else if wire::be32_at(pkt, off) != value {
        Some(Outcome::Ret(0))
    } else {
        None
    }
}

spec fn transport_check(pkt: Seq<u8>, off: int, size: int, test: BpfInstruction) -> Option<Outcome> {
    if 15 > pkt.len() {
        Some(Outcome::Fault)
    } else {
        match load(pkt, transport_at(pkt, off), size) {
            Err(e) => Some(e),
            Ok(v) => if (test.code == 0x15 && v != test.k) || (test.code == 0x45 && v & test.k == 0) {
                Some(Outcome::Ret(0))
            } else {
                None
            },
        }
    }
}

proof fn port_outcome(protocol: u32, off: u32, port: u16, pkt: Seq<u8>, a: u32, x: u32)
    requires
        off <= 16,
    ensures
        run(port_program(protocol, off, port), pkt, 0, a, x) == after(
            ethertype_check(pkt, 0x0800),
            after(
            proto_check(pkt, protocol),
            after(
            transport_check(pkt, off as int, 2, jeq(port as u32, 1, 0)),
            Outcome::Ret(u32::MAX),
        ),
        ),
        ),
{
    let p = port_program(protocol, off, port);
    assert(stands_at(p, 0, check_ethertype(0x0800)));
    block_ethertype(p, 0, 0x0800, pkt, a, x);
    assert(stands_at(p, 3, check_proto(protocol)));
    block_proto(p, 3, protocol, pkt, 0x0800, x);
    assert(stands_at(p, 6, check_transport(off, ldh_ind(0), jeq(port as u32, 1, 0))));
    block_transport(p, 6, off, ldh_ind(0), jeq(port as u32, 1, 0), pkt, protocol, x);
    let v1 = match load(pkt, transport_at(pkt, off as int), 2) {
        Ok(v) => v,
        Err(_) => 0,
    };
    let x1 = transport_reg(pkt, off as int);
    assert(p[14] == ret_k(u32::MAX));
    assert(run(p, pkt, 14, v1, x1) == Outcome::Ret(u32::MAX));
}

proof fn port_meaning(protocol: u32, off: u32, port: u16)
    requires
        off <= 16,
    ensures
        self_contained(port_program(protocol, off, port)),
        forall|pkt: Seq<u8>| #[trigger] accepts(port_program(protocol, off, port), pkt) <==> is_ipv4_proto(pkt, protocol) && has_transport_half(pkt, off as int, port),
{
    let p = port_program(protocol, off, port);
    assert forall|pkt: Seq<u8>, a: u32, x: u32|
        #![trigger run(p, pkt, 0, a, x)]
        run(p, pkt, 0, a, x) == verdict(p, pkt) && verdict(p, pkt) != Outcome::Stuck by {
        port_outcome(protocol, off, port, pkt, a, x);
        port_outcome(protocol, off, port, pkt, 0, 0);
    }
    assert forall|pkt: Seq<u8>| #[trigger] accepts(p, pkt) <==> is_ipv4_proto(pkt, protocol) && has_transport_half(pkt, off as int, port) by {
        port_outcome(protocol, off, port, pkt, 0, 0);
    }
}

proof fn icmp_outcome(pkt: Seq<u8>, a: u32, x: u32)
    ensures
        run(icmp_program(), pkt, 0, a, x) == after(
            ethertype_check(pkt, 0x0800),
            after(
            proto_check(pkt, 1),
            Outcome::Ret(u32::MAX),
        ),
        ),
{
    let p = icmp_program();
    assert(stands_at(p, 0, check_ethertype(0x0800)));
    block_ethertype(p, 0, 0x0800, pkt, a, x);
    assert(stands_at(p, 3, check_proto(1)));
    block_proto(p, 3, 1, pkt, 0x0800, x);
    assert(p[6] == ret_k(u32::MAX));
    assert(run(p, pkt, 6, 1, x) == Outcome::Ret(u32::MAX));
}

proof fn icmp_meaning()
    ensures
        self_contained(icmp_program()),
        forall|pkt: Seq<u8>| #[trigger] accepts(icmp_program(), pkt) <==> is_ipv4_proto(pkt, 1),
{
    let p = icmp_program();
    assert forall|pkt: Seq<u8>, a: u32, x: u32|
        #![trigger run(p, pkt, 0, a, x)]
        run(p, pkt, 0, a, x) == verdict(p, pkt) && verdict(p, pkt) != Outcome::Stuck by {
        icmp_outcome(pkt, a, x);
        icmp_outcome(pkt, 0, 0);
    }
    assert forall|pkt: Seq<u8>| #[trigger] accepts(p, pkt) <==> is_ipv4_proto(pkt, 1) by {
        icmp_outcome(pkt, 0, 0);
    }
}

proof fn icmp_type_outcome(kind: u8, pkt: Seq<u8>, a: u32, x: u32)
    ensures
        run(icmp_type_program(kind), pkt, 0, a, x) == after(
            ethertype_check(pkt, 0x0800),
            after(
            proto_check(pkt, 1),
            after(
            transport_check(pkt, 0, 1, jeq_byte(kind, 1, 0)),
            Outcome::Ret(u32::MAX),
        ),
        ),
        ),
{
    let p = icmp_type_program(kind);
    assert(stands_at(p, 0, check_ethertype(0x0800)));
    block_ethertype(p, 0, 0x0800, pkt, a, x);
    assert(stands_at(p, 3, check_proto(1)));
    block_proto(p, 3, 1, pkt, 0x0800, x);
    assert(stands_at(p, 6, check_transport(0, ldb_ind(0), jeq_byte(kind, 1, 0))));
    block_transport(p, 6, 0, ldb_ind(0), jeq_byte(kind, 1, 0), pkt, 1, x);
    let v1 = match load(pkt, transport_at(pkt, 0), 1) {
        Ok(v) => v,
        Err(_) => 0,
    };
    let x1 = transport_reg(pkt, 0);
    assert(p[14] == ret_k(u32::MAX));
    assert(run(p, pkt, 14, v1, x1) == Outcome::Ret(u32::MAX));
}

proof fn icmp_type_meaning(kind: u8)
    ensures
        self_contained(icmp_type_program(kind)),
        forall|pkt: Seq<u8>| #[trigger] accepts(icmp_type_program(kind), pkt) <==> is_ipv4_proto(pkt, 1) && has_transport_byte(pkt, 0, kind),
{
    let p = icmp_type_program(kind);
    assert forall|pkt: Seq<u8>, a: u32, x: u32|
        #![trigger run(p, pkt, 0, a, x)]
        run(p, pkt, 0, a, x) == verdict(p, pkt) && verdict(p, pkt) != Outcome::Stuck by {
        icmp_type_outcome(kind, pkt, a, x);
        icmp_type_outcome(kind, pkt, 0, 0);
    }
    assert forall|pkt: Seq<u8>| #[trigger] accepts(p, pkt) <==> is_ipv4_proto(pkt, 1) && has_transport_byte(pkt, 0, kind) by {
        icmp_type_outcome(kind, pkt, 0, 0);
    }
}

proof fn proto_dst_outcome(protocol: u32, addr: u32, pkt: Seq<u8>, a: u32, x: u32)
    ensures
        run(proto_dst_program(protocol, addr), pkt, 0, a, x) == after(
            ethertype_check(pkt, 0x0800),
            after(
            proto_check(pkt, protocol),
            after(
            word_check(pkt, 30, addr),
            Outcome::Ret(u32::MAX),
        ),
        ),
        ),
{
    let p = proto_dst_program(protocol, addr);
    assert(stands_at(p, 0, check_ethertype(0x0800)));
    block_ethertype(p, 0, 0x0800, pkt, a, x);
    assert(stands_at(p, 3, check_proto(protocol)));
    block_proto(p, 3, protocol, pkt, 0x0800, x);
    assert(stands_at(p, 6, check_word(30, addr)));
    block_word(p, 6, 30, addr, pkt, protocol, x);
    assert(p[9] == ret_k(u32::MAX));
    assert(run(p, pkt, 9, addr, x) == Outcome::Ret(u32::MAX));
}

proof fn proto_dst_meaning(protocol: u32, addr: u32)
    ensures
        self_contained(proto_dst_program(protocol, addr)),
        forall|pkt: Seq<u8>| #[trigger] accepts(proto_dst_program(protocol, addr), pkt) <==> is_ipv4_proto(pkt, protocol) && has_word(pkt, 30, addr),
{
    let p = proto_dst_program(protocol, addr);
    assert forall|pkt: Seq<u8>, a: u32, x: u32|
        #![trigger run(p, pkt, 0, a, x)]
        run(p, pkt, 0, a, x) == verdict(p, pkt) && verdict(p, pkt) != Outcome::Stuck by {
        proto_dst_outcome(protocol, addr, pkt, a, x);
        proto_dst_outcome(protocol, addr, pkt, 0, 0);
    }
    assert forall|pkt: Seq<u8>| #[trigger] accepts(p, pkt) <==> is_ipv4_proto(pkt, protocol) && has_word(pkt, 30, addr) by {
        proto_dst_outcome(protocol, addr, pkt, 0, 0);
    }
}

proof fn tcp_flag_outcome(mask: u32, pkt: Seq<u8>, a: u32, x: u32)
    ensures
        run(tcp_flag_program(mask), pkt, 0, a, x) == after(
            ethertype_check(pkt, 0x0800),
            after(
            proto_check(pkt, 6),
            after(
            transport_check(pkt, 13, 1, jset(mask, 1, 0)),
            Outcome::Ret(u32::MAX),
        ),
        ),
        ),
{
    let p = tcp_flag_program(mask);
    assert(stands_at(p, 0, check_ethertype(0x0800)));
    block_ethertype(p, 0, 0x0800, pkt, a, x);
    assert(stands_at(p, 3, check_proto(6)));
    block_proto(p, 3, 6, pkt, 0x0800, x);
    assert(stands_at(p, 6, check_transport(13, ldb_ind(0), jset(mask, 1, 0))));
    block_transport(p, 6, 13, ldb_ind(0), jset(mask, 1, 0), pkt, 6, x);
    let v1 = match load(pkt, transport_at(pkt, 13), 1) {
        Ok(v) => v,
        Err(_) => 0,
    };
    let x1 = transport_reg(pkt, 13);
    assert(p[14] == ret_k(u32::MAX));
    assert(run(p, pkt, 14, v1, x1) == Outcome::Ret(u32::MAX));
}

proof fn tcp_flag_meaning(mask: u32)
    ensures
        self_contained(tcp_flag_program(mask)),
        forall|pkt: Seq<u8>| #[trigger] accepts(tcp_flag_program(mask), pkt) <==> is_ipv4_proto(pkt, 6) && has_transport_flag(pkt, 13, mask),
{
    let p = tcp_flag_program(mask);
    assert forall|pkt: Seq<u8>, a: u32, x: u32|
        #![trigger run(p, pkt, 0, a, x)]
        run(p, pkt, 0, a, x) == verdict(p, pkt) && verdict(p, pkt) != Outcome::Stuck by {
        tcp_flag_outcome(mask, pkt, a, x);
        tcp_flag_outcome(mask, pkt, 0, 0);
    }
    assert forall|pkt: Seq<u8>| #[trigger] accepts(p, pkt) <==> is_ipv4_proto(pkt, 6) && has_transport_flag(pkt, 13, mask) by {
        tcp_flag_outcome(mask, pkt, 0, 0);
    }
}

proof fn tcp_response_outcome(src_ip: u32, src_port: u16, dst_port: u16, pkt: Seq<u8>, a: u32, x: u32)
    ensures
        run(tcp_response_program(src_ip, src_port, dst_port), pkt, 0, a, x) == after(
            ethertype_check(pkt, 0x0800),
            after(
            word_check(pkt, 26, src_ip),
            after(
            proto_check(pkt, 6),
            after(
            transport_check(pkt, 0, 2, jeq(src_port as u32, 1, 0)),
            after(
            transport_check(pkt, 2, 2, jeq(dst_port as u32, 1, 0)),
            Outcome::Ret(u32::MAX),
        ),
        ),
        ),
        ),
        ),
{
    let p = tcp_response_program(src_ip, src_port, dst_port);
    assert(stands_at(p, 0, check_ethertype(0x0800)));
    block_ethertype(p, 0, 0x0800, pkt, a, x);
    assert(stands_at(p, 3, check_word(26, src_ip)));
    block_word(p, 3, 26, src_ip, pkt, 0x0800, x);
    assert(stands_at(p, 6, check_proto(6)));
    block_proto(p, 6, 6, pkt, src_ip, x);
    assert(stands_at(p, 9, check_transport(0, ldh_ind(0), jeq(src_port as u32, 1, 0))));
    block_transport(p, 9, 0, ldh_ind(0), jeq(src_port as u32, 1, 0), pkt, 6, x);
    let v1 = match load(pkt, transport_at(pkt, 0), 2) {
        Ok(v) => v,
        Err(_) => 0,
    };
    let x1 = transport_reg(pkt, 0);
    assert(stands_at(p, 17, check_transport(2, ldh_ind(0), jeq(dst_port as u32, 1, 0))));
    block_transport(p, 17, 2, ldh_ind(0), jeq(dst_port as u32, 1, 0), pkt, v1, x1);
    let v2 = match load(pkt, transport_at(pkt, 2), 2) {
        Ok(v) => v,
        Err(_) => 0,
    };
    let x2 = transport_reg(pkt, 2);
    assert(p[25] == ret_k(u32::MAX));
    assert(run(p, pkt, 25, v2, x2) == Outcome::Ret(u32::MAX));
}

proof fn tcp_response_meaning(src_ip: u32, src_port: u16, dst_port: u16)
    ensures
        self_contained(tcp_response_program(src_ip, src_port, dst_port)),
        forall|pkt: Seq<u8>| #[trigger] accepts(tcp_response_program(src_ip, src_port, dst_port), pkt) <==> is_ipv4_proto(pkt, 6) && has_word(pkt, 26, src_ip)
            && has_transport_half(pkt, 0, src_port) && has_transport_half(pkt, 2, dst_port),
{
    let p = tcp_response_program(src_ip, src_port, dst_port);
    assert forall|pkt: Seq<u8>, a: u32, x: u32|
        #![trigger run(p, pkt, 0, a, x)]
        run(p, pkt, 0, a, x) == verdict(p, pkt) && verdict(p, pkt) != Outcome::Stuck by {
        tcp_response_outcome(src_ip, src_port, dst_port, pkt, a, x);
        tcp_response_outcome(src_ip, src_port, dst_port, pkt, 0, 0);
    }
    assert forall|pkt: Seq<u8>| #[trigger] accepts(p, pkt) <==> is_ipv4_proto(pkt, 6) && has_word(pkt, 26, src_ip)
            && has_transport_half(pkt, 0, src_port) && has_transport_half(pkt, 2, dst_port) by {
        tcp_response_outcome(src_ip, src_port, dst_port, pkt, 0, 0);
    }
}

proof fn tcp_from_outcome(src_ip: u32, pkt: Seq<u8>, a: u32, x: u32)
    ensures
        run(tcp_from_program(src_ip), pkt, 0, a, x) == after(
            ethertype_check(pkt, 0x0800),
            after(
            word_check(pkt, 26, src_ip),
            after(
            proto_check(pkt, 6),
            Outcome::Ret(u32::MAX),
        ),
        ),
        ),
{
    let p = tcp_from_program(src_ip);
    assert(stands_at(p, 0, check_ethertype(0x0800)));
    block_ethertype(p, 0, 0x0800, pkt, a, x);
    assert(stands_at(p, 3, check_word(26, src_ip)));
    block_word(p, 3, 26, src_ip, pkt, 0x0800, x);
    assert(stands_at(p, 6, check_proto(6)));
    block_proto(p, 6, 6, pkt, src_ip, x);
    assert(p[9] == ret_k(u32::MAX));
    assert(run(p, pkt, 9, 6, x) == Outcome::Ret(u32::MAX));
}

proof fn tcp_from_meaning(src_ip: u32)
    ensures
        self_contained(tcp_from_program(src_ip)),
        forall|pkt: Seq<u8>| #[trigger] accepts(tcp_from_program(src_ip), pkt) <==> is_ipv4_proto(pkt, 6) && has_word(pkt, 26, src_ip),
{
    let p = tcp_from_program(src_ip);
    assert forall|pkt: Seq<u8>, a: u32, x: u32|
        #![trigger run(p, pkt, 0, a, x)]
        run(p, pkt, 0, a, x) == verdict(p, pkt) && verdict(p, pkt) != Outcome::Stuck by {
        tcp_from_outcome(src_ip, pkt, a, x);
        tcp_from_outcome(src_ip, pkt, 0, 0);
    }
    assert forall|pkt: Seq<u8>| #[trigger] accepts(p, pkt) <==> is_ipv4_proto(pkt, 6) && has_word(pkt, 26, src_ip) by {
        tcp_from_outcome(src_ip, pkt, 0, 0);
    }
}

proof fn ethertype_outcome(ethertype: u32, pkt: Seq<u8>, a: u32, x: u32)
    ensures
        run(ethertype_program(ethertype), pkt, 0, a, x) == after(
            ethertype_check(pkt, ethertype),
            Outcome::Ret(u32::MAX),
        ),
{
    let p = ethertype_program(ethertype);
    assert(stands_at(p, 0, check_ethertype(ethertype)));
    block_ethertype(p, 0, ethertype, pkt, a, x);
    assert(p[3] == ret_k(u32::MAX));
    assert(run(p, pkt, 3, ethertype, x) == Outcome::Ret(u32::MAX));
}

proof fn ethertype_meaning(ethertype: u32)
    ensures
        self_contained(ethertype_program(ethertype)),
        forall|pkt: Seq<u8>| #[trigger] accepts(ethertype_program(ethertype), pkt) <==> is_ethertype(pkt, ethertype),
{
    let p = ethertype_program(ethertype);
    assert forall|pkt: Seq<u8>, a: u32, x: u32|
        #![trigger run(p, pkt, 0, a, x)]
        run(p, pkt, 0, a, x) == verdict(p, pkt) && verdict(p, pkt) != Outcome::Stuck by {
        ethertype_outcome(ethertype, pkt, a, x);
        ethertype_outcome(ethertype, pkt, 0, 0);
    }
    assert forall|pkt: Seq<u8>| #[trigger] accepts(p, pkt) <==> is_ethertype(pkt, ethertype) by {
        ethertype_outcome(ethertype, pkt, 0, 0);
    }
}

proof fn ipv4_addr_outcome(off: u32, addr: u32, pkt: Seq<u8>, a: u32, x: u32)
    requires
        off <= 16,
    ensures
        run(ipv4_addr_program(off, addr), pkt, 0, a, x) == after(
            ethertype_check(pkt, 0x0800),
            after(
            word_check(pkt, (14 + off) as int, addr),
            Outcome::Ret(u32::MAX),
        ),
        ),
{
    let p = ipv4_addr_program(off, addr);
    assert(stands_at(p, 0, check_ethertype(0x0800)));
    block_ethertype(p, 0, 0x0800, pkt, a, x);
    assert(stands_at(p, 3, check_word((14 + off) as u32, addr)));
    block_word(p, 3, (14 + off) as u32, addr, pkt, 0x0800, x);
    assert(p[6] == ret_k(u32::MAX));
    assert(run(p, pkt, 6, addr, x) == Outcome::Ret(u32::MAX));
}

proof fn ipv4_addr_meaning(off: u32, addr: u32)
    requires
        off <= 16,
    ensures
        self_contained(ipv4_addr_program(off, addr)),
        forall|pkt: Seq<u8>| #[trigger] accepts(ipv4_addr_program(off, addr), pkt) <==> is_ethertype(pkt, 0x0800) && has_word(pkt, 14 + off, addr),
{
    let p = ipv4_addr_program(off, addr);
    assert forall|pkt: Seq<u8>, a: u32, x: u32|
        #![trigger run(p, pkt, 0, a, x)]
        run(p, pkt, 0, a, x) == verdict(p, pkt) && verdict(p, pkt) != Outcome::Stuck by {
        ipv4_addr_outcome(off, addr, pkt, a, x);
        ipv4_addr_outcome(off, addr, pkt, 0, 0);
    }
    assert forall|pkt: Seq<u8>| #[trigger] accepts(p, pkt) <==> is_ethertype(pkt, 0x0800) && has_word(pkt, 14 + off, addr) by {
        ipv4_addr_outcome(off, addr, pkt, 0, 0);
    }
}

spec fn icmp_or_udp_check(pkt: Seq<u8>) -> Option<Outcome> {
    if 24 > pkt.len() {
        Some(Outcome::Fault)
    } else if pkt[23] != 1 && pkt[23] != 17 {
        Some(Outcome::Ret(0))
    } else {
        None
    }
}

proof fn icmp_or_udp_outcome(addr: u32, pkt: Seq<u8>, a: u32, x: u32)
    ensures
        run(icmp_or_udp_dst_program(addr), pkt, 0, a, x) == after(
            ethertype_check(pkt, 0x0800),
            after(
                icmp_or_udp_check(pkt),
                after(word_check(pkt, 30, addr), Outcome::Ret(u32::MAX)),
            ),
        ),
{
    let p = icmp_or_udp_dst_program(addr);
    assert(stands_at(p, 0, check_ethertype(0x0800)));
    block_ethertype(p, 0, 0x0800, pkt, a, x);
    assert(p[3] == ldb_abs(23) && p[4] == jeq(1, 2, 0) && p[5] == jeq(17, 5, 0) && p[6] == ret_k(
        0,
    ));
    assert(stands_at(p, 7, check_word(30, addr)));
    block_word(p, 7, 30, addr, pkt, 1, x);
    assert(p[10] == ret_k(u32::MAX));
    assert(run(p, pkt, 10, addr, x) == Outcome::Ret(u32::MAX));
    assert(stands_at(p, 11, check_word(30, addr)));
    block_word(p, 11, 30, addr, pkt, 17, x);
    assert(p[14] == ret_k(u32::MAX));
    assert(run(p, pkt, 14, addr, x) == Outcome::Ret(u32::MAX));
    if 24 <= pkt.len() {
        let v = byte_reg(pkt[23]);
        assert(run(p, pkt, 3, 0x0800, x) == run(p, pkt, 4, v, x));
        assert(run(p, pkt, 6, v, x) == Outcome::Ret(0));
        assert(run(p, pkt, 5, v, x) == if v == 17 {
            run(p, pkt, 11, v, x)
        } else {
            run(p, pkt, 6, v, x)
        });
        assert(run(p, pkt, 4, v, x) == if v == 1 {
            run(p, pkt, 7, v, x)
        } else {
            run(p, pkt, 5, v, x)
        });
    }
}

proof fn icmp_or_udp_meaning(addr: u32)
    ensures
        self_contained(icmp_or_udp_dst_program(addr)),
        forall|pkt: Seq<u8>| #[trigger]
            accepts(icmp_or_udp_dst_program(addr), pkt) <==> (is_ipv4_proto(pkt, 1)
                || is_ipv4_proto(pkt, 17)) && has_word(pkt, 30, addr),
{
    let p = icmp_or_udp_dst_program(addr);
    assert forall|pkt: Seq<u8>, a: u32, x: u32|
        #![trigger run(p, pkt, 0, a, x)]
        run(p, pkt, 0, a, x) == verdict(p, pkt) && verdict(p, pkt) != Outcome::Stuck by {
        icmp_or_udp_outcome(addr, pkt, a, x);
        icmp_or_udp_outcome(addr, pkt, 0, 0);
    }
    assert forall|pkt: Seq<u8>| #[trigger]
        accepts(p, pkt) <==> (is_ipv4_proto(pkt, 1) || is_ipv4_proto(pkt, 17)) && has_word(
            pkt,
            30,
            addr,
        ) by {
        icmp_or_udp_outcome(addr, pkt, 0, 0);
    }
}

/// The programs of a sequence of filters.
pub open spec fn programs(filters: Seq<BpfFilter>) -> Seq<Seq<BpfInstruction>> {
    Seq::new(filters.len(), |i: int| filters[i]@)
}

/// The number of instructions in all the programs together.
pub open spec fn total_len(progs: Seq<Seq<BpfInstruction>>) -> int
    decreases progs.len(),
{
    if progs.len() == 0 {
        0
    } else {
        total_len(progs.drop_last()) + progs.last().len()
    }
}

/// A jump over `n` instructions, as far as 32 bits hold it.
pub open spec fn jump_over(n: int) -> BpfInstruction {
    ja(if n <= u32::MAX {
        n as u32
    } else {
        u32::MAX
    })
}

/// A return as a jump to the next filter, or to the common accepting return.
pub open spec fn redirected(i: BpfInstruction, to_next: int, to_accept: int) -> BpfInstruction {
    if i.code == 0x06 && i.k == u32::MAX {
        jump_over(to_accept)
    } else if i.code == 0x06 && i.k == 0 {
        jump_over(to_next)
    } else {
        i
    }
}

/// `prog` as it stands at `at` in a combined filter whose common accepting return
/// is at `accept_at`.
pub open spec fn placed(
    prog: Seq<BpfInstruction>,
    at: int,
    accept_at: int,
    last: bool,
) -> Seq<BpfInstruction> {
    Seq::new(
        prog.len(),
        |j: int|
            if last {
                prog[j]
            } else {
                redirected(prog[j], prog.len() - j - 1, accept_at - at - j - 1)
            },
    )
}

/// The first `n` programs of a combined filter, one behind the other.
pub open spec fn chained(
    progs: Seq<Seq<BpfInstruction>>,
    n: int,
    accept_at: int,
) -> Seq<BpfInstruction>
    decreases n,
{
    if n <= 0 {
        Seq::empty()
    } else {
        chained(progs, n - 1, accept_at) + placed(
            progs[n - 1],
            total_len(progs.take(n - 1)),
            accept_at,
            n == progs.len(),
        )
    }
}

/// The combined filter of some programs: for none the rejecting one, for one this
/// one.
pub open spec fn any_program(progs: Seq<Seq<BpfInstruction>>) -> Seq<BpfInstruction> {
    if progs.len() == 0 {
        seq![ret_k(0)]
    } else if progs.len() == 1 {
        progs[0]
    } else {
        chained(progs, progs.len() as int, total_len(progs)) + seq![ret_k(u32::MAX), ret_k(0)]
    }
}

/// Without filters, the combined filter is the one instruction that rejects every
/// frame; of a single filter, it is that filter.
pub proof fn any_of_none_or_one(filter: Seq<BpfInstruction>, pkt: Seq<u8>)
    ensures
        any_program(Seq::empty()) == seq![ret_k(0)],
        verdict(any_program(Seq::empty()), pkt) == Outcome::Ret(0),
        any_program(seq![filter]) == filter,
{
}

/// On the frame `pkt` each program ends in a verdict that the model knows,
/// whatever the registers hold at its start.
pub open spec fn all_settled(progs: Seq<Seq<BpfInstruction>>, pkt: Seq<u8>) -> bool {
    forall|i: int, a: u32, x: u32|
        #![trigger run(progs[i], pkt, 0, a, x)]
        0 <= i < progs.len() ==> run(progs[i], pkt, 0, a, x) == verdict(progs[i], pkt) && verdict(
            progs[i],
            pkt,
        ) != Outcome::Stuck
}

/// The verdict of the first program from `i` on that does not reject the frame,
/// or that of the last one.
pub open spec fn first_verdict(
    progs: Seq<Seq<BpfInstruction>>,
    pkt: Seq<u8>,
    i: int,
) -> Outcome
    decreases progs.len() - i,
{
    if i + 1 < progs.len() && verdict(progs[i], pkt) == Outcome::Ret(0) {
        first_verdict(progs, pkt, i + 1)
    } else {
        verdict(progs[i], pkt)
    }
}

proof fn lemma_chained_len(progs: Seq<Seq<BpfInstruction>>, n: int, accept_at: int)
    requires
        0 <= n <= progs.len(),
    ensures
        chained(progs, n, accept_at).len() == total_len(progs.take(n)),
    decreases n,
{
    if n == 0 {
        assert(progs.take(0) =~= Seq::<Seq<BpfInstruction>>::empty());
    } else {
        lemma_chained_len(progs, n - 1, accept_at);
        lemma_total_len_take(progs, n - 1);
    }
}

proof fn lemma_chained_at(
    progs: Seq<Seq<BpfInstruction>>,
    n: int,
    accept_at: int,
    i: int,
    j: int,
)
    requires
        0 <= i < n <= progs.len(),
        0 <= j < progs[i].len(),
    ensures
        0 <= total_len(progs.take(i)),
        total_len(progs.take(i)) + progs[i].len() <= total_len(progs.take(n)),
        chained(progs, n, accept_at)[total_len(progs.take(i)) + j] == placed(
            progs[i],
            total_len(progs.take(i)),
            accept_at,
            i + 1 == progs.len(),
        )[j],
    decreases n,
{
    lemma_total_len_take(progs, n - 1);
    lemma_total_len_nonneg(progs.take(i));
    lemma_chained_len(progs, n - 1, accept_at);
    if i < n - 1 {
        lemma_chained_at(progs, n - 1, accept_at, i, j);
    }
}

/// In a combined filter, a program runs as it does alone, up to where its returns
/// lead.
proof fn lemma_placed_run(
    progs: Seq<Seq<BpfInstruction>>,
    i: int,
    pkt: Seq<u8>,
    pc: int,
    a: u32,
    x: u32,
)
    requires
        progs.len() >= 2,
        0 <= i < progs.len(),
        total_len(progs) <= u32::MAX,
        0 <= pc < progs[i].len(),
        run(progs[i], pkt, pc, a, x) != Outcome::Stuck,
    ensures
        ({
            let at = total_len(progs.take(i));
            let whole = any_program(progs);
            let alone = run(progs[i], pkt, pc, a, x);
            let inside = run(whole, pkt, at + pc, a, x);
            if i + 1 < progs.len() && alone == Outcome::Ret(0) {
                exists|a2: u32, x2: u32|
                    inside == #[trigger] run(whole, pkt, at + progs[i].len(), a2, x2)
            } else {
                inside == alone
            }
        }),
    decreases progs[i].len() - pc,
{
    let f = progs[i];
    let at = total_len(progs.take(i));
    let total = total_len(progs);
    let whole = any_program(progs);
    let last = i + 1 == progs.len();
    lemma_chained_len(progs, progs.len() as int, total);
    lemma_chained_at(progs, progs.len() as int, total, i, pc);
    assert(progs.take(progs.len() as int) =~= progs);
    assert(whole.len() == total + 2);
    assert(whole[at + pc] == placed(f, at, total, last)[pc]);
    assert(whole[total] == ret_k(u32::MAX));
    let ins = f[pc];
    if !last {
        lemma_total_len_take(progs, i);
        lemma_total_len_take_le(progs, i + 1);
    }
    if ins.code == 0x06 {
        if !last && ins.k == u32::MAX {
            assert(run(whole, pkt, total, a, x) == Outcome::Ret(u32::MAX));
            assert(run(whole, pkt, at + pc, a, x) == run(whole, pkt, total, a, x));
        } else if !last && ins.k == 0 {
            let next = at + f.len();
            assert(next < whole.len());
            assert(run(whole, pkt, at + pc, a, x) == run(whole, pkt, next, a, x));
        }
    } else {
        match step(ins, pkt, pc, a, x) {
            Step::Next(next, a2, x2) => {
                assert(pc < next < f.len());
                assert(step(ins, pkt, at + pc, a, x) == Step::Next(at + next, a2, x2));
                lemma_placed_run(progs, i, pkt, next, a2, x2);
                assert(run(whole, pkt, at + pc, a, x) == run(whole, pkt, at + next, a2, x2));
            },
            Step::End(o) => {},
        }
    }
}

proof fn lemma_any_run(
    progs: Seq<Seq<BpfInstruction>>,
    i: int,
    pkt: Seq<u8>,
    a: u32,
    x: u32,
)
    requires
        progs.len() >= 2,
        0 <= i < progs.len(),
        total_len(progs) <= u32::MAX,
        all_settled(progs, pkt),
    ensures
        run(any_program(progs), pkt, total_len(progs.take(i)), a, x) == first_verdict(
            progs,
            pkt,
            i,
        ),
    decreases progs.len() - i,
{
    let at = total_len(progs.take(i));
    let whole = any_program(progs);
    assert(run(progs[i], pkt, 0, a, x) == verdict(progs[i], pkt));
    lemma_placed_run(progs, i, pkt, 0, a, x);
    if i + 1 < progs.len() && verdict(progs[i], pkt) == Outcome::Ret(0) {
        let (a2, x2) = choose|a2: u32, x2: u32|
            run(whole, pkt, at, a, x) == #[trigger] run(
                whole,
                pkt,
                at + progs[i].len(),
                a2,
                x2,
            );
        lemma_total_len_take(progs, i);
        lemma_any_run(progs, i + 1, pkt, a2, x2);
    }
}

/// The combined filter ends on a frame as the first of its filters that does not
/// reject the frame does, or as the last one.
pub proof fn any_takes_first_verdict(progs: Seq<Seq<BpfInstruction>>, pkt: Seq<u8>)
    requires
        progs.len() >= 1,
        total_len(progs) <= u32::MAX,
        all_settled(progs, pkt),
    ensures
        verdict(any_program(progs), pkt) == first_verdict(progs, pkt, 0),
{
    if progs.len() >= 2 {
        assert(progs.take(0) =~= Seq::<Seq<BpfInstruction>>::empty());
        lemma_any_run(progs, 0, pkt, 0, 0);
    }
}

proof fn lemma_first_verdict(progs: Seq<Seq<BpfInstruction>>, pkt: Seq<u8>, i: int)
    requires
        0 <= i < progs.len(),
    ensures
        exists|w: int|
            i <= w < progs.len() && first_verdict(progs, pkt, i) == verdict(
                #[trigger] progs[w],
                pkt,
            ) && (forall|j: int| i <= j < w ==> verdict(#[trigger] progs[j], pkt) == Outcome::Ret(0))
                && (w + 1 == progs.len() || verdict(progs[w], pkt) != Outcome::Ret(0)),
    decreases progs.len() - i,
{
    if i + 1 < progs.len() && verdict(progs[i], pkt) == Outcome::Ret(0) {
        lemma_first_verdict(progs, pkt, i + 1);
        let w = choose|w: int|
            i + 1 <= w < progs.len() && first_verdict(progs, pkt, i + 1) == verdict(
                #[trigger] progs[w],
                pkt,
            ) && (forall|j: int|
                i + 1 <= j < w ==> verdict(#[trigger] progs[j], pkt) == Outcome::Ret(0)) && (w + 1
                == progs.len() || verdict(progs[w], pkt) != Outcome::Ret(0));
        assert(first_verdict(progs, pkt, i) == verdict(progs[w], pkt));
    } else {
        assert(first_verdict(progs, pkt, i) == verdict(progs[i], pkt));
    }
}

/// The combined filter keeps exactly the frames that some of its filters keeps. A
/// frame that is too short for one filter before any keeps it ends the whole run,
/// as the kernel drops it there.
pub proof fn any_accepts_what_some_accepts(progs: Seq<Seq<BpfInstruction>>, pkt: Seq<u8>)
    requires
        total_len(progs) <= u32::MAX,
        all_settled(progs, pkt),
        forall|i: int, j: int|
            0 <= j < i < progs.len() && #[trigger] accepts(progs[i], pkt) && #[trigger] verdict(
                progs[j],
                pkt,
            ) == Outcome::Fault ==> exists|l: int| 0 <= l < j && #[trigger] accepts(progs[l], pkt),
    ensures
        accepts(any_program(progs), pkt) <==> exists|i: int|
            0 <= i < progs.len() && #[trigger] accepts(progs[i], pkt),
{
    if progs.len() >= 1 {
        any_takes_first_verdict(progs, pkt);
        lemma_first_verdict(progs, pkt, 0);
        let w = choose|w: int|
            0 <= w < progs.len() && first_verdict(progs, pkt, 0) == verdict(
                #[trigger] progs[w],
                pkt,
            ) && (forall|j: int| 0 <= j < w ==> verdict(#[trigger] progs[j], pkt) == Outcome::Ret(0))
                && (w + 1 == progs.len() || verdict(progs[w], pkt) != Outcome::Ret(0));
        assert(run(progs[w], pkt, 0, 0, 0) != Outcome::Stuck);
        if exists|i: int| 0 <= i < progs.len() && #[trigger] accepts(progs[i], pkt) {
            let i = choose|i: int| 0 <= i < progs.len() && #[trigger] accepts(progs[i], pkt);
            assert(i >= w);
            if i > w && !accepts(progs[w], pkt) {
                assert(verdict(progs[w], pkt) == Outcome::Fault);
                let l = choose|l: int| 0 <= l < w && #[trigger] accepts(progs[l], pkt);
                assert(verdict(progs[l], pkt) == Outcome::Ret(0));
                assert(false);
            }
            assert(accepts(progs[w], pkt));
        } else {
            assert(!accepts(progs[w], pkt));
        }
    } else {
        assert(any_program(progs)[0] == ret_k(0));
    }
}

proof fn lemma_total_len_take(progs: Seq<Seq<BpfInstruction>>, n: int)
    requires
        0 <= n < progs.len(),
    ensures
        total_len(progs.take(n + 1)) == total_len(progs.take(n)) + progs[n].len(),
{
    assert(progs.take(n + 1).drop_last() =~= progs.take(n));
}

proof fn lemma_total_len_take_le(progs: Seq<Seq<BpfInstruction>>, n: int)
    requires
        0 <= n <= progs.len(),
    ensures
        0 <= total_len(progs.take(n)) <= total_len(progs),
    decreases progs.len() - n,
{
    if n == progs.len() {
        assert(progs.take(n) =~= progs);
        lemma_total_len_nonneg(progs);
    } else {
        lemma_total_len_take(progs, n);
        lemma_total_len_take_le(progs, n + 1);
        lemma_total_len_nonneg(progs.take(n));
    }
}

proof fn lemma_total_len_nonneg(progs: Seq<Seq<BpfInstruction>>)
    ensures
        0 <= total_len(progs),
    decreases progs.len(),
{
    if progs.len() > 0 {
        lemma_total_len_nonneg(progs.drop_last());
    }
}

/// The distance of a jump, as far as 32 bits hold it.
fn jump_distance(n: usize) -> (r: u32)
    ensures
        r == if n <= u32::MAX {
            n as int
        } else {
            u32::MAX as int
        },
{
    if n <= 0xFFFF_FFFF {
        n as u32
    } else {
        u32::MAX
    }
}

/// A filter program for the kernel.
#[derive(Debug)]
pub struct BpfFilter {
    instructions: Vec<BpfInstruction>,
}

impl View for BpfFilter {
    type V = Seq<BpfInstruction>;

    closed spec fn view(&self) -> Seq<BpfInstruction> {
        self.instructions@
    }
}

impl Clone for BpfFilter {
    fn clone(&self) -> (r: Self)
        ensures
            r@ == self@,
    {
        let instructions = self.instructions.clone();
        assert(instructions@ =~= self.instructions@);
        Self { instructions }
    }
}

/// A filter program with its length, as the kernel takes it.
#[derive(Debug)]
pub struct BpfProgram {
    /// Number of instructions.
    pub len: u16,
    /// The instructions.
    pub filter: Vec<BpfInstruction>,
}

impl BpfFilter {
    /// Creates a new BPF filter from raw instructions.
    #[must_use]
    pub fn new(instructions: Vec<BpfInstruction>) -> (r: Self)
        ensures
            r@ == instructions@,
    {
        Self { instructions }
    }

    /// Creates an empty filter that accepts all packets.
    #[must_use]
    pub fn accept_all() -> (r: Self)
        ensures
            r@ == seq![ret_k(u32::MAX)],
            self_contained(r@),
            forall|pkt: Seq<u8>| #[trigger] accepts(r@, pkt),
    {
        let r = Self::new(vec![BpfInstruction::ret_accept()]);
        assert(r@ =~= seq![ret_k(u32::MAX)]);
        r
    }

    /// Creates a filter that rejects all packets.
    #[must_use]
    pub fn reject_all() -> (r: Self)
        ensures
            r@ == seq![ret_k(0)],
            self_contained(r@),
            forall|pkt: Seq<u8>| !#[trigger] accepts(r@, pkt),
    {
        let r = Self::new(vec![BpfInstruction::ret_reject()]);
        assert(r@ =~= seq![ret_k(0)]);
        r
    }

    /// Creates a filter for TCP destination port.
    #[must_use]
    pub fn tcp_dst_port(port: u16) -> (r: Self)
        ensures
            r@ == port_program(6, 2, port),
            self_contained(r@),
            forall|pkt: Seq<u8>| #[trigger] accepts(r@, pkt) <==> is_ipv4_proto(pkt, 6) && has_transport_half(
                pkt,
                2,
                port,
            ),
    {
        proof {
            port_meaning(6, 2, port);
        }
        Self::new(Self::build_port_filter(IPPROTO_TCP, TCP_DST_PORT_OFFSET, port))
    }

    /// Creates a filter for TCP source port.
    #[must_use]
    pub fn tcp_src_port(port: u16) -> (r: Self)
        ensures
            r@ == port_program(6, 0, port),
            self_contained(r@),
            forall|pkt: Seq<u8>| #[trigger] accepts(r@, pkt) <==> is_ipv4_proto(pkt, 6) && has_transport_half(
                pkt,
                0,
                port,
            ),
    {
        proof {
            port_meaning(6, 0, port);
        }
        Self::new(Self::build_port_filter(IPPROTO_TCP, TCP_SRC_PORT_OFFSET, port))
    }

    /// Creates a filter for UDP destination port.
    #[must_use]
    pub fn udp_dst_port(port: u16) -> (r: Self)
        ensures
            r@ == port_program(17, 2, port),
            self_contained(r@),
            forall|pkt: Seq<u8>| #[trigger] accepts(r@, pkt) <==> is_ipv4_proto(pkt, 17) && has_transport_half(
                pkt,
                2,
                port,
            ),
    {
        proof {
            port_meaning(17, 2, port);
        }
        Self::new(Self::build_port_filter(IPPROTO_UDP, UDP_DST_PORT_OFFSET, port))
    }

    /// Creates a filter for UDP source port.
    #[must_use]
    pub fn udp_src_port(port: u16) -> (r: Self)
        ensures
            r@ == port_program(17, 0, port),
            self_contained(r@),
            forall|pkt: Seq<u8>| #[trigger] accepts(r@, pkt) <==> is_ipv4_proto(pkt, 17) && has_transport_half(
                pkt,
                0,
                port,
            ),
    {
        proof {
            port_meaning(17, 0, port);
        }
        Self::new(Self::build_port_filter(IPPROTO_UDP, UDP_SRC_PORT_OFFSET, port))
    }

    /// Creates a filter for ICMP packets.
    #[must_use]
    pub fn icmp() -> (r: Self)
        ensures
            r@ == icmp_program(),
            self_contained(r@),
            forall|pkt: Seq<u8>| #[trigger] accepts(r@, pkt) <==> is_ipv4_proto(pkt, 1),
    {
        proof {
            icmp_meaning();
        }
        Self::new(Self::build_icmp_filter())
    }

    /// Creates a filter for ICMP echo request (ping).
    #[must_use]
    pub fn icmp_echo_request() -> (r: Self)
        ensures
            r@ == icmp_type_program(8),
            self_contained(r@),
            forall|pkt: Seq<u8>| #[trigger] accepts(r@, pkt) <==> is_ipv4_proto(pkt, 1)
                && has_transport_byte(pkt, 0, 8),
    {
        proof {
            icmp_type_meaning(8);
        }
        Self::new(Self::build_icmp_type_filter(8))
    }

    /// Creates a filter for ICMP echo reply.
    #[must_use]
    pub fn icmp_echo_reply() -> (r: Self)
        ensures
            r@ == icmp_type_program(0),
            self_contained(r@),
            forall|pkt: Seq<u8>| #[trigger] accepts(r@, pkt) <==> is_ipv4_proto(pkt, 1)
                && has_transport_byte(pkt, 0, 0),
    {
        proof {
            icmp_type_meaning(0);
        }
        Self::new(Self::build_icmp_type_filter(0))
    }

    /// Creates a filter for ICMP packets for an IPv4 destination address, given as a
    /// number whose highest byte is the first one on the wire.
    #[must_use]
    pub fn icmp_dst(addr: u32) -> (r: Self)
        ensures
            r@ == proto_dst_program(1, addr),
            self_contained(r@),
            forall|pkt: Seq<u8>| #[trigger] accepts(r@, pkt) <==> is_ipv4_proto(pkt, 1)
                && has_word(pkt, 30, addr),
    {
        proof {
            proto_dst_meaning(1, addr);
        }
        Self::new(Self::build_icmp_dst_filter(addr))
    }

    /// Creates a filter that accepts both ICMP and UDP packets for an IPv4 destination
    /// address: the answers of closed and of open UDP ports.
    #[must_use]
    pub fn icmp_or_udp_dst(addr: u32) -> (r: Self)
        ensures
            r@ == icmp_or_udp_dst_program(addr),
            self_contained(r@),
            forall|pkt: Seq<u8>| #[trigger] accepts(r@, pkt) <==> (is_ipv4_proto(pkt, 1)
                || is_ipv4_proto(pkt, 17)) && has_word(pkt, 30, addr),
    {
        proof {
            icmp_or_udp_meaning(addr);
        }
        Self::new(Self::build_icmp_or_udp_dst_filter(addr))
    }

    /// Creates a filter for TCP packets for an IPv4 destination address.
    #[must_use]
    pub fn tcp_dst_ip(addr: u32) -> (r: Self)
        ensures
            r@ == proto_dst_program(6, addr),
            self_contained(r@),
            forall|pkt: Seq<u8>| #[trigger] accepts(r@, pkt) <==> is_ipv4_proto(pkt, 6)
                && has_word(pkt, 30, addr),
    {
        proof {
            proto_dst_meaning(6, addr);
        }
        Self::new(Self::build_tcp_dst_ip_filter(addr))
    }

    /// Creates a filter for TCP SYN packets.
    #[must_use]
    pub fn tcp_syn() -> (r: Self)
        ensures
            r@ == tcp_flag_program(0x02),
            self_contained(r@),
            forall|pkt: Seq<u8>| #[trigger] accepts(r@, pkt) <==> is_ipv4_proto(pkt, 6)
                && has_transport_flag(pkt, 13, 0x02),
    {
        proof {
            tcp_flag_meaning(0x02);
        }
        Self::new(Self::build_tcp_syn_filter())
    }

    /// Creates a filter for TCP ACK packets.
    #[must_use]
    pub fn tcp_ack() -> (r: Self)
        ensures
            r@ == tcp_flag_program(0x10),
            self_contained(r@),
            forall|pkt: Seq<u8>| #[trigger] accepts(r@, pkt) <==> is_ipv4_proto(pkt, 6)
                && has_transport_flag(pkt, 13, 0x10),
    {
        proof {
            tcp_flag_meaning(0x10);
        }
        Self::new(Self::build_tcp_ack_filter())
    }

    /// Creates a filter for TCP packets from an IPv4 address and port to a port.
    #[must_use]
    pub fn tcp_response(src_ip: u32, src_port: u16, dst_port: u16) -> (r: Self)
        ensures
            r@ == tcp_response_program(src_ip, src_port, dst_port),
            self_contained(r@),
            forall|pkt: Seq<u8>| #[trigger] accepts(r@, pkt) <==> is_ipv4_proto(pkt, 6)
                && has_word(pkt, 26, src_ip) && has_transport_half(pkt, 0, src_port)
                && has_transport_half(pkt, 2, dst_port),
    {
        proof {
            tcp_response_meaning(src_ip, src_port, dst_port);
        }
        Self::new(Self::build_tcp_response_filter(src_ip, src_port, dst_port))
    }

    /// Creates a filter for any TCP packet from an IPv4 address.
    #[must_use]
    pub fn tcp_response_from_ip(src_ip: u32) -> (r: Self)
        ensures
            r@ == tcp_from_program(src_ip),
            self_contained(r@),
            forall|pkt: Seq<u8>| #[trigger] accepts(r@, pkt) <==> is_ipv4_proto(pkt, 6)
                && has_word(pkt, 26, src_ip),
    {
        proof {
            tcp_from_meaning(src_ip);
        }
        Self::new(Self::build_tcp_response_from_ip_filter(src_ip))
    }

    /// Creates a filter for IPv4 packets.
    #[must_use]
    pub fn ipv4() -> (r: Self)
        ensures
            r@ == ethertype_program(0x0800),
            self_contained(r@),
            forall|pkt: Seq<u8>| #[trigger] accepts(r@, pkt) <==> is_ethertype(pkt, 0x0800),
    {
        proof {
            ethertype_meaning(0x0800);
        }
        Self::new(Self::build_ethertype_filter(u32::from(ETHERTYPE_IP)))
    }

    /// Creates a filter for IPv6 packets.
    #[must_use]
    pub fn ipv6() -> (r: Self)
        ensures
            r@ == ethertype_program(0x86DD),
            self_contained(r@),
            forall|pkt: Seq<u8>| #[trigger] accepts(r@, pkt) <==> is_ethertype(pkt, 0x86DD),
    {
        proof {
            ethertype_meaning(0x86DD);
        }
        Self::new(Self::build_ethertype_filter(u32::from(ETHERTYPE_IPV6)))
    }

    /// Creates a filter for ARP packets.
    #[must_use]
    pub fn arp() -> (r: Self)
        ensures
            r@ == ethertype_program(0x0806),
            self_contained(r@),
            forall|pkt: Seq<u8>| #[trigger] accepts(r@, pkt) <==> is_ethertype(pkt, 0x0806),
    {
        proof {
            ethertype_meaning(0x0806);
        }
        Self::new(Self::build_ethertype_filter(u32::from(ETHERTYPE_ARP)))
    }

    /// Creates a filter for IPv4 destination address.
    #[must_use]
    pub fn ipv4_dst(addr: u32) -> (r: Self)
        ensures
            r@ == ipv4_addr_program(16, addr),
            self_contained(r@),
            forall|pkt: Seq<u8>| #[trigger] accepts(r@, pkt) <==> is_ethertype(pkt, 0x0800)
                && has_word(pkt, 30, addr),
    {
        proof {
            ipv4_addr_meaning(16, addr);
        }
        Self::new(Self::build_ipv4_addr_filter(IP_DST_OFFSET, addr))
    }

    /// Creates a filter for IPv4 source address.
    #[must_use]
    pub fn ipv4_src(addr: u32) -> (r: Self)
        ensures
            r@ == ipv4_addr_program(12, addr),
            self_contained(r@),
            forall|pkt: Seq<u8>| #[trigger] accepts(r@, pkt) <==> is_ethertype(pkt, 0x0800)
                && has_word(pkt, 26, addr),
    {
        proof {
            ipv4_addr_meaning(12, addr);
        }
        Self::new(Self::build_ipv4_addr_filter(IP_SRC_OFFSET, addr))
    }

    /// Creates a combined filter that matches any of the given filters.
    ///
    /// The filters stand one behind the other, with a common accepting and a
    /// rejecting return at the end. In all but the last, a rejecting return becomes
    /// a jump to the next filter, and an accepting one a jump to the common one.
    #[must_use]
    pub fn any(filters: &[Self]) -> (r: Self)
        requires
            filters@.len() > 1 ==> total_len(programs(filters@)) + 2 <= usize::MAX,
        ensures
            r@ == any_program(programs(filters@)),
            filters@.len() == 0 ==> r@ == seq![ret_k(0)],
            filters@.len() == 1 ==> r@ == filters@[0]@,
    {
        if filters.is_empty() {
            return Self::reject_all();
        }
        if filters.len() == 1 {
            return filters[0].clone();
        }
        let ghost progs = programs(filters@);
        let mut total: usize = 0;
        let mut i: usize = 0;
        while i < filters.len()
            invariant
                i <= filters.len(),
                progs == programs(filters@),
                total_len(progs) + 2 <= usize::MAX,
                total == total_len(progs.take(i as int)),
            decreases filters.len() - i,
        {
            proof {
                lemma_total_len_take(progs, i as int);
                lemma_total_len_take_le(progs, i + 1);
            }
            total += filters[i].instructions.len();
            i += 1;
        }
        proof {
            assert(progs.take(i as int) =~= progs);
        }

        let mut instructions: Vec<BpfInstruction> = Vec::new();
        let mut i: usize = 0;
        proof {
            assert(progs.take(0) =~= Seq::<Seq<BpfInstruction>>::empty());
            assert(instructions@ =~= chained(progs, 0, total as int));
        }
        while i < filters.len()
            invariant
                i <= filters.len(),
                filters.len() >= 2,
                progs == programs(filters@),
                total == total_len(progs),
                total_len(progs) + 2 <= usize::MAX,
                instructions@ == chained(progs, i as int, total as int),
                instructions@.len() == total_len(progs.take(i as int)),
            decreases filters.len() - i,
        {
            let last = i + 1 == filters.len();
            let n: usize = filters[i].instructions.len();
            let start: usize = instructions.len();
            proof {
                lemma_total_len_take(progs, i as int);
                lemma_total_len_take_le(progs, i + 1);
            }
            let ghost before = instructions@;
            let mut j: usize = 0;
            while j < n
                invariant
                    i < filters.len(),
                    last == (i + 1 == filters.len()),
                    progs == programs(filters@),
                    j <= n,
                    n == progs[i as int].len(),
                    n == filters@[i as int].instructions@.len(),
                    start == before.len(),
                    start + n <= total,
                    instructions@ == before + placed(
                        progs[i as int],
                        start as int,
                        total as int,
                        last,
                    ).take(j as int),
                decreases n - j,
            {
                let instr = filters[i].instructions[j];
                let put = if last {
                    instr
                } else {
                    Self::redirect(instr, n - j - 1, total - start - j - 1)
                };
                let ghost whole = placed(progs[i as int], start as int, total as int, last);
                instructions.push(put);
                proof {
                    assert(whole.take(j + 1) =~= whole.take(j as int).push(whole[j as int]));
                    assert(instructions@ =~= before + whole.take(j + 1));
                }
                j += 1;
            }
            proof {
                let whole = placed(progs[i as int], start as int, total as int, last);
                assert(whole.take(n as int) =~= whole);
                assert(instructions@ =~= chained(progs, i + 1, total as int));
            }
            i += 1;
        }
        proof {
            assert(progs.take(i as int) =~= progs);
        }
        instructions.push(BpfInstruction::ret_accept());
        instructions.push(BpfInstruction::ret_reject());
        proof {
            assert(instructions@ =~= any_program(progs));
        }
        Self::new(instructions)
    }

    /// A return of a filter that others follow becomes a jump: over `to_next`
    /// instructions for a rejecting one, over `to_accept` for an accepting one.
    fn redirect(instr: BpfInstruction, to_next: usize, to_accept: usize) -> (r: BpfInstruction)
        ensures
            r == redirected(instr, to_next as int, to_accept as int),
    {
        proof {
            opcode_values();
        }
        if instr.code == (BPF_RET | BPF_K) && instr.k == u32::MAX {
            BpfInstruction::new(BPF_JMP | BPF_JA, 0, 0, jump_distance(to_accept))
        } else if instr.code == (BPF_RET | BPF_K) && instr.k == 0 {
            BpfInstruction::new(BPF_JMP | BPF_JA, 0, 0, jump_distance(to_next))
        } else {
            instr
        }
    }

    /// Builds a port filter for the given protocol and port.
    fn build_port_filter(protocol: u32, port_offset: u32, port: u16) -> (r: Vec<BpfInstruction>)
        requires
            port_offset <= 16,
        ensures
            r@ == port_program(protocol, port_offset, port),
    {
        proof {
            opcode_values();
        }
        let r = vec![
            BpfInstruction::load_half(ETHERTYPE_OFFSET),
            BpfInstruction::jump_eq(u32::from(ETHERTYPE_IP), 1, 0),
            BpfInstruction::ret_reject(),
            BpfInstruction::load_byte(ETH_HLEN + IP_PROTO_OFFSET),
            BpfInstruction::jump_eq(protocol, 1, 0),
            BpfInstruction::ret_reject(),
            BpfInstruction::load_byte(ETH_HLEN + IP_HLEN_OFFSET),
            BpfInstruction::new(BPF_ALU | BPF_AND | BPF_K, 0, 0, 0x0F),
            BpfInstruction::new(BPF_ALU | BPF_LSH | BPF_K, 0, 0, 2),
            BpfInstruction::new(BPF_ALU | BPF_ADD | BPF_K, 0, 0, ETH_HLEN + port_offset),
            BpfInstruction::new(BPF_MISC | BPF_TAX, 0, 0, 0),
            BpfInstruction::new(BPF_LD | BPF_H | BPF_IND, 0, 0, 0),
            BpfInstruction::jump_eq(u32::from(port), 1, 0),
            BpfInstruction::ret_reject(),
            BpfInstruction::ret_accept(),
        ];
        assert(r@ =~= port_program(protocol, port_offset, port));
        r
    }

    /// Builds an ICMP filter.
    fn build_icmp_filter() -> (r: Vec<BpfInstruction>)
        ensures
            r@ == icmp_program(),
    {
        proof {
            opcode_values();
        }
        let r = vec![
            BpfInstruction::load_half(ETHERTYPE_OFFSET),
            BpfInstruction::jump_eq(u32::from(ETHERTYPE_IP), 1, 0),
            BpfInstruction::ret_reject(),
            BpfInstruction::load_byte(ETH_HLEN + IP_PROTO_OFFSET),
            BpfInstruction::jump_eq(IPPROTO_ICMP, 1, 0),
            BpfInstruction::ret_reject(),
            BpfInstruction::ret_accept(),
        ];
        assert(r@ =~= icmp_program());
        r
    }

    /// Builds an ICMP type filter.
    fn build_icmp_type_filter(kind: u8) -> (r: Vec<BpfInstruction>)
        ensures
            r@ == icmp_type_program(kind),
    {
        proof {
            opcode_values();
        }
        let r = vec![
            BpfInstruction::load_half(ETHERTYPE_OFFSET),
            BpfInstruction::jump_eq(u32::from(ETHERTYPE_IP), 1, 0),
            BpfInstruction::ret_reject(),
            BpfInstruction::load_byte(ETH_HLEN + IP_PROTO_OFFSET),
            BpfInstruction::jump_eq(IPPROTO_ICMP, 1, 0),
            BpfInstruction::ret_reject(),
            BpfInstruction::load_byte(ETH_HLEN + IP_HLEN_OFFSET),
            BpfInstruction::new(BPF_ALU | BPF_AND | BPF_K, 0, 0, 0x0F),
            BpfInstruction::new(BPF_ALU | BPF_LSH | BPF_K, 0, 0, 2),
            BpfInstruction::new(BPF_ALU | BPF_ADD | BPF_K, 0, 0, ETH_HLEN + ICMP_TYPE_OFFSET),
            BpfInstruction::new(BPF_MISC | BPF_TAX, 0, 0, 0),
            BpfInstruction::new(BPF_LD | BPF_B | BPF_IND, 0, 0, 0),
            BpfInstruction::jump_eq(u32::from(kind), 1, 0),
            BpfInstruction::ret_reject(),
            BpfInstruction::ret_accept(),
        ];
        assert(r@ =~= icmp_type_program(kind));
        r
    }

    /// Builds an ICMP filter with destination address.
    fn build_icmp_dst_filter(addr: u32) -> (r: Vec<BpfInstruction>)
        ensures
            r@ == proto_dst_program(1, addr),
    {
        proof {
            opcode_values();
        }
        let r = vec![
            BpfInstruction::load_half(ETHERTYPE_OFFSET),
            BpfInstruction::jump_eq(u32::from(ETHERTYPE_IP), 1, 0),
            BpfInstruction::ret_reject(),
            BpfInstruction::load_byte(ETH_HLEN + IP_PROTO_OFFSET),
            BpfInstruction::jump_eq(IPPROTO_ICMP, 1, 0),
            BpfInstruction::ret_reject(),
            BpfInstruction::load_word(ETH_HLEN + IP_DST_OFFSET),
            BpfInstruction::jump_eq(addr, 1, 0),
            BpfInstruction::ret_reject(),
            BpfInstruction::ret_accept(),
        ];
        assert(r@ =~= proto_dst_program(1, addr));
        r
    }

    /// Builds a combined ICMP-or-UDP destination filter.
    fn build_icmp_or_udp_dst_filter(addr: u32) -> (r: Vec<BpfInstruction>)
        ensures
            r@ == icmp_or_udp_dst_program(addr),
    {
        proof {
            opcode_values();
        }
        let r = vec![
            BpfInstruction::load_half(ETHERTYPE_OFFSET),
            BpfInstruction::jump_eq(u32::from(ETHERTYPE_IP), 1, 0),
            BpfInstruction::ret_reject(),
            BpfInstruction::load_byte(ETH_HLEN + IP_PROTO_OFFSET),
            BpfInstruction::jump_eq(IPPROTO_ICMP, 2, 0),
            BpfInstruction::jump_eq(IPPROTO_UDP, 5, 0),
            BpfInstruction::ret_reject(),
            BpfInstruction::load_word(ETH_HLEN + IP_DST_OFFSET),
            BpfInstruction::jump_eq(addr, 1, 0),
            BpfInstruction::ret_reject(),
            BpfInstruction::ret_accept(),
            BpfInstruction::load_word(ETH_HLEN + IP_DST_OFFSET),
            BpfInstruction::jump_eq(addr, 1, 0),
            BpfInstruction::ret_reject(),
            BpfInstruction::ret_accept(),
        ];
        assert(r@ =~= icmp_or_udp_dst_program(addr));
        r
    }

    /// Builds a TCP filter with destination address.
    fn build_tcp_dst_ip_filter(addr: u32) -> (r: Vec<BpfInstruction>)
        ensures
            r@ == proto_dst_program(6, addr),
    {
        proof {
            opcode_values();
        }
        let r = vec![
            BpfInstruction::load_half(ETHERTYPE_OFFSET),
            BpfInstruction::jump_eq(u32::from(ETHERTYPE_IP), 1, 0),
            BpfInstruction::ret_reject(),
            BpfInstruction::load_byte(ETH_HLEN + IP_PROTO_OFFSET),
            BpfInstruction::jump_eq(IPPROTO_TCP, 1, 0),
            BpfInstruction::ret_reject(),
            BpfInstruction::load_word(ETH_HLEN + IP_DST_OFFSET),
            BpfInstruction::jump_eq(addr, 1, 0),
            BpfInstruction::ret_reject(),
            BpfInstruction::ret_accept(),
        ];
        assert(r@ =~= proto_dst_program(6, addr));
        r
    }

    /// Builds a TCP SYN filter.
    fn build_tcp_syn_filter() -> (r: Vec<BpfInstruction>)
        ensures
            r@ == tcp_flag_program(0x02),
    {
        proof {
            opcode_values();
        }
        let r = vec![
            BpfInstruction::load_half(ETHERTYPE_OFFSET),
            BpfInstruction::jump_eq(u32::from(ETHERTYPE_IP), 1, 0),
            BpfInstruction::ret_reject(),
            BpfInstruction::load_byte(ETH_HLEN + IP_PROTO_OFFSET),
            BpfInstruction::jump_eq(IPPROTO_TCP, 1, 0),
            BpfInstruction::ret_reject(),
            BpfInstruction::load_byte(ETH_HLEN + IP_HLEN_OFFSET),
            BpfInstruction::new(BPF_ALU | BPF_AND | BPF_K, 0, 0, 0x0F),
            BpfInstruction::new(BPF_ALU | BPF_LSH | BPF_K, 0, 0, 2),
            BpfInstruction::new(BPF_ALU | BPF_ADD | BPF_K, 0, 0, ETH_HLEN + TCP_FLAGS_OFFSET),
            BpfInstruction::new(BPF_MISC | BPF_TAX, 0, 0, 0),
            BpfInstruction::new(BPF_LD | BPF_B | BPF_IND, 0, 0, 0),
            BpfInstruction::new(BPF_JMP | BPF_JSET | BPF_K, 1, 0, TCP_FLAG_SYN),
            BpfInstruction::ret_reject(),
            BpfInstruction::ret_accept(),
        ];
        assert(r@ =~= tcp_flag_program(0x02));
        r
    }

    /// Builds a TCP ACK filter.
    fn build_tcp_ack_filter() -> (r: Vec<BpfInstruction>)
        ensures
            r@ == tcp_flag_program(0x10),
    {
        proof {
            opcode_values();
        }
        let r = vec![
            BpfInstruction::load_half(ETHERTYPE_OFFSET),
            BpfInstruction::jump_eq(u32::from(ETHERTYPE_IP), 1, 0),
            BpfInstruction::ret_reject(),
            BpfInstruction::load_byte(ETH_HLEN + IP_PROTO_OFFSET),
            BpfInstruction::jump_eq(IPPROTO_TCP, 1, 0),
            BpfInstruction::ret_reject(),
            BpfInstruction::load_byte(ETH_HLEN + IP_HLEN_OFFSET),
            BpfInstruction::new(BPF_ALU | BPF_AND | BPF_K, 0, 0, 0x0F),
            BpfInstruction::new(BPF_ALU | BPF_LSH | BPF_K, 0, 0, 2),
            BpfInstruction::new(BPF_ALU | BPF_ADD | BPF_K, 0, 0, ETH_HLEN + TCP_FLAGS_OFFSET),
            BpfInstruction::new(BPF_MISC | BPF_TAX, 0, 0, 0),
            BpfInstruction::new(BPF_LD | BPF_B | BPF_IND, 0, 0, 0),
            BpfInstruction::new(BPF_JMP | BPF_JSET | BPF_K, 1, 0, TCP_FLAG_ACK),
            BpfInstruction::ret_reject(),
            BpfInstruction::ret_accept(),
        ];
        assert(r@ =~= tcp_flag_program(0x10));
        r
    }

    /// Builds a TCP response filter matching source IP, source port, and destination port.
    fn build_tcp_response_filter(src_ip: u32, src_port: u16, dst_port: u16) -> (r: Vec<BpfInstruction>)
        ensures
            r@ == tcp_response_program(src_ip, src_port, dst_port),
    {
        proof {
            opcode_values();
        }
        let r = vec![
            BpfInstruction::load_half(ETHERTYPE_OFFSET),
            BpfInstruction::jump_eq(u32::from(ETHERTYPE_IP), 1, 0),
            BpfInstruction::ret_reject(),
            BpfInstruction::load_word(ETH_HLEN + IP_SRC_OFFSET),
            BpfInstruction::jump_eq(src_ip, 1, 0),
            BpfInstruction::ret_reject(),
            BpfInstruction::load_byte(ETH_HLEN + IP_PROTO_OFFSET),
            BpfInstruction::jump_eq(IPPROTO_TCP, 1, 0),
            BpfInstruction::ret_reject(),
            BpfInstruction::load_byte(ETH_HLEN + IP_HLEN_OFFSET),
            BpfInstruction::new(BPF_ALU | BPF_AND | BPF_K, 0, 0, 0x0F),
            BpfInstruction::new(BPF_ALU | BPF_LSH | BPF_K, 0, 0, 2),
            BpfInstruction::new(BPF_ALU | BPF_ADD | BPF_K, 0, 0, ETH_HLEN + TCP_SRC_PORT_OFFSET),
            BpfInstruction::new(BPF_MISC | BPF_TAX, 0, 0, 0),
            BpfInstruction::new(BPF_LD | BPF_H | BPF_IND, 0, 0, 0),
            BpfInstruction::jump_eq(u32::from(src_port), 1, 0),
            BpfInstruction::ret_reject(),
            BpfInstruction::load_byte(ETH_HLEN + IP_HLEN_OFFSET),
            BpfInstruction::new(BPF_ALU | BPF_AND | BPF_K, 0, 0, 0x0F),
            BpfInstruction::new(BPF_ALU | BPF_LSH | BPF_K, 0, 0, 2),
            BpfInstruction::new(BPF_ALU | BPF_ADD | BPF_K, 0, 0, ETH_HLEN + TCP_DST_PORT_OFFSET),
            BpfInstruction::new(BPF_MISC | BPF_TAX, 0, 0, 0),
            BpfInstruction::new(BPF_LD | BPF_H | BPF_IND, 0, 0, 0),
            BpfInstruction::jump_eq(u32::from(dst_port), 1, 0),
            BpfInstruction::ret_reject(),
            BpfInstruction::ret_accept(),
        ];
        assert(r@ =~= tcp_response_program(src_ip, src_port, dst_port));
        r
    }

    /// Builds a TCP response filter matching only the source IP.
    fn build_tcp_response_from_ip_filter(src_ip: u32) -> (r: Vec<BpfInstruction>)
        ensures
            r@ == tcp_from_program(src_ip),
    {
        proof {
            opcode_values();
        }
        let r = vec![
            BpfInstruction::load_half(ETHERTYPE_OFFSET),
            BpfInstruction::jump_eq(u32::from(ETHERTYPE_IP), 1, 0),
            BpfInstruction::ret_reject(),
            BpfInstruction::load_word(ETH_HLEN + IP_SRC_OFFSET),
            BpfInstruction::jump_eq(src_ip, 1, 0),
            BpfInstruction::ret_reject(),
            BpfInstruction::load_byte(ETH_HLEN + IP_PROTO_OFFSET),
            BpfInstruction::jump_eq(IPPROTO_TCP, 1, 0),
            BpfInstruction::ret_reject(),
            BpfInstruction::ret_accept(),
        ];
        assert(r@ =~= tcp_from_program(src_ip));
        r
    }

    /// Builds an Ethertype filter.
    fn build_ethertype_filter(ethertype: u32) -> (r: Vec<BpfInstruction>)
        ensures
            r@ == ethertype_program(ethertype),
    {
        proof {
            opcode_values();
        }
        let r = vec![
            BpfInstruction::load_half(ETHERTYPE_OFFSET),
            BpfInstruction::jump_eq(ethertype, 1, 0),
            BpfInstruction::ret_reject(),
            BpfInstruction::ret_accept(),
        ];
        assert(r@ =~= ethertype_program(ethertype));
        r
    }

    /// Builds an IPv4 address filter.
    fn build_ipv4_addr_filter(offset: u32, addr: u32) -> (r: Vec<BpfInstruction>)
        requires
            offset <= 16,
        ensures
            r@ == ipv4_addr_program(offset, addr),
    {
        proof {
            opcode_values();
        }
        let r = vec![
            BpfInstruction::load_half(ETHERTYPE_OFFSET),
            BpfInstruction::jump_eq(u32::from(ETHERTYPE_IP), 1, 0),
            BpfInstruction::ret_reject(),
            BpfInstruction::load_word(ETH_HLEN + offset),
            BpfInstruction::jump_eq(addr, 1, 0),
            BpfInstruction::ret_reject(),
            BpfInstruction::ret_accept(),
        ];
        assert(r@ =~= ipv4_addr_program(offset, addr));
        r
    }

    /// Returns the number of instructions in the filter.
    #[must_use]
    pub fn len(&self) -> (r: usize)
        ensures
            r == self@.len(),
    {
        self.instructions.len()
    }

    /// Returns `true` if the filter is empty.
    #[must_use]
    pub fn is_empty(&self) -> (r: bool)
        ensures
            r == (self@.len() == 0),
    {
        self.instructions.is_empty()
    }

    /// Returns a reference to the instructions.
    #[must_use]
    pub fn instructions(&self) -> (r: &[BpfInstruction])
        ensures
            r@ == self@,
    {
        self.instructions.as_slice()
    }

    /// Converts the filter for kernel attachment. The length field has 16 bits; it
    /// is the largest of them for a filter that does not fit.
    #[must_use]
    pub fn to_sock_fprog(&self) -> (r: BpfProgram)
        ensures
            r.len == if self@.len() <= u16::MAX {
                self@.len()
            } else {
                u16::MAX as nat
            },
            r.filter@ == self@,
    {
        let n: usize = self.instructions.len();
        let len: u16 = if n <= 65535 { n as u16 } else { 65535 };
        let filter = self.instructions.clone();
        assert(filter@ =~= self.instructions@);
        BpfProgram { len, filter }
    }

    /// The program to hand to the kernel, unless the filter is empty.
    pub fn attach_program(&self) -> (r: Result<BpfProgram, PacketError>)
        ensures
            match r {
                Ok(p) => self@.len() > 0 && p.filter@ == self@ && p.len == if self@.len()
                    <= u16::MAX {
                    self@.len()
                } else {
                    u16::MAX as nat
                },
                Err(PacketError::BpfFilter(m)) => self@.len() == 0 && m@ == "filter is empty"@,
                Err(_) => false,
            },
    {
        if self.instructions.is_empty() {
            return Err(PacketError::BpfFilter("filter is empty".to_string()));
        }
        Ok(self.to_sock_fprog())
    }

    /// What attaching came to: `result` is what the kernel returned, `os_error` the
    /// text of the system's last error.
    pub fn attach_outcome(result: i32, os_error: &str) -> (r: Result<(), PacketError>)
        ensures
            match r {
                Ok(_) => result >= 0,
                Err(PacketError::BpfFilter(m)) => result < 0 && m@ == os_error@,
                Err(_) => false,
            },
    {
        if result < 0 {
            return Err(PacketError::BpfFilter(os_error.to_string()));
        }
        Ok(())
    }

    /// What detaching came to. That no filter was attached is no failure.
    pub fn detach_outcome(result: i32, os_code: Option<i32>, os_error: &str) -> (r: Result<
        (),
        PacketError,
    >)
        ensures
            match r {
                Ok(_) => result >= 0 || os_code == Some(ENOENT),
                Err(PacketError::BpfFilter(m)) => result < 0 && os_code != Some(ENOENT) && m@
                    == "failed to detach filter: "@ + os_error@,
                Err(_) => false,
            },
    {
        if result < 0 {
            let absent = match os_code {
                Some(c) => c == ENOENT,
                None => false,
            };
            if !absent {
                return Err(PacketError::BpfFilter(joined("failed to detach filter: ", os_error)));
            }
        }
        Ok(())
    }
}

/// The fields that filters look at stand where a frame has them: the type of the frame at
/// its 13th byte, and, for IPv4, the protocol at the 10th byte of the header and the
/// transport header behind as many words as the header's low four bits say.
pub proof fn fields_stand_in_the_frame(pkt: Seq<u8>, value: u32, port: u16, off: int)
    requires
        pkt.len() >= 34,
        off >= 0,
    ensures
        is_ethertype(pkt, value) <==> pkt[12] * 256 + pkt[13] == value,
        is_ipv4_proto(pkt, value) <==> pkt[12] == 8 && pkt[13] == 0 && pkt[23] == value,
        has_word(pkt, 26, value) <==> pkt[26] * 0x100_0000 + pkt[27] * 0x1_0000 + pkt[28] * 256
            + pkt[29] == value,
        has_word(pkt, 30, value) <==> pkt[30] * 0x100_0000 + pkt[31] * 0x1_0000 + pkt[32] * 256
            + pkt[33] == value,
        pkt[14] == 0x45 ==> transport_at(pkt, off) == 34 + off,
        transport_at(pkt, off) == 14 + 4 * (pkt[14] % 16) + off,
        has_transport_half(pkt, off, port) <==> transport_at(pkt, off) + 2 <= pkt.len()
            && pkt[transport_at(pkt, off)] * 256 + pkt[transport_at(pkt, off) + 1] == port,
{
}

/// A frame is accepted if and only if the program returns how much of it is to be kept, and
/// that is not nothing; a frame that is too short for the program is dropped.
pub proof fn programs_accept_by_what_they_return(prog: Seq<BpfInstruction>, pkt: Seq<u8>)
    ensures
        accepts(prog, pkt) ==> verdict(prog, pkt) is Ret,
        verdict(prog, pkt) == Outcome::Ret(0) ==> !accepts(prog, pkt),
        verdict(prog, pkt) is Fault ==> !accepts(prog, pkt),
        verdict(prog, pkt) == Outcome::Ret(u32::MAX) ==> accepts(prog, pkt),
{
}

/// The instructions do what their codes stand for: loads read from the frame in network
/// order, jumps skip as many instructions as they say if the condition holds or does not,
/// and returns end the run.
pub proof fn instructions_do_what_they_say(pkt: Seq<u8>, pc: int, a: u32, x: u32, k: u32, t: u8, f: u8)
    ensures
        step(ret_k(k), pkt, pc, a, x) == Step::End(Outcome::Ret(k)),
        step(ja(k), pkt, pc, a, x) == Step::Next(pc + 1 + k, a, x),
        a == k ==> step(jeq(k, t, f), pkt, pc, a, x) == Step::Next(pc + 1 + t, a, x),
        a != k ==> step(jeq(k, t, f), pkt, pc, a, x) == Step::Next(pc + 1 + f, a, x),
        a & k != 0 ==> step(jset(k, t, f), pkt, pc, a, x) == Step::Next(pc + 1 + t, a, x),
        a & k == 0 ==> step(jset(k, t, f), pkt, pc, a, x) == Step::Next(pc + 1 + f, a, x),
        step(tax(), pkt, pc, a, x) == Step::Next(pc + 1, a, a),
        step(and_k(k), pkt, pc, a, x) == Step::Next(pc + 1, a & k, x),
        k < 32 ==> step(lsh_k(k), pkt, pc, a, x) == Step::Next(pc + 1, a << k, x),
        a + k <= u32::MAX ==> step(add_k(k), pkt, pc, a, x) == Step::Next(
            pc + 1,
            (a + k) as u32,
            x,
        ),
        k < 0x8000_0000 && k < pkt.len() ==> step(ldb_abs(k), pkt, pc, a, x) == Step::Next(
            pc + 1,
            pkt[k as int] as u32,
            x,
        ),
        k < 0x8000_0000 && k >= pkt.len() ==> step(ldb_abs(k), pkt, pc, a, x) == Step::End(
            Outcome::Fault,
        ),
        k < 0x8000_0000 && k + 2 <= pkt.len() ==> (step(ldh_abs(k), pkt, pc, a, x) matches
            Step::Next(n, v, y) && n == pc + 1 && y == x && v == pkt[k as int] * 256 + pkt[k + 1]),
        x + k < 0x8000_0000 && x + k + 2 <= pkt.len() ==> (step(ldh_ind(k), pkt, pc, a, x) matches
            Step::Next(n, v, y) && n == pc + 1 && y == x && v == pkt[x + k] * 256 + pkt[x + k + 1]),
{
}

/// The filters for ports, addresses and kinds look at the fields that they name: the source
/// port at the start of the transport header and the destination port behind it, the source
/// address of IPv4 before the destination.
pub proof fn ports_and_addresses_have_their_places()
    ensures
        TCP_SRC_PORT_OFFSET == 0,
        TCP_DST_PORT_OFFSET == 2,
        UDP_SRC_PORT_OFFSET == 0,
        UDP_DST_PORT_OFFSET == 2,
        TCP_FLAGS_OFFSET == 13,
        IP_SRC_OFFSET == 12,
        IP_DST_OFFSET == 16,
        IPPROTO_TCP == 6,
        IPPROTO_UDP == 17,
        IPPROTO_ICMP == 1,
        ETHERTYPE_IP == 0x0800,
        ETHERTYPE_IPV6 == 0x86DD,
        ETHERTYPE_ARP == 0x0806,
        TCP_FLAG_SYN == 2,
        TCP_FLAG_ACK == 16,
{
}

} // verus!
