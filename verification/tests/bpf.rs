//! Packet filters: their programs, and what they accept.
use rustnmap::bpf::{
    BpfFilter, BpfInstruction, BPF_ABS, BPF_H, BPF_JEQ, BPF_JMP, BPF_K, BPF_LD, BPF_RET, BPF_W,
    ETHERTYPE_OFFSET,
};
use rustnmap::error::PacketError;
use std::mem;

/// Runs a filter on a frame: what it returns, or nothing if a load goes past the end.
fn run(filter: &BpfFilter, frame: &[u8]) -> Option<u32> {
    let program = filter.instructions();
    let mut pc = 0usize;
    let mut a = 0u32;
    let mut x = 0u32;
    let load = |off: usize, size: usize| -> Option<u32> {
        if off + size > frame.len() {
            return None;
        }
        Some(frame[off..off + size].iter().fold(0u32, |v, b| (v << 8) | u32::from(*b)))
    };
    loop {
        let i = program[pc];
        let k = i.k as usize;
        match i.code {
            0x20 => a = load(k, 4)?,
            0x28 => a = load(k, 2)?,
            0x30 => a = load(k, 1)?,
            0x48 => a = load(x as usize + k, 2)?,
            0x50 => a = load(x as usize + k, 1)?,
            0x00 => a = i.k,
            0x05 => pc += k,
            0x15 => pc += usize::from(if a == i.k { i.jt } else { i.jf }),
            0x45 => pc += usize::from(if a & i.k != 0 { i.jt } else { i.jf }),
            0x04 => a = a.wrapping_add(i.k),
            0x54 => a &= i.k,
            0x64 => a <<= i.k,
            0x07 => x = a,
            0x06 => return Some(i.k),
            other => panic!("unknown code {other:#x}"),
        }
        pc += 1;
    }
}

fn accepted(filter: &BpfFilter, frame: &[u8]) -> bool {
    run(filter, frame).is_some_and(|k| k != 0)
}

/// An IPv4 frame with this protocol, these addresses and this payload.
fn ipv4_frame(protocol: u8, src: [u8; 4], dst: [u8; 4], payload: &[u8]) -> Vec<u8> {
    let mut f = vec![0u8; 12];
    f.extend_from_slice(&[0x08, 0x00]);
    f.extend_from_slice(&[0x45, 0, 0, 0, 0, 0, 0, 0, 64, protocol, 0, 0]);
    f.extend_from_slice(&src);
    f.extend_from_slice(&dst);
    f.extend_from_slice(payload);
    f
}

/// A TCP header with these ports and flags.
fn tcp(src_port: u16, dst_port: u16, flags: u8) -> Vec<u8> {
    let mut h = Vec::new();
    h.extend_from_slice(&src_port.to_be_bytes());
    h.extend_from_slice(&dst_port.to_be_bytes());
    h.extend_from_slice(&[0; 8]);
    h.extend_from_slice(&[0x50, flags]);
    h.extend_from_slice(&[0; 6]);
    h
}

const A: [u8; 4] = [192, 168, 0, 1];
const B: [u8; 4] = [10, 0, 0, 7];

#[test]
fn test_bpf_instruction_size() {
    assert_eq!(mem::size_of::<BpfInstruction>(), 8);
}

#[test]
fn test_bpf_filter_accept_all() {
    let filter = BpfFilter::accept_all();
    assert_eq!(filter.len(), 1);
    assert_eq!(filter.instructions()[0].code, BPF_RET | BPF_K);
    assert_eq!(filter.instructions()[0].k, u32::MAX);
}

#[test]
fn test_bpf_filter_reject_all() {
    let filter = BpfFilter::reject_all();
    assert_eq!(filter.len(), 1);
    assert_eq!(filter.instructions()[0].code, BPF_RET | BPF_K);
    assert_eq!(filter.instructions()[0].k, 0);
}

#[test]
fn test_bpf_filter_tcp_dst_port() {
    let filter = BpfFilter::tcp_dst_port(80);
    assert!(!filter.is_empty());
    assert!(filter.len() > 5);
}

#[test]
fn test_bpf_filter_udp_dst_port() {
    let filter = BpfFilter::udp_dst_port(53);
    assert!(!filter.is_empty());
    assert!(filter.len() > 5);
}

#[test]
fn test_bpf_filter_icmp() {
    let filter = BpfFilter::icmp();
    assert!(!filter.is_empty());
    assert!(filter.len() > 3);
}

#[test]
fn test_bpf_filter_ipv4() {
    let filter = BpfFilter::ipv4();
    assert_eq!(filter.len(), 4);
    assert_eq!(filter.instructions()[0].code, BPF_LD | BPF_H | BPF_ABS);
    assert_eq!(filter.instructions()[0].k, ETHERTYPE_OFFSET);
}

#[test]
fn test_bpf_filter_ipv6() {
    let filter = BpfFilter::ipv6();
    assert_eq!(filter.len(), 4);
}

#[test]
fn test_bpf_filter_arp() {
    let filter = BpfFilter::arp();
    assert_eq!(filter.len(), 4);
}

#[test]
fn test_bpf_filter_tcp_syn() {
    let filter = BpfFilter::tcp_syn();
    assert!(!filter.is_empty());
    assert!(filter.len() > 5);
}

#[test]
fn test_bpf_filter_tcp_ack() {
    let filter = BpfFilter::tcp_ack();
    assert!(!filter.is_empty());
    assert!(filter.len() > 5);
}

#[test]
fn test_bpf_filter_tcp_response() {
    let filter = BpfFilter::tcp_response(0xAC1C_0003, 80, 49999);
    assert!(!filter.is_empty());
    assert!(filter.len() > 10);
}

#[test]
fn test_bpf_filter_icmp_echo_request() {
    let filter = BpfFilter::icmp_echo_request();
    assert!(!filter.is_empty());
    assert!(filter.len() > 5);
}

#[test]
fn test_bpf_filter_icmp_echo_reply() {
    let filter = BpfFilter::icmp_echo_reply();
    assert!(!filter.is_empty());
    assert!(filter.len() > 5);
}

#[test]
fn test_bpf_filter_icmp_dst() {
    let filter = BpfFilter::icmp_dst(0x0102_0304);
    assert!(!filter.is_empty());
    assert!(filter.len() > 7);
}

#[test]
fn test_bpf_instruction_load_half() {
    let instr = BpfInstruction::load_half(12);
    assert_eq!(instr.code, BPF_LD | BPF_H | BPF_ABS);
    assert_eq!(instr.k, 12);
}

#[test]
fn test_bpf_instruction_load_word() {
    let instr = BpfInstruction::load_word(20);
    assert_eq!(instr.code, BPF_LD | BPF_W | BPF_ABS);
    assert_eq!(instr.k, 20);
}

#[test]
fn test_bpf_instruction_jump_eq() {
    let instr = BpfInstruction::jump_eq(6, 1, 2);
    assert_eq!(instr.code, BPF_JMP | BPF_JEQ | BPF_K);
    assert_eq!(instr.jt, 1);
    assert_eq!(instr.jf, 2);
    assert_eq!(instr.k, 6);
}

#[test]
fn test_bpf_instruction_ret_accept() {
    let instr = BpfInstruction::ret_accept();
    assert_eq!(instr.code, BPF_RET | BPF_K);
    assert_eq!(instr.k, u32::MAX);
}

#[test]
fn test_bpf_instruction_ret_reject() {
    let instr = BpfInstruction::ret_reject();
    assert_eq!(instr.code, BPF_RET | BPF_K);
    assert_eq!(instr.k, 0);
}

#[test]
fn test_bpf_filter_ipv4_dst() {
    let addr: u32 = 0xC0A8_0001; // 192.168.0.1
    let filter = BpfFilter::ipv4_dst(addr);
    assert!(!filter.is_empty());
    assert!(filter.len() > 3);
}

#[test]
fn test_bpf_filter_ipv4_src() {
    let addr: u32 = 0xC0A8_0001; // 192.168.0.1
    let filter = BpfFilter::ipv4_src(addr);
    assert!(!filter.is_empty());
    assert!(filter.len() > 3);
}

#[test]
fn test_bpf_filter_any_empty() {
    let filter = BpfFilter::any(&[]);
    assert_eq!(filter.len(), 1);
    assert_eq!(filter.instructions()[0].k, 0); // reject
}

#[test]
fn test_bpf_filter_any_single() {
    let filters = [BpfFilter::tcp_dst_port(80)];
    let combined = BpfFilter::any(&filters);
    assert!(!combined.is_empty());
    assert_eq!(combined.instructions(), filters[0].instructions());
}

#[test]
fn test_bpf_filter_clone() {
    let filter = BpfFilter::tcp_dst_port(80);
    let cloned = filter.clone();
    assert_eq!(filter.len(), cloned.len());
}

#[test]
fn test_bpf_filter_debug() {
    let filter = BpfFilter::accept_all();
    let debug_str = format!("{filter:?}");
    assert!(debug_str.contains("BpfFilter"));
}

#[test]
fn filters_accept_what_they_name() {
    let web = ipv4_frame(6, A, B, &tcp(50000, 80, 0x02));
    let dns = ipv4_frame(17, A, B, &[0xc3, 0x50, 0, 53, 0, 8, 0, 0]);
    let ping = ipv4_frame(1, A, B, &[8, 0, 0, 0, 0, 1, 0, 1]);
    let pong = ipv4_frame(1, A, B, &[0, 0, 0, 0, 0, 1, 0, 1]);
    let mut arp = vec![0u8; 12];
    arp.extend_from_slice(&[0x08, 0x06]);
    arp.extend_from_slice(&[0; 28]);

    assert!(accepted(&BpfFilter::tcp_dst_port(80), &web));
    assert!(!accepted(&BpfFilter::tcp_dst_port(81), &web));
    assert!(!accepted(&BpfFilter::tcp_dst_port(80), &dns));
    assert!(accepted(&BpfFilter::tcp_src_port(50000), &web));
    assert!(accepted(&BpfFilter::udp_dst_port(53), &dns));
    assert!(accepted(&BpfFilter::udp_src_port(50000), &dns));
    assert!(!accepted(&BpfFilter::udp_src_port(53), &dns));
    assert!(accepted(&BpfFilter::icmp(), &ping));
    assert!(!accepted(&BpfFilter::icmp(), &web));
    assert!(accepted(&BpfFilter::icmp_echo_request(), &ping));
    assert!(!accepted(&BpfFilter::icmp_echo_request(), &pong));
    assert!(accepted(&BpfFilter::icmp_echo_reply(), &pong));
    assert!(accepted(&BpfFilter::icmp_dst(0x0a00_0007), &ping));
    assert!(!accepted(&BpfFilter::icmp_dst(0x0a00_0008), &ping));
    assert!(accepted(&BpfFilter::icmp_or_udp_dst(0x0a00_0007), &ping));
    assert!(accepted(&BpfFilter::icmp_or_udp_dst(0x0a00_0007), &dns));
    assert!(!accepted(&BpfFilter::icmp_or_udp_dst(0x0a00_0007), &web));
    assert!(accepted(&BpfFilter::tcp_dst_ip(0x0a00_0007), &web));
    assert!(accepted(&BpfFilter::tcp_syn(), &web));
    assert!(!accepted(&BpfFilter::tcp_ack(), &web));
    assert!(accepted(&BpfFilter::ipv4(), &web));
    assert!(!accepted(&BpfFilter::ipv4(), &arp));
    assert!(accepted(&BpfFilter::arp(), &arp));
    assert!(accepted(&BpfFilter::ipv4_src(0xC0A8_0001), &web));
    assert!(accepted(&BpfFilter::ipv4_dst(0x0a00_0007), &web));
    assert!(!accepted(&BpfFilter::ipv4_dst(0xC0A8_0001), &web));
    assert!(accepted(&BpfFilter::tcp_response(0xC0A8_0001, 50000, 80), &web));
    assert!(!accepted(&BpfFilter::tcp_response(0xC0A8_0001, 80, 50000), &web));
    assert!(accepted(&BpfFilter::tcp_response_from_ip(0xC0A8_0001), &web));
    assert!(!accepted(&BpfFilter::tcp_response_from_ip(0x0a00_0007), &web));
}

#[test]
fn a_frame_that_is_too_short_is_dropped() {
    assert_eq!(run(&BpfFilter::ipv4(), &[0; 13]), None);
    assert!(!accepted(&BpfFilter::ipv4(), &[0; 13]));
}

#[test]
fn any_accepts_what_one_of_the_filters_accepts() {
    let filters = [
        BpfFilter::tcp_dst_port(80),
        BpfFilter::udp_dst_port(53),
        BpfFilter::icmp_echo_request(),
    ];
    let combined = BpfFilter::any(&filters);
    let web = ipv4_frame(6, A, B, &tcp(50000, 80, 0x02));
    let ssh = ipv4_frame(6, A, B, &tcp(50000, 22, 0x02));
    let dns = ipv4_frame(17, A, B, &[0xc3, 0x50, 0, 53, 0, 8, 0, 0]);
    let ping = ipv4_frame(1, A, B, &[8, 0, 0, 0, 0, 1, 0, 1]);
    let pong = ipv4_frame(1, A, B, &[0, 0, 0, 0, 0, 1, 0, 1]);
    assert!(accepted(&combined, &web));
    assert!(accepted(&combined, &dns));
    assert!(accepted(&combined, &ping));
    assert!(!accepted(&combined, &ssh));
    assert!(!accepted(&combined, &pong));
}

#[test]
fn programs_for_the_kernel() {
    let filter = BpfFilter::ipv4();
    let program = filter.attach_program().unwrap();
    assert_eq!(program.len, 4);
    assert_eq!(program.filter, filter.instructions());
    let empty = BpfFilter::new(Vec::new());
    match empty.attach_program() {
        Err(PacketError::BpfFilter(m)) => assert_eq!(m, "filter is empty"),
        other => panic!("unexpected {other:?}"),
    }
    assert_eq!(empty.to_sock_fprog().len, 0);
    let long = BpfFilter::new(vec![BpfInstruction::ret_accept(); 70000]);
    assert_eq!(long.to_sock_fprog().len, u16::MAX);
}

#[test]
fn outcomes_of_attaching_and_detaching() {
    assert!(BpfFilter::attach_outcome(0, "").is_ok());
    match BpfFilter::attach_outcome(-1, "Invalid argument") {
        Err(PacketError::BpfFilter(m)) => assert_eq!(m, "Invalid argument"),
        other => panic!("unexpected {other:?}"),
    }
    assert!(BpfFilter::detach_outcome(-1, Some(2), "No such file").is_ok());
    match BpfFilter::detach_outcome(-1, Some(9), "Bad file descriptor") {
        Err(PacketError::BpfFilter(m)) => {
            assert_eq!(m, "failed to detach filter: Bad file descriptor");
        }
        other => panic!("unexpected {other:?}"),
    }
}

#[test]
fn plain_instructions() {
    assert_eq!(BpfInstruction::default(), BpfInstruction::new(0, 0, 0, 0));
    assert_eq!(BpfInstruction::load_byte(9), BpfInstruction::new(0x30, 0, 0, 9));
    assert_eq!(BpfInstruction::load_imm(7), BpfInstruction::new(0x00, 0, 0, 7));
    assert_eq!(BpfInstruction::jump(3), BpfInstruction::new(0x05, 0, 0, 3));
    assert_eq!(BpfInstruction::ret(5), BpfInstruction::new(0x06, 0, 0, 5));
}
