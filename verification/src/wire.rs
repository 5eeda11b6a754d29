//! Numbers in network byte order and the Internet checksum.
use crate::addr::Ipv6Addr;
use vstd::prelude::*;

verus! {

/// The half-word at `off`, in network byte order.
pub open spec fn be16_at(s: Seq<u8>, off: int) -> u16 {
    (s[off] * 256 + s[off + 1]) as u16
}

/// The word at `off`, in network byte order.
pub open spec fn be32_at(s: Seq<u8>, off: int) -> u32 {
    (s[off] * 0x100_0000 + s[off + 1] * 0x1_0000 + s[off + 2] * 256 + s[off + 3]) as u32
}

/// The two bytes of a half-word, in network byte order.
pub open spec fn half_bytes(n: u16) -> Seq<u8> {
    seq![(n / 256) as u8, (n % 256) as u8]
}

/// The four bytes of a word, in network byte order.
pub open spec fn word_bytes(n: u32) -> Seq<u8> {
    seq![
        (n / 0x100_0000) as u8,
        (n / 0x1_0000 % 256) as u8,
        (n / 256 % 256) as u8,
        (n % 256) as u8,
    ]
}

/// Reads the half-word at `off`.
pub fn read_half(s: &[u8], off: usize) -> (r: u16)
    requires
        off + 2 <= s@.len(),
    ensures
        r == be16_at(s@, off as int),
{
    s[off] as u16 * 256 + s[off + 1] as u16
}

/// Reads the word at `off`.
pub fn read_word(s: &[u8], off: usize) -> (r: u32)
    requires
        off + 4 <= s@.len(),
    ensures
        r == be32_at(s@, off as int),
{
    s[off] as u32 * 0x100_0000 + s[off + 1] as u32 * 0x1_0000 + s[off + 2] as u32 * 256 + s[off + 3] as u32
}

/// The higher byte of a half-word.
pub fn high_byte(n: u16) -> (r: u8)
    ensures
        r == n / 256,
{
    (n / 256) as u8
}

/// The lower byte of a half-word.
pub fn low_byte(n: u16) -> (r: u8)
    ensures
        r == n % 256,
{
    (n % 256) as u8
}

/// The lower half of a word.
pub fn low_half(n: u32) -> (r: u16)
    ensures
        r == n % 65536,
{
    (n % 65536) as u16
}

/// A length as a half-word.
pub fn length_half(n: usize) -> (r: u16)
    requires
        n <= 65535,
    ensures
        r == n,
{
    n as u16
}

/// Appends a half-word.
pub fn put_half(v: &mut Vec<u8>, n: u16)
    ensures
        final(v)@ == old(v)@ + half_bytes(n),
{
    v.push((n / 256) as u8);
    v.push((n % 256) as u8);
    assert(v@ =~= old(v)@ + half_bytes(n));
}

/// Appends a word.
pub fn put_word(v: &mut Vec<u8>, n: u32)
    ensures
        final(v)@ == old(v)@ + word_bytes(n),
{
    v.push((n / 0x100_0000) as u8);
    v.push((n / 0x1_0000 % 256) as u8);
    v.push((n / 256 % 256) as u8);
    v.push((n % 256) as u8);
    assert(v@ =~= old(v)@ + word_bytes(n));
}

/// Appends the bytes of an IPv6 address.
pub fn put_ipv6(v: &mut Vec<u8>, a: &Ipv6Addr)
    ensures
        final(v)@ == old(v)@ + a.octet_seq(),
{
    let octets: [u8; 16] = a.octets();
    let mut i: usize = 0;
    while i < 16
        invariant
            i <= 16,
            octets@ == a.octet_seq(),
            v@ == old(v)@ + octets@.take(i as int),
        decreases 16 - i,
    {
        v.push(octets[i]);
        proof {
            assert(octets@.take(i + 1) =~= octets@.take(i as int).push(octets@[i as int]));
            assert(v@ =~= old(v)@ + octets@.take(i + 1));
        }
        i += 1;
    }
    proof {
        assert(octets@.take(16) =~= octets@);
    }
}

/// What is written as a half-word is read back.
pub proof fn half_round_trip(n: u16)
    ensures
        be16_at(half_bytes(n), 0) == n,
{
}

/// What is written as a word is read back.
pub proof fn word_round_trip(n: u32)
    ensures
        be32_at(word_bytes(n), 0) == n,
{
    let b3 = n / 0x100_0000;
    let b2 = n / 0x1_0000 % 256;
    let b1 = n / 256 % 256;
    let b0 = n % 256;
    assert(b3 * 0x100_0000 + b2 * 0x1_0000 + b1 * 256 + b0 == n) by (nonlinear_arith)
        requires
            b3 == n / 0x100_0000,
            b2 == n / 0x1_0000 % 256,
            b1 == n / 256 % 256,
            b0 == n % 256,
            0 <= n,
    ;
}

/// The sum of the half-words of `s`; an odd last byte counts as a high one.
pub open spec fn half_sum(s: Seq<u8>) -> nat
    decreases s.len(),
{
    if s.len() == 0 {
        0
    } else if s.len() == 1 {
        (s[0] * 256) as nat
    } else {
        (s[0] * 256 + s[1]) as nat + half_sum(s.skip(2))
    }
}

/// A sum with its carries added in until it fits into 16 bits: the remainder modulo
/// 65535, where only zero gives zero.
pub open spec fn folded(sum: nat) -> nat {
    if sum == 0 {
        0
    } else {
        ((sum - 1) % 65535 + 1) as nat
    }
}

/// The Internet checksum of a sum: the complement of what it folds to.
pub open spec fn checksum_of(sum: nat) -> u16 {
    (65535 - folded(sum)) as u16
}

/// The sum of the pseudo-header in front of a transport segment over IPv6: both
/// addresses, the length of the segment and its protocol.
pub open spec fn pseudo_sum(src: Ipv6Addr, dst: Ipv6Addr, len: nat, next_header: nat) -> nat {
    half_sum(src.octet_seq()) + half_sum(dst.octet_seq()) + len + next_header
}

/// With its checksum added, a sum folds to 65535: so a receiver sees that the
/// segment is whole.
pub proof fn checksum_completes(sum: nat)
    ensures
        folded((sum + checksum_of(sum)) as nat) == 65535,
{
    let f = folded(sum);
    if sum > 0 {
        let q = (sum - 1) / 65535;
        let r = (sum - 1) % 65535;
        assert(sum - 1 == q * 65535 + r) by {
            vstd::arithmetic::div_mod::lemma_fundamental_div_mod(sum - 1, 65535);
        }
        assert(f == r + 1);
        assert(sum + (65535 - f) - 1 == (q + 1) * 65535 - 1 + 0);
        assert(sum + (65535 - f) - 1 == q * 65535 + 65534);
        vstd::arithmetic::div_mod::lemma_fundamental_div_mod_converse(
            sum + (65535 - f) - 1,
            65535,
            q,
            65534,
        );
    }
}

/// Folding keeps the remainder modulo 65535 and tells zero apart.
proof fn lemma_fold_step(sum: u32)
    requires
        sum >= 65536,
    ensures
        folded((sum % 65536 + sum / 65536) as nat) == folded(sum as nat),
        sum % 65536 + sum / 65536 < sum,
{
    let hi = (sum / 65536) as int;
    let lo = (sum % 65536) as int;
    let next = lo + hi;
    assert(sum == hi * 65536 + lo);
    assert(sum - 1 == hi * 65535 + (next - 1));
    vstd::arithmetic::div_mod::lemma_mod_multiples_vanish(hi, next - 1, 65535);
    assert((65535 * hi + (next - 1)) % 65535 == (next - 1) % 65535);
}

/// Folds a sum and complements it.
pub fn finish_checksum(sum: u32) -> (r: u16)
    ensures
        r == checksum_of(sum as nat),
{
    let mut s: u32 = sum;
    while s >= 65536
        invariant
            folded(s as nat) == folded(sum as nat),
        decreases s,
    {
        proof {
            lemma_fold_step(s);
        }
        s = s % 65536 + s / 65536;
    }
    proof {
        if s > 0 {
            assert((s - 1) % 65535 == if s == 65536 { 0int } else { s - 1 });
        }
    }
    (65535 - s) as u16
}

proof fn lemma_half_sum_skip(s: Seq<u8>, i: int)
    requires
        0 <= i,
        i + 2 <= s.len(),
    ensures
        half_sum(s.skip(i)) == s[i] * 256 + s[i + 1] + half_sum(s.skip(i + 2)),
{
    assert(s.skip(i).skip(2) =~= s.skip(i + 2));
}

proof fn lemma_half_sum_bound(s: Seq<u8>)
    ensures
        half_sum(s) <= 65535 * ((s.len() + 1) / 2),
    decreases s.len(),
{
    if s.len() >= 2 {
        lemma_half_sum_bound(s.skip(2));
        assert((s.len() + 1) / 2 == (s.skip(2).len() + 1) / 2 + 1);
    }
}

/// Adds up the half-words of `s` onto `start`.
pub fn add_halves(start: u32, s: &[u8]) -> (r: u32)
    requires
        s@.len() <= 65536,
        start <= 0x7000_0000,
    ensures
        r == start + half_sum(s@),
{
    let mut sum: u32 = start;
    let mut i: usize = 0;
    proof {
        assert(s@.skip(0) =~= s@);
        lemma_half_sum_bound(s@);
    }
    while i + 1 < s.len()
        invariant
            i <= s@.len(),
            s@.len() <= 65536,
            start <= 0x7000_0000,
            half_sum(s@) <= 65535 * ((s@.len() + 1) / 2),
            sum + half_sum(s@.skip(i as int)) == start + half_sum(s@),
        decreases s@.len() - i,
    {
        proof {
            lemma_half_sum_skip(s@, i as int);
        }
        sum = sum + (s[i] as u32 * 256 + s[i + 1] as u32);
        i += 2;
    }
    if i < s.len() {
        proof {
            assert(s@.skip(i as int).len() == 1);
        }
        sum = sum + s[i] as u32 * 256;
    } else {
        proof {
            assert(s@.skip(i as int).len() == 0);
        }
    }
    sum
}

proof fn lemma_address_sum(a: Ipv6Addr)
    ensures
        half_sum(a.octet_seq()) == a.s0 + a.s1 + a.s2 + a.s3 + a.s4 + a.s5 + a.s6 + a.s7,
{
    let s = a.octet_seq();
    assert(s.len() == 16);
    assert(s.skip(0) =~= s);
    lemma_half_sum_skip(s, 0);
    lemma_half_sum_skip(s, 2);
    lemma_half_sum_skip(s, 4);
    lemma_half_sum_skip(s, 6);
    lemma_half_sum_skip(s, 8);
    lemma_half_sum_skip(s, 10);
    lemma_half_sum_skip(s, 12);
    lemma_half_sum_skip(s, 14);
    assert(s.skip(16).len() == 0);
}

/// Computes the checksum of a transport segment over IPv6, with its pseudo-header.
pub fn segment_checksum(src: &Ipv6Addr, dst: &Ipv6Addr, next_header: u8, segment: &[u8]) -> (r: u16)
    requires
        segment@.len() <= 65536,
    ensures
        r == checksum_of(
            pseudo_sum(*src, *dst, segment@.len(), next_header as nat) + half_sum(segment@),
        ),
{
    proof {
        lemma_address_sum(*src);
        lemma_address_sum(*dst);
    }
    let sum: u32 = src.s0 as u32 + src.s1 as u32 + src.s2 as u32 + src.s3 as u32 + src.s4 as u32
        + src.s5 as u32 + src.s6 as u32 + src.s7 as u32 + dst.s0 as u32 + dst.s1 as u32
        + dst.s2 as u32 + dst.s3 as u32 + dst.s4 as u32 + dst.s5 as u32 + dst.s6 as u32
        + dst.s7 as u32 + segment.len() as u32 + next_header as u32;
    finish_checksum(add_halves(sum, segment))
}

/// Filling in a half-word that was zero adds its value to the sum, at an even place.
pub proof fn half_sum_fill(s: Seq<u8>, at: int, n: u16)
    requires
        0 <= at,
        at % 2 == 0,
        at + 2 <= s.len(),
        s[at] == 0,
        s[at + 1] == 0,
    ensures
        half_sum(s.update(at, (n / 256) as u8).update(at + 1, (n % 256) as u8)) == half_sum(s) + n,
    decreases s.len(),
{
    let t = s.update(at, (n / 256) as u8).update(at + 1, (n % 256) as u8);
    if at == 0 {
        assert(t.skip(2) =~= s.skip(2));
    } else {
        half_sum_fill(s.skip(2), at - 2, n);
        assert(t.skip(2) =~= s.skip(2).update(at - 2, (n / 256) as u8).update(
            at - 1,
            (n % 256) as u8,
        ));
    }
}

/// Numbers are written and read with the highest byte first.
pub proof fn numbers_are_in_network_order(s: Seq<u8>, off: int, n: u16, w: u32)
    requires
        0 <= off,
        off + 4 <= s.len(),
    ensures
        be16_at(s, off) / 256 == s[off],
        be16_at(s, off) % 256 == s[off + 1],
        be32_at(s, off) / 0x1_0000 == be16_at(s, off),
        be32_at(s, off) % 0x1_0000 == be16_at(s, off + 2),
        half_bytes(n).len() == 2,
        half_bytes(n)[0] == n / 256,
        half_bytes(n)[1] == n % 256,
        word_bytes(w).len() == 4,
        word_bytes(w)[0] == w / 0x100_0000,
        word_bytes(w)[3] == w % 256,
{
}

/// Folding keeps a sum but for multiples of 65535, fits into 16 bits, and gives zero for
/// zero alone; the checksum is what is missing to 65535.
pub proof fn folding_keeps_the_remainder(sum: nat)
    ensures
        folded(sum) <= 65535,
        folded(sum) % 65535 == sum % 65535,
        folded(sum) == 0 <==> sum == 0,
        sum <= 65535 ==> folded(sum) == sum,
        checksum_of(sum) + folded(sum) == 65535,
{
    if sum > 0 {
        let r = (sum - 1) % 65535;
        assert((r + 1) % 65535 == sum % 65535) by (nonlinear_arith)
            requires
                r == (sum - 1) % 65535,
                sum > 0,
        ;
    }
}

/// The sum runs over pairs of bytes, the first of each pair being the higher one; a last
/// byte without a partner is a higher one too.
pub proof fn sums_run_over_pairs(a: u8, b: u8, rest: Seq<u8>, src: Ipv6Addr, dst: Ipv6Addr)
    ensures
        half_sum(Seq::empty()) == 0,
        half_sum(seq![a]) == a * 256,
        half_sum(seq![a, b] + rest) == a * 256 + b + half_sum(rest),
        pseudo_sum(src, dst, 20, 6) == half_sum(src.octet_seq()) + half_sum(dst.octet_seq()) + 26,
        pseudo_sum(src, dst, 8, 58) == half_sum(src.octet_seq()) + half_sum(dst.octet_seq()) + 66,
{
    assert((seq![a, b] + rest).skip(2) =~= rest);
}

} // verus!
