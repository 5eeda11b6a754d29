//! Hardware and network addresses as plain values.
use vstd::prelude::*;

verus! {

/// A hardware address.
#[derive(Clone, Copy, Debug, PartialEq, Eq, Hash, Structural)]
pub struct MacAddr {
    pub b0: u8,
    pub b1: u8,
    pub b2: u8,
    pub b3: u8,
    pub b4: u8,
    pub b5: u8,
}

impl MacAddr {
    /// The six bytes in order.
    pub open spec fn octets(self) -> Seq<u8> {
        seq![self.b0, self.b1, self.b2, self.b3, self.b4, self.b5]
    }

    /// Creates an address from its bytes.
    #[must_use]
    pub fn new(bytes: [u8; 6]) -> (r: Self)
        ensures
            r.octets() == bytes@,
    {
        let r = MacAddr {
            b0: bytes[0],
            b1: bytes[1],
            b2: bytes[2],
            b3: bytes[3],
            b4: bytes[4],
            b5: bytes[5],
        };
        assert(r.octets() =~= bytes@);
        r
    }

    /// The bytes of the address.
    #[must_use]
    pub fn bytes(&self) -> (r: [u8; 6])
        ensures
            r@ == self.octets(),
    {
        let r: [u8; 6] = [self.b0, self.b1, self.b2, self.b3, self.b4, self.b5];
        assert(r@ =~= self.octets());
        r
    }
}

/// An IPv4 address.
#[derive(Clone, Copy, Debug, PartialEq, Eq, Hash, Structural)]
pub struct Ipv4Addr {
    pub a: u8,
    pub b: u8,
    pub c: u8,
    pub d: u8,
}

impl Ipv4Addr {
    /// The four bytes in order.
    pub open spec fn octet_seq(self) -> Seq<u8> {
        seq![self.a, self.b, self.c, self.d]
    }

    /// The address as a number, with its first byte as the highest.
    pub open spec fn number(self) -> u32 {
        (self.a * 0x100_0000 + self.b * 0x1_0000 + self.c * 0x100 + self.d) as u32
    }

    /// Creates an address from its bytes.
    #[must_use]
    pub fn new(a: u8, b: u8, c: u8, d: u8) -> (r: Self)
        ensures
            r == (Ipv4Addr { a, b, c, d }),
    {
        Ipv4Addr { a, b, c, d }
    }

    /// The bytes of the address.
    #[must_use]
    pub fn octets(&self) -> (r: [u8; 4])
        ensures
            r@ == self.octet_seq(),
    {
        let r: [u8; 4] = [self.a, self.b, self.c, self.d];
        assert(r@ =~= self.octet_seq());
        r
    }

    /// The address as a number.
    #[must_use]
    pub fn to_bits(&self) -> (r: u32)
        ensures
            r == self.number(),
    {
        self.a as u32 * 0x100_0000 + self.b as u32 * 0x1_0000 + self.c as u32 * 0x100
            + self.d as u32
    }

    /// Whether this is the unspecified address 0.0.0.0.
    #[must_use]
    pub fn is_unspecified(&self) -> (r: bool)
        ensures
            r == (self == (Ipv4Addr { a: 0, b: 0, c: 0, d: 0 })),
    {
        self.a == 0 && self.b == 0 && self.c == 0 && self.d == 0
    }

    /// Whether this is an address of 127.0.0.0/8.
    #[must_use]
    pub fn is_loopback(&self) -> (r: bool)
        ensures
            r == (self.a == 127),
    {
        self.a == 127
    }
}

/// Different addresses have different numbers.
pub proof fn ipv4_number_is_injective(x: Ipv4Addr, y: Ipv4Addr)
    ensures
        x.number() == y.number() ==> x == y,
{
}

/// An IPv6 address, as its eight groups.
#[derive(Clone, Copy, Debug, PartialEq, Eq, Hash, Structural)]
pub struct Ipv6Addr {
    pub s0: u16,
    pub s1: u16,
    pub s2: u16,
    pub s3: u16,
    pub s4: u16,
    pub s5: u16,
    pub s6: u16,
    pub s7: u16,
}

/// The two bytes of a group, the higher first.
pub open spec fn group_bytes(s: u16) -> Seq<u8> {
    seq![(s / 256) as u8, (s % 256) as u8]
}

impl Ipv6Addr {
    /// The sixteen bytes in order.
    pub open spec fn octet_seq(self) -> Seq<u8> {
        group_bytes(self.s0) + group_bytes(self.s1) + group_bytes(self.s2) + group_bytes(self.s3)
            + group_bytes(self.s4) + group_bytes(self.s5) + group_bytes(self.s6) + group_bytes(
            self.s7,
        )
    }

    /// Creates an address from its groups.
    #[must_use]
    pub fn new(
        s0: u16,
        s1: u16,
        s2: u16,
        s3: u16,
        s4: u16,
        s5: u16,
        s6: u16,
        s7: u16,
    ) -> (r: Self)
        ensures
            r == (Ipv6Addr { s0, s1, s2, s3, s4, s5, s6, s7 }),
    {
        Ipv6Addr { s0, s1, s2, s3, s4, s5, s6, s7 }
    }

    /// The bytes of the address.
    #[must_use]
    pub fn octets(&self) -> (r: [u8; 16])
        ensures
            r@ == self.octet_seq(),
    {
        let r: [u8; 16] = [
            (self.s0 / 256) as u8,
            (self.s0 % 256) as u8,
            (self.s1 / 256) as u8,
            (self.s1 % 256) as u8,
            (self.s2 / 256) as u8,
            (self.s2 % 256) as u8,
            (self.s3 / 256) as u8,
            (self.s3 % 256) as u8,
            (self.s4 / 256) as u8,
            (self.s4 % 256) as u8,
            (self.s5 / 256) as u8,
            (self.s5 % 256) as u8,
            (self.s6 / 256) as u8,
            (self.s6 % 256) as u8,
            (self.s7 / 256) as u8,
            (self.s7 % 256) as u8,
        ];
        assert(r@ =~= self.octet_seq());
        r
    }

    /// Whether this is the loopback address ::1.
    #[must_use]
    pub fn is_loopback(&self) -> (r: bool)
        ensures
            r == (self == (Ipv6Addr { s0: 0, s1: 0, s2: 0, s3: 0, s4: 0, s5: 0, s6: 0, s7: 1 })),
    {
        self.s0 == 0 && self.s1 == 0 && self.s2 == 0 && self.s3 == 0 && self.s4 == 0 && self.s5 == 0
            && self.s6 == 0 && self.s7 == 1
    }

    /// Whether this is an address of ff00::/8.
    #[must_use]
    pub fn is_multicast(&self) -> (r: bool)
        ensures
            r == (self.s0 / 256 == 0xff),
    {
        self.s0 / 256 == 0xff
    }
}

/// A network address of either family.
#[derive(Clone, Copy, Debug, PartialEq, Eq, Hash, Structural)]
pub enum IpAddr {
    V4(Ipv4Addr),
    V6(Ipv6Addr),
}

impl IpAddr {
    /// Whether this is a loopback address.
    pub open spec fn loopback(self) -> bool {
        match self {
            IpAddr::V4(v4) => v4.a == 127,
            IpAddr::V6(v6) => v6 == (Ipv6Addr {
                s0: 0,
                s1: 0,
                s2: 0,
                s3: 0,
                s4: 0,
                s5: 0,
                s6: 0,
                s7: 1,
            }),
        }
    }

    /// Whether this is a loopback address.
    #[must_use]
    pub fn is_loopback(&self) -> (r: bool)
        ensures
            r == self.loopback(),
    {
        match self {
            IpAddr::V4(v4) => v4.is_loopback(),
            IpAddr::V6(v6) => v6.is_loopback(),
        }
    }
}

/// The number of an IPv4 address has the address's bytes from the highest to the lowest.
pub proof fn ipv4_number_is_big_endian(x: Ipv4Addr)
    ensures
        x.number() / 0x100_0000 == x.a,
        x.number() / 0x1_0000 % 256 == x.b,
        x.number() / 0x100 % 256 == x.c,
        x.number() % 256 == x.d,
        x.octet_seq().len() == 4,
        x.octet_seq()[0] == x.a,
        x.octet_seq()[1] == x.b,
        x.octet_seq()[2] == x.c,
        x.octet_seq()[3] == x.d,
{
}

/// The bytes of an IPv6 address are those of its groups, in their order and each group's
/// higher byte first.
pub proof fn ipv6_bytes_are_the_groups(x: Ipv6Addr)
    ensures
        x.octet_seq().len() == 16,
        x.octet_seq()[0] * 256 + x.octet_seq()[1] == x.s0,
        x.octet_seq()[2] * 256 + x.octet_seq()[3] == x.s1,
        x.octet_seq()[4] * 256 + x.octet_seq()[5] == x.s2,
        x.octet_seq()[6] * 256 + x.octet_seq()[7] == x.s3,
        x.octet_seq()[8] * 256 + x.octet_seq()[9] == x.s4,
        x.octet_seq()[10] * 256 + x.octet_seq()[11] == x.s5,
        x.octet_seq()[12] * 256 + x.octet_seq()[13] == x.s6,
        x.octet_seq()[14] * 256 + x.octet_seq()[15] == x.s7,
{
}

/// The loopback addresses are those that begin with 127, and over IPv6 the one whose last
/// bit alone is set.
pub proof fn loopback_addresses(ip: IpAddr)
    ensures
        ip matches IpAddr::V4(a) ==> (ip.loopback() <==> 0x7f00_0000 <= a.number() <= 0x7fff_ffff),
        ip matches IpAddr::V6(a) ==> (ip.loopback() <==> a.s7 == 1 && a.s0 == 0 && a.s1 == 0 && a.s2
            == 0 && a.s3 == 0 && a.s4 == 0 && a.s5 == 0 && a.s6 == 0),
{
}

/// The bytes of a hardware address stand in their order.
pub proof fn mac_bytes_are_in_order(m: MacAddr)
    ensures
        m.octets().len() == 6,
        m.octets()[0] == m.b0,
        m.octets()[1] == m.b1,
        m.octets()[2] == m.b2,
        m.octets()[3] == m.b3,
        m.octets()[4] == m.b4,
        m.octets()[5] == m.b5,
{
}

} // verus!
