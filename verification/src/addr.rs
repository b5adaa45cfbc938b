//! Internet addresses as plain integers.
//!
//! An address is held by its bits in network order, so that equality of
//! addresses is equality of integers and an address can key an ordered map.

use vstd::prelude::*;

verus! {

/// The `n` lowest octets of `x`, most significant first.
pub open spec fn be_octets(x: nat, n: nat) -> Seq<u8>
    decreases n,
{
    if n == 0 {
        Seq::empty()
    } else {
        be_octets(x / 256, (n - 1) as nat).push((x % 256) as u8)
    }
}

/// The number whose octets, most significant first, are `s`.
pub open spec fn be_value(s: Seq<u8>) -> nat
    decreases s.len(),
{
    if s.len() == 0 {
        0
    } else {
        be_value(s.drop_last()) * 256 + s.last() as nat
    }
}

/// `256` to the power `n`: the number of values that `n` octets can hold.
pub open spec fn octet_range(n: nat) -> nat
    decreases n,
{
    if n == 0 {
        1
    } else {
        256 * octet_range((n - 1) as nat)
    }
}

pub proof fn lemma_be_octets_len(x: nat, n: nat)
    ensures
        be_octets(x, n).len() == n,
    decreases n,
{
    if n > 0 {
        lemma_be_octets_len(x / 256, (n - 1) as nat);
    }
}

/// Reading the octets of a number gives the number back.
pub proof fn lemma_be_round_trip(x: nat, n: nat)
    requires
        x < octet_range(n),
    ensures
        be_value(be_octets(x, n)) == x,
    decreases n,
{
    if n > 0 {
        lemma_be_round_trip(x / 256, (n - 1) as nat);
        lemma_be_octets_len(x / 256, (n - 1) as nat);
        assert(be_octets(x, n).drop_last() =~= be_octets(x / 256, (n - 1) as nat));
    }
}

pub proof fn lemma_octet_ranges()
    ensures
        octet_range(2) == 0x1_0000,
        octet_range(4) == 0x1_0000_0000,
        octet_range(16) == 0x1_0000_0000_0000_0000_0000_0000_0000_0000,
{
    reveal_with_fuel(octet_range, 17);
}

/// Appends the `n` lowest octets of `x` to `buf`, most significant first.
pub fn push_be(buf: &mut Vec<u8>, x: u128, n: usize)
    requires
        n <= 16,
    ensures
        final(buf)@ == old(buf)@ + be_octets(x as nat, n as nat),
    decreases n,
{
    if n == 0 {
        assert(be_octets(x as nat, 0) =~= Seq::<u8>::empty());
    } else {
        push_be(buf, x / 256, n - 1);
        buf.push((x % 256) as u8);
        assert(buf@ =~= old(buf)@ + be_octets(x as nat, n as nat));
    }
}

/// An IPv4 address.
#[derive(Clone, Copy, Debug, PartialEq, Eq, Hash, Structural)]
pub struct Ipv4Addr {
    /// The address in network order.
    pub bits: u32,
}

impl Ipv4Addr {
    /// The four octets of the address, in network order.
    pub open spec fn octets_spec(self) -> Seq<u8> {
        be_octets(self.bits as nat, 4)
    }

    /// The address `a.b.c.d`.
    pub fn new(a: u8, b: u8, c: u8, d: u8) -> (r: Ipv4Addr)
        ensures
            r.octets_spec() == seq![a, b, c, d],
            r.bits == be_value(seq![a, b, c, d]),
    {
        let bits: u32 = ((a as u32 * 256 + b as u32) * 256 + c as u32) * 256 + d as u32;
        proof {
            reveal_with_fuel(be_octets, 5);
            reveal_with_fuel(be_value, 5);
            let s = seq![a, b, c, d];
            assert(s.drop_last() =~= seq![a, b, c]);
            assert(seq![a, b, c].drop_last() =~= seq![a, b]);
            assert(seq![a, b].drop_last() =~= seq![a]);
            assert(seq![a].drop_last() =~= Seq::<u8>::empty());
            assert(be_octets(bits as nat, 4) =~= s);
        }
        Ipv4Addr { bits }
    }

    /// The four octets of the address, in network order.
    pub fn octets(&self) -> (r: [u8; 4])
        ensures
            r@ == self.octets_spec(),
    {
        let x = self.bits;
        let r: [u8; 4] = [
            (x / 0x100_0000) as u8,
            (x / 0x1_0000 % 256) as u8,
            (x / 0x100 % 256) as u8,
            (x % 256) as u8,
        ];
        proof {
            reveal_with_fuel(be_octets, 5);
            assert(r@ =~= be_octets(x as nat, 4));
        }
        r
    }
}

/// An IPv6 address.
#[derive(Clone, Copy, Debug, PartialEq, Eq, Hash, Structural)]
pub struct Ipv6Addr {
    /// The address in network order.
    pub bits: u128,
}

impl Ipv6Addr {
    /// The sixteen octets of the address, in network order.
    pub open spec fn octets_spec(self) -> Seq<u8> {
        be_octets(self.bits as nat, 16)
    }

    /// The address whose eight sixteen-bit groups are `a` to `h`.
    pub fn new(a: u16, b: u16, c: u16, d: u16, e: u16, f: u16, g: u16, h: u16) -> (r: Ipv6Addr)
        ensures
            r.bits == ((((((a * 0x1_0000 + b) * 0x1_0000 + c) * 0x1_0000 + d) * 0x1_0000 + e)
                * 0x1_0000 + f) * 0x1_0000 + g) * 0x1_0000 + h,
    {
        let high: u128 = ((a as u128 * 0x1_0000 + b as u128) * 0x1_0000 + c as u128) * 0x1_0000
            + d as u128;
        let low: u128 = ((e as u128 * 0x1_0000 + f as u128) * 0x1_0000 + g as u128) * 0x1_0000
            + h as u128;
        Ipv6Addr { bits: high * 0x1_0000_0000_0000_0000 + low }
    }

    /// The sixteen octets of the address, in network order.
    pub fn octets(&self) -> (r: [u8; 16])
        ensures
            r@ == self.octets_spec(),
    {
        let mut r: [u8; 16] = [0u8; 16];
        let mut rest: u128 = self.bits;
        let mut i: usize = 16;
        proof {
            assert(be_octets(rest as nat, 16) + r@.subrange(16, 16) =~= self.octets_spec());
        }
        while i > 0
            invariant
                i <= 16,
                be_octets(rest as nat, i as nat) + r@.subrange(i as int, 16) == self.octets_spec(),
            decreases i,
        {
            let ghost before = r@;
            r[i - 1] = (rest % 256) as u8;
            proof {
                let head = be_octets(rest as nat / 256, (i - 1) as nat);
                assert(be_octets(rest as nat, i as nat) == head.push((rest % 256) as u8));
                assert(head + r@.subrange(i - 1, 16) =~= head.push((rest % 256) as u8)
                    + before.subrange(i as int, 16));
            }
            rest = rest / 256;
            i = i - 1;
        }
        assert(r@ =~= be_octets(rest as nat, 0) + r@.subrange(0, 16));
        r
    }

    /// Whether the address has the form `::ffff:a.b.c.d`.
    pub open spec fn is_ipv4_mapped(self) -> bool {
        self.bits / 0x1_0000_0000 == 0xffff
    }
}

/// An address of either family.
#[derive(Clone, Copy, Debug, PartialEq, Eq, Hash, Structural)]
pub enum IpAddr {
    V4(Ipv4Addr),
    V6(Ipv6Addr),
}

/// An ordered key for an address: its family, then its bits.
pub type IpKey = (u8, u128);

impl IpAddr {
    /// The key of the address.
    pub open spec fn key_spec(self) -> IpKey {
        match self {
            IpAddr::V4(a) => (4u8, a.bits as u128),
            IpAddr::V6(a) => (6u8, a.bits),
        }
    }

    /// The key of the address.
    pub fn key(&self) -> (r: IpKey)
        ensures
            r == self.key_spec(),
    {
        match self {
            IpAddr::V4(a) => (4u8, a.bits as u128),
            IpAddr::V6(a) => (6u8, a.bits),
        }
    }
}

/// Two addresses with one key are the same address.
pub proof fn lemma_ip_key_injective(a: IpAddr, b: IpAddr)
    requires
        a.key_spec() == b.key_spec(),
    ensures
        a == b,
{
}

/// An address of either family together with a port.
#[allow(inconsistent_fields)]
#[derive(Clone, Copy, Debug, PartialEq, Eq, Hash, Structural)]
pub enum SocketAddr {
    V4 { ip: Ipv4Addr, port: u16 },
    V6 { ip: Ipv6Addr, port: u16, flowinfo: u32, scope_id: u32 },
}

/// An ordered key for a socket address: family, bits, port, flow information, scope.
pub type SocketKey = (u8, u128, u16, u32, u32);

impl SocketAddr {
    /// The address without its port.
    pub open spec fn ip_spec(self) -> IpAddr {
        match self {
            SocketAddr::V4 { ip, .. } => IpAddr::V4(ip),
            SocketAddr::V6 { ip, .. } => IpAddr::V6(ip),
        }
    }

    /// The port.
    pub open spec fn port_spec(self) -> u16 {
        match self {
            SocketAddr::V4 { port, .. } => port,
            SocketAddr::V6 { port, .. } => port,
        }
    }

    /// The key of the socket address.
    pub open spec fn key_spec(self) -> SocketKey {
        match self {
            SocketAddr::V4 { ip, port } => (4u8, ip.bits as u128, port, 0u32, 0u32),
            SocketAddr::V6 { ip, port, flowinfo, scope_id } => (
                6u8,
                ip.bits,
                port,
                flowinfo,
                scope_id,
            ),
        }
    }

    /// The address without its port.
    pub fn ip(&self) -> (r: IpAddr)
        ensures
            r == self.ip_spec(),
    {
        match self {
            SocketAddr::V4 { ip, .. } => IpAddr::V4(*ip),
            SocketAddr::V6 { ip, .. } => IpAddr::V6(*ip),
        }
    }

    /// The port.
    pub fn port(&self) -> (r: u16)
        ensures
            r == self.port_spec(),
    {
        match self {
            SocketAddr::V4 { port, .. } => *port,
            SocketAddr::V6 { port, .. } => *port,
        }
    }

    /// The key of the socket address.
    pub fn key(&self) -> (r: SocketKey)
        ensures
            r == self.key_spec(),
    {
        match self {
            SocketAddr::V4 { ip, port } => (4u8, ip.bits as u128, *port, 0u32, 0u32),
            SocketAddr::V6 { ip, port, flowinfo, scope_id } => (
                6u8,
                ip.bits,
                *port,
                *flowinfo,
                *scope_id,
            ),
        }
    }
}

/// Two socket addresses with one key are the same socket address.
pub proof fn lemma_socket_key_injective(a: SocketAddr, b: SocketAddr)
    requires
        a.key_spec() == b.key_spec(),
    ensures
        a == b,
{
}

// ── Laws ─────────────────────────────────────────────────────────────────────

/// Each octet of a number is what is left of it after a division by a power of 256.
proof fn lemma_be_octets_at(x: nat, n: nat, i: int)
    requires
        0 <= i < n,
    ensures
        be_octets(x, n).len() == n,
        be_octets(x, n)[i] == x / octet_range((n - 1 - i) as nat) % 256,
    decreases n,
{
    lemma_be_octets_len(x, n);
    lemma_be_octets_len(x / 256, (n - 1) as nat);
    if i < n - 1 {
        let k = (n - 2 - i) as nat;
        let r = octet_range(k);
        lemma_be_octets_at(x / 256, (n - 1) as nat, i);
        lemma_octet_range_positive(k);
        vstd::arithmetic::div_mod::lemma_div_denominator(x as int, 256, r as int);
        assert(octet_range((k + 1) as nat) == 256 * r);
        assert((n - 1 - i) as nat == k + 1);
        assert(be_octets(x, n)[i] == be_octets(x / 256, (n - 1) as nat)[i]);
        assert((x / 256) / r == x / (256 * r));
    } else {
        assert((n - 1 - i) as nat == 0);
        assert(octet_range(0) == 1);
        assert(x / 1 == x);
        assert(be_octets(x, n)[i] == x % 256);
    }
}

proof fn lemma_octet_range_positive(n: nat)
    ensures
        octet_range(n) > 0,
    decreases n,
{
    if n > 0 {
        lemma_octet_range_positive((n - 1) as nat);
    }
}

/// The last octets of a number depend on its remainder alone.
proof fn lemma_last_octets(x: nat, y: nat, n: nat, k: nat)
    requires
        k <= n,
        x % octet_range(k) == y % octet_range(k),
    ensures
        be_octets(x, n).len() == n,
        be_octets(x, n).skip(n - k) == be_octets(y, k),
    decreases k,
{
    lemma_be_octets_len(x, n);
    lemma_be_octets_len(y, k);
    if k > 0 {
        let r = octet_range((k - 1) as nat);
        lemma_octet_range_positive((k - 1) as nat);
        lemma_be_octets_len(x / 256, (n - 1) as nat);
        lemma_be_octets_len(y / 256, (k - 1) as nat);
        vstd::arithmetic::div_mod::lemma_breakdown(x as int, 256, r as int);
        vstd::arithmetic::div_mod::lemma_breakdown(y as int, 256, r as int);
        assert(x % 256 == y % 256 && (x / 256) % r == (y / 256) % r);
        lemma_last_octets(x / 256, y / 256, (n - 1) as nat, (k - 1) as nat);
        let a = be_octets(x / 256, (n - 1) as nat);
        assert(be_octets(x, n).skip(n - k) =~= a.skip(n - k).push((x % 256) as u8));
    } else {
        assert(be_octets(x, n).skip(n - k) =~= be_octets(y, k));
    }
}

/// The last four of sixteen octets are those of the last 32 bits.
pub proof fn lemma_last_four_octets(x: u128)
    ensures
        be_octets(x as nat, 16).skip(12) == be_octets((x % 0x1_0000_0000) as nat, 4),
{
    lemma_octet_ranges();
    lemma_last_octets(x as nat, (x % 0x1_0000_0000) as nat, 16, 4);
}

/// The octets of an IPv4 address are the four bytes of its bits, the highest first.
pub proof fn law_ipv4_octets_are_the_bits(a: Ipv4Addr)
    ensures
        a.octets_spec() == seq![
            (a.bits / 0x100_0000) as u8,
            (a.bits / 0x1_0000 % 256) as u8,
            (a.bits / 0x100 % 256) as u8,
            (a.bits % 256) as u8,
        ],
{
    reveal_with_fuel(be_octets, 5);
    assert(a.octets_spec() =~= seq![
        (a.bits / 0x100_0000) as u8,
        (a.bits / 0x1_0000 % 256) as u8,
        (a.bits / 0x100 % 256) as u8,
        (a.bits % 256) as u8,
    ]);
}

/// The octets of an IPv6 address are the sixteen bytes of its bits, the highest first.
pub proof fn law_ipv6_octets_are_the_bits(a: Ipv6Addr)
    ensures
        a.octets_spec().len() == 16,
        a.octets_spec()[0] == a.bits / 0x1000000000000000000000000000000 % 256,
        a.octets_spec()[1] == a.bits / 0x10000000000000000000000000000 % 256,
        a.octets_spec()[2] == a.bits / 0x100000000000000000000000000 % 256,
        a.octets_spec()[3] == a.bits / 0x1000000000000000000000000 % 256,
        a.octets_spec()[4] == a.bits / 0x10000000000000000000000 % 256,
        a.octets_spec()[5] == a.bits / 0x100000000000000000000 % 256,
        a.octets_spec()[6] == a.bits / 0x1000000000000000000 % 256,
        a.octets_spec()[7] == a.bits / 0x10000000000000000 % 256,
        a.octets_spec()[8] == a.bits / 0x100000000000000 % 256,
        a.octets_spec()[9] == a.bits / 0x1000000000000 % 256,
        a.octets_spec()[10] == a.bits / 0x10000000000 % 256,
        a.octets_spec()[11] == a.bits / 0x100000000 % 256,
        a.octets_spec()[12] == a.bits / 0x1000000 % 256,
        a.octets_spec()[13] == a.bits / 0x10000 % 256,
        a.octets_spec()[14] == a.bits / 0x100 % 256,
        a.octets_spec()[15] == a.bits / 0x1 % 256,
{
    reveal_with_fuel(octet_range, 17);
    lemma_be_octets_at(a.bits as nat, 16, 0);
    lemma_be_octets_at(a.bits as nat, 16, 1);
    lemma_be_octets_at(a.bits as nat, 16, 2);
    lemma_be_octets_at(a.bits as nat, 16, 3);
    lemma_be_octets_at(a.bits as nat, 16, 4);
    lemma_be_octets_at(a.bits as nat, 16, 5);
    lemma_be_octets_at(a.bits as nat, 16, 6);
    lemma_be_octets_at(a.bits as nat, 16, 7);
    lemma_be_octets_at(a.bits as nat, 16, 8);
    lemma_be_octets_at(a.bits as nat, 16, 9);
    lemma_be_octets_at(a.bits as nat, 16, 10);
    lemma_be_octets_at(a.bits as nat, 16, 11);
    lemma_be_octets_at(a.bits as nat, 16, 12);
    lemma_be_octets_at(a.bits as nat, 16, 13);
    lemma_be_octets_at(a.bits as nat, 16, 14);
    lemma_be_octets_at(a.bits as nat, 16, 15);
}

/// An IPv6 address has the form `::ffff:a.b.c.d` exactly where its first ten octets are
/// zero and the two behind them are 0xff.
pub proof fn law_mapped_form(a: Ipv6Addr)
    ensures
        a.is_ipv4_mapped() <==> {
            &&& forall|i: int| 0 <= i < 10 ==> #[trigger] a.octets_spec()[i] == 0
            &&& a.octets_spec()[10] == 0xff
            &&& a.octets_spec()[11] == 0xff
        },
{
    law_ipv6_octets_are_the_bits(a);
    let o = a.octets_spec();
    if a.is_ipv4_mapped() {
        assert(a.bits / 0x1_0000_0000 == 0xffff);
        assert(a.bits < 0x1_0000_0000_0000);
    } else if (forall|i: int| 0 <= i < 10 ==> #[trigger] o[i] == 0) && o[10] == 0xff && o[11]
        == 0xff {
        assert(o[0] == 0);
        assert(o[1] == 0);
        assert(o[2] == 0);
        assert(o[3] == 0);
        assert(o[4] == 0);
        assert(o[5] == 0);
        assert(o[6] == 0);
        assert(o[7] == 0);
        assert(o[8] == 0);
        assert(o[9] == 0);
    }
}

/// A socket address is known by its address, port, flow information and scope: it gives
/// back the address and the port it is made of, and its key tells it from every other.
pub proof fn law_socket_addresses_keep_their_parts(
    v4: Ipv4Addr,
    v6: Ipv6Addr,
    port: u16,
    flowinfo: u32,
    scope_id: u32,
)
    ensures
        (SocketAddr::V4 { ip: v4, port }).ip_spec() == IpAddr::V4(v4),
        (SocketAddr::V4 { ip: v4, port }).port_spec() == port,
        (SocketAddr::V6 { ip: v6, port, flowinfo, scope_id }).ip_spec() == IpAddr::V6(v6),
        (SocketAddr::V6 { ip: v6, port, flowinfo, scope_id }).port_spec() == port,
        forall|a: SocketAddr, b: SocketAddr| #[trigger] a.key_spec() == #[trigger] b.key_spec() <==> a == b,
        forall|a: IpAddr, b: IpAddr| #[trigger] a.key_spec() == #[trigger] b.key_spec() <==> a == b,
{
}

} // verus!
