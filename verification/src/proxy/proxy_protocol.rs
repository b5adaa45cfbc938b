//! PROXY protocol v2 header construction.
//!
//! oxiduct is an L4 relay: without help, the backend only ever sees oxiduct's
//! own address as the source of every connection. That collapses every client
//! onto one IP, which breaks per-IP rate limiting, auto-banning and any
//! source-address policy on the backend (SPF/DMARC for mail, for example).
//!
//! Emitting a [PROXY protocol] v2 header as the very first bytes on the
//! upstream connection lets a PROXY-aware backend (HAProxy, NGINX, Traefik,
//! Stalwart, ...) recover the real client address. The backend must be
//! configured to trust this proxy's address before it will honour the header.
//!
//! [PROXY protocol]: https://www.haproxy.org/download/2.9/doc/proxy-protocol.txt

use vstd::prelude::*;

use crate::addr::{
    be_octets, be_value, lemma_be_octets_len, lemma_be_round_trip, lemma_octet_ranges, push_be,
    IpAddr, Ipv4Addr, Ipv6Addr, SocketAddr,
};

verus! {

/// The 12-byte v2 signature: `\r\n\r\n\0\r\nQUIT\n`.
pub const SIGNATURE: [u8; 12] = [
    0x0D, 0x0A, 0x0D, 0x0A, 0x00, 0x0D, 0x0A, 0x51, 0x55, 0x49, 0x54, 0x0A,
];

/// Version 2 + `PROXY` command (real addresses follow).
pub const VER_CMD_PROXY: u8 = 0x21;

/// Version 2 + `LOCAL` command (no addresses; receiver uses the real peer).
pub const VER_CMD_LOCAL: u8 = 0x20;

/// Address family `AF_INET`, transport `STREAM`.
pub const TP_TCP4: u8 = 0x11;

/// Address family `AF_INET6`, transport `STREAM`.
pub const TP_TCP6: u8 = 0x21;

/// Address family `AF_UNSPEC`, transport `UNSPEC`.
pub const TP_UNSPEC: u8 = 0x00;

/// The signature as a sequence.
pub open spec fn signature() -> Seq<u8> {
    seq![
        0x0Du8, 0x0Au8, 0x0Du8, 0x0Au8, 0x00u8, 0x0Du8, 0x0Au8, 0x51u8, 0x55u8, 0x49u8, 0x54u8,
        0x0Au8,
    ]
}

/// An address with the IPv4-mapped IPv6 form (`::ffff:a.b.c.d`) collapsed to IPv4.
pub open spec fn canonical_spec(ip: IpAddr) -> IpAddr {
    match ip {
        IpAddr::V6(v6) if v6.is_ipv4_mapped() => IpAddr::V4(
            Ipv4Addr { bits: (v6.bits % 0x1_0000_0000) as u32 },
        ),
        _ => ip,
    }
}

/// Collapse an IPv4-mapped IPv6 address (`::ffff:a.b.c.d`) to its IPv4 form so
/// `src` and `dst` share an address family.
pub fn canonical(ip: IpAddr) -> (r: IpAddr)
    ensures
        r == canonical_spec(ip),
{
    match ip {
        IpAddr::V6(v6) => {
            if v6.bits / 0x1_0000_0000 == 0xffff {
                IpAddr::V4(Ipv4Addr { bits: (v6.bits % 0x1_0000_0000) as u32 })
            } else {
                IpAddr::V6(v6)
            }
        },
        IpAddr::V4(v4) => IpAddr::V4(v4),
    }
}

/// The v2 header for a client at `src` that connected to us at `dst`.
pub open spec fn header(src: SocketAddr, dst: SocketAddr) -> Seq<u8> {
    signature() + match (canonical_spec(src.ip_spec()), canonical_spec(dst.ip_spec())) {
        (IpAddr::V4(s), IpAddr::V4(d)) => seq![VER_CMD_PROXY, TP_TCP4] + be_octets(12, 2)
            + s.octets_spec() + d.octets_spec() + be_octets(src.port_spec() as nat, 2) + be_octets(
            dst.port_spec() as nat,
            2,
        ),
        (IpAddr::V6(s), IpAddr::V6(d)) => seq![VER_CMD_PROXY, TP_TCP6] + be_octets(36, 2)
            + s.octets_spec() + d.octets_spec() + be_octets(src.port_spec() as nat, 2) + be_octets(
            dst.port_spec() as nat,
            2,
        ),
        _ => seq![VER_CMD_LOCAL, TP_UNSPEC] + be_octets(0, 2),
    }
}

/// Build a PROXY protocol v2 header announcing `src` (the real downstream
/// client) and `dst` (the local address that client connected to on us).
///
/// On the rare address-family mismatch between `src` and `dst` (after
/// canonicalising IPv4-mapped IPv6), a `LOCAL` command with an empty address
/// block is emitted instead of a malformed `PROXY` header; a compliant
/// receiver then falls back to the real TCP peer.
pub fn v2_header(src: SocketAddr, dst: SocketAddr) -> (buf: Vec<u8>)
    ensures
        buf@ == header(src, dst),
{
    let mut buf: Vec<u8> = Vec::with_capacity(28);  // exact for the IPv4 case
    buf.extend_from_slice(SIGNATURE.as_slice());
    assert(buf@ =~= signature());

    match (canonical(src.ip()), canonical(dst.ip())) {
        (IpAddr::V4(s), IpAddr::V4(d)) => {
            buf.push(VER_CMD_PROXY);
            buf.push(TP_TCP4);
            push_be(&mut buf, 12, 2);  // 4 + 4 + 2 + 2
            push_be(&mut buf, s.bits as u128, 4);
            push_be(&mut buf, d.bits as u128, 4);
            push_be(&mut buf, src.port() as u128, 2);
            push_be(&mut buf, dst.port() as u128, 2);
        },
        (IpAddr::V6(s), IpAddr::V6(d)) => {
            buf.push(VER_CMD_PROXY);
            buf.push(TP_TCP6);
            push_be(&mut buf, 36, 2);  // 16 + 16 + 2 + 2
            push_be(&mut buf, s.bits, 16);
            push_be(&mut buf, d.bits, 16);
            push_be(&mut buf, src.port() as u128, 2);
            push_be(&mut buf, dst.port() as u128, 2);
        },
        _ => {
            buf.push(VER_CMD_LOCAL);
            buf.push(TP_UNSPEC);
            push_be(&mut buf, 0, 2);
        },
    }
    assert(buf@ =~= header(src, dst));
    buf
}

/// What a receiver learns from a v2 header.
pub enum Announcement {
    /// Use the real peer of the connection.
    Local,
    /// The connection comes from `src` and was made to `dst`.
    Proxied { src: IpAddr, src_port: u16, dst: IpAddr, dst_port: u16 },
}

/// A v2 header as a receiver reads it: `None` where the bytes are no whole header of a
/// kind that this proxy emits.
pub open spec fn read_header(h: Seq<u8>) -> Option<Announcement> {
    if h.len() < 16 || h.take(12) != signature() || h.len() != 16 + be_value(h.subrange(14, 16)) {
        None
    } else if h[12] == VER_CMD_LOCAL {
        Some(Announcement::Local)
    } else if h[12] == VER_CMD_PROXY && h[13] == TP_TCP4 && h.len() == 28 {
        Some(
            Announcement::Proxied {
                src: IpAddr::V4(Ipv4Addr { bits: be_value(h.subrange(16, 20)) as u32 }),
                src_port: be_value(h.subrange(24, 26)) as u16,
                dst: IpAddr::V4(Ipv4Addr { bits: be_value(h.subrange(20, 24)) as u32 }),
                dst_port: be_value(h.subrange(26, 28)) as u16,
            },
        )
    } else if h[12] == VER_CMD_PROXY && h[13] == TP_TCP6 && h.len() == 52 {
        Some(
            Announcement::Proxied {
                src: IpAddr::V6(Ipv6Addr { bits: be_value(h.subrange(16, 32)) as u128 }),
                src_port: be_value(h.subrange(48, 50)) as u16,
                dst: IpAddr::V6(Ipv6Addr { bits: be_value(h.subrange(32, 48)) as u128 }),
                dst_port: be_value(h.subrange(50, 52)) as u16,
            },
        )
    } else {
        None
    }
}

/// Whether two canonical addresses are of one family.
pub open spec fn same_family(a: IpAddr, b: IpAddr) -> bool {
    (a is V4) == (b is V4)
}

/// A receiver recovers from the header the client's real address and port and the address
/// and port it connected to; where the two are of different families the header is a whole
/// `LOCAL` header, which sends the receiver back to the real peer.
pub proof fn law_header_recovers_addresses(src: SocketAddr, dst: SocketAddr)
    ensures
        read_header(header(src, dst)) == Some(
            if same_family(canonical_spec(src.ip_spec()), canonical_spec(dst.ip_spec())) {
                Announcement::Proxied {
                    src: canonical_spec(src.ip_spec()),
                    src_port: src.port_spec(),
                    dst: canonical_spec(dst.ip_spec()),
                    dst_port: dst.port_spec(),
                }
            } else {
                Announcement::Local
            },
        ),
{
    let h = header(src, dst);
    lemma_octet_ranges();
    lemma_be_octets_len(12, 2);
    lemma_be_octets_len(36, 2);
    lemma_be_octets_len(0, 2);
    lemma_be_round_trip(12, 2);
    lemma_be_round_trip(36, 2);
    lemma_be_round_trip(0, 2);
    lemma_be_octets_len(src.port_spec() as nat, 2);
    lemma_be_octets_len(dst.port_spec() as nat, 2);
    lemma_be_round_trip(src.port_spec() as nat, 2);
    lemma_be_round_trip(dst.port_spec() as nat, 2);
    match (canonical_spec(src.ip_spec()), canonical_spec(dst.ip_spec())) {
        (IpAddr::V4(s), IpAddr::V4(d)) => {
            lemma_be_octets_len(s.bits as nat, 4);
            lemma_be_octets_len(d.bits as nat, 4);
            lemma_be_round_trip(s.bits as nat, 4);
            lemma_be_round_trip(d.bits as nat, 4);
            assert(h.take(12) =~= signature());
            assert(h.subrange(14, 16) =~= be_octets(12, 2));
            assert(h.subrange(16, 20) =~= s.octets_spec());
            assert(h.subrange(20, 24) =~= d.octets_spec());
            assert(h.subrange(24, 26) =~= be_octets(src.port_spec() as nat, 2));
            assert(h.subrange(26, 28) =~= be_octets(dst.port_spec() as nat, 2));
        },
        (IpAddr::V6(s), IpAddr::V6(d)) => {
            lemma_be_octets_len(s.bits as nat, 16);
            lemma_be_octets_len(d.bits as nat, 16);
            lemma_be_round_trip(s.bits as nat, 16);
            lemma_be_round_trip(d.bits as nat, 16);
            assert(h.take(12) =~= signature());
            assert(h.subrange(14, 16) =~= be_octets(36, 2));
            assert(h.subrange(16, 32) =~= s.octets_spec());
            assert(h.subrange(32, 48) =~= d.octets_spec());
            assert(h.subrange(48, 50) =~= be_octets(src.port_spec() as nat, 2));
            assert(h.subrange(50, 52) =~= be_octets(dst.port_spec() as nat, 2));
        },
        _ => {
            assert(h.take(12) =~= signature());
            assert(h.subrange(14, 16) =~= be_octets(0, 2));
        },
    }
}

/// An IPv4 address is announced as itself, and so is an IPv6 address, unless it has the
/// form `::ffff:a.b.c.d`: that is announced as the IPv4 address whose octets are its last
/// four.
pub proof fn law_only_mapped_addresses_collapse(v4: Ipv4Addr, v6: Ipv6Addr)
    ensures
        canonical_spec(IpAddr::V4(v4)) == IpAddr::V4(v4),
        v6.bits / 0x1_0000_0000 != 0xffff ==> canonical_spec(IpAddr::V6(v6)) == IpAddr::V6(v6),
        v6.bits / 0x1_0000_0000 == 0xffff ==> {
            &&& canonical_spec(IpAddr::V6(v6)) matches IpAddr::V4(a) && a.octets_spec()
                == v6.octets_spec().skip(12)
        },
{
    if v6.bits / 0x1_0000_0000 == 0xffff {
        let a = Ipv4Addr { bits: (v6.bits % 0x1_0000_0000) as u32 };
        crate::addr::lemma_last_four_octets(v6.bits);
        assert(a.octets_spec() == v6.octets_spec().skip(12));
    }
}

/// Writing an address as IPv4-mapped IPv6 changes nothing in the header, and neither do
/// flow information and scope.
pub proof fn law_mapped_addresses_are_announced_as_ipv4(
    a: Ipv4Addr,
    mapped: Ipv6Addr,
    port: u16,
    flowinfo: u32,
    scope_id: u32,
    other: SocketAddr,
)
    requires
        mapped.bits == 0xffff_0000_0000 + a.bits,
    ensures
        ({
            let plain = SocketAddr::V4 { ip: a, port };
            let long = SocketAddr::V6 { ip: mapped, port, flowinfo, scope_id };
            &&& header(long, other) == header(plain, other)
            &&& header(other, long) == header(other, plain)
        }),
{
    assert(canonical_spec(IpAddr::V6(mapped)) == IpAddr::V4(a));
}

/// Every byte of the header for two IPv4 addresses.
pub proof fn law_ipv4_header_bytes(s: Ipv4Addr, s_port: u16, d: Ipv4Addr, d_port: u16)
    ensures
        header(SocketAddr::V4 { ip: s, port: s_port }, SocketAddr::V4 { ip: d, port: d_port })
            == seq![
            0x0Du8, 0x0Au8, 0x0Du8, 0x0Au8, 0x00u8, 0x0Du8, 0x0Au8, 0x51u8, 0x55u8, 0x49u8, 0x54u8, 0x0Au8, 0x21u8, 0x11u8, 0u8, 12u8,
            (s.bits / 0x100_0000) as u8, (s.bits / 0x1_0000 % 256) as u8,
            (s.bits / 0x100 % 256) as u8, (s.bits % 256) as u8,
            (d.bits / 0x100_0000) as u8, (d.bits / 0x1_0000 % 256) as u8,
            (d.bits / 0x100 % 256) as u8, (d.bits % 256) as u8,
            (s_port / 256) as u8, (s_port % 256) as u8,
            (d_port / 256) as u8, (d_port % 256) as u8,
        ],
{
    crate::addr::law_ipv4_octets_are_the_bits(s);
    crate::addr::law_ipv4_octets_are_the_bits(d);
    lemma_two_octets(12);
    lemma_two_octets(s_port);
    lemma_two_octets(d_port);
    assert(header(
        SocketAddr::V4 { ip: s, port: s_port },
        SocketAddr::V4 { ip: d, port: d_port },
    ) =~= seq![
        0x0Du8, 0x0Au8, 0x0Du8, 0x0Au8, 0x00u8, 0x0Du8, 0x0Au8, 0x51u8, 0x55u8, 0x49u8, 0x54u8, 0x0Au8, 0x21u8, 0x11u8, 0u8, 12u8,
        (s.bits / 0x100_0000) as u8, (s.bits / 0x1_0000 % 256) as u8,
        (s.bits / 0x100 % 256) as u8, (s.bits % 256) as u8,
        (d.bits / 0x100_0000) as u8, (d.bits / 0x1_0000 % 256) as u8,
        (d.bits / 0x100 % 256) as u8, (d.bits % 256) as u8,
        (s_port / 256) as u8, (s_port % 256) as u8,
        (d_port / 256) as u8, (d_port % 256) as u8,
    ]);
}

/// Every byte of the header for two IPv6 addresses that are not IPv4-mapped.
pub proof fn law_ipv6_header_bytes(src: SocketAddr, dst: SocketAddr, s: Ipv6Addr, d: Ipv6Addr)
    requires
        src matches SocketAddr::V6 { ip, .. } && ip == s,
        dst matches SocketAddr::V6 { ip, .. } && ip == d,
        s.bits / 0x1_0000_0000 != 0xffff,
        d.bits / 0x1_0000_0000 != 0xffff,
    ensures
        header(src, dst).len() == 52,
        header(src, dst).take(16) == seq![
            0x0Du8, 0x0Au8, 0x0Du8, 0x0Au8, 0x00u8, 0x0Du8, 0x0Au8, 0x51u8, 0x55u8, 0x49u8, 0x54u8, 0x0Au8, 0x21u8, 0x21u8, 0u8, 36u8,
        ],
        header(src, dst).subrange(16, 32) == s.octets_spec(),
        header(src, dst).subrange(32, 48) == d.octets_spec(),
        header(src, dst)[48] == src.port_spec() / 256,
        header(src, dst)[49] == src.port_spec() % 256,
        header(src, dst)[50] == dst.port_spec() / 256,
        header(src, dst)[51] == dst.port_spec() % 256,
{
    lemma_be_octets_len(s.bits as nat, 16);
    lemma_be_octets_len(d.bits as nat, 16);
    lemma_two_octets(36);
    lemma_two_octets(src.port_spec());
    lemma_two_octets(dst.port_spec());
    let h = header(src, dst);
    assert(h.take(16) =~= seq![
        0x0Du8, 0x0Au8, 0x0Du8, 0x0Au8, 0x00u8, 0x0Du8, 0x0Au8, 0x51u8, 0x55u8, 0x49u8, 0x54u8, 0x0Au8, 0x21u8, 0x21u8, 0u8, 36u8,
    ]);
    assert(h.subrange(16, 32) =~= s.octets_spec());
    assert(h.subrange(32, 48) =~= d.octets_spec());
}

/// Every byte of the header for addresses of different families, where the IPv6 one is not
/// IPv4-mapped: nothing is announced.
pub proof fn law_mixed_header_bytes(a: SocketAddr, b: SocketAddr, v6: Ipv6Addr)
    requires
        a is V4,
        b matches SocketAddr::V6 { ip, .. } && ip == v6,
        v6.bits / 0x1_0000_0000 != 0xffff,
    ensures
        header(a, b) == seq![
            0x0Du8, 0x0Au8, 0x0Du8, 0x0Au8, 0x00u8, 0x0Du8, 0x0Au8, 0x51u8, 0x55u8, 0x49u8, 0x54u8, 0x0Au8, 0x20u8, 0u8, 0u8, 0u8,
        ],
        header(b, a) == header(a, b),
{
    lemma_two_octets(0);
    assert(header(a, b) =~= seq![
        0x0Du8, 0x0Au8, 0x0Du8, 0x0Au8, 0x00u8, 0x0Du8, 0x0Au8, 0x51u8, 0x55u8, 0x49u8, 0x54u8, 0x0Au8, 0x20u8, 0u8, 0u8, 0u8,
    ]);
}

proof fn lemma_two_octets(x: u16)
    ensures
        be_octets(x as nat, 2) == seq![(x / 256) as u8, (x % 256) as u8],
{
    reveal_with_fuel(be_octets, 3);
    assert(be_octets(x as nat, 2) =~= seq![(x / 256) as u8, (x % 256) as u8]);
}

} // verus!
