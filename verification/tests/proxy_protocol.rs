use oxiduct::addr::{Ipv4Addr, Ipv6Addr, SocketAddr};
use oxiduct::proxy::proxy_protocol::{
    v2_header, SIGNATURE, TP_TCP4, TP_TCP6, TP_UNSPEC, VER_CMD_LOCAL, VER_CMD_PROXY,
};

fn v4(a: u8, b: u8, c: u8, d: u8, port: u16) -> SocketAddr {
    SocketAddr::V4 { ip: Ipv4Addr::new(a, b, c, d), port }
}

fn v6(addr: Ipv6Addr, port: u16) -> SocketAddr {
    SocketAddr::V6 { ip: addr, port, flowinfo: 0, scope_id: 0 }
}

#[test]
fn signature_always_present() {
    let h = v2_header(v4(1, 2, 3, 4, 1), v4(5, 6, 7, 8, 2));
    assert_eq!(&h[..12], &SIGNATURE);
}

#[test]
fn ipv4_layout_is_exact() {
    // src 192.0.2.1:51000 -> dst 198.51.100.2:25
    let h = v2_header(v4(192, 0, 2, 1, 51_000), v4(198, 51, 100, 2, 25));
    assert_eq!(h.len(), 28, "12 sig + 4 fixed + 12 addr block");
    assert_eq!(h[12], VER_CMD_PROXY);
    assert_eq!(h[13], TP_TCP4);
    assert_eq!(&h[14..16], &12u16.to_be_bytes()); // address block length
    assert_eq!(&h[16..20], &[192, 0, 2, 1]); // src addr
    assert_eq!(&h[20..24], &[198, 51, 100, 2]); // dst addr
    assert_eq!(&h[24..26], &51_000u16.to_be_bytes()); // src port
    assert_eq!(&h[26..28], &25u16.to_be_bytes()); // dst port
}

#[test]
fn ipv6_layout_is_exact() {
    let s = Ipv6Addr::new(0x2001, 0xdb8, 0, 0, 0, 0, 0, 1);
    let d = Ipv6Addr::new(0x2001, 0xdb8, 0, 0, 0, 0, 0, 2);
    let h = v2_header(v6(s, 40_000), v6(d, 587));
    assert_eq!(h.len(), 52, "12 sig + 4 fixed + 36 addr block");
    assert_eq!(h[12], VER_CMD_PROXY);
    assert_eq!(h[13], TP_TCP6);
    assert_eq!(&h[14..16], &36u16.to_be_bytes());
    assert_eq!(&h[16..32], &s.octets());
    assert_eq!(&h[32..48], &d.octets());
    assert_eq!(&h[48..50], &40_000u16.to_be_bytes());
    assert_eq!(&h[50..52], &587u16.to_be_bytes());
}

#[test]
fn ipv4_mapped_v6_collapses_to_v4() {
    // ::ffff:192.0.2.1 must be treated as an IPv4 source.
    let mapped = Ipv6Addr::new(0, 0, 0, 0, 0, 0xffff, 0xc000, 0x0201);
    let h = v2_header(v6(mapped, 1234), v4(198, 51, 100, 2, 25));
    assert_eq!(h.len(), 28);
    assert_eq!(h[13], TP_TCP4);
    assert_eq!(&h[16..20], &[192, 0, 2, 1]);
}

#[test]
fn family_mismatch_emits_local() {
    // genuine v6 src, v4 dst -> cannot describe in one family -> LOCAL.
    let s = Ipv6Addr::new(0x2001, 0xdb8, 0, 0, 0, 0, 0, 1);
    let h = v2_header(v6(s, 1234), v4(198, 51, 100, 2, 25));
    assert_eq!(h.len(), 16, "12 sig + 4 fixed, no address block");
    assert_eq!(h[12], VER_CMD_LOCAL);
    assert_eq!(h[13], TP_UNSPEC);
    assert_eq!(&h[14..16], &0u16.to_be_bytes());
}

#[test]
fn ipv6_octets_are_in_network_order() {
    let a = Ipv6Addr::new(0x0102, 0x0304, 0x0506, 0x0708, 0x090a, 0x0b0c, 0x0d0e, 0x0f10);
    assert_eq!(a.octets(), [1, 2, 3, 4, 5, 6, 7, 8, 9, 10, 11, 12, 13, 14, 15, 16]);
    assert_eq!(Ipv4Addr::new(192, 0, 2, 1).octets(), [192, 0, 2, 1]);
}

#[test]
fn whole_ipv4_header() {
    let h = v2_header(v4(192, 0, 2, 1, 51_000), v4(198, 51, 100, 2, 25));
    assert_eq!(
        h,
        [
            0x0D, 0x0A, 0x0D, 0x0A, 0x00, 0x0D, 0x0A, 0x51, 0x55, 0x49, 0x54, 0x0A, 0x21, 0x11, 0,
            12, 192, 0, 2, 1, 198, 51, 100, 2, 0xC7, 0x38, 0, 25,
        ]
    );
}
