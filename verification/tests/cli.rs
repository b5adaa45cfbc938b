use oxiduct::cli::{expand_listen, parses_as_port};

#[test]
fn expand_bare_port() {
    assert_eq!(expand_listen("587"), "0.0.0.0:587");
    assert_eq!(expand_listen("1"), "0.0.0.0:1");
    assert_eq!(expand_listen("65535"), "0.0.0.0:65535");
}

#[test]
fn expand_passes_through_full_addr() {
    assert_eq!(expand_listen("127.0.0.1:80"), "127.0.0.1:80");
    assert_eq!(expand_listen("0.0.0.0:443"), "0.0.0.0:443");
    assert_eq!(expand_listen("[::1]:80"), "[::1]:80");
}

#[test]
fn expand_passes_through_non_port_input() {
    // Out of u16 range: not a valid bare port, leave as-is.
    assert_eq!(expand_listen("65536"), "65536");
    assert_eq!(expand_listen("-1"), "-1");
    assert_eq!(expand_listen(""), "");
    assert_eq!(expand_listen("foobar"), "foobar");
}

#[test]
fn expand_zero_port() {
    // Port 0 = OS-assigned. Legal at the syscall level; we forward as-is.
    assert_eq!(expand_listen("0"), "0.0.0.0:0");
}

#[test]
fn expand_keeps_the_spelling_of_a_port() {
    assert_eq!(expand_listen("+80"), "0.0.0.0:+80");
    assert_eq!(expand_listen("00080"), "0.0.0.0:00080");
    assert_eq!(expand_listen("0000000000000000000000065535"), "0.0.0.0:0000000000000000000000065535");
    assert_eq!(expand_listen("+"), "+");
    assert_eq!(expand_listen("++1"), "++1");
    assert_eq!(expand_listen(" 80"), " 80");
    assert_eq!(expand_listen("8 0"), "8 0");
    assert_eq!(expand_listen("٣"), "٣");
}

#[test]
fn port_parsing_agrees_with_u16() {
    for text in [
        "", "+", "-", "0", "-0", "+0", "00", "1", "65535", "65536", "99999999999999999999", "1a",
        "a1", "1.0", "+65535", "+65536", " 1", "1 ", "\u{663}", "0x10", "1_000",
    ] {
        assert_eq!(parses_as_port(text), text.parse::<u16>().is_ok(), "{text:?}");
    }
}

#[test]
fn expansion_is_idempotent() {
    for text in ["587", "+80", "0", "65536", "", "127.0.0.1:80", "foobar"] {
        let once = expand_listen(text);
        assert_eq!(expand_listen(&once), once);
    }
}

#[test]
fn every_port_number_is_expanded() {
    for port in 0..=u16::MAX {
        assert_eq!(expand_listen(&port.to_string()), format!("0.0.0.0:{port}"));
    }
}
