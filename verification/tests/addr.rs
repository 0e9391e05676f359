use netbase::{
    addr_v4, datagram_action, get_cpu_count, DatagramAction, ipv4_or_zero, ipv4_to_u32, parse_ipv4, select_single_address, should_close_peer,
    u32_to_ipv4, u32_to_ipv4_le, NetAddr, ResolveError,
};

#[test]
fn ip_convert_should_work() {
    assert_eq!(ipv4_to_u32("127.0.0.1"), 0x7f000001);
    assert_eq!("127.0.0.1", u32_to_ipv4(0x7f000001));
    assert_eq!("192.168.192.158", u32_to_ipv4(0xc0a8c09e));
}

#[test]
fn u32_to_ipv4_le_reverses_octets() {
    assert_eq!("1.0.0.127", u32_to_ipv4_le(0x7f000001));
    assert_eq!("158.192.168.192", u32_to_ipv4_le(0xc0a8c09e));
}

#[test]
fn u32_to_ipv4_edges() {
    assert_eq!("0.0.0.0", u32_to_ipv4(0));
    assert_eq!("255.255.255.255", u32_to_ipv4(u32::MAX));
    assert_eq!("10.100.9.200", u32_to_ipv4(0x0a6409c8));
}

#[test]
fn ipv4_text_round_trip() {
    for x in [0u32, 1, 9, 10, 99, 100, 255, 256, 0x7f000001, 0xc0a8c09e, 0x01020304, u32::MAX] {
        assert_eq!(parse_ipv4(&u32_to_ipv4(x)), Some(x));
    }
}

#[test]
fn parse_ipv4_accepts_shortest_decimal() {
    assert_eq!(parse_ipv4("0.0.0.0"), Some(0));
    assert_eq!(parse_ipv4("255.255.255.255"), Some(u32::MAX));
    assert_eq!(parse_ipv4("1.2.3.4"), Some(0x01020304));
    assert_eq!(ipv4_to_u32("192.168.192.158"), 0xc0a8c09e);
}

#[test]
fn parse_ipv4_rejects_other_text() {
    for s in [
        "", "1.2.3", "1.2.3.4.5", "01.2.3.4", "1.2.3.04", "256.0.0.1", "1.2.3.256", "1..2.3",
        ".1.2.3", "1.2.3.", "1.2.3.4 ", " 1.2.3.4", "1.2.3.a", "::1", "1000.1.1.1", "1.2.3.4444",
        "١.2.3.4", "+1.2.3.4",
    ] {
        assert_eq!(parse_ipv4(s), None, "{s}");
    }
}

#[test]
fn addr_v4_reads_address_and_port() {
    let a = NetAddr::V4 { octets: [127, 0, 0, 1], port: 8287 };
    assert_eq!(addr_v4(&a), (0x7f000001, 8287));
    assert_eq!(ipv4_or_zero(&a), 0x7f000001);
    let b = NetAddr::V6 { segments: [0, 0, 0, 0, 0, 0, 0, 1], port: 80 };
    assert_eq!(ipv4_or_zero(&b), 0);
}

#[test]
fn select_single_address_needs_exactly_one() {
    assert_eq!(select_single_address::<u8>(vec![]), Err(ResolveError::NoAddress));
    assert_eq!(select_single_address(vec![7u8]), Ok(7));
    assert_eq!(select_single_address(vec![7u8, 8]), Err(ResolveError::ManyAddresses));
}

#[test]
fn should_close_peer_after_silence() {
    assert!(!should_close_peer(100, 95, 5));
    assert!(should_close_peer(100, 94, 5));
    assert!(!should_close_peer(100, 100, 0));
    assert!(should_close_peer(100, 99, 0));
    // a limit past i64::MAX is never reached
    assert!(!should_close_peer(100, 100, u64::MAX));
    assert!(!should_close_peer(i64::MAX, 0, u64::MAX));
    assert!(should_close_peer(i64::MAX, 0, i64::MAX as u64 - 1));
    // a clock that went back closes nothing
    assert!(!should_close_peer(90, 100, 0));
}

#[test]
fn cpu_count_is_at_least_one() {
    assert!(get_cpu_count() >= 1);
}

#[test]
fn datagram_action_makes_one_peer_per_address() {
    assert_eq!(datagram_action(false, false), DatagramAction { create_peer: true, touch: false });
    assert_eq!(datagram_action(false, true), DatagramAction { create_peer: true, touch: true });
    assert_eq!(datagram_action(true, false), DatagramAction { create_peer: false, touch: false });
    assert_eq!(datagram_action(true, true), DatagramAction { create_peer: false, touch: true });
}
