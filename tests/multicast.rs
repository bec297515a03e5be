use localsend_protocol::model::HostAddr;
use localsend_protocol::multicast::{multicast_interfaces, multicast_target, parse_ipv4, ANNOUNCE_REPEATS, DEFAULT_MULTICAST_V4};
use localsend_protocol::server::ServerSetting;

fn v4(a: u8, b: u8, c: u8, d: u8) -> HostAddr {
    HostAddr::V4(u32::from_be_bytes([a, b, c, d]))
}

#[test]
fn loopback_and_ipv6_are_skipped() {
    let addrs = vec![v4(127, 0, 0, 1), v4(192, 168, 1, 4), HostAddr::V6(1), v4(127, 5, 5, 5), v4(10, 0, 0, 1)];
    let r = multicast_interfaces(&addrs);
    assert_eq!(r, vec![u32::from_be_bytes([192, 168, 1, 4]), u32::from_be_bytes([10, 0, 0, 1])]);
    assert!(multicast_interfaces(&vec![]).is_empty());
    assert_eq!(multicast_interfaces(&vec![v4(128, 0, 0, 1)]), vec![u32::from_be_bytes([128, 0, 0, 1])]);
}

#[test]
fn target_falls_back_to_default_group() {
    assert_eq!(DEFAULT_MULTICAST_V4, u32::from_be_bytes([224, 0, 0, 167]));
    assert_eq!(multicast_target(None, 1234), (DEFAULT_MULTICAST_V4, 53317));
    let g = u32::from_be_bytes([239, 1, 2, 3]);
    assert_eq!(multicast_target(Some(g), 1234), (g, 1234));
    assert_eq!(ANNOUNCE_REPEATS, 5);
}

#[test]
fn dotted_quads_parse_like_ipv4_addresses() {
    assert_eq!(parse_ipv4("224.0.0.167"), Some(u32::from_be_bytes([224, 0, 0, 167])));
    assert_eq!(parse_ipv4("0.0.0.0"), Some(0));
    assert_eq!(parse_ipv4("255.255.255.255"), Some(u32::MAX));
    assert_eq!(parse_ipv4("10.0.0.0"), Some(u32::from_be_bytes([10, 0, 0, 0])));
    for bad in ["", "1.2.3", "1.2.3.4.5", "256.1.1.1", "01.2.3.4", "1.2.3.04", "1..2.3", "1.2.3.4:5", " 1.2.3.4", "1.2.3.", "a.b.c.d", "1.2.3.1000"] {
        assert_eq!(parse_ipv4(bad), None, "{bad}");
    }
}

#[test]
fn endpoint_of_setting() {
    let s = ServerSetting::default();
    assert_eq!(s.multicast_endpoint(), (u32::from_be_bytes([224, 0, 0, 167]), 53317));
    let custom = ServerSetting { multicast_addr: "239.255.0.1".to_string(), port: 4000, ..ServerSetting::default() };
    assert_eq!(custom.multicast_endpoint(), (u32::from_be_bytes([239, 255, 0, 1]), 4000));
    let broken = ServerSetting { multicast_addr: "not an address".to_string(), port: 4000, ..ServerSetting::default() };
    assert_eq!(broken.multicast_endpoint(), (DEFAULT_MULTICAST_V4, 53317));
}
