use symbolicator::net::{connection_permitted, is_external_ip, is_reserved, reserved_blocks, uses_ip_filter, IpAddress, Ipv4Block};
use symbolicator::types::Config;

fn v4(a: u8, b: u8, c: u8, d: u8) -> IpAddress {
    IpAddress::V4(u32::from_be_bytes([a, b, c, d]))
}

const STRICT: Config = Config { connect_to_reserved_ips: false, symstore_proxy: false };
const ALLOW: Config = Config { connect_to_reserved_ips: true, symstore_proxy: false };

#[test]
fn untrusted_client_refuses_reserved_ranges() {
    for ip in [v4(127, 0, 0, 1), v4(10, 1, 2, 3), v4(192, 168, 0, 1), v4(169, 254, 1, 1), v4(255, 255, 255, 255), v4(100, 64, 0, 1)] {
        assert!(!connection_permitted(&STRICT, false, ip));
        assert!(connection_permitted(&STRICT, true, ip));
        assert!(connection_permitted(&ALLOW, false, ip));
    }
}

#[test]
fn untrusted_client_allows_public_addresses() {
    for ip in [v4(8, 8, 8, 8), v4(1, 1, 1, 1), v4(172, 32, 0, 1), v4(100, 128, 0, 0), v4(11, 0, 0, 0)] {
        assert!(is_external_ip(ip));
        assert!(connection_permitted(&STRICT, false, ip));
    }
}

#[test]
fn ipv6_is_never_external() {
    assert!(!is_external_ip(IpAddress::V6(0x2001_4860_4860_0000_0000_0000_0000_8888)));
    assert!(!connection_permitted(&STRICT, false, IpAddress::V6(1)));
    assert!(connection_permitted(&STRICT, true, IpAddress::V6(1)));
}

#[test]
fn filter_only_for_untrusted_strict_clients() {
    assert!(uses_ip_filter(&STRICT, false));
    assert!(!uses_ip_filter(&STRICT, true));
    assert!(!uses_ip_filter(&ALLOW, false));
}

#[test]
fn block_edges() {
    let b = Ipv4Block { base: u32::from_be_bytes([172, 16, 0, 0]), prefix: 12 };
    assert!(b.contains(u32::from_be_bytes([172, 31, 255, 255])));
    assert!(!b.contains(u32::from_be_bytes([172, 32, 0, 0])));
    assert!(!b.contains(u32::from_be_bytes([172, 15, 255, 255])));
    let all = Ipv4Block { base: 0, prefix: 0 };
    assert!(all.contains(u32::MAX));
    assert!(is_reserved(u32::from_be_bytes([192, 0, 0, 7])));
    assert!(!is_reserved(u32::from_be_bytes([192, 0, 0, 8])));
    assert_eq!(reserved_blocks().len(), 15);
}
