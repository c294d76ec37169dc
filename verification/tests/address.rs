use proxy_forward::address::{Family, IpAddress, SocketAddress};

fn text_of(ip: IpAddress) -> String {
    let address = SocketAddress { ip, port: 0, flowinfo: 0, scope_id: 0 };
    String::from_utf8(address.ip_text()).unwrap()
}

#[test]
fn ipv4_is_written_in_dotted_decimal() {
    assert_eq!(text_of(IpAddress::V4([127, 0, 0, 1])), "127.0.0.1");
    assert_eq!(text_of(IpAddress::V4([0, 0, 0, 0])), "0.0.0.0");
    assert_eq!(text_of(IpAddress::V4([255, 255, 255, 255])), "255.255.255.255");
    assert_eq!(text_of(IpAddress::V4([198, 51, 100, 9])), "198.51.100.9");
    assert_eq!(text_of(IpAddress::V4([10, 0, 200, 19])), "10.0.200.19");
}

#[test]
fn ipv6_leaves_out_the_longest_run_of_zero_groups() {
    assert_eq!(text_of(IpAddress::V6([0, 0, 0, 0, 0, 0, 0, 0])), "::");
    assert_eq!(text_of(IpAddress::V6([0, 0, 0, 0, 0, 0, 0, 1])), "::1");
    assert_eq!(text_of(IpAddress::V6([0x2001, 0xdb8, 0, 0, 0, 0, 0, 1])), "2001:db8::1");
    assert_eq!(text_of(IpAddress::V6([1, 0, 0, 0, 0, 0, 0, 0])), "1::");
    assert_eq!(text_of(IpAddress::V6([0xfe80, 0, 0, 0, 0x1234, 0, 0, 0xabcd])), "fe80::1234:0:0:abcd");
}

#[test]
fn ipv6_leaves_out_the_leftmost_of_two_runs_of_one_length() {
    assert_eq!(text_of(IpAddress::V6([1, 0, 0, 2, 0, 0, 3, 4])), "1::2:0:0:3:4");
    assert_eq!(text_of(IpAddress::V6([1, 0, 0, 2, 0, 0, 0, 4])), "1:0:0:2::4");
}

#[test]
fn ipv6_keeps_a_single_zero_group() {
    assert_eq!(text_of(IpAddress::V6([1, 0, 2, 3, 4, 5, 6, 7])), "1:0:2:3:4:5:6:7");
    assert_eq!(text_of(IpAddress::V6([1, 2, 3, 4, 5, 6, 7, 8])), "1:2:3:4:5:6:7:8");
    assert_eq!(
        text_of(IpAddress::V6([0xffff, 0xffff, 0xffff, 0xffff, 0xffff, 0xffff, 0xffff, 0xffff])),
        "ffff:ffff:ffff:ffff:ffff:ffff:ffff:ffff"
    );
}

#[test]
fn ipv6_shows_a_carried_ipv4_address_in_dotted_decimal() {
    assert_eq!(
        text_of(IpAddress::V6([0, 0, 0, 0, 0, 0xffff, 0xc000, 0x0280])),
        "::ffff:192.0.2.128"
    );
    assert_eq!(text_of(IpAddress::V6([0, 0, 0, 0, 0, 0xffff, 0, 0])), "::ffff:0.0.0.0");
}

#[test]
fn ipv6_text_of_further_addresses() {
    assert_eq!(text_of(IpAddress::V6([0, 0, 0, 0, 0, 0, 0xc000, 0x0280])), "::c000:280");
    assert_eq!(text_of(IpAddress::V6([0, 0, 0, 0, 0, 0xfffe, 0xc000, 0x0280])), "::fffe:c000:280");
    assert_eq!(text_of(IpAddress::V6([0, 0, 0, 0, 0, 0, 1, 0])), "::1:0");
    assert_eq!(text_of(IpAddress::V6([0x2001, 0xdb8, 0, 1, 0, 0, 0, 1])), "2001:db8:0:1::1");
    assert_eq!(text_of(IpAddress::V6([0x2001, 0, 0, 1, 0, 0, 1, 1])), "2001::1:0:0:1:1");
    assert_eq!(text_of(IpAddress::V6([1, 0, 2, 0, 3, 0, 4, 0])), "1:0:2:0:3:0:4:0");
    assert_eq!(text_of(IpAddress::V6([0, 1, 0, 0, 0, 0, 0, 0])), "0:1::");
    assert_eq!(text_of(IpAddress::V6([0, 0, 1, 0, 0, 0, 0, 0])), "0:0:1::");
    assert_eq!(
        text_of(IpAddress::V6([0xa, 0xb0, 0xc00, 0xd000, 0x10, 0x100, 0x1000, 0xffff])),
        "a:b0:c00:d000:10:100:1000:ffff"
    );
    assert_eq!(text_of(IpAddress::V6([0, 0, 0, 0, 0, 0, 0, 0xffff])), "::ffff");
    assert_eq!(text_of(IpAddress::V6([0, 0, 0, 0, 0xffff, 0xffff, 1, 2])), "::ffff:ffff:1:2");
}

#[test]
fn socket_address_text_joins_address_and_port() {
    let first = SocketAddress::v4([127, 0, 0, 1], 9000);
    assert_eq!(String::from_utf8(first.text()).unwrap(), "127.0.0.1:9000");
    let second = SocketAddress::v6([0x2001, 0xdb8, 0, 0, 0, 0, 0, 1], 65535, 0, 0);
    assert_eq!(String::from_utf8(second.text()).unwrap(), "[2001:db8::1]:65535");
    let third = SocketAddress::v6([0, 0, 0, 0, 0, 0, 0, 0], 0, 0, 0);
    assert_eq!(String::from_utf8(third.text()).unwrap(), "[::]:0");
}

#[test]
fn port_is_written_in_decimal() {
    let address = SocketAddress::v4([0, 0, 0, 0], 0);
    assert_eq!(address.port_text(), b"0".to_vec());
    let address = SocketAddress::v4([0, 0, 0, 0], 80);
    assert_eq!(address.port_text(), b"80".to_vec());
    let address = SocketAddress::v4([0, 0, 0, 0], 51234);
    assert_eq!(address.port_text(), b"51234".to_vec());
    let address = SocketAddress::v4([0, 0, 0, 0], 65535);
    assert_eq!(address.port_text(), b"65535".to_vec());
}

#[test]
fn family_follows_the_kind_of_address() {
    let first = SocketAddress::v4([10, 0, 0, 1], 1);
    let second = SocketAddress::v6([0, 0, 0, 0, 0, 0, 0, 1], 1, 0, 0);
    assert_eq!(first.family(), Family::V4);
    assert_eq!(second.family(), Family::V6);
    assert!(first.is_ipv4() && !first.is_ipv6());
    assert!(second.is_ipv6() && !second.is_ipv4());
    assert_eq!(first.ip.family(), Family::V4);
    assert_eq!(second.ip.family(), Family::V6);
}

#[test]
fn socket_address_text_shows_the_zone_of_an_ipv6_address() {
    let scoped = SocketAddress::v6([0xfe80, 0, 0, 0, 0, 0, 0, 1], 8080, 0, 3);
    assert_eq!(String::from_utf8(scoped.text()).unwrap(), "[fe80::1%3]:8080");
    assert_eq!(String::from_utf8(scoped.ip_text()).unwrap(), "fe80::1");
    let wide = SocketAddress::v6([0xfe80, 0, 0, 0, 0, 0, 0, 1], 1, 0, 4294967295);
    assert_eq!(String::from_utf8(wide.text()).unwrap(), "[fe80::1%4294967295]:1");
    let flowing = SocketAddress::v6([0xfe80, 0, 0, 0, 0, 0, 0, 1], 8080, 12345, 0);
    assert_eq!(String::from_utf8(flowing.text()).unwrap(), "[fe80::1]:8080");
}

#[test]
fn constructors_set_every_field() {
    assert_eq!(
        SocketAddress::v4([10, 0, 0, 1], 80),
        SocketAddress { ip: IpAddress::V4([10, 0, 0, 1]), port: 80, flowinfo: 0, scope_id: 0 }
    );
    assert_eq!(
        SocketAddress::v6([1, 2, 3, 4, 5, 6, 7, 8], 81, 5, 6),
        SocketAddress { ip: IpAddress::V6([1, 2, 3, 4, 5, 6, 7, 8]), port: 81, flowinfo: 5, scope_id: 6 }
    );
}
