use socks_redirect::firewall::{
    longest_match, original_dst_v4, original_dst_v6, subnets_redirect, Firewall, FirewallConfig,
    FirewallListenerConfig, FirewallSubnetConfig, ListenerRegistration, OriginalDstQuery,
};
use socks_redirect::network::{
    Family, IpAddress, ListenerAddr, Protocol, SocketAddress, Subnet,
};

fn net(a: u8, b: u8, c: u8, d: u8, len: u8) -> Subnet {
    Subnet::new(IpAddress::v4(a, b, c, d), len).unwrap()
}

fn listener(protocol: Protocol, ip: IpAddress, port: u16) -> ListenerAddr {
    ListenerAddr { protocol, addr: SocketAddress::new(ip, port) }
}

fn entry(l: ListenerAddr, includes: Vec<Subnet>, excludes: Vec<Subnet>) -> FirewallListenerConfig {
    let c = FirewallSubnetConfig { enable: true, listener: l, includes, excludes };
    match l.ip().family() {
        Family::V4 => FirewallListenerConfig::Ipv4(c),
        Family::V6 => FirewallListenerConfig::Ipv6(c),
    }
}

#[test]
fn nat_leaves_the_listener_alone_and_tproxy_makes_it_transparent() {
    assert_eq!(Firewall::Nat.register_listener(), ListenerRegistration::Nothing);
    assert_eq!(Firewall::TProxy.register_listener(), ListenerRegistration::Transparent);
}

#[test]
fn nat_queries_by_the_family_of_the_listener() {
    assert_eq!(Firewall::Nat.original_dst_query(Family::V4), OriginalDstQuery::ConntrackV4);
    assert_eq!(Firewall::Nat.original_dst_query(Family::V6), OriginalDstQuery::ConntrackV6);
}

#[test]
fn tproxy_reads_the_local_address() {
    assert_eq!(Firewall::TProxy.original_dst_query(Family::V4), OriginalDstQuery::LocalAddress);
    assert_eq!(Firewall::TProxy.original_dst_query(Family::V6), OriginalDstQuery::LocalAddress);
}

#[test]
fn ipv4_destination_is_read_in_network_order() {
    let dst = original_dst_v4([10, 1, 2, 3], [0, 80]);
    assert_eq!(dst, SocketAddress::new(IpAddress::v4(10, 1, 2, 3), 80));
    let dst = original_dst_v4([255, 255, 255, 255], [255, 255]);
    assert_eq!(dst, SocketAddress::new(IpAddress::V4(u32::MAX), 65535));
    let dst = original_dst_v4([0, 0, 0, 0], [0, 0]);
    assert_eq!(dst, SocketAddress::new(IpAddress::V4(0), 0));
    let dst = original_dst_v4([192, 168, 0, 1], [0x1f, 0x90]);
    assert_eq!(dst, SocketAddress::new(IpAddress::v4(192, 168, 0, 1), 8080));
}

#[test]
fn ipv6_destination_is_read_in_network_order() {
    let bytes = [0x20, 0x01, 0x0d, 0xb8, 0, 0, 0, 0, 0, 0, 0, 0, 0, 0, 0, 1];
    let dst = original_dst_v6(bytes, [0x01, 0xbb], 0, 0);
    assert_eq!(
        dst,
        SocketAddress::new(IpAddress::v6([0x2001, 0xdb8, 0, 0, 0, 0, 0, 1]), 443)
    );
    let dst = original_dst_v6([0xff; 16], [0xff, 0xff], 0, 0);
    assert_eq!(dst, SocketAddress::new(IpAddress::V6(u128::MAX), 65535));
    let dst = original_dst_v6([0; 16], [0, 1], 0, 0);
    assert_eq!(dst, SocketAddress::new(IpAddress::V6(0), 1));
}

#[test]
fn ipv6_destination_that_embeds_ipv4_stays_ipv6() {
    let bytes = [0, 0, 0, 0, 0, 0, 0, 0, 0, 0, 0xff, 0xff, 10, 1, 2, 3];
    let dst = original_dst_v6(bytes, [0, 80], 0, 0);
    assert_eq!(dst.ip.family(), Family::V6);
    assert_eq!(dst.ip, IpAddress::v6([0, 0, 0, 0, 0, 0xffff, 0x0a01, 0x0203]));
    assert_eq!(dst.ip.to_text(), "::ffff:10.1.2.3");
    assert_eq!(Firewall::Nat.original_dst_query(Family::V6), OriginalDstQuery::ConntrackV6);
}

#[test]
fn longest_match_is_the_longest_covering_prefix() {
    let list = vec![net(10, 0, 0, 0, 8), net(10, 1, 0, 0, 16), net(10, 1, 2, 0, 24), net(11, 0, 0, 0, 8)];
    assert_eq!(longest_match(&list, IpAddress::v4(10, 1, 2, 3)), Some(24));
    assert_eq!(longest_match(&list, IpAddress::v4(10, 1, 3, 3)), Some(16));
    assert_eq!(longest_match(&list, IpAddress::v4(10, 2, 0, 1)), Some(8));
    assert_eq!(longest_match(&list, IpAddress::v4(12, 0, 0, 1)), None);
    assert_eq!(longest_match(&vec![], IpAddress::v4(10, 1, 2, 3)), None);
    assert_eq!(longest_match(&vec![net(0, 0, 0, 0, 0)], IpAddress::v4(10, 1, 2, 3)), Some(0));
}

#[test]
fn empty_includes_redirect_nothing() {
    assert!(!subnets_redirect(&vec![], &vec![], IpAddress::v4(10, 1, 2, 3)));
    assert!(!subnets_redirect(&vec![], &vec![net(10, 0, 0, 0, 8)], IpAddress::v4(10, 1, 2, 3)));
}

#[test]
fn include_without_exclude_redirects() {
    let inc = vec![net(10, 0, 0, 0, 8)];
    assert!(subnets_redirect(&inc, &vec![], IpAddress::v4(10, 1, 2, 3)));
    assert!(subnets_redirect(&inc, &vec![], IpAddress::v4(10, 0, 0, 0)));
    assert!(subnets_redirect(&inc, &vec![], IpAddress::v4(10, 255, 255, 255)));
    assert!(!subnets_redirect(&inc, &vec![], IpAddress::v4(11, 0, 0, 0)));
    assert!(!subnets_redirect(&inc, &vec![], IpAddress::v4(9, 255, 255, 255)));
}

#[test]
fn longer_exclude_wins() {
    let inc = vec![net(10, 0, 0, 0, 8)];
    let exc = vec![net(10, 1, 0, 0, 16)];
    assert!(!subnets_redirect(&inc, &exc, IpAddress::v4(10, 1, 2, 3)));
    assert!(subnets_redirect(&inc, &exc, IpAddress::v4(10, 2, 2, 3)));
}

#[test]
fn destination_on_the_edge_of_an_exclude_is_not_redirected() {
    let inc = vec![net(10, 0, 0, 0, 8)];
    let exc = vec![net(10, 1, 0, 0, 16)];
    assert!(!subnets_redirect(&inc, &exc, IpAddress::v4(10, 1, 0, 0)));
    assert!(!subnets_redirect(&inc, &exc, IpAddress::v4(10, 1, 255, 255)));
    assert!(subnets_redirect(&inc, &exc, IpAddress::v4(10, 0, 255, 255)));
    assert!(subnets_redirect(&inc, &exc, IpAddress::v4(10, 2, 0, 0)));
}

#[test]
fn exclude_wins_a_tie() {
    let inc = vec![net(10, 1, 0, 0, 16)];
    let exc = vec![net(10, 1, 0, 0, 16)];
    assert!(!subnets_redirect(&inc, &exc, IpAddress::v4(10, 1, 2, 3)));
}

#[test]
fn longer_include_wins_over_a_shorter_exclude() {
    let inc = vec![net(10, 0, 0, 0, 8), net(10, 1, 2, 0, 24)];
    let exc = vec![net(10, 1, 0, 0, 16)];
    assert!(subnets_redirect(&inc, &exc, IpAddress::v4(10, 1, 2, 3)));
    assert!(!subnets_redirect(&inc, &exc, IpAddress::v4(10, 1, 3, 3)));
    assert!(subnets_redirect(&inc, &exc, IpAddress::v4(10, 9, 9, 9)));
}

#[test]
fn networks_of_the_other_family_do_not_count() {
    let six = Subnet::new(IpAddress::v6([0, 0, 0, 0, 0, 0, 0, 0]), 0).unwrap();
    assert!(!subnets_redirect(&vec![six], &vec![], IpAddress::v4(10, 1, 2, 3)));
    assert!(subnets_redirect(&vec![net(10, 0, 0, 0, 8)], &vec![six], IpAddress::v4(10, 1, 2, 3)));
}

#[test]
fn entry_takes_only_tcp_of_its_family_when_enabled() {
    let l = listener(Protocol::Tcp, IpAddress::v4(127, 0, 0, 1), 12345);
    let e = entry(l, vec![net(10, 0, 0, 0, 8)], vec![]);
    assert_eq!(e.family(), Family::V4);
    assert_eq!(e.subnets().listener, l);
    assert!(e.redirects(IpAddress::v4(10, 1, 2, 3)));
    assert!(!e.redirects(IpAddress::v4(11, 1, 2, 3)));
    assert!(!e.redirects(IpAddress::v6([0, 0, 0, 0, 0, 0, 0, 1])));

    let udp = listener(Protocol::Udp, IpAddress::v4(127, 0, 0, 1), 12345);
    assert!(!entry(udp, vec![net(10, 0, 0, 0, 8)], vec![]).redirects(IpAddress::v4(10, 1, 2, 3)));

    let off = FirewallListenerConfig::Ipv4(FirewallSubnetConfig {
        enable: false,
        listener: l,
        includes: vec![net(10, 0, 0, 0, 8)],
        excludes: vec![],
    });
    assert!(!off.redirects(IpAddress::v4(10, 1, 2, 3)));
}

#[test]
fn redirect_target_is_the_first_entry_that_takes_the_destination() {
    let first = listener(Protocol::Tcp, IpAddress::v4(127, 0, 0, 1), 1000);
    let second = listener(Protocol::Tcp, IpAddress::v4(127, 0, 0, 1), 2000);
    let six = listener(Protocol::Tcp, IpAddress::v6([0, 0, 0, 0, 0, 0, 0, 1]), 3000);
    let config = FirewallConfig {
        filter_from_user: None,
        listeners: vec![
            entry(first, vec![net(10, 0, 0, 0, 8)], vec![net(10, 1, 0, 0, 16)]),
            entry(second, vec![net(10, 1, 0, 0, 16), net(172, 16, 0, 0, 12)], vec![]),
            entry(
                six,
                vec![Subnet::new(IpAddress::v6([0x2001, 0xdb8, 0, 0, 0, 0, 0, 0]), 32).unwrap()],
                vec![],
            ),
        ],
    };
    assert_eq!(config.redirect_target(IpAddress::v4(10, 2, 0, 1)), Some(first));
    assert_eq!(config.redirect_target(IpAddress::v4(10, 1, 0, 1)), Some(second));
    assert_eq!(config.redirect_target(IpAddress::v4(172, 16, 5, 5)), Some(second));
    assert_eq!(config.redirect_target(IpAddress::v4(8, 8, 8, 8)), None);
    assert_eq!(
        config.redirect_target(IpAddress::v6([0x2001, 0xdb8, 0, 0, 0, 0, 0, 1])),
        Some(six)
    );
    assert_eq!(config.redirect_target(IpAddress::v6([0x2001, 0xdb9, 0, 0, 0, 0, 0, 1])), None);
    let none = FirewallConfig { filter_from_user: None, listeners: vec![] };
    assert_eq!(none.redirect_target(IpAddress::v4(10, 2, 0, 1)), None);
}

#[test]
fn ipv6_destination_keeps_flow_and_scope() {
    let bytes = [0xfe, 0x80, 0, 0, 0, 0, 0, 0, 0, 0, 0, 0, 0, 0, 0, 1];
    let dst = original_dst_v6(bytes, [0, 22], 5, 2);
    assert_eq!(
        dst,
        SocketAddress {
            ip: IpAddress::v6([0xfe80, 0, 0, 0, 0, 0, 0, 1]),
            port: 22,
            flowinfo: 5,
            scope_id: 2
        }
    );
    let plain = original_dst_v4([10, 1, 2, 3], [0, 80]);
    assert_eq!(plain.flowinfo, 0);
    assert_eq!(plain.scope_id, 0);
}
