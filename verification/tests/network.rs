use socks_redirect::network::{
    Family, IpAddress, ListenerAddr, Protocol, SocketAddress, Subnet, Subnets,
};

fn net(a: u8, b: u8, c: u8, d: u8, len: u8) -> Subnet {
    Subnet::new(IpAddress::v4(a, b, c, d), len).unwrap()
}

#[test]
fn address_families() {
    assert_eq!(IpAddress::v4(10, 1, 2, 3).family(), Family::V4);
    assert_eq!(IpAddress::v6([0, 0, 0, 0, 0, 0, 0, 1]).family(), Family::V6);
    assert_eq!(IpAddress::v6([0, 0, 0, 0, 0, 0xffff, 0x0a01, 0x0203]).family(), Family::V6);
}

#[test]
fn listener_gives_its_address_and_port() {
    let l = ListenerAddr {
        protocol: Protocol::Tcp,
        addr: SocketAddress::new(IpAddress::v4(127, 0, 0, 1), 12345),
    };
    assert_eq!(l.ip(), IpAddress::v4(127, 0, 0, 1));
    assert_eq!(l.port(), 12345);
}

#[test]
fn subnet_prefix_is_bounded_by_the_family() {
    assert!(Subnet::new(IpAddress::v4(10, 0, 0, 0), 0).is_some());
    assert!(Subnet::new(IpAddress::v4(10, 0, 0, 0), 32).is_some());
    assert!(Subnet::new(IpAddress::v4(10, 0, 0, 0), 33).is_none());
    assert!(Subnet::new(IpAddress::v4(10, 0, 0, 0), 255).is_none());
    let six = IpAddress::v6([0x2001, 0xdb8, 0, 0, 0, 0, 0, 0]);
    assert!(Subnet::new(six, 33).is_some());
    assert!(Subnet::new(six, 128).is_some());
    assert!(Subnet::new(six, 129).is_none());
}

#[test]
fn subnet_keeps_what_it_was_made_of() {
    let s = net(10, 1, 2, 3, 8);
    assert_eq!(s.addr(), IpAddress::v4(10, 1, 2, 3));
    assert_eq!(s.prefix_len(), 8);
    assert_eq!(s.family(), Family::V4);
}

#[test]
fn subnet_contains_its_edges_and_not_their_neighbours() {
    let s = net(10, 1, 0, 0, 16);
    assert!(s.contains(IpAddress::v4(10, 1, 0, 0)));
    assert!(s.contains(IpAddress::v4(10, 1, 255, 255)));
    assert!(s.contains(IpAddress::v4(10, 1, 2, 3)));
    assert!(!s.contains(IpAddress::v4(10, 0, 255, 255)));
    assert!(!s.contains(IpAddress::v4(10, 2, 0, 0)));
}

#[test]
fn subnet_ignores_bits_behind_the_prefix() {
    let s = net(10, 1, 2, 3, 8);
    assert!(s.contains(IpAddress::v4(10, 0, 0, 0)));
    assert!(s.contains(IpAddress::v4(10, 255, 255, 255)));
    assert!(!s.contains(IpAddress::v4(11, 1, 2, 3)));
}

#[test]
fn subnet_of_no_bits_contains_its_whole_family() {
    let all = net(0, 0, 0, 0, 0);
    assert!(all.contains(IpAddress::v4(0, 0, 0, 0)));
    assert!(all.contains(IpAddress::v4(255, 255, 255, 255)));
    assert!(!all.contains(IpAddress::v6([0, 0, 0, 0, 0, 0, 0, 0])));
    let all6 = Subnet::new(IpAddress::v6([0, 0, 0, 0, 0, 0, 0, 0]), 0).unwrap();
    assert!(all6.contains(IpAddress::v6([0xffff, 1, 2, 3, 4, 5, 6, 7])));
    assert!(!all6.contains(IpAddress::v4(1, 2, 3, 4)));
}

#[test]
fn subnet_of_all_bits_contains_one_address() {
    let one = net(192, 168, 1, 1, 32);
    assert!(one.contains(IpAddress::v4(192, 168, 1, 1)));
    assert!(!one.contains(IpAddress::v4(192, 168, 1, 0)));
    assert!(!one.contains(IpAddress::v4(192, 168, 1, 2)));
    let six = IpAddress::v6([0x2001, 0xdb8, 0, 0, 0, 0, 0, 1]);
    let one6 = Subnet::new(six, 128).unwrap();
    assert!(one6.contains(six));
    assert!(!one6.contains(IpAddress::v6([0x2001, 0xdb8, 0, 0, 0, 0, 0, 2])));
    assert!(!one6.contains(IpAddress::v6([0xa001, 0xdb8, 0, 0, 0, 0, 0, 1])));
}

#[test]
fn ipv6_subnet_contains_by_prefix() {
    let s = Subnet::new(IpAddress::v6([0x2001, 0xdb8, 0, 0, 0, 0, 0, 0]), 32).unwrap();
    assert!(s.contains(IpAddress::v6([0x2001, 0xdb8, 0, 0, 0, 0, 0, 1])));
    assert!(s.contains(IpAddress::v6([0x2001, 0xdb8, 0xffff, 0xffff, 0xffff, 0xffff, 0xffff, 0xffff])));
    assert!(!s.contains(IpAddress::v6([0x2001, 0xdb9, 0, 0, 0, 0, 0, 0])));
    assert!(!s.contains(IpAddress::v6([0x2001, 0xdb7, 0xffff, 0xffff, 0xffff, 0xffff, 0xffff, 0xffff])));
    let odd = Subnet::new(IpAddress::v6([0x2001, 0xdb8, 0x8000, 0, 0, 0, 0, 0]), 33).unwrap();
    assert!(odd.contains(IpAddress::v6([0x2001, 0xdb8, 0xffff, 0, 0, 0, 0, 0])));
    assert!(!odd.contains(IpAddress::v6([0x2001, 0xdb8, 0x7fff, 0, 0, 0, 0, 0])));
}

#[test]
fn subnets_split_by_family_in_order() {
    let a = net(10, 0, 0, 0, 8);
    let b = Subnet::new(IpAddress::v6([0x2001, 0xdb8, 0, 0, 0, 0, 0, 0]), 32).unwrap();
    let c = net(192, 168, 0, 0, 16);
    let d = Subnet::new(IpAddress::v6([0xfe80, 0, 0, 0, 0, 0, 0, 0]), 10).unwrap();
    let subnets = Subnets::new(vec![a, b, c, d]);
    assert_eq!(subnets.ipv4(), vec![a, c]);
    assert_eq!(subnets.ipv6(), vec![b, d]);
    assert_eq!(subnets.family(Family::V4), vec![a, c]);
    assert_eq!(subnets.family(Family::V6), vec![b, d]);
    assert_eq!(Subnets::new(vec![]).ipv4(), vec![]);
    assert_eq!(Subnets::new(vec![a, c]).ipv6(), vec![]);
}
