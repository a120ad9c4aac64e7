use socks_redirect::client::{
    get_firewall, get_firewall_config, ClientError, Config, FirewallError,
};
use socks_redirect::command::{CommandError, CommandFailure};
use socks_redirect::firewall::{Firewall, FirewallListenerConfig, FirewallType};
use socks_redirect::network::{
    IpAddress, ListenerAddr, Protocol, SocketAddress, Subnet, Subnets,
};

fn config(firewall: FirewallType, listen: Vec<ListenerAddr>) -> Config {
    Config {
        includes: Subnets::new(vec![
            Subnet::new(IpAddress::v4(10, 0, 0, 0), 8).unwrap(),
            Subnet::new(IpAddress::v6([0x2001, 0xdb8, 0, 0, 0, 0, 0, 0]), 32).unwrap(),
            Subnet::new(IpAddress::v4(192, 168, 0, 0), 16).unwrap(),
        ]),
        excludes: Subnets::new(vec![
            Subnet::new(IpAddress::v6([0x2001, 0xdb8, 1, 0, 0, 0, 0, 0]), 48).unwrap(),
            Subnet::new(IpAddress::v4(10, 1, 0, 0), 16).unwrap(),
        ]),
        remote: None,
        listen,
        socks_addr: SocketAddress::new(IpAddress::v4(127, 0, 0, 1), 1080),
        firewall,
    }
}

#[test]
fn firewall_driver_follows_the_configuration() {
    assert_eq!(get_firewall(&config(FirewallType::Nat, vec![])), Firewall::Nat);
    assert_eq!(get_firewall(&config(FirewallType::TProxy, vec![])), Firewall::TProxy);
}

#[test]
fn firewall_config_has_one_entry_for_each_listener() {
    let four = ListenerAddr {
        protocol: Protocol::Tcp,
        addr: SocketAddress::new(IpAddress::v4(127, 0, 0, 1), 12345),
    };
    let six = ListenerAddr {
        protocol: Protocol::Tcp,
        addr: SocketAddress::new(IpAddress::v6([0, 0, 0, 0, 0, 0, 0, 1]), 12346),
    };
    let udp = ListenerAddr {
        protocol: Protocol::Udp,
        addr: SocketAddress::new(IpAddress::v4(127, 0, 0, 1), 12347),
    };
    let c = config(FirewallType::Nat, vec![four, six, udp]);
    let fc = get_firewall_config(&c);
    assert_eq!(fc.filter_from_user, None);
    assert_eq!(fc.listeners.len(), 3);

    match &fc.listeners[0] {
        FirewallListenerConfig::Ipv4(s) => {
            assert!(s.enable);
            assert_eq!(s.listener, four);
            assert_eq!(s.includes, c.includes.ipv4());
            assert_eq!(s.excludes, c.excludes.ipv4());
            assert_eq!(s.includes.len(), 2);
            assert_eq!(s.excludes.len(), 1);
        }
        other => panic!("unexpected entry {:?}", other),
    }
    match &fc.listeners[1] {
        FirewallListenerConfig::Ipv6(s) => {
            assert!(s.enable);
            assert_eq!(s.listener, six);
            assert_eq!(s.includes, c.includes.ipv6());
            assert_eq!(s.excludes, c.excludes.ipv6());
            assert_eq!(s.includes.len(), 1);
            assert_eq!(s.excludes.len(), 1);
        }
        other => panic!("unexpected entry {:?}", other),
    }
    match &fc.listeners[2] {
        FirewallListenerConfig::Ipv4(s) => {
            assert!(s.enable);
            assert_eq!(s.listener, udp);
        }
        other => panic!("unexpected entry {:?}", other),
    }
}

#[test]
fn firewall_config_of_no_listener_is_empty() {
    let fc = get_firewall_config(&config(FirewallType::TProxy, vec![]));
    assert_eq!(fc.filter_from_user, None);
    assert!(fc.listeners.is_empty());
}

#[test]
fn firewall_config_decides_as_the_configured_networks() {
    let four = ListenerAddr {
        protocol: Protocol::Tcp,
        addr: SocketAddress::new(IpAddress::v4(127, 0, 0, 1), 12345),
    };
    let six = ListenerAddr {
        protocol: Protocol::Tcp,
        addr: SocketAddress::new(IpAddress::v6([0, 0, 0, 0, 0, 0, 0, 1]), 12346),
    };
    let fc = get_firewall_config(&config(FirewallType::Nat, vec![four, six]));
    assert_eq!(fc.redirect_target(IpAddress::v4(10, 2, 3, 4)), Some(four));
    assert_eq!(fc.redirect_target(IpAddress::v4(10, 1, 3, 4)), None);
    assert_eq!(fc.redirect_target(IpAddress::v4(192, 168, 7, 7)), Some(four));
    assert_eq!(fc.redirect_target(IpAddress::v6([0x2001, 0xdb8, 2, 0, 0, 0, 0, 9])), Some(six));
    assert_eq!(fc.redirect_target(IpAddress::v6([0x2001, 0xdb8, 1, 0, 0, 0, 0, 9])), None);
}

#[test]
fn errors_are_wrapped_by_their_kind() {
    let e = ClientError::from(FirewallError { reason: String::from("no chain") });
    assert!(matches!(e, ClientError::Firewall(ref f) if f.reason == "no chain"));

    let e = ClientError::from(CommandError { index: 2, failure: CommandFailure::Status(4) });
    assert!(matches!(
        e,
        ClientError::Command(CommandError { index: 2, failure: CommandFailure::Status(4) })
    ));

    let e = ClientError::from(std::io::Error::new(std::io::ErrorKind::AddrInUse, "taken"));
    assert!(matches!(e, ClientError::Io(ref io) if io.kind() == std::io::ErrorKind::AddrInUse));

    let e = ClientError::from(nix::errno::Errno::ENOPROTOOPT);
    assert!(matches!(e, ClientError::Errno(nix::errno::Errno::ENOPROTOOPT)));

    let e = ClientError::from(fast_socks5::SocksError::ArgumentInputError("bad"));
    assert!(matches!(
        e,
        ClientError::Socks5(fast_socks5::SocksError::ArgumentInputError("bad"))
    ));

    let e = ClientError::from(ctrlc::Error::MultipleHandlers);
    assert!(matches!(e, ClientError::CtrlC(ctrlc::Error::MultipleHandlers)));
}

#[test]
fn join_error_is_wrapped() {
    let runtime = tokio::runtime::Builder::new_current_thread().build().unwrap();
    let join = runtime.block_on(async {
        let handle = tokio::spawn(async {
            tokio::task::yield_now().await;
        });
        handle.abort();
        handle.await.unwrap_err()
    });
    assert!(join.is_cancelled());
    let e = ClientError::from(join);
    assert!(matches!(e, ClientError::Join(ref j) if j.is_cancelled()));
}
