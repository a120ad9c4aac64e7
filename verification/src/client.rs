//! Configuration and errors of the forwarder.

use vstd::prelude::*;
use vstd::std_specs::convert::FromSpecImpl;
use crate::command::CommandError;
use crate::firewall::{
    lemma_family_part_decides, redirects, Firewall, FirewallConfig, FirewallListenerConfig,
    FirewallSubnetConfig, FirewallType,
};
use crate::network::{of_family, IpAddress, ListenerAddr, Protocol, SocketAddress, Subnet, Subnets};

verus! {

/// `std::io::Error`: the failure of a socket or process operation. It is
/// carried as it comes; nothing is known of what it holds.
#[verifier::external_type_specification]
#[verifier::external_body]
pub struct ExIoError(std::io::Error);

/// `tokio::task::JoinError`: the failure of a task to run to its end. It is
/// carried as it comes; nothing is known of what it holds.
#[verifier::external_type_specification]
#[verifier::external_body]
pub struct ExJoinError(tokio::task::JoinError);

/// `nix::errno::Errno`: the error number of a failed system call. It is
/// carried as it comes; nothing is known of what it holds.
#[verifier::external_type_specification]
#[verifier::external_body]
pub struct ExErrno(nix::errno::Errno);

/// `fast_socks5::SocksError`: the failure of a SOCKS5 session. It is carried
/// as it comes; nothing is known of what it holds.
#[verifier::external_type_specification]
#[verifier::external_body]
pub struct ExSocksError(fast_socks5::SocksError);

/// `ctrlc::Error`: the failure to install the interrupt handler. It is
/// carried as it comes; nothing is known of what it holds.
#[verifier::external_type_specification]
#[verifier::external_body]
pub struct ExCtrlcError(ctrlc::Error);

/// The firewall backend could not produce a command sequence.
#[derive(Clone, Debug, PartialEq, Eq)]
pub struct FirewallError {
    pub reason: String,
}

/// Everything that can end the forwarder or one of its connections.
#[derive(Debug)]
pub enum ClientError {
    /// The firewall backend could not plan its commands.
    Firewall(FirewallError),
    /// A task of the forwarder ended without a result.
    Join(tokio::task::JoinError),
    /// A firewall command failed.
    Command(CommandError),
    /// A socket or process operation failed, or the tunnel process ended by
    /// itself without success.
    Io(std::io::Error),
    /// A socket option could not be read or set.
    Errno(nix::errno::Errno),
    /// The proxy refused or broke the session.
    Socks5(fast_socks5::SocksError),
    /// The interrupt handler could not be installed.
    CtrlC(ctrlc::Error),
}

impl From<FirewallError> for ClientError {
    fn from(e: FirewallError) -> (r: ClientError) {
        ClientError::Firewall(e)
    }
}

impl FromSpecImpl<FirewallError> for ClientError {
    open spec fn obeys_from_spec() -> bool {
        true
    }

    open spec fn from_spec(e: FirewallError) -> ClientError {
        ClientError::Firewall(e)
    }
}

impl From<tokio::task::JoinError> for ClientError {
    fn from(e: tokio::task::JoinError) -> (r: ClientError) {
        ClientError::Join(e)
    }
}

impl FromSpecImpl<tokio::task::JoinError> for ClientError {
    open spec fn obeys_from_spec() -> bool {
        true
    }

    open spec fn from_spec(e: tokio::task::JoinError) -> ClientError {
        ClientError::Join(e)
    }
}

impl From<CommandError> for ClientError {
    fn from(e: CommandError) -> (r: ClientError) {
        ClientError::Command(e)
    }
}

impl FromSpecImpl<CommandError> for ClientError {
    open spec fn obeys_from_spec() -> bool {
        true
    }

    open spec fn from_spec(e: CommandError) -> ClientError {
        ClientError::Command(e)
    }
}

impl From<std::io::Error> for ClientError {
    fn from(e: std::io::Error) -> (r: ClientError) {
        ClientError::Io(e)
    }
}

impl FromSpecImpl<std::io::Error> for ClientError {
    open spec fn obeys_from_spec() -> bool {
        true
    }

    open spec fn from_spec(e: std::io::Error) -> ClientError {
        ClientError::Io(e)
    }
}

impl From<nix::errno::Errno> for ClientError {
    fn from(e: nix::errno::Errno) -> (r: ClientError) {
        ClientError::Errno(e)
    }
}

impl FromSpecImpl<nix::errno::Errno> for ClientError {
    open spec fn obeys_from_spec() -> bool {
        true
    }

    open spec fn from_spec(e: nix::errno::Errno) -> ClientError {
        ClientError::Errno(e)
    }
}

impl From<fast_socks5::SocksError> for ClientError {
    fn from(e: fast_socks5::SocksError) -> (r: ClientError) {
        ClientError::Socks5(e)
    }
}

impl FromSpecImpl<fast_socks5::SocksError> for ClientError {
    open spec fn obeys_from_spec() -> bool {
        true
    }

    open spec fn from_spec(e: fast_socks5::SocksError) -> ClientError {
        ClientError::Socks5(e)
    }
}

impl From<ctrlc::Error> for ClientError {
    fn from(e: ctrlc::Error) -> (r: ClientError) {
        ClientError::CtrlC(e)
    }
}

impl FromSpecImpl<ctrlc::Error> for ClientError {
    open spec fn obeys_from_spec() -> bool {
        true
    }

    open spec fn from_spec(e: ctrlc::Error) -> ClientError {
        ClientError::CtrlC(e)
    }
}

/// What the forwarder is told to do.
#[derive(Clone, Debug, PartialEq, Eq)]
pub struct Config {
    /// Destinations to redirect.
    pub includes: Subnets,
    /// Destinations to leave alone even where `includes` covers them.
    pub excludes: Subnets,
    /// The host that the tunnel process connects to; without one no tunnel
    /// is started and the proxy is expected to be there already.
    pub remote: Option<String>,
    /// Where to listen for redirected traffic.
    pub listen: Vec<ListenerAddr>,
    /// The SOCKS5 proxy: the port that the tunnel offers and that each
    /// connection is forwarded to.
    pub socks_addr: SocketAddress,
    /// The redirection mechanism.
    pub firewall: FirewallType,
}

/// The driver of the mechanism that a configuration names.
pub open spec fn firewall_of(firewall: FirewallType) -> Firewall {
    match firewall {
        FirewallType::Nat => Firewall::Nat,
        FirewallType::TProxy => Firewall::TProxy,
    }
}

/// Whether `entry` is what the firewall is told about `listener`: it stands
/// under the family of the listener's address, is enabled, names the
/// listener, and holds the networks of that family from `includes` and
/// `excludes`, in their order.
pub open spec fn describes_listener(
    entry: FirewallListenerConfig,
    listener: ListenerAddr,
    includes: Seq<Subnet>,
    excludes: Seq<Subnet>,
) -> bool {
    let family = listener.addr.ip.spec_family();
    &&& entry.spec_family() == family
    &&& entry.spec_subnets().enable
    &&& entry.spec_subnets().listener == listener
    &&& entry.spec_subnets().includes@ == of_family(includes, family)
    &&& entry.spec_subnets().excludes@ == of_family(excludes, family)
}

/// The firewall driver for the mechanism that the configuration names.
pub fn get_firewall(config: &Config) -> (firewall: Firewall)
    ensures
        firewall == firewall_of(config.firewall),
{
    match config.firewall {
        FirewallType::Nat => Firewall::Nat,
        FirewallType::TProxy => Firewall::TProxy,
    }
}

/// What the firewall backend plans from: one entry for each listener, in the
/// order of the configuration, each with the networks of the family of its
/// listener; no user is exempted.
pub fn get_firewall_config(config: &Config) -> (firewall_config: FirewallConfig)
    ensures
        firewall_config.filter_from_user is None,
        firewall_config.listeners@.len() == config.listen@.len(),
        forall|i: int|
            0 <= i < config.listen@.len() ==> describes_listener(
                #[trigger] firewall_config.listeners@[i],
                config.listen@[i],
                config.includes@,
                config.excludes@,
            ),
{
    let mut listeners: Vec<FirewallListenerConfig> = Vec::new();
    let mut i: usize = 0;
    while i < config.listen.len()
        invariant
            i <= config.listen.len(),
            listeners@.len() == i,
            forall|k: int|
                0 <= k < i ==> describes_listener(
                    #[trigger] listeners@[k],
                    config.listen@[k],
                    config.includes@,
                    config.excludes@,
                ),
        decreases config.listen.len() - i,
    {
        let addr = config.listen[i];
        let entry = match addr.ip() {
            IpAddress::V4(_) => FirewallListenerConfig::Ipv4(
                FirewallSubnetConfig {
                    enable: true,
                    listener: addr,
                    includes: config.includes.ipv4(),
                    excludes: config.excludes.ipv4(),
                },
            ),
            IpAddress::V6(_) => FirewallListenerConfig::Ipv6(
                FirewallSubnetConfig {
                    enable: true,
                    listener: addr,
                    includes: config.includes.ipv6(),
                    excludes: config.excludes.ipv6(),
                },
            ),
        };
        listeners.push(entry);
        i += 1;
    }
    FirewallConfig { filter_from_user: None, listeners }
}

/// What the firewall is told about a listener decides as the configuration
/// does: the entry takes a TCP connection to `dst` exactly where its listener
/// is a TCP listener of the family of `dst` and the configured networks
/// redirect `dst`.
pub proof fn lemma_entry_decides_as_configured(
    entry: FirewallListenerConfig,
    listener: ListenerAddr,
    includes: Seq<Subnet>,
    excludes: Seq<Subnet>,
    dst: IpAddress,
)
    requires
        describes_listener(entry, listener, includes, excludes),
    ensures
        entry.takes(dst) == (listener.protocol == Protocol::Tcp && listener.addr.ip.spec_family()
            == dst.spec_family() && redirects(includes, excludes, dst)),
{
    lemma_family_part_decides(includes, excludes, dst);
}

} // verus!
