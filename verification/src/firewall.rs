//! The firewall driver: what is redirected, and how a redirected connection
//! tells where it was going.
//!
//! Two kernel mechanisms are supported. With NAT redirection the kernel
//! rewrites the destination and remembers the original one, which is read back
//! from the connection-tracking entry of the accepted socket. With transparent
//! proxying nothing is rewritten, so the local address of the accepted socket
//! is the original destination, and the listening socket must be put in
//! transparent mode.

use vstd::prelude::*;
use crate::network::{
    of_family, Family, IpAddress, ListenerAddr, Protocol, SocketAddress, Subnet,
};

verus! {

/// The redirection mechanism named in the configuration.
#[derive(Clone, Copy, Debug, PartialEq, Eq, Structural)]
pub enum FirewallType {
    Nat,
    TProxy,
}

/// The firewall driver, one variant for each mechanism. It is chosen once at
/// startup and never changes.
#[derive(Clone, Copy, Debug, PartialEq, Eq, Structural)]
pub enum Firewall {
    Nat,
    TProxy,
}

/// What has to be done to a bound listening socket before it accepts.
#[derive(Clone, Copy, Debug, PartialEq, Eq, Structural)]
pub enum ListenerRegistration {
    /// Nothing.
    Nothing,
    /// Put the socket in transparent mode.
    Transparent,
}

/// How the original destination of an accepted connection is read.
#[derive(Clone, Copy, Debug, PartialEq, Eq, Structural)]
pub enum OriginalDstQuery {
    /// Read the IPv4 connection-tracking entry of the socket.
    ConntrackV4,
    /// Read the IPv6 connection-tracking entry of the socket.
    ConntrackV6,
    /// Read the local address of the socket.
    LocalAddress,
}

impl Firewall {
    /// What a listening socket needs: transparent mode under transparent
    /// proxying, nothing under NAT.
    pub open spec fn spec_register_listener(self) -> ListenerRegistration {
        match self {
            Firewall::Nat => ListenerRegistration::Nothing,
            Firewall::TProxy => ListenerRegistration::Transparent,
        }
    }

    /// What a listening socket needs: transparent mode under transparent
    /// proxying, nothing under NAT.
    #[verifier::when_used_as_spec(spec_register_listener)]
    pub fn register_listener(self) -> (registration: ListenerRegistration)
        ensures
            registration == self.spec_register_listener(),
    {
        match self {
            Firewall::Nat => ListenerRegistration::Nothing,
            Firewall::TProxy => ListenerRegistration::Transparent,
        }
    }

    /// How a connection accepted by a listener of `family` tells its original
    /// destination. Under NAT the family of the listener picks the query, not
    /// the look of any address: an IPv6 listener asks the IPv6 entry even
    /// where the address read there embeds an IPv4 one.
    pub open spec fn spec_original_dst_query(self, family: Family) -> OriginalDstQuery {
        match self {
            Firewall::Nat => match family {
                Family::V4 => OriginalDstQuery::ConntrackV4,
                Family::V6 => OriginalDstQuery::ConntrackV6,
            },
            Firewall::TProxy => OriginalDstQuery::LocalAddress,
        }
    }

    /// How a connection accepted by a listener of `family` tells its original
    /// destination. Under NAT the family of the listener picks the query, not
    /// the look of any address: an IPv6 listener asks the IPv6 entry even
    /// where the address read there embeds an IPv4 one.
    #[verifier::when_used_as_spec(spec_original_dst_query)]
    pub fn original_dst_query(self, family: Family) -> (query: OriginalDstQuery)
        ensures
            query == self.spec_original_dst_query(family),
    {
        match self {
            Firewall::Nat => match family {
                Family::V4 => OriginalDstQuery::ConntrackV4,
                Family::V6 => OriginalDstQuery::ConntrackV6,
            },
            Firewall::TProxy => OriginalDstQuery::LocalAddress,
        }
    }
}

/// The number spelled by the first `n` of `bytes`, most significant first.
pub open spec fn big_endian(bytes: Seq<u8>, n: int) -> int
    decreases n,
{
    if n <= 0 {
        0
    } else {
        big_endian(bytes, n - 1) * 256 + bytes[n - 1] as int
    }
}

/// The destination that the kernel gives for an IPv4 connection-tracking
/// entry: the four address bytes and the two port bytes, as they lie in
/// memory, which is in network order.
pub fn original_dst_v4(addr: [u8; 4], port: [u8; 2]) -> (dst: SocketAddress)
    ensures
        dst == (SocketAddress {
            ip: IpAddress::V4(big_endian(addr@, 4) as u32),
            port: big_endian(port@, 2) as u16,
            flowinfo: 0,
            scope_id: 0,
        }),
        big_endian(addr@, 4) <= u32::MAX,
        big_endian(port@, 2) <= u16::MAX,
{
    proof {
        reveal_with_fuel(big_endian, 5);
    }
    let ip: u32 = ((addr[0] as u32 * 256 + addr[1] as u32) * 256 + addr[2] as u32) * 256
        + addr[3] as u32;
    let p: u16 = port[0] as u16 * 256 + port[1] as u16;
    SocketAddress { ip: IpAddress::V4(ip), port: p, flowinfo: 0, scope_id: 0 }
}

/// The destination that the kernel gives for an IPv6 connection-tracking
/// entry: the sixteen address bytes and the two port bytes, as they lie in
/// memory, which is in network order; and the flow and the scope of the
/// entry, as the numbers they are. The address stays an IPv6 address whatever
/// its bytes are.
pub fn original_dst_v6(addr: [u8; 16], port: [u8; 2], flowinfo: u32, scope_id: u32) -> (dst:
    SocketAddress)
    ensures
        dst == (SocketAddress {
            ip: IpAddress::V6(big_endian(addr@, 16) as u128),
            port: big_endian(port@, 2) as u16,
            flowinfo,
            scope_id,
        }),
        big_endian(addr@, 16) <= u128::MAX,
        big_endian(port@, 2) <= u16::MAX,
{
    proof {
        reveal_with_fuel(big_endian, 17);
    }
    let high: u64 = ((((((addr[0] as u64 * 256 + addr[1] as u64) * 256 + addr[2] as u64) * 256
        + addr[3] as u64) * 256 + addr[4] as u64) * 256 + addr[5] as u64) * 256
        + addr[6] as u64) * 256 + addr[7] as u64;
    let low: u64 = ((((((addr[8] as u64 * 256 + addr[9] as u64) * 256 + addr[10] as u64) * 256
        + addr[11] as u64) * 256 + addr[12] as u64) * 256 + addr[13] as u64) * 256
        + addr[14] as u64) * 256 + addr[15] as u64;
    let ip: u128 = high as u128 * 0x1_0000_0000_0000_0000 + low as u128;
    let p: u16 = port[0] as u16 * 256 + port[1] as u16;
    SocketAddress { ip: IpAddress::V6(ip), port: p, flowinfo, scope_id }
}

/// What is redirected to one listener: the networks to redirect and the
/// networks to leave alone, all of the listener's family.
#[derive(Clone, Debug, PartialEq, Eq)]
pub struct FirewallSubnetConfig {
    pub enable: bool,
    pub listener: ListenerAddr,
    pub includes: Vec<Subnet>,
    pub excludes: Vec<Subnet>,
}

/// The redirection for one listener, under the family of its address.
#[derive(Clone, Debug, PartialEq, Eq)]
pub enum FirewallListenerConfig {
    Ipv4(FirewallSubnetConfig),
    Ipv6(FirewallSubnetConfig),
}

/// What the firewall backend plans its commands from.
#[derive(Clone, Debug, PartialEq, Eq)]
pub struct FirewallConfig {
    /// A local user whose traffic is never redirected, so that what the
    /// forwarder itself sends to the proxy does not come back to it.
    pub filter_from_user: Option<String>,
    /// One entry for each configured listener, in the order of the
    /// configuration.
    pub listeners: Vec<FirewallListenerConfig>,
}

impl FirewallListenerConfig {
    /// The family under which the entry stands.
    pub open spec fn spec_family(&self) -> Family {
        match self {
            FirewallListenerConfig::Ipv4(_) => Family::V4,
            FirewallListenerConfig::Ipv6(_) => Family::V6,
        }
    }

    /// The networks and the listener of the entry.
    pub open spec fn spec_subnets(&self) -> &FirewallSubnetConfig {
        match self {
            FirewallListenerConfig::Ipv4(c) => c,
            FirewallListenerConfig::Ipv6(c) => c,
        }
    }

    /// The family under which the entry stands.
    #[verifier::when_used_as_spec(spec_family)]
    pub fn family(&self) -> (family: Family)
        ensures
            family == self.spec_family(),
    {
        match self {
            FirewallListenerConfig::Ipv4(_) => Family::V4,
            FirewallListenerConfig::Ipv6(_) => Family::V6,
        }
    }

    /// The networks and the listener of the entry.
    #[verifier::when_used_as_spec(spec_subnets)]
    pub fn subnets(&self) -> (subnets: &FirewallSubnetConfig)
        ensures
            subnets == self.spec_subnets(),
    {
        match self {
            FirewallListenerConfig::Ipv4(c) => c,
            FirewallListenerConfig::Ipv6(c) => c,
        }
    }

    /// Whether a TCP connection to `dst` is redirected to the listener of
    /// this entry: the entry is enabled, its listener is a TCP listener of
    /// the family of `dst`, and its networks redirect `dst`.
    pub open spec fn takes(self, dst: IpAddress) -> bool {
        &&& self.spec_subnets().enable
        &&& self.spec_subnets().listener.protocol == Protocol::Tcp
        &&& self.spec_family() == dst.spec_family()
        &&& redirects(self.spec_subnets().includes@, self.spec_subnets().excludes@, dst)
    }
}

/// Whether `best` is the length of the longest prefix among the networks of
/// `list` that cover `dst`: `None` where none covers it.
pub open spec fn is_longest_match(list: Seq<Subnet>, dst: IpAddress, best: Option<u8>) -> bool {
    match best {
        None => forall|i: int| 0 <= i < list.len() ==> !(#[trigger] list[i]).covers(dst),
        Some(len) => {
            &&& exists|i: int|
                0 <= i < list.len() && (#[trigger] list[i]).covers(dst)
                    && list[i].spec_prefix_len() == len
            &&& forall|i: int|
                0 <= i < list.len() && (#[trigger] list[i]).covers(dst)
                    ==> list[i].spec_prefix_len() <= len
        },
    }
}

/// Whether traffic to `dst` is redirected: some network of `includes` covers
/// it with a prefix longer than that of every network of `excludes` that
/// covers it. At equal length the exclusion wins, and without an inclusion
/// nothing is redirected.
pub open spec fn redirects(includes: Seq<Subnet>, excludes: Seq<Subnet>, dst: IpAddress) -> bool {
    exists|i: int|
        0 <= i < includes.len() && (#[trigger] includes[i]).covers(dst) && forall|j: int|
            0 <= j < excludes.len() && (#[trigger] excludes[j]).covers(dst)
                ==> excludes[j].spec_prefix_len() < includes[i].spec_prefix_len()
}

/// The length of the longest prefix among the networks of `list` that cover
/// `dst`.
pub fn longest_match(list: &Vec<Subnet>, dst: IpAddress) -> (best: Option<u8>)
    ensures
        is_longest_match(list@, dst, best),
{
    let mut best: Option<u8> = None;
    let mut i: usize = 0;
    while i < list.len()
        invariant
            i <= list.len(),
            is_longest_match(list@.take(i as int), dst, best),
        decreases list.len() - i,
    {
        let subnet = list[i];
        let ghost before = list@.take(i as int);
        let ghost after = list@.take(i + 1);
        proof {
            assert(after.drop_last() =~= before);
            assert(after[i as int] == subnet);
            assert forall|k: int| 0 <= k < before.len() implies before[k] == after[k] by {}
        }
        if subnet.contains(dst) {
            let len = subnet.prefix_len();
            let longer = match best {
                None => true,
                Some(b) => b < len,
            };
            if longer {
                best = Some(len);
                proof {
                    assert(after[i as int].covers(dst));
                }
            } else {
                proof {
                    let b = best->0;
                    let w = choose|k: int|
                        0 <= k < before.len() && (#[trigger] before[k]).covers(dst)
                            && before[k].spec_prefix_len() == b;
                    assert(after[w].covers(dst));
                }
            }
        } else {
            proof {
                if best is Some {
                    let b = best->0;
                    let w = choose|k: int|
                        0 <= k < before.len() && (#[trigger] before[k]).covers(dst)
                            && before[k].spec_prefix_len() == b;
                    assert(after[w].covers(dst));
                }
            }
        }
        i += 1;
    }
    proof {
        assert(list@.take(i as int) =~= list@);
    }
    best
}

/// Whether traffic to `dst` is redirected under the networks to redirect and
/// the networks to leave alone.
pub fn subnets_redirect(includes: &Vec<Subnet>, excludes: &Vec<Subnet>, dst: IpAddress) -> (r: bool)
    ensures
        r == redirects(includes@, excludes@, dst),
{
    let included = longest_match(includes, dst);
    let excluded = longest_match(excludes, dst);
    match included {
        None => false,
        Some(len) => {
            let r = match excluded {
                None => true,
                Some(other) => other < len,
            };
            proof {
                let w = choose|i: int|
                    0 <= i < includes@.len() && (#[trigger] includes@[i]).covers(dst)
                        && includes@[i].spec_prefix_len() == len;
                if r {
                    assert(includes@[w].covers(dst));
                } else {
                    let other = excluded->0;
                    let x = choose|j: int|
                        0 <= j < excludes@.len() && (#[trigger] excludes@[j]).covers(dst)
                            && excludes@[j].spec_prefix_len() == other;
                    assert(excludes@[x].covers(dst));
                }
            }
            r
        },
    }
}

impl FirewallListenerConfig {
    /// Whether a TCP connection to `dst` is redirected to the listener of
    /// this entry.
    pub fn redirects(&self, dst: IpAddress) -> (r: bool)
        ensures
            r == self.takes(dst),
    {
        let c = self.subnets();
        c.enable && c.listener.protocol == Protocol::Tcp && self.family() == dst.family()
            && subnets_redirect(&c.includes, &c.excludes, dst)
    }
}

impl FirewallConfig {
    /// The listener that receives a TCP connection to `dst`: that of the
    /// first entry that redirects `dst`, or `None` where no entry does and the
    /// connection goes its own way.
    pub fn redirect_target(&self, dst: IpAddress) -> (target: Option<ListenerAddr>)
        ensures
            match target {
                Some(listener) => exists|i: int|
                    0 <= i < self.listeners@.len() && (#[trigger] self.listeners@[i]).takes(dst)
                        && listener == self.listeners@[i].spec_subnets().listener && forall|j: int|
                        0 <= j < i ==> !(#[trigger] self.listeners@[j]).takes(dst),
                None => forall|i: int|
                    0 <= i < self.listeners@.len() ==> !(#[trigger] self.listeners@[i]).takes(dst),
            },
    {
        let mut i: usize = 0;
        while i < self.listeners.len()
            invariant
                i <= self.listeners.len(),
                forall|j: int| 0 <= j < i ==> !(#[trigger] self.listeners@[j]).takes(dst),
            decreases self.listeners.len() - i,
        {
            if self.listeners[i].redirects(dst) {
                let listener = self.listeners[i].subnets().listener;
                assert(self.listeners@[i as int].takes(dst));
                return Some(listener);
            }
            i += 1;
        }
        None
    }
}

/// Without a network to redirect, nothing is redirected.
pub proof fn lemma_empty_includes_redirect_nothing(excludes: Seq<Subnet>, dst: IpAddress)
    ensures
        !redirects(Seq::<Subnet>::empty(), excludes, dst),
{
}

/// The exclusion wins: a destination that a network to leave alone covers is
/// not redirected, unless a network to redirect covers it with a longer
/// prefix.
pub proof fn lemma_exclude_wins(
    includes: Seq<Subnet>,
    excludes: Seq<Subnet>,
    dst: IpAddress,
    j: int,
)
    requires
        0 <= j < excludes.len(),
        excludes[j].covers(dst),
        forall|i: int|
            0 <= i < includes.len() && (#[trigger] includes[i]).covers(dst)
                ==> includes[i].spec_prefix_len() <= excludes[j].spec_prefix_len(),
    ensures
        !redirects(includes, excludes, dst),
{
}

/// A destination that a network to redirect covers is redirected, unless a
/// network to leave alone covers it with a prefix at least as long.
pub proof fn lemma_include_applies(
    includes: Seq<Subnet>,
    excludes: Seq<Subnet>,
    dst: IpAddress,
    i: int,
)
    requires
        0 <= i < includes.len(),
        includes[i].covers(dst),
        forall|j: int|
            0 <= j < excludes.len() && (#[trigger] excludes[j]).covers(dst)
                ==> excludes[j].spec_prefix_len() < includes[i].spec_prefix_len(),
    ensures
        redirects(includes, excludes, dst),
{
}

/// A network covers only addresses of its own family, so the networks of the
/// other family never matter: the decision for `dst` is the same over the
/// whole lists as over their parts of the family of `dst`.
pub proof fn lemma_family_part_decides(
    includes: Seq<Subnet>,
    excludes: Seq<Subnet>,
    dst: IpAddress,
)
    ensures
        redirects(
            of_family(includes, dst.spec_family()),
            of_family(excludes, dst.spec_family()),
            dst,
        ) == redirects(includes, excludes, dst),
{
    let family = dst.spec_family();
    let pred = |s: Subnet| s.spec_family() == family;
    let inc = of_family(includes, family);
    let exc = of_family(excludes, family);
    if redirects(includes, excludes, dst) {
        let i = choose|i: int|
            0 <= i < includes.len() && (#[trigger] includes[i]).covers(dst) && forall|j: int|
                0 <= j < excludes.len() && (#[trigger] excludes[j]).covers(dst)
                    ==> excludes[j].spec_prefix_len() < includes[i].spec_prefix_len();
        includes.lemma_filter_contains(pred, i);
        let k = choose|k: int| 0 <= k < inc.len() && inc[k] == includes[i];
        assert(inc[k].covers(dst));
        assert forall|j: int|
            0 <= j < exc.len() && (#[trigger] exc[j]).covers(dst) implies exc[j].spec_prefix_len()
            < inc[k].spec_prefix_len() by {
            assert(exc.contains(exc[j]));
            excludes.lemma_filter_contains_rev(pred, exc[j]);
            let m = choose|m: int| 0 <= m < excludes.len() && excludes[m] == exc[j];
            assert(excludes[m].covers(dst));
        }
    }
    if redirects(inc, exc, dst) {
        let k = choose|k: int|
            0 <= k < inc.len() && (#[trigger] inc[k]).covers(dst) && forall|j: int|
                0 <= j < exc.len() && (#[trigger] exc[j]).covers(dst) ==> exc[j].spec_prefix_len()
                    < inc[k].spec_prefix_len();
        assert(inc.contains(inc[k]));
        includes.lemma_filter_contains_rev(pred, inc[k]);
        let i = choose|i: int| 0 <= i < includes.len() && includes[i] == inc[k];
        assert(includes[i].covers(dst));
        assert forall|j: int|
            0 <= j < excludes.len() && (#[trigger] excludes[j]).covers(
                dst,
            ) implies excludes[j].spec_prefix_len() < includes[i].spec_prefix_len() by {
            excludes.lemma_filter_contains(pred, j);
            let m = choose|m: int| 0 <= m < exc.len() && exc[m] == excludes[j];
            assert(exc[m].covers(dst));
        }
    }
}

} // verus!
