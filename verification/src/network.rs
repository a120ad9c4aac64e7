//! Addresses, listeners and subnets.

use vstd::prelude::*;
use vstd::arithmetic::power2::pow2;

verus! {

/// Transport protocol of a listener.
#[derive(Clone, Copy, Debug, PartialEq, Eq, Structural)]
pub enum Protocol {
    Tcp,
    Udp,
}

/// Address family.
#[derive(Clone, Copy, Debug, PartialEq, Eq, Structural)]
pub enum Family {
    V4,
    V6,
}

/// An IP address, held as the number that its bytes spell in network order.
#[derive(Clone, Copy, Debug, PartialEq, Eq, Structural)]
pub enum IpAddress {
    V4(u32),
    V6(u128),
}

/// The number spelled by four bytes, most significant first.
pub open spec fn v4_number(a: u8, b: u8, c: u8, d: u8) -> int {
    a as int * 0x100_0000 + b as int * 0x1_0000 + c as int * 0x100 + d as int
}

/// The number spelled by eight 16-bit groups, most significant first.
pub open spec fn v6_number(g: Seq<u16>) -> int
    recommends
        g.len() == 8,
{
    g[0] as int * 0x1_0000_0000_0000_0000_0000_0000_0000
        + g[1] as int * 0x1_0000_0000_0000_0000_0000_0000
        + g[2] as int * 0x1_0000_0000_0000_0000_0000
        + g[3] as int * 0x1_0000_0000_0000_0000
        + g[4] as int * 0x1_0000_0000_0000
        + g[5] as int * 0x1_0000_0000
        + g[6] as int * 0x1_0000
        + g[7] as int
}

impl IpAddress {
    /// The family this address belongs to.
    pub open spec fn spec_family(self) -> Family {
        match self {
            IpAddress::V4(_) => Family::V4,
            IpAddress::V6(_) => Family::V6,
        }
    }

    /// The family this address belongs to.
    #[verifier::when_used_as_spec(spec_family)]
    pub fn family(self) -> (f: Family)
        ensures
            f == self.spec_family(),
    {
        match self {
            IpAddress::V4(_) => Family::V4,
            IpAddress::V6(_) => Family::V6,
        }
    }

    /// The IPv4 address `a.b.c.d`.
    pub fn v4(a: u8, b: u8, c: u8, d: u8) -> (ip: IpAddress)
        ensures
            ip == IpAddress::V4(v4_number(a, b, c, d) as u32),
            v4_number(a, b, c, d) <= u32::MAX,
    {
        let n: u32 = (a as u32) * 0x100_0000 + (b as u32) * 0x1_0000 + (c as u32) * 0x100 + (
        d as u32);
        IpAddress::V4(n)
    }

    /// The IPv6 address whose eight groups are `g`, first group first.
    pub fn v6(g: [u16; 8]) -> (ip: IpAddress)
        ensures
            ip == IpAddress::V6(v6_number(g@) as u128),
            v6_number(g@) <= u128::MAX,
    {
        let n: u128 = (g[0] as u128) * 0x1_0000_0000_0000_0000_0000_0000_0000 + (g[1] as u128)
            * 0x1_0000_0000_0000_0000_0000_0000 + (g[2] as u128) * 0x1_0000_0000_0000_0000_0000
            + (g[3] as u128) * 0x1_0000_0000_0000_0000 + (g[4] as u128) * 0x1_0000_0000_0000 + (
        g[5] as u128) * 0x1_0000_0000 + (g[6] as u128) * 0x1_0000 + (g[7] as u128);
        IpAddress::V6(n)
    }
}

/// An IP address and a port. An IPv6 socket address also names a flow and,
/// through its scope, the interface that a link-local address belongs to;
/// both are zero where they are not used, and mean nothing beside an IPv4
/// address.
#[derive(Clone, Copy, Debug, PartialEq, Eq, Structural)]
pub struct SocketAddress {
    pub ip: IpAddress,
    pub port: u16,
    pub flowinfo: u32,
    pub scope_id: u32,
}

impl SocketAddress {
    /// The socket address of `ip` and `port`, with no flow and no scope.
    pub fn new(ip: IpAddress, port: u16) -> (addr: SocketAddress)
        ensures
            addr == (SocketAddress { ip, port, flowinfo: 0, scope_id: 0 }),
    {
        SocketAddress { ip, port, flowinfo: 0, scope_id: 0 }
    }
}

/// Where the forwarder listens for redirected traffic.
#[derive(Clone, Copy, Debug, PartialEq, Eq, Structural)]
pub struct ListenerAddr {
    pub protocol: Protocol,
    pub addr: SocketAddress,
}

impl ListenerAddr {
    /// The address the listener is bound to.
    pub fn ip(&self) -> (ip: IpAddress)
        ensures
            ip == self.addr.ip,
    {
        self.addr.ip
    }

    /// The port the listener is bound to.
    pub fn port(&self) -> (port: u16)
        ensures
            port == self.addr.port,
    {
        self.addr.port
    }
}

/// The number of bits in an address of the family.
pub open spec fn address_bits(family: Family) -> int {
    match family {
        Family::V4 => 32,
        Family::V6 => 128,
    }
}

/// Whether two addresses are of one family and agree in their first `len`
/// bits.
pub open spec fn same_prefix(a: IpAddress, b: IpAddress, len: u8) -> bool {
    match (a, b) {
        (IpAddress::V4(x), IpAddress::V4(y)) => len <= 32 && (len == 0 || x >> ((32 - len) as u32)
            == y >> ((32 - len) as u32)),
        (IpAddress::V6(x), IpAddress::V6(y)) => len <= 128 && (len == 0 || x >> ((128
            - len) as u128) == y >> ((128 - len) as u128)),
        _ => false,
    }
}

/// The first address of the network of the addresses that share the first
/// `len` bits of `addr`: those bits, then zeros.
pub open spec fn lowest_address(addr: IpAddress, len: u8) -> IpAddress {
    match addr {
        IpAddress::V4(x) => IpAddress::V4(
            if len == 0 {
                0
            } else {
                x >> ((32 - len) as u32) << ((32 - len) as u32)
            },
        ),
        IpAddress::V6(x) => IpAddress::V6(
            if len == 0 {
                0
            } else {
                x >> ((128 - len) as u128) << ((128 - len) as u128)
            },
        ),
    }
}

/// The last address of the network of the addresses that share the first
/// `len` bits of `addr`: those bits, then ones.
pub open spec fn highest_address(addr: IpAddress, len: u8) -> IpAddress {
    match addr {
        IpAddress::V4(x) => IpAddress::V4(
            if len == 0 {
                u32::MAX
            } else {
                x | !(u32::MAX >> ((32 - len) as u32) << ((32 - len) as u32))
            },
        ),
        IpAddress::V6(x) => IpAddress::V6(
            if len == 0 {
                u128::MAX
            } else {
                x | !(u128::MAX >> ((128 - len) as u128) << ((128 - len) as u128))
            },
        ),
    }
}

/// A network reaches from its first address to its last, both included, and
/// holds the address it was written with.
pub proof fn lemma_network_holds_its_edges(addr: IpAddress, len: u8)
    requires
        len <= address_bits(addr.spec_family()),
    ensures
        same_prefix(addr, addr, len),
        same_prefix(addr, lowest_address(addr, len), len),
        same_prefix(addr, highest_address(addr, len), len),
{
    if len > 0 {
        match addr {
            IpAddress::V4(x) => {
                let s: u32 = (32 - len) as u32;
                assert(x >> s == (x >> s << s) >> s) by (bit_vector)
                    requires
                        s < 32,
                ;
                assert(x >> s == (x | !(0xffff_ffffu32 >> s << s)) >> s) by (bit_vector)
                    requires
                        s < 32,
                ;
            },
            IpAddress::V6(x) => {
                let s: u128 = (128 - len) as u128;
                assert(x >> s == (x >> s << s) >> s) by (bit_vector)
                    requires
                        s < 128,
                ;
                assert(x >> s == (x | !(0xffff_ffff_ffff_ffff_ffff_ffff_ffff_ffffu128 >> s << s))
                    >> s) by (bit_vector)
                    requires
                        s < 128,
                ;
            },
        }
    }
}

/// A network whose prefix is a whole address holds that address and no
/// other.
pub proof fn lemma_full_prefix_is_one_address(addr: IpAddress, other: IpAddress)
    ensures
        same_prefix(addr, other, address_bits(addr.spec_family()) as u8) <==> addr == other,
{
    match (addr, other) {
        (IpAddress::V4(x), IpAddress::V4(y)) => {
            assert(x >> 0u32 == x && y >> 0u32 == y) by (bit_vector);
        },
        (IpAddress::V6(x), IpAddress::V6(y)) => {
            assert(x >> 0u128 == x && y >> 0u128 == y) by (bit_vector);
        },
        _ => {},
    }
}

/// Networks nest: addresses that share a prefix share every shorter one.
pub proof fn lemma_shorter_prefix_holds_more(a: IpAddress, b: IpAddress, len: u8, shorter: u8)
    requires
        same_prefix(a, b, len),
        shorter <= len,
    ensures
        same_prefix(a, b, shorter),
{
    if shorter > 0 {
        match (a, b) {
            (IpAddress::V4(x), IpAddress::V4(y)) => {
                let s: u32 = (32 - len) as u32;
                let t: u32 = (32 - shorter) as u32;
                let d: u32 = (t - s) as u32;
                assert(x >> t == x >> s >> d && y >> t == y >> s >> d) by (bit_vector)
                    requires
                        s <= t < 32,
                        d == t - s,
                ;
            },
            (IpAddress::V6(x), IpAddress::V6(y)) => {
                let s: u128 = (128 - len) as u128;
                let t: u128 = (128 - shorter) as u128;
                let d: nat = (t - s) as nat;
                vstd::bits::lemma_u128_shr_is_div(x, s);
                vstd::bits::lemma_u128_shr_is_div(y, s);
                vstd::bits::lemma_u128_shr_is_div(x, t);
                vstd::bits::lemma_u128_shr_is_div(y, t);
                vstd::arithmetic::power2::lemma_pow2_pos(s as nat);
                vstd::arithmetic::power2::lemma_pow2_pos(d);
                vstd::arithmetic::power2::lemma_pow2_adds(s as nat, d);
                vstd::arithmetic::div_mod::lemma_div_denominator(
                    x as int,
                    pow2(s as nat) as int,
                    pow2(d) as int,
                );
                vstd::arithmetic::div_mod::lemma_div_denominator(
                    y as int,
                    pow2(s as nat) as int,
                    pow2(d) as int,
                );
            },
            _ => {},
        }
    }
}

/// A network: the addresses that share the first `prefix_len` bits of `addr`.
/// The prefix is never longer than an address of the family.
#[derive(Clone, Copy, Debug, PartialEq, Eq, Structural)]
pub struct Subnet {
    addr: IpAddress,
    prefix_len: u8,
}

impl Subnet {
    #[verifier::type_invariant]
    spec fn valid(self) -> bool {
        self.prefix_len <= address_bits(self.addr.spec_family())
    }

    /// The address that the network was written with.
    pub closed spec fn spec_addr(self) -> IpAddress {
        self.addr
    }

    /// The number of leading bits that an address must share.
    pub closed spec fn spec_prefix_len(self) -> u8 {
        self.prefix_len
    }

    /// The family of the network's addresses.
    pub open spec fn spec_family(self) -> Family {
        self.spec_addr().spec_family()
    }

    /// Whether `ip` lies in the network.
    pub open spec fn covers(self, ip: IpAddress) -> bool {
        same_prefix(self.spec_addr(), ip, self.spec_prefix_len())
    }

    /// The network of the addresses that share the first `prefix_len` bits of
    /// `addr`; `None` where the prefix is longer than such an address.
    pub fn new(addr: IpAddress, prefix_len: u8) -> (subnet: Option<Subnet>)
        ensures
            subnet is Some <==> prefix_len <= address_bits(addr.spec_family()),
            subnet matches Some(s) ==> s.spec_addr() == addr && s.spec_prefix_len() == prefix_len,
    {
        let limit: u8 = match addr {
            IpAddress::V4(_) => 32,
            IpAddress::V6(_) => 128,
        };
        if prefix_len <= limit {
            Some(Subnet { addr, prefix_len })
        } else {
            None
        }
    }

    /// The address that the network was written with.
    #[verifier::when_used_as_spec(spec_addr)]
    pub fn addr(self) -> (addr: IpAddress)
        ensures
            addr == self.spec_addr(),
    {
        self.addr
    }

    /// The number of leading bits that an address must share.
    #[verifier::when_used_as_spec(spec_prefix_len)]
    pub fn prefix_len(self) -> (len: u8)
        ensures
            len == self.spec_prefix_len(),
            len <= address_bits(self.spec_family()),
    {
        proof {
            use_type_invariant(&self);
        }
        self.prefix_len
    }

    /// The family of the network's addresses.
    #[verifier::when_used_as_spec(spec_family)]
    pub fn family(self) -> (family: Family)
        ensures
            family == self.spec_family(),
    {
        self.addr.family()
    }

    /// Whether `ip` lies in the network.
    pub fn contains(self, ip: IpAddress) -> (inside: bool)
        ensures
            inside == self.covers(ip),
    {
        proof {
            use_type_invariant(&self);
        }
        match (self.addr, ip) {
            (IpAddress::V4(x), IpAddress::V4(y)) => {
                if self.prefix_len == 0 {
                    true
                } else {
                    let shift: u32 = (32 - self.prefix_len) as u32;
                    x >> shift == y >> shift
                }
            },
            (IpAddress::V6(x), IpAddress::V6(y)) => {
                if self.prefix_len == 0 {
                    true
                } else {
                    let shift: u128 = (128 - self.prefix_len) as u128;
                    x >> shift == y >> shift
                }
            },
            _ => false,
        }
    }
}

/// The networks of `list` that are of `family`, in their order.
pub open spec fn of_family(list: Seq<Subnet>, family: Family) -> Seq<Subnet> {
    list.filter(|s: Subnet| s.spec_family() == family)
}

/// A list of networks of either family.
#[derive(Clone, Debug, PartialEq, Eq)]
pub struct Subnets {
    pub list: Vec<Subnet>,
}

impl View for Subnets {
    type V = Seq<Subnet>;

    open spec fn view(&self) -> Seq<Subnet> {
        self.list@
    }
}

impl Subnets {
    /// The list that holds `list`.
    pub fn new(list: Vec<Subnet>) -> (subnets: Subnets)
        ensures
            subnets@ == list@,
    {
        Subnets { list }
    }

    /// The networks of `family`, in their order.
    pub fn family(&self, family: Family) -> (part: Vec<Subnet>)
        ensures
            part@ == of_family(self@, family),
    {
        let mut part: Vec<Subnet> = Vec::new();
        let mut i: usize = 0;
        proof {
            reveal(Seq::filter);
            assert(self@.take(0) =~= Seq::<Subnet>::empty());
        }
        while i < self.list.len()
            invariant
                i <= self.list.len(),
                part@ == of_family(self@.take(i as int), family),
            decreases self.list.len() - i,
        {
            let subnet = self.list[i];
            proof {
                reveal(Seq::filter);
                assert(self@.take(i + 1).drop_last() =~= self@.take(i as int));
                assert(self@.take(i + 1).last() == subnet);
            }
            if subnet.family() == family {
                part.push(subnet);
            }
            i += 1;
        }
        proof {
            assert(self@.take(i as int) =~= self@);
        }
        part
    }

    /// The IPv4 networks, in their order.
    pub fn ipv4(&self) -> (part: Vec<Subnet>)
        ensures
            part@ == of_family(self@, Family::V4),
    {
        self.family(Family::V4)
    }

    /// The IPv6 networks, in their order.
    pub fn ipv6(&self) -> (part: Vec<Subnet>)
        ensures
            part@ == of_family(self@, Family::V6),
    {
        self.family(Family::V6)
    }
}

} // verus!
