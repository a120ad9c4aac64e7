//! Addresses as text: the host that is named to the proxy, and the address
//! that is named to the tunnel process.
//!
//! An IPv4 address is written as four decimal numbers with dots between them.
//! An IPv6 address is written as eight hexadecimal groups with colons between
//! them, with the leftmost of its longest runs of two or more zero groups
//! written as `::`; an address that embeds an IPv4 one behind `::ffff:` shows
//! it in dotted form.

use vstd::prelude::*;
use crate::network::{IpAddress, SocketAddress};

verus! {

/// The character of a digit below sixteen.
pub open spec fn digit(d: int) -> char {
    seq![
        '0',
        '1',
        '2',
        '3',
        '4',
        '5',
        '6',
        '7',
        '8',
        '9',
        'a',
        'b',
        'c',
        'd',
        'e',
        'f',
    ][d]
}

/// A number in decimal, without leading zeros.
pub open spec fn decimal(n: nat) -> Seq<char>
    decreases n,
{
    if n < 10 {
        seq![digit(n as int)]
    } else {
        decimal(n / 10).push(digit((n % 10) as int))
    }
}

/// A number in hexadecimal, in lower case and without leading zeros.
pub open spec fn hexadecimal(n: nat) -> Seq<char>
    decreases n,
{
    if n < 16 {
        seq![digit(n as int)]
    } else {
        hexadecimal(n / 16).push(digit((n % 16) as int))
    }
}

/// The four bytes of an IPv4 address, first byte first.
pub open spec fn octets(n: u32) -> Seq<u8> {
    seq![
        (n / 0x100_0000) as u8,
        (n / 0x1_0000 % 0x100) as u8,
        (n / 0x100 % 0x100) as u8,
        (n % 0x100) as u8,
    ]
}

/// The eight groups of an IPv6 address, first group first.
pub open spec fn groups(n: u128) -> Seq<u16> {
    seq![
        (n / 0x1_0000_0000_0000_0000_0000_0000_0000) as u16,
        (n / 0x1_0000_0000_0000_0000_0000_0000 % 0x1_0000) as u16,
        (n / 0x1_0000_0000_0000_0000_0000 % 0x1_0000) as u16,
        (n / 0x1_0000_0000_0000_0000 % 0x1_0000) as u16,
        (n / 0x1_0000_0000_0000 % 0x1_0000) as u16,
        (n / 0x1_0000_0000 % 0x1_0000) as u16,
        (n / 0x1_0000 % 0x1_0000) as u16,
        (n % 0x1_0000) as u16,
    ]
}

/// An IPv4 address in dotted form.
pub open spec fn ipv4_text(n: u32) -> Seq<char> {
    let o = octets(n);
    decimal(o[0] as nat) + seq!['.'] + decimal(o[1] as nat) + seq!['.'] + decimal(o[2] as nat)
        + seq!['.'] + decimal(o[3] as nat)
}

/// Groups in hexadecimal with colons between them.
pub open spec fn hex_groups(g: Seq<u16>) -> Seq<char>
    decreases g.len(),
{
    if g.len() == 0 {
        Seq::empty()
    } else if g.len() == 1 {
        hexadecimal(g[0] as nat)
    } else {
        hex_groups(g.drop_last()) + seq![':'] + hexadecimal(g.last() as nat)
    }
}

/// The number of zero groups in a row from position `start` on.
pub open spec fn zero_run(g: Seq<u16>, start: int) -> int
    decreases g.len() - start,
{
    if start < 0 || start >= g.len() || g[start] != 0 {
        0
    } else {
        1 + zero_run(g, start + 1)
    }
}

/// Whether the run of zero groups that is written as `::` starts at `start`:
/// it has two groups or more, no run is longer, and no run as long starts
/// further left.
pub open spec fn is_elided_run(g: Seq<u16>, start: int) -> bool {
    &&& 0 <= start < g.len()
    &&& zero_run(g, start) >= 2
    &&& forall|s: int| 0 <= s < g.len() ==> zero_run(g, s) <= zero_run(g, start)
    &&& forall|s: int| 0 <= s < start ==> zero_run(g, s) < zero_run(g, start)
}

/// Whether the groups are those of an address that embeds an IPv4 address:
/// five zero groups and one of all ones before the last two.
pub open spec fn embeds_v4(g: Seq<u16>) -> bool {
    g[0] == 0 && g[1] == 0 && g[2] == 0 && g[3] == 0 && g[4] == 0 && g[5] == 0xffff
}

/// An IPv6 address as text.
pub open spec fn ipv6_text(n: u128) -> Seq<char> {
    let g = groups(n);
    if embeds_v4(g) {
        seq![':', ':', 'f', 'f', 'f', 'f', ':'] + ipv4_text((n % 0x1_0000_0000) as u32)
    } else if exists|start: int| is_elided_run(g, start) {
        let start = choose|start: int| is_elided_run(g, start);
        hex_groups(g.take(start)) + seq![':', ':'] + hex_groups(
            g.skip(start + zero_run(g, start)),
        )
    } else {
        hex_groups(g)
    }
}

/// An address as text.
pub open spec fn ip_text(ip: IpAddress) -> Seq<char> {
    match ip {
        IpAddress::V4(n) => ipv4_text(n),
        IpAddress::V6(n) => ipv6_text(n),
    }
}

/// The scope of an IPv6 socket address as text: nothing where it is zero,
/// else `%` and the number.
pub open spec fn scope_text(scope_id: u32) -> Seq<char> {
    if scope_id == 0 {
        Seq::empty()
    } else {
        seq!['%'] + decimal(scope_id as nat)
    }
}

/// An address and a port as text: `address:port`, with the address in square
/// brackets where it is an IPv6 address, followed inside them by its scope.
pub open spec fn socket_text(addr: SocketAddress) -> Seq<char> {
    match addr.ip {
        IpAddress::V4(n) => ipv4_text(n) + seq![':'] + decimal(addr.port as nat),
        IpAddress::V6(n) => seq!['['] + ipv6_text(n) + scope_text(addr.scope_id) + seq![']', ':']
            + decimal(addr.port as nat),
    }
}

/// Appends the character of a digit.
fn push_digit(text: &mut String, d: u8)
    requires
        d < 16,
    ensures
        final(text)@ == old(text)@.push(digit(d as int)),
{
    proof {
        reveal_strlit("0");
        reveal_strlit("1");
        reveal_strlit("2");
        reveal_strlit("3");
        reveal_strlit("4");
        reveal_strlit("5");
        reveal_strlit("6");
        reveal_strlit("7");
        reveal_strlit("8");
        reveal_strlit("9");
        reveal_strlit("a");
        reveal_strlit("b");
        reveal_strlit("c");
        reveal_strlit("d");
        reveal_strlit("e");
        reveal_strlit("f");
    }
    let s: &str = match d {
        0 => "0",
        1 => "1",
        2 => "2",
        3 => "3",
        4 => "4",
        5 => "5",
        6 => "6",
        7 => "7",
        8 => "8",
        9 => "9",
        10 => "a",
        11 => "b",
        12 => "c",
        13 => "d",
        14 => "e",
        _ => "f",
    };
    assert(s@ =~= seq![digit(d as int)]);
    text.append(s);
    assert(text@ =~= old(text)@.push(digit(d as int)));
}

/// Appends a number in decimal.
fn push_decimal(text: &mut String, n: u32)
    ensures
        final(text)@ == old(text)@ + decimal(n as nat),
    decreases n,
{
    if n >= 10 {
        push_decimal(text, n / 10);
    }
    push_digit(text, (n % 10) as u8);
    assert(text@ =~= old(text)@ + decimal(n as nat));
}

/// Appends a number in hexadecimal.
fn push_hexadecimal(text: &mut String, n: u32)
    ensures
        final(text)@ == old(text)@ + hexadecimal(n as nat),
    decreases n,
{
    if n >= 16 {
        push_hexadecimal(text, n / 16);
    }
    push_digit(text, (n % 16) as u8);
    assert(text@ =~= old(text)@ + hexadecimal(n as nat));
}

/// Appends an IPv4 address in dotted form.
fn push_ipv4(text: &mut String, n: u32)
    ensures
        final(text)@ == old(text)@ + ipv4_text(n),
{
    proof {
        reveal_strlit(".");
    }
    let a: u32 = n / 0x100_0000;
    let b: u32 = n / 0x1_0000 % 0x100;
    let c: u32 = n / 0x100 % 0x100;
    let d: u32 = n % 0x100;
    push_decimal(text, a);
    text.append(".");
    push_decimal(text, b);
    text.append(".");
    push_decimal(text, c);
    text.append(".");
    push_decimal(text, d);
    assert("."@ =~= seq!['.']);
    assert(text@ =~= old(text)@ + ipv4_text(n));
}

/// Appends the groups from position `from` up to `to` in hexadecimal, with
/// colons between them.
fn push_hex_groups(text: &mut String, g: &[u16; 8], from: usize, to: usize)
    requires
        from <= to <= 8,
    ensures
        final(text)@ == old(text)@ + hex_groups(g@.subrange(from as int, to as int)),
{
    proof {
        assert(g@.subrange(from as int, from as int) =~= Seq::<u16>::empty());
        assert(text@ =~= text@ + Seq::<char>::empty());
    }
    let ghost start = text@;
    let mut i: usize = from;
    while i < to
        invariant
            from <= i <= to <= 8,
            text@ == start + hex_groups(g@.subrange(from as int, i as int)),
        decreases to - i,
    {
        let ghost before = g@.subrange(from as int, i as int);
        let ghost after = g@.subrange(from as int, i + 1);
        proof {
            assert(after.drop_last() =~= before);
            assert(after.last() == g@[i as int]);
        }
        if i > from {
            text.append(":");
        }
        push_hexadecimal(text, g[i] as u32);
        proof {
            reveal_strlit(":");
            assert(":"@ =~= seq![':']);
            if i > from {
                assert(text@ =~= start + (hex_groups(before) + seq![':'] + hexadecimal(
                    g@[i as int] as nat,
                )));
            } else {
                assert(hex_groups(before) =~= Seq::<char>::empty());
                assert(after[0] == g@[i as int]);
                assert(text@ =~= start + hexadecimal(g@[i as int] as nat));
            }
        }
        i += 1;
    }
}

/// The number of zero groups in a row from position `start` on.
fn zero_run_at(g: &[u16; 8], start: usize) -> (n: usize)
    requires
        start <= 8,
    ensures
        n == zero_run(g@, start as int),
        start + n <= 8,
{
    let mut j: usize = start;
    while j < 8 && g[j] == 0
        invariant
            start <= j <= 8,
            zero_run(g@, start as int) == (j - start) + zero_run(g@, j as int),
        decreases 8 - j,
    {
        j += 1;
    }
    j - start
}

/// The run of zero groups that is written as `::`, as its start and its
/// length; `None` where no run has two groups.
fn elided_run(g: &[u16; 8]) -> (run: Option<(usize, usize)>)
    ensures
        match run {
            Some((start, len)) => is_elided_run(g@, start as int) && len == zero_run(
                g@,
                start as int,
            ) && start + len <= 8,
            None => forall|s: int| !is_elided_run(g@, s),
        },
{
    let mut best_start: usize = 0;
    let mut best_len: usize = 0;
    let mut i: usize = 0;
    while i < 8
        invariant
            i <= 8,
            best_start + best_len <= 8,
            forall|s: int| 0 <= s < i ==> zero_run(g@, s) <= best_len,
            best_len > 0 ==> best_start < i && zero_run(g@, best_start as int) == best_len
                && forall|s: int| 0 <= s < best_start ==> zero_run(g@, s) < best_len,
        decreases 8 - i,
    {
        let n = zero_run_at(g, i);
        if n > best_len {
            best_start = i;
            best_len = n;
        }
        i += 1;
    }
    if best_len >= 2 {
        Some((best_start, best_len))
    } else {
        None
    }
}

/// No two runs are both the one written as `::`.
proof fn lemma_elided_run_unique(g: Seq<u16>, a: int, b: int)
    requires
        is_elided_run(g, a),
        is_elided_run(g, b),
    ensures
        a == b,
{
}

/// Appends an IPv6 address.
fn push_ipv6(text: &mut String, n: u128)
    ensures
        final(text)@ == old(text)@ + ipv6_text(n),
{
    let g: [u16; 8] = [
        (n / 0x1_0000_0000_0000_0000_0000_0000_0000) as u16,
        (n / 0x1_0000_0000_0000_0000_0000_0000 % 0x1_0000) as u16,
        (n / 0x1_0000_0000_0000_0000_0000 % 0x1_0000) as u16,
        (n / 0x1_0000_0000_0000_0000 % 0x1_0000) as u16,
        (n / 0x1_0000_0000_0000 % 0x1_0000) as u16,
        (n / 0x1_0000_0000 % 0x1_0000) as u16,
        (n / 0x1_0000 % 0x1_0000) as u16,
        (n % 0x1_0000) as u16,
    ];
    assert(g@ =~= groups(n));
    if g[0] == 0 && g[1] == 0 && g[2] == 0 && g[3] == 0 && g[4] == 0 && g[5] == 0xffff {
        proof {
            reveal_strlit("::ffff:");
            assert("::ffff:"@ =~= seq![':', ':', 'f', 'f', 'f', 'f', ':']);
        }
        text.append("::ffff:");
        push_ipv4(text, (n % 0x1_0000_0000) as u32);
        assert(text@ =~= old(text)@ + ipv6_text(n));
    } else {
        match elided_run(&g) {
            Some((start, len)) => {
                proof {
                    reveal_strlit("::");
                    assert("::"@ =~= seq![':', ':']);
                    let chosen = choose|s: int| is_elided_run(g@, s);
                    lemma_elided_run_unique(g@, start as int, chosen);
                    assert(g@.take(start as int) =~= g@.subrange(0, start as int));
                    assert(g@.skip(start + len) =~= g@.subrange(start + len, 8));
                }
                push_hex_groups(text, &g, 0, start);
                text.append("::");
                push_hex_groups(text, &g, start + len, 8);
                assert(text@ =~= old(text)@ + ipv6_text(n));
            },
            None => {
                proof {
                    assert(g@.subrange(0, 8) =~= g@);
                }
                push_hex_groups(text, &g, 0, 8);
            },
        }
    }
}

impl IpAddress {
    /// The address as text.
    pub fn to_text(&self) -> (text: String)
        ensures
            text@ == ip_text(*self),
    {
        let mut text = String::new();
        match *self {
            IpAddress::V4(n) => push_ipv4(&mut text, n),
            IpAddress::V6(n) => push_ipv6(&mut text, n),
        }
        assert(text@ =~= ip_text(*self));
        text
    }
}

impl SocketAddress {
    /// The address and the port as text.
    pub fn to_text(&self) -> (text: String)
        ensures
            text@ == socket_text(*self),
    {
        proof {
            reveal_strlit(":");
            reveal_strlit("[");
            reveal_strlit("]:");
            reveal_strlit("%");
            assert("%"@ =~= seq!['%']);
            assert(":"@ =~= seq![':']);
            assert("["@ =~= seq!['[']);
            assert("]:"@ =~= seq![']', ':']);
        }
        let mut text = String::new();
        match self.ip {
            IpAddress::V4(n) => {
                push_ipv4(&mut text, n);
                text.append(":");
            },
            IpAddress::V6(n) => {
                text.append("[");
                push_ipv6(&mut text, n);
                if self.scope_id != 0 {
                    text.append("%");
                    push_decimal(&mut text, self.scope_id);
                }
                text.append("]:");
            },
        }
        push_decimal(&mut text, self.port as u32);
        assert(text@ =~= socket_text(*self));
        text
    }
}

} // verus!
