//! Socket addresses as plain numbers, and their text form.
//!
//! An address is written the way an authority names it: `a.b.c.d:port` for
//! IPv4 and `[groups]:port` for IPv6. The groups of an IPv6 address are in
//! lower-case hexadecimal without leading zeros; the longest run of two or
//! more zero groups, the first of them where several are as long, is left
//! out and marked by `::`; and an address that maps an IPv4 address is
//! written `::ffff:a.b.c.d`. A non-zero scope follows the groups as `%` and
//! its decimal number.

use vstd::prelude::*;

verus! {

/// A resolved transport address: an IP address and a port. The IP address is
/// held as its numeric value, the first byte of the address in the highest
/// bits.
#[derive(Clone, Copy, Debug, PartialEq, Eq, Hash, Structural)]
pub enum SocketAddress {
    /// An IPv4 address and port.
    V4 { ip: u32, port: u16 },
    /// An IPv6 address and port, with the flow information and the scope.
    V6 { ip6: u128, port: u16, flowinfo: u32, scope_id: u32 },
}

/// The decimal digits of `n`, without leading zeros.
pub open spec fn decimal(n: nat) -> Seq<u8>
    decreases n,
{
    if n < 10 {
        seq![(48 + n) as u8]
    } else {
        decimal(n / 10).push((48 + n % 10) as u8)
    }
}

/// The lower-case hexadecimal digit of `d`, for `d` below 16.
pub open spec fn hex_digit(d: nat) -> u8 {
    if d < 10 {
        (48 + d) as u8
    } else {
        (87 + d) as u8
    }
}

/// The lower-case hexadecimal digits of `n`, without leading zeros.
pub open spec fn lower_hex(n: nat) -> Seq<u8>
    decreases n,
{
    if n < 16 {
        seq![hex_digit(n)]
    } else {
        lower_hex(n / 16).push(hex_digit(n % 16))
    }
}

/// Byte `k` of an IPv4 address, counted from the first.
pub open spec fn octet(ip: u32, k: nat) -> nat {
    if k == 0 {
        ip as nat / 0x100_0000
    } else if k == 1 {
        (ip as nat / 0x1_0000) % 256
    } else if k == 2 {
        (ip as nat / 0x100) % 256
    } else {
        ip as nat % 256
    }
}

/// The four bytes of an IPv4 address in decimal, with dots between them.
pub open spec fn dotted(ip: u32) -> Seq<u8> {
    decimal(octet(ip, 0)) + seq![46u8] + decimal(octet(ip, 1)) + seq![46u8] + decimal(
        octet(ip, 2),
    ) + seq![46u8] + decimal(octet(ip, 3))
}

/// The value of the lowest bit of group `k` of an IPv6 address.
pub open spec fn group_weight(k: nat) -> nat {
    if k == 0 {
        0x1_0000_0000_0000_0000_0000_0000_0000
    } else if k == 1 {
        0x1_0000_0000_0000_0000_0000_0000
    } else if k == 2 {
        0x1_0000_0000_0000_0000_0000
    } else if k == 3 {
        0x1_0000_0000_0000_0000
    } else if k == 4 {
        0x1_0000_0000_0000
    } else if k == 5 {
        0x1_0000_0000
    } else if k == 6 {
        0x1_0000
    } else {
        1
    }
}

/// Group `k` of an IPv6 address, counted from the first: sixteen bits.
pub open spec fn group(ip: u128, k: nat) -> nat {
    (ip as nat / group_weight(k)) % 0x1_0000
}

/// The groups of an IPv6 address from group `from` up to, but without,
/// group `to`, in hexadecimal with colons between them.
pub open spec fn groups(ip: u128, from: nat, to: nat) -> Seq<u8>
    decreases to,
{
    if to <= from {
        Seq::empty()
    } else if to == from + 1 {
        lower_hex(group(ip, from))
    } else {
        groups(ip, from, (to - 1) as nat) + seq![58u8] + lower_hex(group(ip, (to - 1) as nat))
    }
}

/// How many groups in a row, from group `k` on, are zero.
pub open spec fn zero_run(ip: u128, k: nat) -> nat
    decreases 8 - k,
{
    if k < 8 && group(ip, k) == 0 {
        1 + zero_run(ip, k + 1)
    } else {
        0
    }
}

/// Among the first `count` groups, the first one from which the longest run
/// of zero groups starts.
pub open spec fn longest_run(ip: u128, count: nat) -> nat
    decreases count,
{
    if count <= 1 {
        0
    } else {
        let before = longest_run(ip, (count - 1) as nat);
        if zero_run(ip, (count - 1) as nat) > zero_run(ip, before) {
            (count - 1) as nat
        } else {
            before
        }
    }
}

/// Whether an IPv6 address maps an IPv4 address: its first five groups are
/// zero and its sixth is `ffff`.
pub open spec fn maps_ipv4(ip: u128) -> bool {
    ip as nat / 0x1_0000_0000 == 0xffff
}

/// The text of an IPv6 address.
pub open spec fn ip6_text(ip: u128) -> Seq<u8> {
    let start = longest_run(ip, 8);
    let len = zero_run(ip, start);
    if maps_ipv4(ip) {
        seq![58u8, 58u8, 102u8, 102u8, 102u8, 102u8, 58u8] + dotted(
            (ip as nat % 0x1_0000_0000) as u32,
        )
    } else if len > 1 {
        groups(ip, 0, start) + seq![58u8, 58u8] + groups(ip, start + len, 8)
    } else {
        groups(ip, 0, 8)
    }
}

/// The scope of an IPv6 address as it follows the groups: nothing for scope
/// zero.
pub open spec fn zone(scope_id: u32) -> Seq<u8> {
    if scope_id == 0 {
        Seq::empty()
    } else {
        seq![37u8] + decimal(scope_id as nat)
    }
}

fn push_decimal(buf: &mut Vec<u8>, n: u32)
    ensures
        final(buf)@ == old(buf)@ + decimal(n as nat),
    decreases n,
{
    if n >= 10 {
        push_decimal(buf, n / 10);
    }
    let digit: u8 = 48 + (n % 10) as u8;
    buf.push(digit);
    assert(buf@ =~= old(buf)@ + decimal(n as nat));
}

fn push_lower_hex(buf: &mut Vec<u8>, n: u16)
    ensures
        final(buf)@ == old(buf)@ + lower_hex(n as nat),
    decreases n,
{
    if n >= 16 {
        push_lower_hex(buf, n / 16);
    }
    let d: u8 = (n % 16) as u8;
    let digit: u8 = if d < 10 {
        48 + d
    } else {
        87 + d
    };
    buf.push(digit);
    assert(buf@ =~= old(buf)@ + lower_hex(n as nat));
}

fn octet_of(ip: u32, k: usize) -> (byte: u8)
    requires
        k < 4,
    ensures
        byte == octet(ip, k as nat),
{
    if k == 0 {
        (ip / 0x100_0000) as u8
    } else if k == 1 {
        ((ip / 0x1_0000) % 256) as u8
    } else if k == 2 {
        ((ip / 0x100) % 256) as u8
    } else {
        (ip % 256) as u8
    }
}

fn group_of(ip: u128, k: usize) -> (bits: u16)
    requires
        k < 8,
    ensures
        bits == group(ip, k as nat),
{
    let weight: u128 = if k == 0 {
        0x1_0000_0000_0000_0000_0000_0000_0000
    } else if k == 1 {
        0x1_0000_0000_0000_0000_0000_0000
    } else if k == 2 {
        0x1_0000_0000_0000_0000_0000
    } else if k == 3 {
        0x1_0000_0000_0000_0000
    } else if k == 4 {
        0x1_0000_0000_0000
    } else if k == 5 {
        0x1_0000_0000
    } else if k == 6 {
        0x1_0000
    } else {
        1
    };
    ((ip / weight) % 0x1_0000) as u16
}

fn push_dotted(buf: &mut Vec<u8>, ip: u32)
    ensures
        final(buf)@ == old(buf)@ + dotted(ip),
{
    push_decimal(buf, octet_of(ip, 0) as u32);
    buf.push(46u8);
    push_decimal(buf, octet_of(ip, 1) as u32);
    buf.push(46u8);
    push_decimal(buf, octet_of(ip, 2) as u32);
    buf.push(46u8);
    push_decimal(buf, octet_of(ip, 3) as u32);
    assert(buf@ =~= old(buf)@ + dotted(ip));
}

fn push_groups(buf: &mut Vec<u8>, ip: u128, from: usize, to: usize)
    requires
        from <= to <= 8,
    ensures
        final(buf)@ == old(buf)@ + groups(ip, from as nat, to as nat),
{
    if from == to {
        assert(buf@ =~= old(buf)@ + groups(ip, from as nat, to as nat));
        return ;
    }
    push_lower_hex(buf, group_of(ip, from));
    let mut k: usize = from + 1;
    while k < to
        invariant
            from < k <= to <= 8,
            buf@ == old(buf)@ + groups(ip, from as nat, k as nat),
        decreases to - k,
    {
        buf.push(58u8);
        push_lower_hex(buf, group_of(ip, k));
        assert(buf@ =~= old(buf)@ + groups(ip, from as nat, (k + 1) as nat));
        k += 1;
    }
}

fn zero_run_of(ip: u128, k: usize) -> (n: usize)
    requires
        k <= 8,
    ensures
        n == zero_run(ip, k as nat),
        k + n <= 8,
    decreases 8 - k,
{
    if k < 8 && group_of(ip, k) == 0 {
        1 + zero_run_of(ip, k + 1)
    } else {
        0
    }
}

fn longest_run_of(ip: u128) -> (run: (usize, usize))
    ensures
        run.0 == longest_run(ip, 8),
        run.1 == zero_run(ip, run.0 as nat),
        run.0 + run.1 <= 8,
{
    let mut start: usize = 0;
    let mut len: usize = zero_run_of(ip, 0);
    let mut k: usize = 1;
    while k < 8
        invariant
            1 <= k <= 8,
            start == longest_run(ip, k as nat),
            len == zero_run(ip, start as nat),
            start + len <= 8,
        decreases 8 - k,
    {
        let n = zero_run_of(ip, k);
        if n > len {
            start = k;
            len = n;
        }
        k += 1;
    }
    (start, len)
}

fn push_ip6(buf: &mut Vec<u8>, ip: u128)
    ensures
        final(buf)@ == old(buf)@ + ip6_text(ip),
{
    if ip / 0x1_0000_0000 == 0xffff {
        buf.push(58u8);
        buf.push(58u8);
        buf.push(102u8);
        buf.push(102u8);
        buf.push(102u8);
        buf.push(102u8);
        buf.push(58u8);
        push_dotted(buf, (ip % 0x1_0000_0000) as u32);
    } else {
        let (start, len) = longest_run_of(ip);
        if len > 1 {
            push_groups(buf, ip, 0, start);
            buf.push(58u8);
            buf.push(58u8);
            push_groups(buf, ip, start + len, 8);
        } else {
            push_groups(buf, ip, 0, 8);
        }
    }
    assert(buf@ =~= old(buf)@ + ip6_text(ip));
}

impl SocketAddress {
    /// The port of the address.
    pub open spec fn port_of(self) -> u16 {
        match self {
            SocketAddress::V4 { port, .. } => port,
            SocketAddress::V6 { port, .. } => port,
        }
    }

    /// The address as an authority names it, `host:port`.
    pub open spec fn rendered(self) -> Seq<u8> {
        match self {
            SocketAddress::V4 { ip, port } => dotted(ip) + seq![58u8] + decimal(port as nat),
            SocketAddress::V6 { ip6, port, scope_id, .. } => seq![91u8] + ip6_text(ip6) + zone(
                scope_id,
            ) + seq![93u8, 58u8] + decimal(port as nat),
        }
    }

    /// The port of the address.
    pub fn port(&self) -> (port: u16)
        ensures
            port == self.port_of(),
    {
        match self {
            SocketAddress::V4 { port, .. } => *port,
            SocketAddress::V6 { port, .. } => *port,
        }
    }

    /// Writes the address as an authority names it, `host:port`, in ASCII.
    pub fn render(&self) -> (bytes: Vec<u8>)
        ensures
            bytes@ == self.rendered(),
    {
        let mut bytes: Vec<u8> = Vec::new();
        match self {
            SocketAddress::V4 { ip, port } => {
                push_dotted(&mut bytes, *ip);
                bytes.push(58u8);
                push_decimal(&mut bytes, *port as u32);
            },
            SocketAddress::V6 { ip6, port, scope_id, .. } => {
                bytes.push(91u8);
                push_ip6(&mut bytes, *ip6);
                if *scope_id != 0 {
                    bytes.push(37u8);
                    push_decimal(&mut bytes, *scope_id);
                }
                bytes.push(93u8);
                bytes.push(58u8);
                push_decimal(&mut bytes, *port as u32);
            },
        }
        assert(bytes@ =~= self.rendered());
        bytes
    }
}

} // verus!
