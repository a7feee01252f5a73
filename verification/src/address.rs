//! Address literals: how an IP address, and an IP address with a port, is
//! written, read from the left as a grammar.

pub mod laws;

use vstd::prelude::*;
use vstd::string::*;
use crate::text::{
    chars_of, decimal_text, decimal_u16, decimal_upto, decimal_value, digits_end, hex_end,
    hex_text, hex_value, is_digit, lemma_decimal_text, lemma_digits_end, lemma_digits_end_at,
    lemma_hex_end, lemma_port_reads_back, push_decimal, push_hex, read_decimal,
    read_decimal_u16, read_hex, scan_digits, scan_hex,
};

verus! {

/// An IP address.
#[derive(Debug, Clone, Copy, PartialEq, Eq, Structural)]
pub enum IpAddress {
    /// The four bytes of a version 4 address, first byte first.
    V4(u8, u8, u8, u8),
    /// The eight groups of a version 6 address, first group first.
    V6(u16, u16, u16, u16, u16, u16, u16, u16),
}

/// An IP address together with a port.
#[derive(Debug, Clone, Copy, PartialEq, Eq, Structural)]
pub struct SocketAddress {
    /// The address.
    pub ip: IpAddress,
    /// The port.
    pub port: u16,
    /// The scope of a version 6 address; zero where none is given.
    pub scope_id: u32,
}

/// One byte of a dotted address, read at `i`: all the digits found there,
/// which are one to three, start with no zero unless the zero stands alone,
/// and write at most 255. Gives the byte and the index after it.
pub open spec fn octet_at(s: Seq<char>, i: int) -> Option<(u8, int)> {
    let e = digits_end(s, i);
    let t = s.subrange(i, e);
    if 0 <= i <= s.len() && 1 <= e - i <= 3 && (e - i > 1 ==> s[i] != '0') && decimal_value(t)
        <= 255 {
        Some((decimal_value(t) as u8, e))
    } else {
        None
    }
}

/// A dot at `i`, then one byte.
pub open spec fn dot_octet_at(s: Seq<char>, i: int) -> Option<(u8, int)> {
    if 0 <= i < s.len() && s[i] == '.' {
        octet_at(s, i + 1)
    } else {
        None
    }
}

/// Four bytes with dots between them, read at `i`. Gives the address and the
/// index after it.
pub open spec fn ipv4_at(s: Seq<char>, i: int) -> Option<(IpAddress, int)> {
    match octet_at(s, i) {
        Some((a, i1)) => match dot_octet_at(s, i1) {
            Some((b, i2)) => match dot_octet_at(s, i2) {
                Some((c, i3)) => match dot_octet_at(s, i3) {
                    Some((d, i4)) => Some((IpAddress::V4(a, b, c, d), i4)),
                    None => None,
                },
                None => None,
            },
            None => None,
        },
        None => None,
    }
}

/// One group of a version 6 address, read at `i`: all the hexadecimal
/// digits found there, which are one to four. Gives the group and the index
/// after it.
pub open spec fn group_at(s: Seq<char>, i: int) -> Option<(u16, int)> {
    let e = hex_end(s, i);
    if 0 <= i <= s.len() && 1 <= e - i <= 4 {
        Some((hex_value(s.subrange(i, e)) as u16, e))
    } else {
        None
    }
}

/// The two groups that a dotted address fills at the end of a version 6
/// address.
pub open spec fn dotted_groups(ip: IpAddress) -> Seq<u16> {
    match ip {
        IpAddress::V4(a, b, c, d) => seq![(a * 256 + b) as u16, (c * 256 + d) as u16],
        _ => Seq::empty(),
    }
}

/// The groups read at `pos`, of which `i` were read before and `limit` can
/// be read in all: groups with colons between them, where a dotted address
/// can stand for the last two. Reading stops before what is no group. Gives
/// the groups, the index after them, and whether a dotted address ended
/// them.
pub open spec fn groups_at(s: Seq<char>, pos: int, i: int, limit: int) -> (Seq<u16>, int, bool)
    decreases limit - i,
{
    if i >= limit {
        (Seq::empty(), pos, false)
    } else {
        let separated = i == 0 || (0 <= pos < s.len() && s[pos] == ':');
        let start = if i == 0 {
            pos
        } else {
            pos + 1
        };
        if !separated {
            (Seq::empty(), pos, false)
        } else {
            let dotted = if i < limit - 1 {
                ipv4_at(s, start)
            } else {
                None
            };
            match dotted {
                Some((ip, e)) => (dotted_groups(ip), e, true),
                None => match group_at(s, start) {
                    Some((g, e)) => {
                        let rest = groups_at(s, e, i + 1, limit);
                        (seq![g] + rest.0, rest.1, rest.2)
                    },
                    None => (Seq::empty(), pos, false),
                },
            }
        }
    }
}

/// `n` groups of zero.
pub open spec fn zero_groups(n: int) -> Seq<u16> {
    Seq::new(n as nat, |k: int| 0u16)
}

/// The address of eight groups.
pub open spec fn from_groups(gs: Seq<u16>) -> IpAddress {
    IpAddress::V6(gs[0], gs[1], gs[2], gs[3], gs[4], gs[5], gs[6], gs[7])
}

/// A version 6 address, read at `pos`: eight groups, or fewer groups with
/// one double colon among them, before them or after them, which stands for
/// the groups of zero that are missing, at least one. A dotted address
/// cannot stand before the double colon.
pub open spec fn ipv6_at(s: Seq<char>, pos: int) -> Option<(IpAddress, int)> {
    let head = groups_at(s, pos, 0, 8);
    if head.0.len() == 8 {
        Some((from_groups(head.0), head.1))
    } else if head.2 {
        None
    } else if 0 <= head.1 && head.1 + 1 < s.len() && s[head.1] == ':' && s[head.1 + 1] == ':' {
        let tail = groups_at(s, head.1 + 2, 0, 7 - head.0.len());
        Some(
            (
                from_groups(head.0 + zero_groups(8 - head.0.len() - tail.0.len()) + tail.0),
                tail.1,
            ),
        )
    } else {
        None
    }
}

/// The address that the whole of `s` writes, if it writes one: a dotted
/// address, or else a version 6 address.
pub open spec fn parse_ip_spec(s: Seq<char>) -> Option<IpAddress> {
    let read = match ipv4_at(s, 0) {
        Some(found) => Some(found),
        None => ipv6_at(s, 0),
    };
    match read {
        Some((ip, e)) => if e == s.len() {
            Some(ip)
        } else {
            None
        },
        None => None,
    }
}

/// The port that ends `s` after the index `e`: a colon, then nothing but
/// the digits of a number of sixteen bits.
pub open spec fn port_after(s: Seq<char>, e: int) -> Option<u16> {
    if 0 <= e < s.len() && s[e] == ':' {
        decimal_u16(s.subrange(e + 1, s.len() as int))
    } else {
        None
    }
}

/// The scope read at `e`: a percent sign, then all the digits found there,
/// which write a number of thirty-two bits. Gives the scope and the index
/// after it.
pub open spec fn scope_at(s: Seq<char>, e: int) -> Option<(u32, int)> {
    if 0 <= e < s.len() && s[e] == '%' {
        let d = digits_end(s, e + 1);
        match decimal_upto(s.subrange(e + 1, d), 0xffff_ffff) {
            Some(n) => Some((n as u32, d)),
            None => None,
        }
    } else {
        None
    }
}

/// A version 6 address in square brackets at the start of `s`, with a scope
/// after it where one is given. Gives the address, the scope, and the index
/// after the closing bracket.
pub open spec fn bracketed_at(s: Seq<char>) -> Option<(IpAddress, u32, int)> {
    if s.len() > 0 && s[0] == '[' {
        match ipv6_at(s, 1) {
            Some((ip, e)) => {
                let scoped = match scope_at(s, e) {
                    Some(found) => found,
                    None => (0u32, e),
                };
                if 0 <= scoped.1 < s.len() && s[scoped.1] == ']' {
                    Some((ip, scoped.0, scoped.1 + 1))
                } else {
                    None
                }
            },
            None => None,
        }
    } else {
        None
    }
}

/// The address and port that the whole of `s` writes, if it writes them: a
/// dotted address, a colon and a port; or else a version 6 address in
/// square brackets, a colon and a port.
pub open spec fn parse_socket_spec(s: Seq<char>) -> Option<SocketAddress> {
    match ipv4_at(s, 0) {
        Some((ip, e)) => match port_after(s, e) {
            Some(port) => Some(SocketAddress { ip, port, scope_id: 0 }),
            None => None,
        },
        None => match bracketed_at(s) {
            Some((ip, scope_id, e)) => match port_after(s, e) {
                Some(port) => Some(SocketAddress { ip, port, scope_id }),
                None => None,
            },
            None => None,
        },
    }
}

/// The groups of a version 6 address, first group first.
pub open spec fn groups_of(ip: IpAddress) -> Seq<u16> {
    match ip {
        IpAddress::V6(a, b, c, d, e, f, g, h) => seq![a, b, c, d, e, f, g, h],
        _ => Seq::empty(),
    }
}

/// How groups are written one after the other: in hexadecimal, with colons
/// between them.
pub open spec fn groups_text(gs: Seq<u16>) -> Seq<char>
    decreases gs.len(),
{
    if gs.len() == 0 {
        Seq::empty()
    } else if gs.len() == 1 {
        hex_text(gs[0] as nat)
    } else {
        groups_text(gs.drop_last()).push(':') + hex_text(gs.last() as nat)
    }
}

/// The `len` groups from `start` on are there and are zero.
pub open spec fn all_zero(gs: Seq<u16>, start: int, len: int) -> bool {
    &&& 0 <= start
    &&& start + len <= gs.len()
    &&& forall|k: int| start <= k < start + len ==> gs[k] == 0
}

/// The first index from `start` on at which `len` groups of zero begin.
pub open spec fn zero_run_from(gs: Seq<u16>, len: int, start: int) -> Option<int>
    decreases gs.len() - start,
{
    if start < 0 || start + len > gs.len() {
        None
    } else if all_zero(gs, start, len) {
        Some(start)
    } else {
        zero_run_from(gs, len, start + 1)
    }
}

/// The longest run of groups of zero that is no longer than `len` and no
/// shorter than two; of several, the first. Gives its start and its
/// length.
pub open spec fn longest_zero_run(gs: Seq<u16>, len: int) -> Option<(int, int)>
    decreases len,
{
    if len < 2 {
        None
    } else {
        match zero_run_from(gs, len, 0) {
            Some(start) => Some((start, len)),
            None => longest_zero_run(gs, len - 1),
        }
    }
}

/// The dotted address that a version 6 address maps, where its first five
/// groups are zero and its sixth is `ffff`.
pub open spec fn mapped_v4(gs: Seq<u16>) -> Option<IpAddress> {
    if gs.len() == 8 && gs[0] == 0 && gs[1] == 0 && gs[2] == 0 && gs[3] == 0 && gs[4] == 0
        && gs[5] == 0xffff {
        Some(
            IpAddress::V4(
                (gs[6] / 256) as u8,
                (gs[6] % 256) as u8,
                (gs[7] / 256) as u8,
                (gs[7] % 256) as u8,
            ),
        )
    } else {
        None
    }
}

/// How a dotted address is written.
pub open spec fn dotted_text(a: u8, b: u8, c: u8, d: u8) -> Seq<char> {
    decimal_text(a as nat).push('.') + decimal_text(b as nat).push('.') + decimal_text(
        c as nat,
    ).push('.') + decimal_text(d as nat)
}

/// How the groups of a version 6 address are written: a mapped dotted
/// address after `::ffff:`; else the groups, with a double colon in place
/// of the longest run of two or more groups of zero.
#[verifier::opaque]
pub open spec fn v6_text(gs: Seq<u16>) -> Seq<char> {
    match mapped_v4(gs) {
        Some(IpAddress::V4(a, b, c, d)) => "::ffff:"@ + dotted_text(a, b, c, d),
        _ => match longest_zero_run(gs, 8) {
            Some((start, len)) => groups_text(gs.take(start)) + "::"@ + groups_text(
                gs.skip(start + len),
            ),
            None => groups_text(gs),
        },
    }
}

/// How an address is written.
pub open spec fn ip_text(ip: IpAddress) -> Seq<char> {
    match ip {
        IpAddress::V4(a, b, c, d) => dotted_text(a, b, c, d),
        IpAddress::V6(..) => v6_text(groups_of(ip)),
    }
}

/// How an address with a port is written: a dotted address, a colon and the
/// port; a version 6 address in square brackets, with its scope after a
/// percent sign where the scope is not zero.
pub open spec fn socket_text(addr: SocketAddress) -> Seq<char> {
    match addr.ip {
        IpAddress::V4(..) => ip_text(addr.ip).push(':') + decimal_text(addr.port as nat),
        IpAddress::V6(..) => if addr.scope_id == 0 {
            seq!['['] + ip_text(addr.ip) + "]:"@ + decimal_text(addr.port as nat)
        } else {
            seq!['['] + ip_text(addr.ip) + seq!['%'] + decimal_text(addr.scope_id as nat) + "]:"@
                + decimal_text(addr.port as nat)
        },
    }
}

/// Reads one byte of a dotted address at `i`.
pub fn read_octet(v: &Vec<char>, i: usize) -> (r: Option<(u8, usize)>)
    requires
        i <= v.len(),
    ensures
        match octet_at(v@, i as int) {
            Some((x, e)) => r == Some((x, e as usize)) && i < e <= v.len(),
            None => r is None,
        },
{
    let e: usize = scan_digits(v, i);
    proof {
        lemma_digits_end(v@, i as int);
    }
    if e == i || e - i > 3 {
        return None;
    }
    if e - i > 1 && v[i] == '0' {
        return None;
    }
    match read_decimal_u16(v, i, e) {
        Some(x) => if x <= 255 {
            Some((x as u8, e))
        } else {
            None
        },
        None => None,
    }
}

/// Reads a dot and one byte of a dotted address at `i`.
pub fn read_dot_octet(v: &Vec<char>, i: usize) -> (r: Option<(u8, usize)>)
    requires
        i <= v.len(),
    ensures
        match dot_octet_at(v@, i as int) {
            Some((x, e)) => r == Some((x, e as usize)) && i < e <= v.len(),
            None => r is None,
        },
{
    if i < v.len() && v[i] == '.' {
        read_octet(v, i + 1)
    } else {
        None
    }
}

/// Reads a dotted address at `i`.
pub fn read_ipv4(v: &Vec<char>, i: usize) -> (r: Option<(IpAddress, usize)>)
    requires
        i <= v.len(),
    ensures
        match ipv4_at(v@, i as int) {
            Some((ip, e)) => r == Some((ip, e as usize)) && i < e <= v.len(),
            None => r is None,
        },
{
    let (a, i1) = match read_octet(v, i) {
        Some(x) => x,
        None => { return None; },
    };
    let (b, i2) = match read_dot_octet(v, i1) {
        Some(x) => x,
        None => { return None; },
    };
    let (c, i3) = match read_dot_octet(v, i2) {
        Some(x) => x,
        None => { return None; },
    };
    let (d, i4) = match read_dot_octet(v, i3) {
        Some(x) => x,
        None => { return None; },
    };
    Some((IpAddress::V4(a, b, c, d), i4))
}

/// Reads one group of a version 6 address at `i`.
pub fn read_group(v: &Vec<char>, i: usize) -> (r: Option<(u16, usize)>)
    requires
        i <= v.len(),
    ensures
        match group_at(v@, i as int) {
            Some((g, e)) => r == Some((g, e as usize)) && i < e <= v.len(),
            None => r is None,
        },
{
    let e: usize = scan_hex(v, i);
    proof {
        lemma_hex_end(v@, i as int);
    }
    if e == i || e - i > 4 {
        return None;
    }
    Some((read_hex(v, i, e), e))
}

/// Reads groups at `pos`, of which `i` were read before and `limit` can be
/// read in all, and appends them to `out`. Gives the index after them and
/// whether a dotted address ended them.
#[verifier::rlimit(40)]
pub fn read_groups(v: &Vec<char>, pos: usize, i: usize, limit: usize, out: &mut Vec<u16>) -> (r: (
    usize,
    bool,
))
    requires
        pos <= v.len(),
        i <= limit <= 8,
    ensures
        final(out)@ == old(out)@ + groups_at(v@, pos as int, i as int, limit as int).0,
        r.0 == groups_at(v@, pos as int, i as int, limit as int).1,
        r.1 == groups_at(v@, pos as int, i as int, limit as int).2,
        pos <= r.0 <= v.len(),
        groups_at(v@, pos as int, i as int, limit as int).0.len() <= limit - i,
    decreases limit - i,
{
    assert(old(out)@ + Seq::<u16>::empty() =~= old(out)@);
    if i >= limit {
        return (pos, false);
    }
    if i > 0 && !(pos < v.len() && v[pos] == ':') {
        return (pos, false);
    }
    let start: usize = if i == 0 {
        pos
    } else {
        pos + 1
    };
    if i < limit - 1 {
        if let Some((ip, e)) = read_ipv4(v, start) {
            match ip {
                IpAddress::V4(a, b, c, d) => {
                    out.push((a as u16) * 256 + (b as u16));
                    out.push((c as u16) * 256 + (d as u16));
                    assert(out@ =~= old(out)@ + dotted_groups(ip));
                },
                _ => {},
            }
            return (e, true);
        }
    }
    match read_group(v, start) {
        Some((g, e)) => {
            out.push(g);
            let r = read_groups(v, e, i + 1, limit, out);
            proof {
                let rest = groups_at(v@, e as int, i + 1, limit as int);
                assert(out@ =~= old(out)@ + (seq![g] + rest.0));
            }
            r
        },
        None => (pos, false),
    }
}

/// Reads a version 6 address at `pos`.
#[verifier::rlimit(40)]
pub fn read_ipv6(v: &Vec<char>, pos: usize) -> (r: Option<(IpAddress, usize)>)
    requires
        pos <= v.len(),
    ensures
        match ipv6_at(v@, pos as int) {
            Some((ip, e)) => r == Some((ip, e as usize)) && pos <= e <= v.len(),
            None => r is None,
        },
{
    let mut gs: Vec<u16> = Vec::new();
    let (p1, dotted) = read_groups(v, pos, 0, 8, &mut gs);
    let ghost head = groups_at(v@, pos as int, 0, 8).0;
    assert(gs@ =~= head);
    let mut end: usize = p1;
    if gs.len() < 8 {
        if dotted {
            return None;
        }
        if !(p1 < v.len() && v[p1] == ':' && p1 + 1 < v.len() && v[p1 + 1] == ':') {
            return None;
        }
        let mut tail: Vec<u16> = Vec::new();
        let (p2, _) = read_groups(v, p1 + 2, 0, 7 - gs.len(), &mut tail);
        assert(tail@ =~= groups_at(v@, p1 + 2, 0, 7 - head.len()).0);
        end = p2;
        let missing: usize = 8 - gs.len() - tail.len();
        let mut k: usize = 0;
        while k < missing
            invariant
                k <= missing,
                head.len() + missing + tail.len() == 8,
                gs@ == head + zero_groups(k as int),
            decreases missing - k,
        {
            gs.push(0);
            assert(gs@ =~= head + zero_groups(k + 1));
            k = k + 1;
        }
        let mut j: usize = 0;
        while j < tail.len()
            invariant
                j <= tail.len(),
                head.len() + missing + tail.len() == 8,
                gs@ == head + zero_groups(missing as int) + tail@.take(j as int),
            decreases tail.len() - j,
        {
            gs.push(tail[j]);
            assert(gs@ =~= head + zero_groups(missing as int) + tail@.take(j + 1));
            j = j + 1;
        }
        assert(tail@.take(tail.len() as int) =~= tail@);
    }
    Some((IpAddress::V6(gs[0], gs[1], gs[2], gs[3], gs[4], gs[5], gs[6], gs[7]), end))
}

/// Reads the whole of `v` as an address.
pub fn parse_ip_chars(v: &Vec<char>) -> (r: Option<IpAddress>)
    ensures
        r == parse_ip_spec(v@),
{
    let read = match read_ipv4(v, 0) {
        Some(found) => Some(found),
        None => read_ipv6(v, 0),
    };
    match read {
        Some((ip, e)) => if e == v.len() {
            Some(ip)
        } else {
            None
        },
        None => None,
    }
}

/// Reads the port that ends `v` after the index `e`.
pub fn read_port_after(v: &Vec<char>, e: usize) -> (r: Option<u16>)
    requires
        e <= v.len(),
    ensures
        r == port_after(v@, e as int),
{
    if e < v.len() && v[e] == ':' {
        read_decimal_u16(v, e + 1, v.len())
    } else {
        None
    }
}

/// Reads a scope at `e`.
pub fn read_scope(v: &Vec<char>, e: usize) -> (r: Option<(u32, usize)>)
    requires
        e <= v.len(),
    ensures
        match scope_at(v@, e as int) {
            Some((n, d)) => r == Some((n, d as usize)) && e < d <= v.len(),
            None => r is None,
        },
{
    if e < v.len() && v[e] == '%' {
        let d: usize = scan_digits(v, e + 1);
        match read_decimal(v, e + 1, d, 0xffff_ffff) {
            Some(n) => Some((n, d)),
            None => None,
        }
    } else {
        None
    }
}

/// Reads a version 6 address in square brackets at the start of `v`.
pub fn read_bracketed(v: &Vec<char>) -> (r: Option<(IpAddress, u32, usize)>)
    ensures
        match bracketed_at(v@) {
            Some((ip, scope_id, e)) => r == Some((ip, scope_id, e as usize)) && e <= v.len(),
            None => r is None,
        },
{
    if !(v.len() > 0 && v[0] == '[') {
        return None;
    }
    match read_ipv6(v, 1) {
        Some((ip, e)) => {
            let (scope_id, close) = match read_scope(v, e) {
                Some(found) => found,
                None => (0u32, e),
            };
            if close < v.len() && v[close] == ']' {
                Some((ip, scope_id, close + 1))
            } else {
                None
            }
        },
        None => None,
    }
}

/// Reads the whole of `v` as an address with a port.
pub fn parse_socket_chars(v: &Vec<char>) -> (r: Option<SocketAddress>)
    ensures
        r == parse_socket_spec(v@),
{
    match read_ipv4(v, 0) {
        Some((ip, e)) => match read_port_after(v, e) {
            Some(port) => Some(SocketAddress { ip, port, scope_id: 0 }),
            None => None,
        },
        None => match read_bracketed(v) {
            Some((ip, scope_id, e)) => match read_port_after(v, e) {
                Some(port) => Some(SocketAddress { ip, port, scope_id }),
                None => None,
            },
            None => None,
        },
    }
}

/// Reads `s` as an IP address.
pub fn parse_ip(s: &str) -> (r: Option<IpAddress>)
    ensures
        r == parse_ip_spec(s@),
{
    let v = chars_of(s);
    parse_ip_chars(&v)
}

/// Reads `s` as an IP address with a port.
pub fn parse_socket(s: &str) -> (r: Option<SocketAddress>)
    ensures
        r == parse_socket_spec(s@),
{
    let v = chars_of(s);
    parse_socket_chars(&v)
}

/// Appends a dotted address, as it is written, to `out`.
pub fn push_dotted(out: &mut String, a: u8, b: u8, c: u8, d: u8)
    ensures
        final(out)@ == old(out)@ + dotted_text(a, b, c, d),
{
    proof {
        reveal_strlit(".");
    }
    push_decimal(out, a as u32);
    out.append(".");
    push_decimal(out, b as u32);
    out.append(".");
    push_decimal(out, c as u32);
    out.append(".");
    push_decimal(out, d as u32);
    assert(out@ =~= old(out)@ + dotted_text(a, b, c, d));
}

/// Appends the groups of `gs` from `from` up to `to`, as they are written
/// one after the other, to `out`.
#[verifier::rlimit(40)]
pub fn push_groups(out: &mut String, gs: &Vec<u16>, from: usize, to: usize)
    requires
        from <= to <= gs.len(),
    ensures
        final(out)@ == old(out)@ + groups_text(gs@.subrange(from as int, to as int)),
{
    proof {
        reveal_strlit(":");
    }
    let ghost part = gs@.subrange(from as int, to as int);
    let mut k: usize = from;
    assert(old(out)@ + groups_text(part.take(0)) =~= old(out)@);
    while k < to
        invariant
            from <= k <= to <= gs.len(),
            part == gs@.subrange(from as int, to as int),
            out@ == old(out)@ + groups_text(part.take(k - from)),
        decreases to - k,
    {
        let ghost before = out@;
        if k > from {
            out.append(":");
        }
        push_hex(out, gs[k] as u32);
        proof {
            reveal_strlit(":");
            let t = part.take(k - from + 1);
            assert(t.drop_last() =~= part.take(k - from));
            assert(t.last() == gs@[k as int]);
            assert(":"@ =~= seq![':']);
            if k > from {
                assert(out@ =~= old(out)@ + (groups_text(part.take(k - from)).push(':')
                    + hex_text(gs@[k as int] as nat)));
            } else {
                assert(groups_text(part.take(0)) =~= Seq::<char>::empty());
                assert(out@ =~= old(out)@ + hex_text(gs@[k as int] as nat));
            }
        }
        k = k + 1;
    }
    assert(part.take(to - from) =~= part);
}

/// Are the `len` groups of `gs` from `start` on zero?
pub fn is_all_zero(gs: &Vec<u16>, start: usize, len: usize) -> (r: bool)
    requires
        start + len <= gs.len(),
    ensures
        r == all_zero(gs@, start as int, len as int),
{
    let mut k: usize = start;
    while k < start + len
        invariant
            start <= k <= start + len <= gs.len(),
            forall|j: int| start <= j < k ==> gs@[j] == 0,
        decreases start + len - k,
    {
        if gs[k] != 0 {
            return false;
        }
        k = k + 1;
    }
    true
}

/// The first index at which `len` groups of zero begin.
pub fn find_zero_run(gs: &Vec<u16>, len: usize) -> (r: Option<usize>)
    requires
        gs.len() <= 8,
    ensures
        match zero_run_from(gs@, len as int, 0) {
            Some(start) => r == Some(start as usize) && 0 <= start && start + len <= gs.len(),
            None => r is None,
        },
{
    let mut start: usize = 0;
    while start + len <= gs.len()
        invariant
            gs.len() <= 8,
            start <= 9,
            len <= 8 || start == 0,
            zero_run_from(gs@, len as int, 0) == zero_run_from(gs@, len as int, start as int),
        decreases gs.len() + 1 - start,
    {
        if is_all_zero(gs, start, len) {
            return Some(start);
        }
        start = start + 1;
    }
    None
}

/// The longest run of two or more groups of zero; of several, the first.
pub fn find_longest_zero_run(gs: &Vec<u16>) -> (r: Option<(usize, usize)>)
    requires
        gs.len() <= 8,
    ensures
        match longest_zero_run(gs@, 8) {
            Some((start, len)) => r == Some((start as usize, len as usize)) && 0 <= start
                && 2 <= len && start + len <= gs.len(),
            None => r is None,
        },
{
    let mut len: usize = 8;
    while len >= 2
        invariant
            gs.len() <= 8,
            len <= 8,
            longest_zero_run(gs@, 8) == longest_zero_run(gs@, len as int),
        decreases len,
    {
        if let Some(start) = find_zero_run(gs, len) {
            return Some((start, len));
        }
        len = len - 1;
    }
    None
}

/// Appends a version 6 address of the groups `gs`, as it is written, to
/// `out`.
#[verifier::rlimit(40)]
pub fn push_v6(out: &mut String, gs: &Vec<u16>)
    requires
        gs.len() == 8,
    ensures
        final(out)@ == old(out)@ + v6_text(gs@),
{
    reveal(v6_text);
    if gs[0] == 0 && gs[1] == 0 && gs[2] == 0 && gs[3] == 0 && gs[4] == 0 && gs[5] == 0xffff {
        out.append("::ffff:");
        push_dotted(
            out,
            (gs[6] / 256) as u8,
            (gs[6] % 256) as u8,
            (gs[7] / 256) as u8,
            (gs[7] % 256) as u8,
        );
        assert(out@ =~= old(out)@ + v6_text(gs@));
        return ;
    }
    match find_longest_zero_run(gs) {
        Some((start, len)) => {
            push_groups(out, gs, 0, start);
            out.append("::");
            push_groups(out, gs, start + len, 8);
            assert(gs@.take(start as int) =~= gs@.subrange(0, start as int));
            assert(gs@.skip(start + len) =~= gs@.subrange(start + len, 8));
            assert(out@ =~= old(out)@ + v6_text(gs@));
        },
        None => {
            push_groups(out, gs, 0, 8);
            assert(gs@.subrange(0, 8) =~= gs@);
        },
    }
}

impl IpAddress {
    /// Appends the address, as it is written, to `out`.
    pub fn write_to(&self, out: &mut String)
        ensures
            final(out)@ == old(out)@ + ip_text(*self),
    {
        match *self {
            IpAddress::V4(a, b, c, d) => {
                push_dotted(out, a, b, c, d);
            },
            IpAddress::V6(a, b, c, d, e, f, g, h) => {
                let gs: Vec<u16> = vec![a, b, c, d, e, f, g, h];
                assert(gs@ =~= groups_of(*self));
                push_v6(out, &gs);
            },
        }
    }

    /// The address as it is written.
    pub fn to_text(&self) -> (r: String)
        ensures
            r@ == ip_text(*self),
    {
        let mut out = String::new();
        self.write_to(&mut out);
        assert(Seq::<char>::empty() + ip_text(*self) =~= ip_text(*self));
        out
    }
}

impl SocketAddress {
    /// The address `ip` with the port `port`, and without a scope.
    pub fn new(ip: IpAddress, port: u16) -> (r: Self)
        ensures
            r == (SocketAddress { ip, port, scope_id: 0 }),
    {
        SocketAddress { ip, port, scope_id: 0 }
    }

    /// The address and port as they are written.
    pub fn to_text(&self) -> (r: String)
        ensures
            r@ == socket_text(*self),
    {
        proof {
            reveal_strlit(":");
            reveal_strlit("[");
            reveal_strlit("%");
        }
        let mut out = String::new();
        match self.ip {
            IpAddress::V4(..) => {
                self.ip.write_to(&mut out);
                out.append(":");
                push_decimal(&mut out, self.port as u32);
                assert(out@ =~= socket_text(*self));
            },
            IpAddress::V6(..) => {
                out.append("[");
                self.ip.write_to(&mut out);
                if self.scope_id != 0 {
                    out.append("%");
                    push_decimal(&mut out, self.scope_id);
                }
                out.append("]:");
                push_decimal(&mut out, self.port as u32);
                assert(out@ =~= socket_text(*self));
            },
        }
        out
    }
}

/// Where the digits of a byte stand at `i` and no digit follows them, the
/// byte is read there.
#[verifier::rlimit(40)]
pub proof fn lemma_octet_reads_back(s: Seq<char>, i: int, x: u8)
    requires
        0 <= i,
        i + decimal_text(x as nat).len() <= s.len(),
        s.subrange(i, i + decimal_text(x as nat).len()) == decimal_text(x as nat),
        i + decimal_text(x as nat).len() == s.len() || !is_digit(
            s[i + decimal_text(x as nat).len()],
        ),
    ensures
        octet_at(s, i) == Some((x, i + decimal_text(x as nat).len())),
{
    let t = decimal_text(x as nat);
    let e = i + t.len();
    lemma_decimal_text(x as nat);
    assert forall|k: int| i <= k < e implies is_digit(#[trigger] s[k]) by {
        assert(s[k] == s.subrange(i, e)[k - i]);
    }
    lemma_digits_end_at(s, i, e);
    assert(s[i] == s.subrange(i, e)[0]);
}

/// A dotted address reads back from its text, whatever stands before the
/// text and whatever follows it, as long as no digit follows it.
#[verifier::rlimit(40)]
pub proof fn lemma_dotted_reads_back(
    before: Seq<char>,
    a: u8,
    b: u8,
    c: u8,
    d: u8,
    rest: Seq<char>,
)
    requires
        rest.len() == 0 || !is_digit(rest[0]),
    ensures
        ipv4_at(before + dotted_text(a, b, c, d) + rest, before.len() as int) == Some(
            (IpAddress::V4(a, b, c, d), (before.len() + dotted_text(a, b, c, d).len()) as int),
        ),
{
    let ta = decimal_text(a as nat);
    let tb = decimal_text(b as nat);
    let tc = decimal_text(c as nat);
    let td = decimal_text(d as nat);
    let s = before + dotted_text(a, b, c, d) + rest;
    let i0 = before.len() as int;
    let i1 = i0 + ta.len();
    let i2 = i1 + 1 + tb.len();
    let i3 = i2 + 1 + tc.len();
    let i4 = i3 + 1 + td.len();
    assert(dotted_text(a, b, c, d).len() == i4 - i0);
    assert(s.subrange(i0, i1) =~= ta);
    assert(s.subrange(i1 + 1, i2) =~= tb);
    assert(s.subrange(i2 + 1, i3) =~= tc);
    assert(s.subrange(i3 + 1, i4) =~= td);
    assert(s[i1] == '.');
    assert(s[i2] == '.');
    assert(s[i3] == '.');
    if rest.len() > 0 {
        assert(s[i4] == rest[0]);
    }
    lemma_octet_reads_back(s, i0, a);
    lemma_octet_reads_back(s, i1 + 1, b);
    lemma_octet_reads_back(s, i2 + 1, c);
    lemma_octet_reads_back(s, i3 + 1, d);
}

/// The text of a dotted address reads back as that address, and the text of
/// a dotted address with a port as that address with that port.
#[verifier::rlimit(40)]
pub proof fn lemma_v4_reads_back(a: u8, b: u8, c: u8, d: u8, port: u16)
    ensures
        parse_ip_spec(ip_text(IpAddress::V4(a, b, c, d))) == Some(IpAddress::V4(a, b, c, d)),
        parse_socket_spec(ip_text(IpAddress::V4(a, b, c, d))) is None,
        parse_socket_spec(
            socket_text(SocketAddress { ip: IpAddress::V4(a, b, c, d), port, scope_id: 0 }),
        ) == Some(SocketAddress { ip: IpAddress::V4(a, b, c, d), port, scope_id: 0 }),
{
    let ip = IpAddress::V4(a, b, c, d);
    let t = dotted_text(a, b, c, d);
    let none = Seq::<char>::empty();
    lemma_dotted_reads_back(none, a, b, c, d, none);
    assert(none + t + none =~= t);
    let digits = decimal_text(port as nat);
    let rest = seq![':'] + digits;
    lemma_dotted_reads_back(none, a, b, c, d, rest);
    lemma_port_reads_back(port);
    let s = socket_text(SocketAddress { ip, port, scope_id: 0 });
    assert(s =~= none + t + rest);
    assert(s[t.len() as int] == ':');
    assert(s.subrange(t.len() as int + 1, s.len() as int) =~= digits);
}

} // verus!
