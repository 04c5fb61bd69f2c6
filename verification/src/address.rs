//! Socket addresses and their textual form.
//!
//! An address is held as plain integers: an IPv4 address as the 32-bit number
//! whose most significant byte is the first octet, an IPv6 address as the
//! 128-bit number whose most significant 16 bits are the first group.
//!
//! The accepted text is `a.b.c.d:port` for IPv4 and `[groups]:port` or
//! `[groups%scope]:port` for IPv6, where `groups` is the usual colon-separated
//! hexadecimal form with at most one `::` and an optional dotted-decimal tail.

use crate::text::{
    chars_of, lemma_split_nonempty, parse_numeral, read_numeral, split, split_spans, spans_cut,
    Delimiter, Radix, Span,
};
use vstd::prelude::*;

verus! {

/// An IP address together with a port.
#[derive(Debug, Clone, Copy, PartialEq, Eq, Hash, Structural)]
pub enum SocketAddress {
    V4 { ipv4: u32, port: u16 },
    V6 { ipv6: u128, port: u16, flowinfo: u32, scope_id: u32 },
}

/// One octet of a dotted-decimal address: one to three decimal digits, at
/// most 255, with no leading zero unless the octet is `0` itself.
pub open spec fn read_octet(s: Seq<char>) -> Option<int> {
    if s.len() <= 3 && (s.len() == 1 || (s.len() > 1 && s[0] != '0')) {
        read_numeral(s, Radix::Decimal, 255)
    } else {
        None
    }
}

/// A dotted-decimal IPv4 address: exactly four octets separated by `.`.
pub open spec fn read_ipv4(s: Seq<char>) -> Option<int> {
    let f = split(s, Delimiter::Char('.'));
    if f.len() == 4 && read_octet(f[0]) is Some && read_octet(f[1]) is Some && read_octet(f[2])
        is Some && read_octet(f[3]) is Some {
        Some(
            ((read_octet(f[0]).unwrap() * 256 + read_octet(f[1]).unwrap()) * 256 + read_octet(
                f[2],
            ).unwrap()) * 256 + read_octet(f[3]).unwrap(),
        )
    } else {
        None
    }
}

/// One group of an IPv6 address: one to four hexadecimal digits.
pub open spec fn read_group(s: Seq<char>) -> Option<int> {
    if s.len() <= 4 {
        read_numeral(s, Radix::Hex, 0xFFFF)
    } else {
        None
    }
}

/// A port: a decimal numeral of at most 65535; leading zeros are allowed.
pub open spec fn read_port(s: Seq<char>) -> Option<int> {
    read_numeral(s, Radix::Decimal, 0xFFFF)
}

/// A scope identifier: a decimal numeral that fits 32 bits.
pub open spec fn read_scope(s: Seq<char>) -> Option<int> {
    read_numeral(s, Radix::Decimal, 0xFFFF_FFFF)
}

/// A run of IPv6 groups separated by single colons. The empty text is the
/// empty run. Where `embedded` holds, the last field may instead be a
/// dotted-decimal IPv4 address, which stands for two groups.
pub open spec fn read_groups(s: Seq<char>, embedded: bool) -> Option<Seq<u16>> {
    if s.len() == 0 {
        Some(Seq::empty())
    } else {
        let f = split(s, Delimiter::Char(':'));
        let lead = f.drop_last();
        if forall|i: int| 0 <= i < lead.len() ==> read_group(#[trigger] lead[i]) is Some {
            let front = Seq::new(lead.len(), |i: int| read_group(lead[i]).unwrap() as u16);
            if read_group(f.last()) is Some {
                Some(front.push(read_group(f.last()).unwrap() as u16))
            } else if embedded && read_ipv4(f.last()) is Some {
                let v = read_ipv4(f.last()).unwrap();
                Some(front.push((v / 0x1_0000) as u16).push((v % 0x1_0000) as u16))
            } else {
                None
            }
        } else {
            None
        }
    }
}

/// `s` has `::` at position `p`.
pub open spec fn double_colon_at(s: Seq<char>, p: int) -> bool {
    0 <= p && p + 1 < s.len() && s[p] == ':' && s[p + 1] == ':'
}

/// `p` is the position of the first `::` in `s`.
pub open spec fn first_double_colon(s: Seq<char>, p: int) -> bool {
    double_colon_at(s, p) && forall|q: int| 0 <= q < p ==> !double_colon_at(s, q)
}

/// The position of the first `::` in `s`, if there is one.
pub open spec fn double_colon(s: Seq<char>) -> Option<int> {
    if exists|p: int| first_double_colon(s, p) {
        Some(choose|p: int| first_double_colon(s, p))
    } else {
        None
    }
}

/// The eight groups of an IPv6 address in text form. Without `::` the text
/// must give all eight; with `::` the groups before it (no IPv4 part among
/// them) and after it are at most seven, and `::` stands for the missing
/// zero groups.
pub open spec fn read_ipv6(s: Seq<char>) -> Option<Seq<u16>> {
    match double_colon(s) {
        Some(p) => {
            let head = read_groups(s.subrange(0, p), false);
            let tail = read_groups(s.subrange(p + 2, s.len() as int), true);
            if head is Some && tail is Some && head.unwrap().len() + tail.unwrap().len() <= 7 {
                let gap = 8 - head.unwrap().len() - tail.unwrap().len();
                Some(head.unwrap() + Seq::new(gap as nat, |i: int| 0u16) + tail.unwrap())
            } else {
                None
            }
        },
        None => match read_groups(s, true) {
            Some(g) => if g.len() == 8 {
                Some(g)
            } else {
                None
            },
            None => None,
        },
    }
}

/// The 128-bit number made of eight groups, first group most significant.
pub open spec fn pack(g: Seq<u16>) -> int {
    g[0] * 0x1_0000_0000_0000_0000_0000_0000_0000 + g[1] * 0x1_0000_0000_0000_0000_0000_0000
        + g[2] * 0x1_0000_0000_0000_0000_0000 + g[3] * 0x1_0000_0000_0000_0000 + g[4]
        * 0x1_0000_0000_0000 + g[5] * 0x1_0000_0000 + g[6] * 0x1_0000 + g[7]
}

/// An IPv4 socket address: `a.b.c.d:port`.
pub open spec fn read_socket_v4(s: Seq<char>) -> Option<SocketAddress> {
    let f = split(s, Delimiter::Char(':'));
    if f.len() == 2 && read_ipv4(f[0]) is Some && read_port(f[1]) is Some {
        Some(
            SocketAddress::V4 {
                ipv4: read_ipv4(f[0]).unwrap() as u32,
                port: read_port(f[1]).unwrap() as u16,
            },
        )
    } else {
        None
    }
}

/// The address and scope inside the brackets of an IPv6 socket address:
/// `groups` or `groups%scope`. Without a scope the scope is 0.
pub open spec fn read_scoped_ipv6(s: Seq<char>) -> Option<(Seq<u16>, int)> {
    let z = split(s, Delimiter::Char('%'));
    if z.len() == 1 && read_ipv6(z[0]) is Some {
        Some((read_ipv6(z[0]).unwrap(), 0))
    } else if z.len() == 2 && read_ipv6(z[0]) is Some && read_scope(z[1]) is Some {
        Some((read_ipv6(z[0]).unwrap(), read_scope(z[1]).unwrap()))
    } else {
        None
    }
}

/// An IPv6 socket address: `[groups]:port` or `[groups%scope]:port`. The flow
/// information of the result is 0.
pub open spec fn read_socket_v6(s: Seq<char>) -> Option<SocketAddress> {
    if s.len() > 0 && s[0] == '[' {
        let f = split(s.drop_first(), Delimiter::Char(']'));
        if f.len() == 2 && f[1].len() > 0 && f[1][0] == ':' && read_port(f[1].drop_first())
            is Some && read_scoped_ipv6(f[0]) is Some {
            Some(
                SocketAddress::V6 {
                    ipv6: pack(read_scoped_ipv6(f[0]).unwrap().0) as u128,
                    port: read_port(f[1].drop_first()).unwrap() as u16,
                    flowinfo: 0,
                    scope_id: read_scoped_ipv6(f[0]).unwrap().1 as u32,
                },
            )
        } else {
            None
        }
    } else {
        None
    }
}

/// The socket address that `s` denotes, if `s` is one.
pub open spec fn read_socket_address(s: Seq<char>) -> Option<SocketAddress> {
    if read_socket_v4(s) is Some {
        read_socket_v4(s)
    } else {
        read_socket_v6(s)
    }
}

/// Reads positions `span` of `line` as one octet.
fn parse_octet(line: &Vec<char>, span: Span) -> (r: Option<u32>)
    requires
        span.within(0, line.len() as int),
    ensures
        match r {
            Some(v) => read_octet(span.of(line@)) == Some(v as int),
            None => read_octet(span.of(line@)) is None,
        },
{
    let len: usize = span.end - span.start;
    if len == 0 || len > 3 {
        return None;
    }
    assert(span.of(line@)[0] == line@[span.start as int]);
    if len > 1 && line[span.start] == '0' {
        return None;
    }
    parse_numeral(line, span.start, span.end, Radix::Decimal, 255)
}

/// Reads positions `from..to` of `line` as a dotted-decimal IPv4 address.
fn parse_ipv4(line: &Vec<char>, from: usize, to: usize) -> (r: Option<u32>)
    requires
        from <= to <= line.len(),
    ensures
        match r {
            Some(v) => read_ipv4(line@.subrange(from as int, to as int)) == Some(v as int),
            None => read_ipv4(line@.subrange(from as int, to as int)) is None,
        },
{
    let fields = split_spans(line, from, to, Delimiter::Char('.'));
    if fields.len() != 4 {
        return None;
    }
    let a = match parse_octet(line, fields[0]) {
        Some(v) => v,
        None => {
            return None;
        },
    };
    let b = match parse_octet(line, fields[1]) {
        Some(v) => v,
        None => {
            return None;
        },
    };
    let c = match parse_octet(line, fields[2]) {
        Some(v) => v,
        None => {
            return None;
        },
    };
    let d = match parse_octet(line, fields[3]) {
        Some(v) => v,
        None => {
            return None;
        },
    };
    Some(((a * 256 + b) * 256 + c) * 256 + d)
}

/// Reads positions `span` of `line` as one IPv6 group.
fn parse_group(line: &Vec<char>, span: Span) -> (r: Option<u16>)
    requires
        span.within(0, line.len() as int),
    ensures
        match r {
            Some(v) => read_group(span.of(line@)) == Some(v as int),
            None => read_group(span.of(line@)) is None,
        },
{
    if span.end - span.start > 4 {
        return None;
    }
    match parse_numeral(line, span.start, span.end, Radix::Hex, 0xFFFF) {
        Some(v) => Some(v as u16),
        None => None,
    }
}

/// Reads positions `from..to` of `line` as a run of IPv6 groups.
fn parse_groups(line: &Vec<char>, from: usize, to: usize, embedded: bool) -> (r: Option<Vec<u16>>)
    requires
        from <= to <= line.len(),
    ensures
        match r {
            Some(g) => read_groups(line@.subrange(from as int, to as int), embedded) == Some(g@),
            None => read_groups(line@.subrange(from as int, to as int), embedded) is None,
        },
{
    let ghost s = line@.subrange(from as int, to as int);
    let ghost f = split(s, Delimiter::Char(':'));
    let ghost lead = f.drop_last();
    let mut groups: Vec<u16> = Vec::new();
    if from == to {
        return Some(groups);
    }
    let fields = split_spans(line, from, to, Delimiter::Char(':'));
    proof {
        lemma_split_nonempty(s, Delimiter::Char(':'));
    }
    let last: usize = fields.len() - 1;
    let mut k: usize = 0;
    while k < last
        invariant
            k <= last,
            last + 1 == fields.len(),
            from <= to <= line.len(),
            f == split(line@.subrange(from as int, to as int), Delimiter::Char(':')),
            lead == f.drop_last(),
            spans_cut(line@, fields@, f, from as int, to as int),
            groups@.len() == k,
            forall|i: int| 0 <= i < k ==> read_group(#[trigger] lead[i]) == Some(groups@[i] as int),
        decreases last - k,
    {
        assert(lead[k as int] == f[k as int]);
        match parse_group(line, fields[k]) {
            Some(g) => {
                groups.push(g);
            },
            None => {
                return None;
            },
        }
        k += 1;
    }
    let ghost front = Seq::new(lead.len(), |i: int| read_group(lead[i]).unwrap() as u16);
    assert(groups@ == front);
    let tail = fields[last];
    assert(tail.of(line@) == f.last());
    match parse_group(line, tail) {
        Some(g) => {
            groups.push(g);
            Some(groups)
        },
        None => {
            if !embedded {
                return None;
            }
            match parse_ipv4(line, tail.start, tail.end) {
                Some(v) => {
                    groups.push((v / 0x1_0000) as u16);
                    groups.push((v % 0x1_0000) as u16);
                    Some(groups)
                },
                None => None,
            }
        },
    }
}

/// A position that is the first `::` is the one that `double_colon` names.
proof fn lemma_double_colon_is(s: Seq<char>, p: int)
    requires
        first_double_colon(s, p),
    ensures
        double_colon(s) == Some(p),
{
    let q = choose|q: int| first_double_colon(s, q);
    assert(first_double_colon(s, q));
    if q < p {
        assert(!double_colon_at(s, q));
    }
    if p < q {
        assert(!double_colon_at(s, p));
    }
}

/// Finds the first `::` in positions `from..to` of `line`; the result counts
/// from `from`.
fn find_double_colon(line: &Vec<char>, from: usize, to: usize) -> (r: Option<usize>)
    requires
        from <= to <= line.len(),
    ensures
        match r {
            Some(p) => double_colon(line@.subrange(from as int, to as int)) == Some(p as int) && p
                + 2 <= to - from,
            None => double_colon(line@.subrange(from as int, to as int)) is None,
        },
{
    let ghost s = line@.subrange(from as int, to as int);
    let mut i: usize = from;
    while to - i >= 2
        invariant
            from <= i <= to <= line.len(),
            s == line@.subrange(from as int, to as int),
            forall|q: int| 0 <= q < i - from ==> !double_colon_at(s, q),
        decreases to - i,
    {
        assert(s[i - from] == line@[i as int]);
        assert(s[i - from + 1] == line@[i + 1]);
        if line[i] == ':' && line[i + 1] == ':' {
            proof {
                lemma_double_colon_is(s, i - from);
            }
            return Some(i - from);
        }
        i += 1;
    }
    assert forall|p: int| !first_double_colon(s, p) by {
        if double_colon_at(s, p) {
            assert(p < i - from);
        }
    }
    None
}

/// Reads positions `from..to` of `line` as the eight groups of an IPv6
/// address.
fn parse_ipv6(line: &Vec<char>, from: usize, to: usize) -> (r: Option<Vec<u16>>)
    requires
        from <= to <= line.len(),
    ensures
        match r {
            Some(g) => read_ipv6(line@.subrange(from as int, to as int)) == Some(g@),
            None => read_ipv6(line@.subrange(from as int, to as int)) is None,
        },
{
    let ghost s = line@.subrange(from as int, to as int);
    match find_double_colon(line, from, to) {
        None => {
            match parse_groups(line, from, to, true) {
                Some(g) => if g.len() == 8 {
                    Some(g)
                } else {
                    None
                },
                None => None,
            }
        },
        Some(p) => {
            assert(s.subrange(0, p as int) == line@.subrange(from as int, from + p));
            assert(s.subrange(p + 2, s.len() as int) == line@.subrange(from + p + 2, to as int));
            let head = match parse_groups(line, from, from + p, false) {
                Some(g) => g,
                None => {
                    return None;
                },
            };
            let tail = match parse_groups(line, from + p + 2, to, true) {
                Some(g) => g,
                None => {
                    return None;
                },
            };
            if head.len() > 7 || tail.len() > 7 - head.len() {
                return None;
            }
            let gap: usize = 8 - head.len() - tail.len();
            let mut groups: Vec<u16> = head;
            let ghost front = groups@;
            let mut k: usize = 0;
            while k < gap
                invariant
                    k <= gap,
                    groups@ == front + Seq::new(k as nat, |i: int| 0u16),
                decreases gap - k,
            {
                groups.push(0);
                k += 1;
            }
            let ghost middle = groups@;
            let mut j: usize = 0;
            while j < tail.len()
                invariant
                    j <= tail.len(),
                    groups@ == middle + tail@.take(j as int),
                decreases tail.len() - j,
            {
                groups.push(tail[j]);
                j += 1;
            }
            assert(tail@.take(j as int) == tail@);
            Some(groups)
        },
    }
}

/// Packs eight groups into one 128-bit number.
fn pack_groups(g: &Vec<u16>) -> (r: u128)
    requires
        g.len() == 8,
    ensures
        r == pack(g@),
{
    (g[0] as u128) * 0x1_0000_0000_0000_0000_0000_0000_0000 + (g[1] as u128)
        * 0x1_0000_0000_0000_0000_0000_0000 + (g[2] as u128) * 0x1_0000_0000_0000_0000_0000 + (
    g[3] as u128) * 0x1_0000_0000_0000_0000 + (g[4] as u128) * 0x1_0000_0000_0000 + (g[5] as u128)
        * 0x1_0000_0000 + (g[6] as u128) * 0x1_0000 + (g[7] as u128)
}

/// Reads positions `from..to` of `line` as `a.b.c.d:port`.
fn parse_socket_v4(line: &Vec<char>, from: usize, to: usize) -> (r: Option<SocketAddress>)
    requires
        from <= to <= line.len(),
    ensures
        r == read_socket_v4(line@.subrange(from as int, to as int)),
{
    let fields = split_spans(line, from, to, Delimiter::Char(':'));
    if fields.len() != 2 {
        return None;
    }
    let host = fields[0];
    let port = fields[1];
    let ipv4 = match parse_ipv4(line, host.start, host.end) {
        Some(v) => v,
        None => {
            return None;
        },
    };
    match parse_numeral(line, port.start, port.end, Radix::Decimal, 0xFFFF) {
        Some(p) => Some(SocketAddress::V4 { ipv4, port: p as u16 }),
        None => None,
    }
}

/// Reads positions `from..to` of `line` as `groups` or `groups%scope`.
fn parse_scoped_ipv6(line: &Vec<char>, from: usize, to: usize) -> (r: Option<(Vec<u16>, u32)>)
    requires
        from <= to <= line.len(),
    ensures
        match r {
            Some((g, scope)) => read_scoped_ipv6(line@.subrange(from as int, to as int)) == Some(
                (g@, scope as int),
            ),
            None => read_scoped_ipv6(line@.subrange(from as int, to as int)) is None,
        },
{
    let fields = split_spans(line, from, to, Delimiter::Char('%'));
    if fields.len() == 0 || fields.len() > 2 {
        return None;
    }
    let host = fields[0];
    let groups = match parse_ipv6(line, host.start, host.end) {
        Some(g) => g,
        None => {
            return None;
        },
    };
    if fields.len() == 1 {
        return Some((groups, 0));
    }
    let zone = fields[1];
    match parse_numeral(line, zone.start, zone.end, Radix::Decimal, 0xFFFF_FFFF) {
        Some(scope) => Some((groups, scope)),
        None => None,
    }
}

/// Reads positions `from..to` of `line` as `[groups]:port` or
/// `[groups%scope]:port`.
fn parse_socket_v6(line: &Vec<char>, from: usize, to: usize) -> (r: Option<SocketAddress>)
    requires
        from <= to <= line.len(),
    ensures
        r == read_socket_v6(line@.subrange(from as int, to as int)),
{
    let ghost s = line@.subrange(from as int, to as int);
    if from == to {
        return None;
    }
    assert(s[0] == line@[from as int]);
    if line[from] != '[' {
        return None;
    }
    assert(s.drop_first() == line@.subrange(from + 1, to as int));
    let fields = split_spans(line, from + 1, to, Delimiter::Char(']'));
    if fields.len() != 2 {
        return None;
    }
    let inner = fields[0];
    let after = fields[1];
    if after.start == after.end {
        return None;
    }
    assert(after.of(line@)[0] == line@[after.start as int]);
    if line[after.start] != ':' {
        return None;
    }
    assert(after.of(line@).drop_first() == line@.subrange(after.start + 1, after.end as int));
    let port = match parse_numeral(line, after.start + 1, after.end, Radix::Decimal, 0xFFFF) {
        Some(p) => p,
        None => {
            return None;
        },
    };
    match parse_scoped_ipv6(line, inner.start, inner.end) {
        Some((groups, scope_id)) => {
            let ipv6 = pack_groups(&groups);
            Some(SocketAddress::V6 { ipv6, port: port as u16, flowinfo: 0, scope_id })
        },
        None => None,
    }
}

/// Reads positions `from..to` of `line` as a socket address.
pub fn parse_socket_address(line: &Vec<char>, from: usize, to: usize) -> (r: Option<
    SocketAddress,
>)
    requires
        from <= to <= line.len(),
    ensures
        r == read_socket_address(line@.subrange(from as int, to as int)),
{
    match parse_socket_v4(line, from, to) {
        Some(a) => Some(a),
        None => parse_socket_v6(line, from, to),
    }
}

impl SocketAddress {
    /// Reads a socket address from its text form; `None` where `text` is not
    /// one.
    pub fn from_str(text: &str) -> (r: Option<SocketAddress>)
        ensures
            r == read_socket_address(text@),
    {
        let line = chars_of(text);
        assert(line@.subrange(0, line.len() as int) == text@);
        parse_socket_address(&line, 0, line.len())
    }

    /// The port of the address.
    pub open spec fn spec_port(&self) -> u16 {
        match *self {
            SocketAddress::V4 { port, .. } => port,
            SocketAddress::V6 { port, .. } => port,
        }
    }

    /// The port of the address.
    #[verifier::when_used_as_spec(spec_port)]
    pub fn port(&self) -> (r: u16)
        ensures
            r == self.spec_port(),
    {
        match self {
            SocketAddress::V4 { port, .. } => *port,
            SocketAddress::V6 { port, .. } => *port,
        }
    }
}

} // verus!
