//! Addresses as plain values, and how they are written.

use crate::text;
use vstd::prelude::*;
use vstd::string::StringExecFns;

verus! {

/// An IPv4 address, first octet first.
#[derive(Clone, Copy, Debug, PartialEq, Eq, Structural)]
pub struct Ipv4Addr(pub u8, pub u8, pub u8, pub u8);

/// An IPv6 address, first segment first.
#[derive(Clone, Copy, Debug, PartialEq, Eq, Structural)]
pub struct Ipv6Addr(
    pub u16,
    pub u16,
    pub u16,
    pub u16,
    pub u16,
    pub u16,
    pub u16,
    pub u16,
);

/// An address of either family.
#[derive(Clone, Copy, Debug, PartialEq, Eq, Structural)]
pub enum IpAddr {
    V4(Ipv4Addr),
    V6(Ipv6Addr),
}

/// An address and a port. `scope_id` is the index of the interface that a
/// link-local address belongs to, or zero.
#[allow(inconsistent_fields)]
#[derive(Clone, Copy, Debug, PartialEq, Eq, Structural)]
pub enum SocketAddr {
    V4 { ip: Ipv4Addr, port: u16 },
    V6 { ip: Ipv6Addr, port: u16, scope_id: u32 },
}

/// What a session runs over: a network peer or a serial port.
#[derive(Clone, Debug, PartialEq, Eq)]
pub enum Endpoint {
    Tcp(SocketAddr),
    Serial(String),
}

impl Ipv4Addr {
    /// The address `a.b.c.d`.
    pub fn new(a: u8, b: u8, c: u8, d: u8) -> (r: Self)
        ensures
            r == Ipv4Addr(a, b, c, d),
    {
        Ipv4Addr(a, b, c, d)
    }

    /// The four octets in order.
    pub open spec fn spec_octets(self) -> Seq<u8> {
        seq![self.0, self.1, self.2, self.3]
    }

    /// The four octets in order.
    pub fn octets(&self) -> (r: [u8; 4])
        ensures
            r@ == self.spec_octets(),
    {
        [self.0, self.1, self.2, self.3]
    }

    /// The address in dotted decimal.
    pub open spec fn spec_text(self) -> Seq<char> {
        text::dec(self.0 as nat) + seq!['.'] + (text::dec(self.1 as nat) + seq!['.'] + (text::dec(
            self.2 as nat,
        ) + seq!['.'] + text::dec(self.3 as nat)))
    }

    /// The address in dotted decimal.
    pub fn text(&self) -> (r: String)
        ensures
            r@ == self.spec_text(),
    {
        let mut out = text::decimal(self.0 as u64);
        out.push('.');
        let ghost a = out@;
        out.append(text::decimal(self.1 as u64).as_str());
        out.push('.');
        out.append(text::decimal(self.2 as u64).as_str());
        out.push('.');
        out.append(text::decimal(self.3 as u64).as_str());
        assert(out@ =~= self.spec_text());
        out
    }
}

impl Ipv6Addr {
    /// The address with these segments.
    pub fn new(a: u16, b: u16, c: u16, d: u16, e: u16, f: u16, g: u16, h: u16) -> (r: Self)
        ensures
            r == Ipv6Addr(a, b, c, d, e, f, g, h),
    {
        Ipv6Addr(a, b, c, d, e, f, g, h)
    }

    /// The eight segments in order.
    pub open spec fn spec_segments(self) -> Seq<u16> {
        seq![self.0, self.1, self.2, self.3, self.4, self.5, self.6, self.7]
    }

    /// The eight segments in order.
    pub fn segments(&self) -> (r: [u16; 8])
        ensures
            r@ == self.spec_segments(),
    {
        [self.0, self.1, self.2, self.3, self.4, self.5, self.6, self.7]
    }
}

impl SocketAddr {
    /// The address without the port.
    pub open spec fn spec_ip(self) -> IpAddr {
        match self {
            SocketAddr::V4 { ip, .. } => IpAddr::V4(ip),
            SocketAddr::V6 { ip, .. } => IpAddr::V6(ip),
        }
    }

    /// The address without the port.
    pub fn ip(&self) -> (r: IpAddr)
        ensures
            r == self.spec_ip(),
    {
        match self {
            SocketAddr::V4 { ip, .. } => IpAddr::V4(*ip),
            SocketAddr::V6 { ip, .. } => IpAddr::V6(*ip),
        }
    }

    /// The port.
    pub open spec fn spec_port(self) -> u16 {
        match self {
            SocketAddr::V4 { port, .. } => port,
            SocketAddr::V6 { port, .. } => port,
        }
    }

    /// The port.
    pub fn port(&self) -> (r: u16)
        ensures
            r == self.spec_port(),
    {
        match self {
            SocketAddr::V4 { port, .. } => *port,
            SocketAddr::V6 { port, .. } => *port,
        }
    }

    /// `ip` and `port`, in no scope.
    pub open spec fn of(ip: IpAddr, port: u16) -> SocketAddr {
        match ip {
            IpAddr::V4(ip) => SocketAddr::V4 { ip, port },
            IpAddr::V6(ip) => SocketAddr::V6 { ip, port, scope_id: 0 },
        }
    }

    /// `ip` and `port`, in no scope.
    pub fn new(ip: IpAddr, port: u16) -> (r: Self)
        ensures
            r == SocketAddr::of(ip, port),
    {
        match ip {
            IpAddr::V4(ip) => SocketAddr::V4 { ip, port },
            IpAddr::V6(ip) => SocketAddr::V6 { ip, port, scope_id: 0 },
        }
    }

    /// The same with another port.
    pub open spec fn spec_with_port(self, port: u16) -> SocketAddr {
        match self {
            SocketAddr::V4 { ip, .. } => SocketAddr::V4 { ip, port },
            SocketAddr::V6 { ip, scope_id, .. } => SocketAddr::V6 { ip, port, scope_id },
        }
    }

    /// The same with another port.
    pub fn with_port(&self, port: u16) -> (r: Self)
        ensures
            r == self.spec_with_port(port),
    {
        match self {
            SocketAddr::V4 { ip, .. } => SocketAddr::V4 { ip: *ip, port },
            SocketAddr::V6 { ip, scope_id, .. } => SocketAddr::V6 {
                ip: *ip,
                port,
                scope_id: *scope_id,
            },
        }
    }
}

// Reading.

/// An octet: its decimal digits, with no needless zero in front.
pub open spec fn octet(s: Seq<char>) -> Option<nat> {
    match text::digits_value(s) {
        Some(v) => if v <= 255 && (s.len() == 1 || s[0] != '0') {
            Some(v)
        } else {
            None
        },
        None => None,
    }
}

/// The IPv4 address that four octets with dots between them write.
pub open spec fn ipv4_value(s: Seq<char>) -> Option<Ipv4Addr> {
    let p = text::pieces(s, '.');
    if p.len() == 4 && octet(p[0]) is Some && octet(p[1]) is Some && octet(p[2]) is Some && octet(
        p[3],
    ) is Some {
        Some(
            Ipv4Addr(
                octet(p[0])->0 as u8,
                octet(p[1])->0 as u8,
                octet(p[2])->0 as u8,
                octet(p[3])->0 as u8,
            ),
        )
    } else {
        None
    }
}

fn parse_octet(s: &[char]) -> (r: Option<u8>)
    ensures
        r is Some <==> octet(s@) is Some,
        r matches Some(v) ==> octet(s@) == Some(v as nat),
{
    if s.len() == 0 || s[0] == '+' || (s.len() > 1 && s[0] == '0') {
        proof {
            if s@.len() > 0 && s@[0] == '+' {
                first_must_be_digit(s@);
            }
        }
        return None;
    }
    match text::parse_number(s, 255) {
        Some(v) => Some(v as u8),
        None => None,
    }
}

/// Digits begin with a digit.
proof fn first_must_be_digit(s: Seq<char>)
    requires
        s.len() > 0,
        text::digit_value(s[0]) is None,
    ensures
        text::digits_value(s) is None,
    decreases s.len(),
{
    if s.len() > 1 {
        first_must_be_digit(s.drop_last());
    }
}

/// The IPv4 address that a text writes.
pub fn parse_ipv4(s: &[char]) -> (r: Option<Ipv4Addr>)
    ensures
        r == ipv4_value(s@),
{
    let p = text::split(s, '.');
    let ghost t = text::texts(p@);
    if p.len() != 4 {
        return None;
    }
    assert(t[0] == p@[0]@ && t[1] == p@[1]@ && t[2] == p@[2]@ && t[3] == p@[3]@);
    match (parse_octet(p[0]), parse_octet(p[1]), parse_octet(p[2]), parse_octet(p[3])) {
        (Some(a), Some(b), Some(c), Some(d)) => Some(Ipv4Addr(a, b, c, d)),
        _ => None,
    }
}

/// The value of a hexadecimal digit of either case.
pub open spec fn hex_value(c: char) -> Option<nat> {
    if '0' <= c <= '9' {
        Some((c as nat - 48) as nat)
    } else if 'a' <= c <= 'f' {
        Some((c as nat - 87) as nat)
    } else if 'A' <= c <= 'F' {
        Some((c as nat - 55) as nat)
    } else {
        None
    }
}

/// The number that hexadecimal digits write, if there is one and no more.
pub open spec fn hex_digits_value(s: Seq<char>) -> Option<nat>
    decreases s.len(),
{
    if s.len() == 0 {
        None
    } else {
        match hex_value(s.last()) {
            None => None,
            Some(d) => if s.len() == 1 {
                Some(d)
            } else {
                match hex_digits_value(s.drop_last()) {
                    None => None,
                    Some(v) => Some(v * 16 + d),
                }
            },
        }
    }
}

/// A group of an IPv6 address: one to four hexadecimal digits.
pub open spec fn hextet(s: Seq<char>) -> Option<nat> {
    if s.len() <= 4 {
        hex_digits_value(s)
    } else {
        None
    }
}

/// The groups that pieces write; an IPv4 address may stand for the last two.
pub open spec fn groups_from(p: Seq<Seq<char>>) -> Option<Seq<u16>>
    decreases p.len(),
{
    if p.len() == 0 {
        Some(Seq::empty())
    } else if hextet(p[0]) is Some {
        match groups_from(p.skip(1)) {
            Some(g) => Some(seq![hextet(p[0])->0 as u16] + g),
            None => None,
        }
    } else if p.len() == 1 {
        match ipv4_value(p[0]) {
            Some(a) => Some(seq![(a.0 * 256 + a.1) as u16, (a.2 * 256 + a.3) as u16]),
            None => None,
        }
    } else {
        None
    }
}

/// The groups that a text with colons between them writes; none if it is empty.
pub open spec fn groups_of(s: Seq<char>) -> Option<Seq<u16>> {
    if s.len() == 0 {
        Some(Seq::empty())
    } else {
        groups_from(text::pieces(s, ':'))
    }
}

/// The place of the first two colons in a row.
pub open spec fn double_colon(s: Seq<char>) -> Option<int>
    decreases s.len(),
{
    if s.len() < 2 {
        None
    } else if s[0] == ':' && s[1] == ':' {
        Some(0)
    } else {
        match double_colon(s.skip(1)) {
            Some(i) => Some(i + 1),
            None => None,
        }
    }
}

/// The address with the given eight segments.
pub open spec fn ipv6_of(g: Seq<u16>) -> Ipv6Addr {
    Ipv6Addr(g[0], g[1], g[2], g[3], g[4], g[5], g[6], g[7])
}

/// Segments with zeros between them, eight in all.
pub open spec fn filled(head: Seq<u16>, tail: Seq<u16>) -> Seq<u16> {
    head + Seq::new((8 - head.len() - tail.len()) as nat, |i: int| 0u16) + tail
}

/// The IPv6 address that a text writes: eight groups, or fewer with two colons
/// standing for one or more groups of zeros.
pub open spec fn ipv6_value(s: Seq<char>) -> Option<Ipv6Addr> {
    match double_colon(s) {
        Some(i) => match (groups_of(s.take(i)), groups_of(s.skip(i + 2))) {
            (Some(head), Some(tail)) => if head.len() + tail.len() <= 7 && !s.take(i).contains('.') {
                Some(ipv6_of(filled(head, tail)))
            } else {
                None
            },
            _ => None,
        },
        None => match groups_of(s) {
            Some(g) => if g.len() == 8 {
                Some(ipv6_of(g))
            } else {
                None
            },
            None => None,
        },
    }
}

fn parse_hextet(s: &[char]) -> (r: Option<u16>)
    ensures
        r is Some <==> hextet(s@) is Some,
        r matches Some(v) ==> hextet(s@) == Some(v as nat),
{
    let n: usize = s.len();
    if n == 0 || n > 4 {
        return None;
    }
    let mut acc: u32 = 0;
    let mut i: usize = 0;
    while i < n
        invariant
            n == s@.len(),
            0 < n <= 4,
            i <= n,
            i == 0 ==> acc == 0,
            i == 1 ==> acc < 0x10,
            i == 2 ==> acc < 0x100,
            i == 3 ==> acc < 0x1000,
            i == 4 ==> acc < 0x10000,
            i > 0 ==> hex_digits_value(s@.take(i as int)) == Some(acc as nat),
        decreases n - i,
    {
        let c: char = s[i];
        let ghost next = s@.take(i + 1);
        proof {
            assert(next.drop_last() =~= s@.take(i as int));
            assert(next.last() == c);
            if hex_value(c) is None {
                hex_stops(s@, i + 1);
            }
        }
        let d: u32 = if '0' <= c && c <= '9' {
            (c as u8 - 48) as u32
        } else if 'a' <= c && c <= 'f' {
            (c as u8 - 87) as u32
        } else if 'A' <= c && c <= 'F' {
            (c as u8 - 55) as u32
        } else {
            return None;
        };
        acc = acc * 16 + d;
        i = i + 1;
    }
    assert(s@.take(i as int) =~= s@);
    Some(acc as u16)
}

/// A text whose beginning is no number is none.
proof fn hex_stops(s: Seq<char>, n: int)
    requires
        0 < n <= s.len(),
        hex_value(s[n - 1]) is None,
    ensures
        hex_digits_value(s) is None,
    decreases s.len(),
{
    if n < s.len() {
        hex_stops(s.drop_last(), n);
    }
}

fn parse_groups(s: &[char]) -> (r: Option<Vec<u16>>)
    ensures
        r is Some <==> groups_of(s@) is Some,
        r matches Some(g) ==> groups_of(s@) == Some(g@),
{
    let mut out: Vec<u16> = Vec::new();
    if s.len() == 0 {
        assert(out@ =~= Seq::<u16>::empty());
        return Some(out);
    }
    let p = text::split(s, ':');
    let ghost t = text::texts(p@);
    let mut i: usize = 0;
    proof {
        assert(t.skip(0) =~= t);
    }
    while i < p.len()
        invariant
            t == text::texts(p@),
            i <= p@.len(),
            s@.len() > 0,
            t == text::pieces(s@, ':'),
            match groups_from(t.skip(i as int)) {
                Some(g) => groups_of(s@) == Some(out@ + g),
                None => groups_of(s@) is None,
            },
        decreases p@.len() - i,
    {
        let ghost rest = t.skip(i as int);
        let ghost sofar = out@;
        assert(rest[0] == p@[i as int]@);
        assert(rest.skip(1) =~= t.skip(i + 1));
        match parse_hextet(p[i]) {
            Some(v) => {
                out.push(v);
                proof {
                    if groups_from(rest.skip(1)) is Some {
                        let g = groups_from(rest.skip(1))->0;
                        assert(sofar + (seq![v] + g) =~= out@ + g);
                    }
                }
            },
            None => {
                if i + 1 != p.len() {
                    return None;
                }
                match parse_ipv4(p[i]) {
                    Some(a) => {
                        out.push(a.0 as u16 * 256 + a.1 as u16);
                        out.push(a.2 as u16 * 256 + a.3 as u16);
                        proof {
                            assert(out@ =~= sofar + seq![
                                (a.0 * 256 + a.1) as u16,
                                (a.2 * 256 + a.3) as u16,
                            ]);
                        }
                        return Some(out);
                    },
                    None => {
                        return None;
                    },
                }
            },
        }
        i = i + 1;
    }
    proof {
        assert(t.skip(i as int) =~= Seq::<Seq<char>>::empty());
        assert(out@ + Seq::<u16>::empty() =~= out@);
    }
    Some(out)
}

fn find_double_colon(s: &[char]) -> (r: Option<usize>)
    ensures
        r is Some <==> double_colon(s@) is Some,
        r matches Some(i) ==> double_colon(s@) == Some(i as int) && i + 2 <= s@.len(),
{
    let mut i: usize = 0;
    proof {
        assert(s@.skip(0) =~= s@);
    }
    while i < s.len() && s.len() - i >= 2
        invariant
            i <= s@.len(),
            match double_colon(s@.skip(i as int)) {
                Some(k) => double_colon(s@) == Some(k + i),
                None => double_colon(s@) is None,
            },
        decreases s@.len() - i,
    {
        if s[i] == ':' && s[i + 1] == ':' {
            return Some(i);
        }
        assert(s@.skip(i as int).skip(1) =~= s@.skip(i + 1));
        i = i + 1;
    }
    None
}

/// The IPv6 address that a text writes.
pub fn parse_ipv6(s: &[char]) -> (r: Option<Ipv6Addr>)
    ensures
        r == ipv6_value(s@),
{
    let n: usize = s.len();
    match find_double_colon(s) {
        Some(i) => {
            let left = text::part(s, 0, i);
            let right = text::part(s, i + 2, n);
            assert(left@ =~= s@.take(i as int));
            assert(right@ =~= s@.skip(i + 2));
            let dot: usize = text::index_of(left, '.');
            proof {
                text::first_index_is_first(left@, '.');
                if dot < left@.len() {
                    assert(left@[dot as int] == '.');
                    assert(left@.contains('.'));
                }
            }
            let head = match parse_groups(left) {
                Some(g) => g,
                None => return None,
            };
            let tail = match parse_groups(right) {
                Some(g) => g,
                None => return None,
            };
            if head.len() > 7 || tail.len() > 7 || head.len() + tail.len() > 7 || dot < left.len() {
                return None;
            }
            let mut all: [u16; 8] = [0u16; 8];
            let mut k: usize = 0;
            while k < head.len()
                invariant
                    k <= head@.len() <= 7,
                    forall|j: int| 0 <= j < k ==> all@[j] == head@[j],
                    forall|j: int| k <= j < 8 ==> all@[j] == 0,
                decreases head@.len() - k,
            {
                all[k] = head[k];
                k = k + 1;
            }
            let gap: usize = 8 - tail.len();
            let mut k: usize = 0;
            while k < tail.len()
                invariant
                    k <= tail@.len(),
                    gap == 8 - tail@.len(),
                    head@.len() + tail@.len() <= 7,
                    forall|j: int| 0 <= j < head@.len() ==> all@[j] == head@[j],
                    forall|j: int| head@.len() <= j < gap ==> all@[j] == 0,
                    forall|j: int| gap <= j < gap + k ==> all@[j] == tail@[j - gap],
                decreases tail@.len() - k,
            {
                all[gap + k] = tail[k];
                k = k + 1;
            }
            assert(all@ =~= filled(head@, tail@));
            Some(Ipv6Addr(all[0], all[1], all[2], all[3], all[4], all[5], all[6], all[7]))
        },
        None => match parse_groups(s) {
            Some(g) => if g.len() == 8 {
                Some(Ipv6Addr(g[0], g[1], g[2], g[3], g[4], g[5], g[6], g[7]))
            } else {
                None
            },
            None => None,
        },
    }
}

/// The address of either family that a text writes.
pub open spec fn ip_value(s: Seq<char>) -> Option<IpAddr> {
    match ipv4_value(s) {
        Some(a) => Some(IpAddr::V4(a)),
        None => match ipv6_value(s) {
            Some(a) => Some(IpAddr::V6(a)),
            None => None,
        },
    }
}

/// The address of either family that a text writes.
pub fn parse_ip(s: &[char]) -> (r: Option<IpAddr>)
    ensures
        r == ip_value(s@),
{
    match parse_ipv4(s) {
        Some(a) => Some(IpAddr::V4(a)),
        None => match parse_ipv6(s) {
            Some(a) => Some(IpAddr::V6(a)),
            None => None,
        },
    }
}

/// A number of digits alone, not above `max`.
pub open spec fn plain_number(s: Seq<char>, max: nat) -> Option<nat> {
    match text::digits_value(s) {
        Some(v) => if v <= max {
            Some(v)
        } else {
            None
        },
        None => None,
    }
}

fn parse_plain(s: &[char], max: u64) -> (r: Option<u64>)
    ensures
        r is Some <==> plain_number(s@, max as nat) is Some,
        r matches Some(v) ==> plain_number(s@, max as nat) == Some(v as nat),
{
    if s.len() > 0 && s[0] == '+' {
        proof {
            first_must_be_digit(s@);
        }
        return None;
    }
    text::parse_number(s, max)
}

/// An IPv6 address with an optional `%` and interface index.
pub open spec fn scoped_value(s: Seq<char>) -> Option<(Ipv6Addr, u32)> {
    match text::cut(s, '%') {
        Some((ip, scope)) => match (ipv6_value(ip), plain_number(scope, u32::MAX as nat)) {
            (Some(a), Some(n)) => Some((a, n as u32)),
            _ => None,
        },
        None => match ipv6_value(s) {
            Some(a) => Some((a, 0)),
            None => None,
        },
    }
}

/// The socket address that a text writes: `a.b.c.d:port`, `[v6]:port` or
/// `[v6%index]:port`.
pub open spec fn socket_value(s: Seq<char>) -> Option<SocketAddr> {
    if s.len() > 0 && s[0] == '[' {
        match text::cut(s.skip(1), ']') {
            Some((inside, after)) => if after.len() > 0 && after[0] == ':' {
                match (scoped_value(inside), plain_number(after.skip(1), u16::MAX as nat)) {
                    (Some((ip, scope_id)), Some(port)) => Some(
                        SocketAddr::V6 { ip, port: port as u16, scope_id },
                    ),
                    _ => None,
                }
            } else {
                None
            },
            None => None,
        }
    } else {
        match text::cut(s, ':') {
            Some((ip, port)) => match (ipv4_value(ip), plain_number(port, u16::MAX as nat)) {
                (Some(a), Some(n)) => Some(SocketAddr::V4 { ip: a, port: n as u16 }),
                _ => None,
            },
            None => None,
        }
    }
}

fn parse_scoped(s: &[char]) -> (r: Option<(Ipv6Addr, u32)>)
    ensures
        r == scoped_value(s@),
{
    match text::split_once(s, '%') {
        Some((ip, scope)) => match (parse_ipv6(ip), parse_plain(scope, u32::MAX as u64)) {
            (Some(a), Some(n)) => Some((a, n as u32)),
            _ => None,
        },
        None => match parse_ipv6(s) {
            Some(a) => Some((a, 0)),
            None => None,
        },
    }
}

/// The socket address that a text writes.
pub fn parse_socket(s: &[char]) -> (r: Option<SocketAddr>)
    ensures
        r == socket_value(s@),
{
    if s.len() > 0 && s[0] == '[' {
        let rest = text::part(s, 1, s.len());
        assert(rest@ =~= s@.skip(1));
        match text::split_once(rest, ']') {
            Some((inside, after)) => {
                if after.len() > 0 && after[0] == ':' {
                    let digits = text::part(after, 1, after.len());
                    assert(digits@ =~= after@.skip(1));
                    match (parse_scoped(inside), parse_plain(digits, u16::MAX as u64)) {
                        (Some((ip, scope_id)), Some(port)) => Some(
                            SocketAddr::V6 { ip, port: port as u16, scope_id },
                        ),
                        _ => None,
                    }
                } else {
                    None
                }
            },
            None => None,
        }
    } else {
        match text::split_once(s, ':') {
            Some((ip, port)) => match (parse_ipv4(ip), parse_plain(port, u16::MAX as u64)) {
                (Some(a), Some(n)) => Some(SocketAddr::V4 { ip: a, port: n as u16 }),
                _ => None,
            },
            None => None,
        }
    }
}

// Writing.

/// The character of a hexadecimal digit, a small letter above nine.
pub open spec fn hex_char(d: nat) -> char {
    if d < 10 {
        (48 + d) as u8 as char
    } else {
        (87 + d) as u8 as char
    }
}

/// The hexadecimal digits of `n`, without leading zeros.
pub open spec fn hex(n: nat) -> Seq<char>
    decreases n,
{
    if n < 16 {
        seq![hex_char(n)]
    } else {
        hex(n / 16).push(hex_char(n % 16))
    }
}

/// Segments in hexadecimal with colons between them.
pub open spec fn groups_text(g: Seq<u16>) -> Seq<char>
    decreases g.len(),
{
    if g.len() == 0 {
        Seq::empty()
    } else if g.len() == 1 {
        hex(g[0] as nat)
    } else {
        groups_text(g.drop_last()).push(':') + hex(g.last() as nat)
    }
}

/// `n` segments from `at` on are zero.
pub open spec fn zeros(g: Seq<u16>, at: int, n: int) -> bool {
    &&& 0 <= at
    &&& 0 < n
    &&& at + n <= g.len()
    &&& forall|k: int| at <= k < at + n ==> g[k] == 0
}

/// The longest run of zero segments, and of several equally long the first.
pub open spec fn longest_zeros(g: Seq<u16>, at: int, n: int) -> bool {
    &&& zeros(g, at, n)
    &&& forall|a: int, m: int| #[trigger] zeros(g, a, m) ==> m < n || (m == n && at <= a)
}

/// Whether the address is an IPv4 address in IPv6 form.
pub open spec fn is_mapped(a: Ipv6Addr) -> bool {
    a.0 == 0 && a.1 == 0 && a.2 == 0 && a.3 == 0 && a.4 == 0 && a.5 == 0xffff
}

/// The IPv4 address inside such an address.
pub open spec fn mapped(a: Ipv6Addr) -> Ipv4Addr {
    Ipv4Addr(
        (a.6 / 256) as u8,
        (a.6 % 256) as u8,
        (a.7 / 256) as u8,
        (a.7 % 256) as u8,
    )
}

/// The IPv6 address as text: the longest run of two or more zero segments
/// becomes two colons.
pub open spec fn ipv6_text(a: Ipv6Addr) -> Seq<char> {
    let g = a.spec_segments();
    if is_mapped(a) {
        "::ffff:"@ + mapped(a).spec_text()
    } else if exists|at: int, n: int| n > 1 && #[trigger] longest_zeros(g, at, n) {
        let (at, n) = choose|at: int, n: int| n > 1 && #[trigger] longest_zeros(g, at, n);
        groups_text(g.take(at)) + "::"@ + groups_text(g.skip(at + n))
    } else {
        groups_text(g)
    }
}

fn hex_text(n: u16) -> (r: String)
    ensures
        r@ == hex(n as nat),
    decreases n,
{
    let d: u8 = (n % 16) as u8;
    let c: char = if d < 10 {
        (48 + d) as char
    } else {
        (87 + d) as char
    };
    if n < 16 {
        let mut out = String::new();
        out.push(c);
        assert(out@ =~= seq![hex_char(n as nat)]);
        out
    } else {
        let mut out = hex_text(n / 16);
        out.push(c);
        out
    }
}

fn write_groups(g: &[u16], from: usize, to: usize) -> (r: String)
    requires
        from <= to <= g@.len(),
    ensures
        r@ == groups_text(g@.subrange(from as int, to as int)),
{
    let mut out = String::new();
    let mut i: usize = from;
    proof {
        assert(g@.subrange(from as int, from as int) =~= Seq::<u16>::empty());
        assert(out@ =~= Seq::<char>::empty());
    }
    while i < to
        invariant
            from <= i <= to <= g@.len(),
            out@ == groups_text(g@.subrange(from as int, i as int)),
        decreases to - i,
    {
        let ghost next = g@.subrange(from as int, i + 1);
        assert(next.drop_last() =~= g@.subrange(from as int, i as int));
        assert(next.last() == g@[i as int]);
        if i > from {
            out.push(':');
        }
        let ghost sofar = out@;
        out.append(hex_text(g[i]).as_str());
        proof {
            if i == from {
                assert(sofar + hex(g@[i as int] as nat) =~= hex(g@[i as int] as nat));
            }
        }
        i = i + 1;
    }
    out
}

/// The longest run of zero segments.
fn find_zeros(g: &[u16; 8]) -> (r: Option<(usize, usize)>)
    ensures
        r matches Some(p) ==> longest_zeros(g@, p.0 as int, p.1 as int),
        r is None ==> forall|a: int, m: int| !#[trigger] zeros(g@, a, m),
{
    let mut best: Option<(usize, usize)> = None;
    let mut run: usize = 0;
    let mut i: usize = 0;
    while i < 8
        invariant
            i <= 8,
            run <= i,
            run > 0 ==> zeros(g@, i - run, run as int),
            run < i ==> g@[i - run - 1] != 0,
            best matches Some(p) ==> zeros(g@, p.0 as int, p.1 as int) && p.0 + p.1 <= i,
            forall|a: int, m: int|
                #[trigger] zeros(g@, a, m) && a + m <= i ==> (best matches Some(p) && (m < p.1 || (m
                    == p.1 && p.0 <= a))),
        decreases 8 - i,
    {
        let ghost was = best;
        if g[i] == 0 {
            run = run + 1;
            let from: usize = i + 1 - run;
            let longer: bool = match best {
                Some(p) => run > p.1,
                None => true,
            };
            if longer {
                best = Some((from, run));
            }
            proof {
                assert forall|a: int, m: int|
                    #[trigger] zeros(g@, a, m) && a + m <= i + 1 implies (best matches Some(p) && (m
                    < p.1 || (m == p.1 && p.0 <= a))) by {
                    if a + m == i + 1 {
                        if a < from {
                            assert(from >= 1);
                            assert(g@[from - 1] != 0);
                            assert(g@[from - 1] == 0);
                        }
                    }
                }
            }
        } else {
            run = 0;
            proof {
                assert forall|a: int, m: int|
                    #[trigger] zeros(g@, a, m) && a + m <= i + 1 implies a + m <= i by {
                    if a + m == i + 1 {
                        assert(g@[i as int] == 0);
                    }
                }
            }
        }
        i = i + 1;
    }
    best
}

impl Ipv6Addr {
    /// The address as text.
    pub fn text(&self) -> (r: String)
        ensures
            r@ == ipv6_text(*self),
    {
        let g = self.segments();
        if self.0 == 0 && self.1 == 0 && self.2 == 0 && self.3 == 0 && self.4 == 0 && self.5
            == 0xffff {
            let v4 = Ipv4Addr(
                (self.6 / 256) as u8,
                (self.6 % 256) as u8,
                (self.7 / 256) as u8,
                (self.7 % 256) as u8,
            );
            return text::cat2("::ffff:", v4.text().as_str());
        }
        match find_zeros(&g) {
            Some((at, n)) if n > 1 => {
                let mut out = write_groups(g.as_slice(), 0, at);
                out.append("::");
                out.append(write_groups(g.as_slice(), at + n, 8).as_str());
                proof {
                    let (a2, n2) = choose|a: int, m: int|
                        m > 1 && #[trigger] longest_zeros(g@, a, m);
                    assert(longest_zeros(g@, at as int, n as int));
                    assert(longest_zeros(g@, a2, n2));
                    assert(zeros(g@, at as int, n as int) && zeros(g@, a2, n2));
                    assert(a2 == at && n2 == n);
                    assert(g@.subrange(0, at as int) =~= g@.take(at as int));
                    assert(g@.subrange(at + n, 8) =~= g@.skip(at + n));
                }
                out
            },
            Some((at, n)) => {
                proof {
                    assert forall|a: int, m: int| m > 1 implies !#[trigger] longest_zeros(
                        g@,
                        a,
                        m,
                    ) by {
                        if longest_zeros(g@, a, m) {
                            assert(zeros(g@, a, m));
                        }
                    }
                    assert(g@.subrange(0, 8) =~= g@);
                }
                write_groups(g.as_slice(), 0, 8)
            },
            None => {
                proof {
                    assert forall|a: int, m: int| m > 1 implies !#[trigger] longest_zeros(
                        g@,
                        a,
                        m,
                    ) by {
                        if longest_zeros(g@, a, m) {
                            assert(zeros(g@, a, m));
                        }
                    }
                    assert(g@.subrange(0, 8) =~= g@);
                }
                write_groups(g.as_slice(), 0, 8)
            },
        }
    }
}

impl IpAddr {
    /// The address as text.
    pub open spec fn spec_text(self) -> Seq<char> {
        match self {
            IpAddr::V4(a) => a.spec_text(),
            IpAddr::V6(a) => ipv6_text(a),
        }
    }

    /// The address as text.
    pub fn text(&self) -> (r: String)
        ensures
            r@ == self.spec_text(),
    {
        match self {
            IpAddr::V4(a) => a.text(),
            IpAddr::V6(a) => a.text(),
        }
    }
}

impl SocketAddr {
    /// The socket address as text: `a.b.c.d:port`, or `[v6]:port` with `%` and
    /// the interface index inside the brackets if there is one.
    pub open spec fn spec_text(self) -> Seq<char> {
        match self {
            SocketAddr::V4 { ip, port } => ip.spec_text().push(':') + text::dec(port as nat),
            SocketAddr::V6 { ip, port, scope_id } => if scope_id == 0 {
                "["@ + ipv6_text(ip) + "]:"@ + text::dec(port as nat)
            } else {
                "["@ + ipv6_text(ip) + "%"@ + text::dec(scope_id as nat) + "]:"@ + text::dec(
                    port as nat,
                )
            },
        }
    }

    /// The socket address as text.
    pub fn text(&self) -> (r: String)
        ensures
            r@ == self.spec_text(),
    {
        match self {
            SocketAddr::V4 { ip, port } => {
                let mut out = ip.text();
                out.push(':');
                out.append(text::decimal(*port as u64).as_str());
                out
            },
            SocketAddr::V6 { ip, port, scope_id } => {
                let mut out = text::cat2("[", ip.text().as_str());
                if *scope_id != 0 {
                    out.append("%");
                    out.append(text::decimal(*scope_id as u64).as_str());
                }
                out.append("]:");
                out.append(text::decimal(*port as u64).as_str());
                out
            },
        }
    }
}

impl Endpoint {
    /// The peer's address, or the path of the port.
    pub open spec fn spec_text(self) -> Seq<char> {
        match self {
            Endpoint::Tcp(a) => a.spec_text(),
            Endpoint::Serial(path) => path@,
        }
    }

    /// The peer's address, or the path of the port.
    pub fn text(&self) -> (r: String)
        ensures
            r@ == self.spec_text(),
    {
        match self {
            Endpoint::Tcp(a) => a.text(),
            Endpoint::Serial(path) => path.clone(),
        }
    }
}

/// An address with a port has that port, and the rest of it stays with another.
pub proof fn ports_are_set(a: SocketAddr, ip: IpAddr, port: u16)
    ensures
        a.spec_with_port(port).spec_port() == port,
        a.spec_with_port(port).spec_ip() == a.spec_ip(),
        a.spec_with_port(a.spec_port()) == a,
        a is V6 <==> a.spec_with_port(port) is V6,
        SocketAddr::of(ip, port).spec_ip() == ip,
        SocketAddr::of(ip, port).spec_port() == port,
        SocketAddr::of(ip, port) matches SocketAddr::V6 { scope_id, .. } ==> scope_id == 0,
{
}

/// An endpoint is shown as its address or its path.
pub proof fn endpoints_are_shown(e: Endpoint)
    ensures
        e matches Endpoint::Tcp(a) ==> e.spec_text() == a.spec_text(),
        e matches Endpoint::Serial(p) ==> e.spec_text() == p@,
{
}

} // verus!
