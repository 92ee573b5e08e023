//! DNS upstream discovery and forwarding.
//!
//! The guest is told to use the tunnel gateway (`10.77.0.1`) as its DNS
//! server. Queries addressed to `<dns>:53` are not terminated by the
//! user-space stack like other flows; instead they are relayed to the host's
//! real resolvers:
//!
//! - explicit upstreams from the configuration, or
//! - the system resolvers, read at start-up and refreshed every 30 s
//!   ([`REFRESH_INTERVAL_MS`]). On Unix `/etc/resolv.conf` is parsed; macOS
//!   additionally falls back to `scutil --dns`; Windows parses
//!   `ipconfig /all`.
//!
//! UDP queries are tried against the upstreams in order with a per-upstream
//! timeout of [`UDP_QUERY_TIMEOUT_MS`]; TCP queries are proxied to the first
//! upstream that accepts a connection.

use crate::addresses;
use crate::net::{self, IpAddr, Ipv4Addr, SocketAddr};
use crate::text;
use vstd::prelude::*;

verus! {

/// Standard DNS port.
pub const DNS_PORT: u16 = 53;

/// How often the system resolver list is re-read, in milliseconds.
pub const REFRESH_INTERVAL_MS: u64 = 30_000;

/// Per-upstream wait for a UDP answer before trying the next one, in
/// milliseconds.
pub const UDP_QUERY_TIMEOUT_MS: u64 = 2_000;

/// Per-upstream TCP connect timeout, in milliseconds.
pub const TCP_CONNECT_TIMEOUT_MS: u64 = 5_000;

/// The indices of the network interfaces by name.
#[derive(Debug)]
pub struct ScopeTable {
    pub entries: Vec<(String, u32)>,
}

/// The index of the first entry with the given name.
pub open spec fn index_named(entries: Seq<(String, u32)>, name: Seq<char>) -> Option<u32>
    decreases entries.len(),
{
    if entries.len() == 0 {
        None
    } else if entries[0].0@ == name {
        Some(entries[0].1)
    } else {
        index_named(entries.skip(1), name)
    }
}

impl ScopeTable {
    /// The index of the interface called `name`.
    pub fn find(&self, name: &[char]) -> (r: Option<u32>)
        ensures
            r == index_named(self.entries@, name@),
    {
        let mut i: usize = 0;
        assert(self.entries@.skip(0) =~= self.entries@);
        while i < self.entries.len()
            invariant
                i <= self.entries@.len(),
                index_named(self.entries@, name@) == index_named(
                    self.entries@.skip(i as int),
                    name@,
                ),
            decreases self.entries@.len() - i,
        {
            let ghost rest = self.entries@.skip(i as int);
            assert(rest[0] == self.entries@[i as int]);
            if text::is(name, self.entries[i].0.as_str()) {
                return Some(self.entries[i].1);
            }
            assert(rest.skip(1) =~= self.entries@.skip(i + 1));
            i = i + 1;
        }
        None
    }
}

/// Public resolvers used only when no system resolver can be found.
pub open spec fn fallback() -> Seq<SocketAddr> {
    seq![
        SocketAddr::V4 { ip: Ipv4Addr(1, 1, 1, 1), port: DNS_PORT },
        SocketAddr::V4 { ip: Ipv4Addr(8, 8, 8, 8), port: DNS_PORT },
    ]
}

/// Public resolvers used only when no system resolver can be found.
pub fn fallback_upstreams() -> (r: Vec<SocketAddr>)
    ensures
        r@ == fallback(),
{
    let r = vec![
        SocketAddr::V4 { ip: Ipv4Addr(1, 1, 1, 1), port: DNS_PORT },
        SocketAddr::V4 { ip: Ipv4Addr(8, 8, 8, 8), port: DNS_PORT },
    ];
    assert(r@ =~= fallback());
    r
}

/// Each address once, where it first occurs.
pub open spec fn deduped(s: Seq<SocketAddr>) -> Seq<SocketAddr>
    decreases s.len(),
{
    if s.len() == 0 {
        s
    } else {
        let front = deduped(s.drop_last());
        if front.contains(s.last()) {
            front
        } else {
            front.push(s.last())
        }
    }
}

/// Whether `list` holds `a`.
fn holds_addr(list: &Vec<SocketAddr>, a: &SocketAddr) -> (r: bool)
    ensures
        r == list@.contains(*a),
{
    let mut i: usize = 0;
    while i < list.len()
        invariant
            i <= list@.len(),
            forall|k: int| 0 <= k < i ==> list@[k] != *a,
        decreases list@.len() - i,
    {
        if list[i] == *a {
            assert(list@[i as int] == *a);
            return true;
        }
        i = i + 1;
    }
    false
}

/// Keeps each address once, where it first occurs.
pub fn dedup(list: &mut Vec<SocketAddr>)
    ensures
        final(list)@ == deduped(old(list)@),
{
    let mut out: Vec<SocketAddr> = Vec::new();
    let mut i: usize = 0;
    let ghost all = list@;
    assert(all.take(0) =~= Seq::<SocketAddr>::empty());
    while i < list.len()
        invariant
            list@ == all,
            i <= all.len(),
            out@ == deduped(all.take(i as int)),
        decreases all.len() - i,
    {
        let a = list[i];
        assert(all.take(i + 1).drop_last() =~= all.take(i as int));
        assert(all.take(i + 1).last() == a);
        if !holds_addr(&out, &a) {
            out.push(a);
        }
        i = i + 1;
    }
    assert(all.take(i as int) =~= all);
    *list = out;
}

/// The list keeps exactly the addresses that it had, none of them twice.
pub proof fn dedup_keeps_every_address_once(s: Seq<SocketAddr>)
    ensures
        deduped(s).no_duplicates(),
        forall|a: SocketAddr|
            #![trigger deduped(s).contains(a)]
            #![trigger s.contains(a)]
            deduped(s).contains(a) <==> s.contains(a),
    decreases s.len(),
{
    if s.len() > 0 {
        let front = s.drop_last();
        dedup_keeps_every_address_once(front);
        let d = deduped(front);
        assert forall|a: SocketAddr| deduped(s).contains(a) <==> s.contains(a) by {
            if s.contains(a) {
                let k = choose|k: int| 0 <= k < s.len() && s[k] == a;
                if k < s.len() - 1 {
                    assert(front[k] == a);
                    assert(front.contains(a));
                    assert(deduped(front).contains(a));
                    let j = choose|j: int| 0 <= j < d.len() && d[j] == a;
                    assert(deduped(s)[j] == a);
                } else if !d.contains(a) {
                    assert(deduped(s)[d.len() as int] == a);
                }
            }
            if deduped(s).contains(a) {
                let j = choose|j: int| 0 <= j < deduped(s).len() && deduped(s)[j] == a;
                if j < d.len() {
                    assert(d[j] == a);
                    assert(deduped(front).contains(a));
                    assert(front.contains(a));
                    let k = choose|k: int| 0 <= k < front.len() && front[k] == a;
                    assert(s[k] == a);
                } else {
                    assert(s[s.len() - 1] == a);
                }
            }
        }
        if !d.contains(s.last()) {
            assert forall|i: int, j: int|
                0 <= i < deduped(s).len() && 0 <= j < deduped(s).len() && i != j implies deduped(
                s,
            )[i] != deduped(s)[j] by {
                if i == d.len() {
                    assert(d.contains(d[j]));
                } else if j == d.len() {
                    assert(d.contains(d[i]));
                }
            }
        }
    }
}

// Reading resolver lists.

/// `s` without the `c`s at its start.
pub open spec fn strip_front(s: Seq<char>, c: char) -> Seq<char>
    decreases s.len(),
{
    if s.len() > 0 && s[0] == c {
        strip_front(s.skip(1), c)
    } else {
        s
    }
}

/// `s` without the `a`s and `b`s at its end.
pub open spec fn strip_back(s: Seq<char>, a: char, b: char) -> Seq<char>
    decreases s.len(),
{
    if s.len() > 0 && (s.last() == a || s.last() == b) {
        strip_back(s.drop_last(), a, b)
    } else {
        s
    }
}

fn drop_front<'a>(s: &'a [char], c: char) -> (r: &'a [char])
    ensures
        r@ == strip_front(s@, c),
{
    let mut from: usize = 0;
    assert(s@.skip(0) =~= s@);
    while from < s.len() && s[from] == c
        invariant
            from <= s@.len(),
            strip_front(s@, c) == strip_front(s@.skip(from as int), c),
        decreases s@.len() - from,
    {
        assert(s@.skip(from as int).skip(1) =~= s@.skip(from + 1));
        from = from + 1;
    }
    let r = text::part(s, from, s.len());
    assert(r@ =~= s@.skip(from as int));
    r
}

fn drop_back<'a>(s: &'a [char], a: char, b: char) -> (r: &'a [char])
    ensures
        r@ == strip_back(s@, a, b),
{
    let mut to: usize = s.len();
    assert(s@.take(to as int) =~= s@);
    while to > 0 && (s[to - 1] == a || s[to - 1] == b)
        invariant
            to <= s@.len(),
            strip_back(s@, a, b) == strip_back(s@.take(to as int), a, b),
        decreases to,
    {
        assert(s@.take(to as int).drop_last() =~= s@.take(to - 1));
        to = to - 1;
    }
    let r = text::part(s, 0, to);
    assert(r@ =~= s@.take(to as int));
    r
}

/// The interface index that a scope names: a number, or an interface's name.
pub open spec fn scope_index(scope: Seq<char>, table: Seq<(String, u32)>) -> Option<u32> {
    match text::number_upto(scope, u32::MAX as nat) {
        Some(n) => Some(n as u32),
        None => index_named(table, scope),
    }
}

/// The interface index that a scope names.
pub fn scope_to_index(scope: &[char], table: &ScopeTable) -> (r: Option<u32>)
    ensures
        r == scope_index(scope@, table.entries@),
{
    match text::parse_number(scope, u32::MAX as u64) {
        Some(n) => Some(n as u32),
        None => table.find(scope),
    }
}

/// What a nameserver token stands for.
pub open spec fn nameserver(token: Seq<char>, table: Seq<(String, u32)>) -> Option<SocketAddr> {
    let t = text::trimmed(token);
    let (host, scope) = match text::cut(t, '%') {
        Some((h, s)) => (h, Some(s)),
        None => (t, None),
    };
    let bare = strip_back(strip_front(host, '['), ']', ']');
    if t.len() == 0 {
        None
    } else if net::socket_value(t) is Some {
        net::socket_value(t)
    } else if net::ipv4_value(bare) is Some {
        Some(SocketAddr::V4 { ip: net::ipv4_value(bare)->0, port: DNS_PORT })
    } else if net::ipv6_value(bare) is Some {
        let scope_id = match scope {
            Some(s) => match scope_index(s, table) {
                Some(i) => i,
                None => 0,
            },
            None => 0,
        };
        Some(SocketAddr::V6 { ip: net::ipv6_value(bare)->0, port: DNS_PORT, scope_id })
    } else {
        match text::cut(t, '#') {
            Some((h, p)) => match (net::ip_value(h), text::number_upto(p, u16::MAX as nat)) {
                (Some(ip), Some(port)) => Some(SocketAddr::of(ip, port as u16)),
                _ => None,
            },
            None => None,
        }
    }
}

fn nameserver_of(token: &[char], table: &ScopeTable) -> (r: Option<SocketAddr>)
    ensures
        r == nameserver(token@, table.entries@),
{
    let t = text::trim(token);
    if t.len() == 0 {
        return None;
    }
    if let Some(sa) = net::parse_socket(t) {
        return Some(sa);
    }
    // `[v6]` without port, or `v6%scope`.
    let (host, scope) = match text::split_once(t, '%') {
        Some((h, s)) => (h, Some(s)),
        None => (t, None),
    };
    let bare = drop_back(drop_front(host, '['), ']', ']');
    if let Some(ip) = net::parse_ipv4(bare) {
        return Some(SocketAddr::V4 { ip, port: DNS_PORT });
    }
    if let Some(ip) = net::parse_ipv6(bare) {
        let scope_id: u32 = match scope {
            Some(s) => match scope_to_index(s, table) {
                Some(i) => i,
                None => 0,
            },
            None => 0,
        };
        return Some(SocketAddr::V6 { ip, port: DNS_PORT, scope_id });
    }
    // Some formats put the port after a `#` (dnsmasq / resolvectl style).

    match text::split_once(t, '#') {
        Some((h, p)) => match (net::parse_ip(h), text::parse_number(p, u16::MAX as u64)) {
            (Some(ip), Some(port)) => Some(SocketAddr::new(ip, port as u16)),
            _ => None,
        },
        None => None,
    }
}

/// Parse a nameserver token such as `8.8.8.8`, `fe80::1%en0`, `[::1]:5353`
/// or `1.1.1.1:5353` into a socket address (default port 53).
pub fn parse_nameserver(token: &str, table: &ScopeTable) -> (r: Option<SocketAddr>)
    ensures
        r == nameserver(token@, table.entries@),
{
    let c = text::chars(token);
    nameserver_of(c.as_slice(), table)
}

/// The nameserver that one line of `/etc/resolv.conf` names.
pub open spec fn resolv_conf_line(
    line: Seq<char>,
    table: Seq<(String, u32)>,
) -> Option<SocketAddr> {
    let a = line.take(text::first_index(line, '#'));
    let w = text::words_of(text::trimmed(a.take(text::first_index(a, ';'))));
    if w.len() >= 2 && w[0] == "nameserver"@ {
        nameserver(w[1], table)
    } else {
        None
    }
}

/// The nameservers that lines of `/etc/resolv.conf` name, in order.
pub open spec fn resolv_conf_lines(
    lines: Seq<Seq<char>>,
    table: Seq<(String, u32)>,
) -> Seq<SocketAddr>
    decreases lines.len(),
{
    if lines.len() == 0 {
        Seq::empty()
    } else {
        let before = resolv_conf_lines(lines.drop_last(), table);
        match resolv_conf_line(lines.last(), table) {
            Some(a) => before.push(a),
            None => before,
        }
    }
}

/// Parse `/etc/resolv.conf` content: every `nameserver` directive, in order.
pub fn parse_resolv_conf(content: &str, table: &ScopeTable) -> (r: Vec<SocketAddr>)
    ensures
        r@ == deduped(resolv_conf_lines(text::lines_of(content@), table.entries@)),
{
    let c = text::chars(content);
    let lines = text::lines(c.as_slice());
    let ghost all = text::texts(lines@);
    let mut out: Vec<SocketAddr> = Vec::new();
    let mut i: usize = 0;
    assert(all.take(0) =~= Seq::<Seq<char>>::empty());
    while i < lines.len()
        invariant
            all == text::texts(lines@),
            i <= lines@.len(),
            out@ == resolv_conf_lines(all.take(i as int), table.entries@),
        decreases lines@.len() - i,
    {
        let raw = lines[i];
        proof {
            assert(all.take(i + 1).drop_last() =~= all.take(i as int));
            assert(all.take(i + 1).last() == raw@);
        }
        i = i + 1;
        let a = text::part(raw, 0, text::index_of(raw, '#'));
        let b = text::part(a, 0, text::index_of(a, ';'));
        proof {
            assert(a@ =~= raw@.take(text::first_index(raw@, '#')));
            assert(b@ =~= a@.take(text::first_index(a@, ';')));
        }
        let w = text::words(text::trim(b));
        let ghost tw = text::texts(w@);
        if w.len() < 2 {
            continue;
        }
        assert(tw[0] == w@[0]@ && tw[1] == w@[1]@);
        if !text::is(w[0], "nameserver") {
            continue;
        }
        if let Some(sa) = nameserver_of(w[1], table) {
            out.push(sa);
        }
    }
    assert(all.take(i as int) =~= all);
    dedup(&mut out);
    out
}

/// Where the reading of `scutil --dns` output stands.
pub struct ScutilState {
    /// Resolvers of the blocks that have ended.
    pub out: Seq<SocketAddr>,
    /// Resolvers of the open block.
    pub current: Seq<SocketAddr>,
    /// Port of the open block, if it names one.
    pub port: Option<u16>,
    pub in_section: bool,
    pub in_resolver: bool,
    /// The second section has begun: nothing counts any more.
    pub over: bool,
}

/// The open block ends: its resolvers are listed, with its port if it has one.
pub open spec fn scutil_flush(st: ScutilState) -> ScutilState {
    ScutilState {
        out: st.out + match st.port {
            Some(p) => st.current.map_values(|a: SocketAddr| a.spec_with_port(p)),
            None => st.current,
        },
        current: Seq::empty(),
        port: None,
        ..st
    }
}

/// What a line does.
pub open spec fn scutil_step(
    st: ScutilState,
    raw: Seq<char>,
    table: Seq<(String, u32)>,
) -> ScutilState {
    let line = text::trimmed(raw);
    if st.over {
        st
    } else if text::begins(line, "DNS configuration"@) {
        if st.in_section {
            ScutilState { over: true, ..st }
        } else {
            ScutilState { in_section: true, ..st }
        }
    } else if !st.in_section {
        st
    } else if text::begins(line, "resolver #"@) {
        ScutilState { in_resolver: true, ..scutil_flush(st) }
    } else if !st.in_resolver {
        st
    } else if text::without_prefix(line, "nameserver["@) is Some {
        match text::cut(text::without_prefix(line, "nameserver["@)->0, ':') {
            Some((_, value)) => match nameserver(value, table) {
                Some(a) => ScutilState { current: st.current.push(a), ..st },
                None => st,
            },
            None => st,
        }
    } else if text::without_prefix(line, "port"@) is Some {
        match text::cut(text::without_prefix(line, "port"@)->0, ':') {
            Some((_, value)) => ScutilState {
                port: match text::number_upto(text::trimmed(value), u16::MAX as nat) {
                    Some(p) => Some(p as u16),
                    None => None,
                },
                ..st
            },
            None => st,
        }
    } else {
        st
    }
}

/// Where the reading stands after some lines.
pub open spec fn scutil_run(lines: Seq<Seq<char>>, table: Seq<(String, u32)>) -> ScutilState
    decreases lines.len(),
{
    if lines.len() == 0 {
        ScutilState {
            out: Seq::empty(),
            current: Seq::empty(),
            port: None,
            in_section: false,
            in_resolver: false,
            over: false,
        }
    } else {
        scutil_step(scutil_run(lines.drop_last(), table), lines.last(), table)
    }
}

/// Once the second section has begun, the rest does not count.
proof fn scutil_over(lines: Seq<Seq<char>>, n: int, table: Seq<(String, u32)>)
    requires
        0 <= n <= lines.len(),
        scutil_run(lines.take(n), table).over,
    ensures
        scutil_run(lines, table) == scutil_run(lines.take(n), table),
    decreases lines.len(),
{
    if n < lines.len() {
        assert(lines.drop_last().take(n) =~= lines.take(n));
        scutil_over(lines.drop_last(), n, table);
    } else {
        assert(lines.take(n) =~= lines);
    }
}

fn flush_block(current: &mut Vec<SocketAddr>, port: &mut Option<u16>, out: &mut Vec<SocketAddr>)
    ensures
        final(current)@ == Seq::<SocketAddr>::empty(),
        *final(port) == None::<u16>,
        final(out)@ == old(out)@ + match *old(port) {
            Some(p) => old(current)@.map_values(|a: SocketAddr| a.spec_with_port(p)),
            None => old(current)@,
        },
{
    let ghost block = current@;
    let ghost before = out@;
    let ghost listed = match *port {
        Some(p) => block.map_values(|a: SocketAddr| a.spec_with_port(p)),
        None => block,
    };
    let chosen: Option<u16> = *port;
    let mut i: usize = 0;
    while i < current.len()
        invariant
            current@ == block,
            i <= block.len(),
            listed == (match chosen {
                Some(p) => block.map_values(|a: SocketAddr| a.spec_with_port(p)),
                None => block,
            }),
            out@ == before + listed.take(i as int),
        decreases block.len() - i,
    {
        let a = current[i];
        let b = match chosen {
            Some(p) => a.with_port(p),
            None => a,
        };
        out.push(b);
        assert(listed.take(i + 1) =~= listed.take(i as int).push(b));
        assert(out@ =~= before + listed.take(i + 1));
        i = i + 1;
    }
    assert(listed.take(i as int) =~= listed);
    current.clear();
    *port = None;
}

/// Parse `scutil --dns` output (macOS). Only the unscoped resolvers of the
/// first "DNS configuration" section are used, in resolver order; entries
/// carrying a `port` line honour that port.
pub fn parse_scutil_dns(content: &str, table: &ScopeTable) -> (r: Vec<SocketAddr>)
    ensures
        r@ == deduped(
            scutil_flush(scutil_run(text::lines_of(content@), table.entries@)).out,
        ),
{
    let c = text::chars(content);
    let lines = text::lines(c.as_slice());
    let ghost all = text::texts(lines@);
    let mut out: Vec<SocketAddr> = Vec::new();
    let mut in_section: bool = false;
    let mut in_resolver: bool = false;
    let mut current: Vec<SocketAddr> = Vec::new();
    let mut port: Option<u16> = None;
    let mut i: usize = 0;
    assert(all.take(0) =~= Seq::<Seq<char>>::empty());
    assert(out@ =~= Seq::<SocketAddr>::empty());
    assert(current@ =~= Seq::<SocketAddr>::empty());
    assert(all.take(lines@.len() as int) =~= all);
    while i < lines.len()
        invariant_except_break
            scutil_run(all.take(i as int), table.entries@) == (ScutilState {
                out: out@,
                current: current@,
                port,
                in_section,
                in_resolver,
                over: false,
            }),
        invariant
            all == text::texts(lines@),
            all.take(lines@.len() as int) == all,
            i <= lines@.len(),
        ensures
            ({
                let st = scutil_run(all, table.entries@);
                st.out == out@ && st.current == current@ && st.port == port
            }),
        decreases lines@.len() - i,
    {
        let line = text::trim(lines[i]);
        proof {
            assert(all.take(i + 1).drop_last() =~= all.take(i as int));
            assert(all.take(i + 1).last() == lines@[i as int]@);
        }
        i = i + 1;
        if text::begins_with(line, "DNS configuration") {
            if in_section {
                // Second section = scoped queries; stop here.
                proof {
                    scutil_over(all, i as int, table.entries@);
                }
                break;
            }
            in_section = true;
        } else if !in_section {
        } else if text::begins_with(line, "resolver #") {
            flush_block(&mut current, &mut port, &mut out);
            in_resolver = true;
        } else if !in_resolver {
        } else if let Some(rest) = text::strip_prefix(line, "nameserver[") {
            if let Some((_, value)) = text::split_once(rest, ':') {
                if let Some(sa) = nameserver_of(value, table) {
                    current.push(sa);
                }
            }
        } else if let Some(rest) = text::strip_prefix(line, "port") {
            if let Some((_, value)) = text::split_once(rest, ':') {
                port = match text::parse_number(text::trim(value), u16::MAX as u64) {
                    Some(p) => Some(p as u16),
                    None => None,
                };
            }
        }
    }
    flush_block(&mut current, &mut port, &mut out);
    dedup(&mut out);
    out
}

/// Where the reading of `ipconfig /all` output stands: the resolvers so far,
/// and whether the line before could have another one below it.
pub struct IpconfigState {
    pub out: Seq<SocketAddr>,
    pub in_dns: bool,
}

/// A key that introduces resolvers, in any case.
pub open spec fn is_dns_key(key: Seq<char>) -> bool {
    let k = text::lowered(text::trimmed(strip_back(key, '.', ' ')));
    k == text::lowered("DNS Servers"@) || k == text::lowered("DNS-Server"@)
}

/// What a line does.
pub open spec fn ipconfig_step(
    st: IpconfigState,
    raw: Seq<char>,
    table: Seq<(String, u32)>,
) -> IpconfigState {
    let line = text::trimmed(raw);
    if line.len() == 0 {
        IpconfigState { in_dns: false, ..st }
    } else if st.in_dns && nameserver(line, table) is Some {
        IpconfigState { out: st.out.push(nameserver(line, table)->0), in_dns: true }
    } else {
        match text::cut(line, ':') {
            Some((key, value)) => if is_dns_key(key) {
                IpconfigState {
                    out: match nameserver(value, table) {
                        Some(a) => st.out.push(a),
                        None => st.out,
                    },
                    in_dns: true,
                }
            } else {
                IpconfigState { in_dns: false, ..st }
            },
            None => IpconfigState { in_dns: false, ..st },
        }
    }
}

/// Where the reading stands after some lines.
pub open spec fn ipconfig_run(lines: Seq<Seq<char>>, table: Seq<(String, u32)>) -> IpconfigState
    decreases lines.len(),
{
    if lines.len() == 0 {
        IpconfigState { out: Seq::empty(), in_dns: false }
    } else {
        ipconfig_step(ipconfig_run(lines.drop_last(), table), lines.last(), table)
    }
}

fn dns_key(key: &[char]) -> (r: bool)
    ensures
        r == is_dns_key(key@),
{
    let k = text::lower(text::trim(drop_back(key, '.', ' ')));
    let a = text::lower(text::chars("DNS Servers").as_slice());
    let b = text::lower(text::chars("DNS-Server").as_slice());
    text::equal(k.as_slice(), a.as_slice()) || text::equal(k.as_slice(), b.as_slice())
}

/// Parse `ipconfig /all` output (Windows): `DNS Servers . . . : a.b.c.d`
/// followed by continuation lines holding only an address.
pub fn parse_ipconfig_all(content: &str, table: &ScopeTable) -> (r: Vec<SocketAddr>)
    ensures
        r@ == deduped(ipconfig_run(text::lines_of(content@), table.entries@).out),
{
    let c = text::chars(content);
    let lines = text::lines(c.as_slice());
    let ghost all = text::texts(lines@);
    let mut out: Vec<SocketAddr> = Vec::new();
    let mut in_dns: bool = false;
    let mut i: usize = 0;
    assert(all.take(0) =~= Seq::<Seq<char>>::empty());
    assert(out@ =~= Seq::<SocketAddr>::empty());
    while i < lines.len()
        invariant
            all == text::texts(lines@),
            i <= lines@.len(),
            ipconfig_run(all.take(i as int), table.entries@) == (IpconfigState {
                out: out@,
                in_dns,
            }),
        decreases lines@.len() - i,
    {
        let line = text::trim(lines[i]);
        proof {
            assert(all.take(i + 1).drop_last() =~= all.take(i as int));
            assert(all.take(i + 1).last() == lines@[i as int]@);
        }
        i = i + 1;
        if line.len() == 0 {
            in_dns = false;
            continue;
        }
        // Continuation line: just an address.
        if in_dns {
            if let Some(sa) = nameserver_of(line, table) {
                out.push(sa);
                continue;
            }
        }
        in_dns = false;
        // `DNS Servers . . . . : <addr>` (any locale that keeps the English key).
        if let Some((key, value)) = text::split_once(line, ':') {
            if dns_key(key) {
                in_dns = true;
                if let Some(sa) = nameserver_of(value, table) {
                    out.push(sa);
                }
            }
        }
    }
    assert(all.take(i as int) =~= all);
    dedup(&mut out);
    out
}

/// The system resolvers: those of `/etc/resolv.conf`, and if it names none,
/// those of `scutil --dns` where that was run.
pub open spec fn resolvers(
    resolv_conf: Option<Seq<char>>,
    scutil: Option<Seq<char>>,
    table: Seq<(String, u32)>,
) -> Seq<SocketAddr> {
    let listed = match resolv_conf {
        Some(t) => deduped(resolv_conf_lines(text::lines_of(t), table)),
        None => Seq::empty(),
    };
    match scutil {
        Some(t) => if listed.len() == 0 {
            deduped(scutil_flush(scutil_run(text::lines_of(t), table)).out)
        } else {
            listed
        },
        None => listed,
    }
}

/// The characters of a string that may be missing.
pub open spec fn view_of(s: Option<&str>) -> Option<Seq<char>> {
    match s {
        Some(t) => Some(t@),
        None => None,
    }
}

/// The system resolvers, from what the platform's mechanisms printed.
pub fn system_resolvers(
    resolv_conf: Option<&str>,
    scutil: Option<&str>,
    table: &ScopeTable,
) -> (r: Vec<SocketAddr>)
    ensures
        r@ == resolvers(view_of(resolv_conf), view_of(scutil), table.entries@),
{
    let listed = match resolv_conf {
        Some(t) => parse_resolv_conf(t, table),
        None => Vec::new(),
    };
    match scutil {
        Some(t) => if listed.len() == 0 {
            parse_scutil_dns(t, table)
        } else {
            listed
        },
        None => listed,
    }
}

// The list in use.

/// What remains of a resolver list: without the excluded addresses and
/// without repetitions, or the public resolvers if nothing remains.
pub open spec fn usable(list: Seq<SocketAddr>, excluded: Seq<IpAddr>) -> Seq<SocketAddr> {
    let kept = deduped(list.filter(|a: SocketAddr| !excluded.contains(a.spec_ip())));
    if kept.len() == 0 {
        fallback()
    } else {
        kept
    }
}

/// Refreshable list of upstream resolvers.
#[derive(Debug)]
pub struct Upstreams {
    list: Vec<SocketAddr>,
    excluded: Vec<IpAddr>,
    fixed: bool,
}

impl Upstreams {
    /// The resolvers in use.
    pub closed spec fn spec_list(&self) -> Seq<SocketAddr> {
        self.list@
    }

    /// Addresses that must never be used as upstream (the tunnel's own DNS /
    /// gateway address, which would loop back into this forwarder).
    pub closed spec fn spec_excluded(&self) -> Seq<IpAddr> {
        self.excluded@
    }

    /// Whether the list came from the configuration.
    pub closed spec fn spec_fixed(&self) -> bool {
        self.fixed
    }

    /// Fixed list supplied by configuration (never refreshed).
    pub fn fixed(list: Vec<SocketAddr>, excluded: Vec<IpAddr>) -> (r: Self)
        ensures
            r.spec_fixed(),
            r.spec_excluded() == excluded@,
            r.spec_list() == usable(list@, excluded@),
    {
        let mut s = Upstreams { list: Vec::new(), excluded, fixed: true };
        let _ = s.set(list);
        s
    }

    /// The system resolvers as they are now; call
    /// [`refresh`](Self::refresh) periodically to pick up changes.
    pub fn from_system(list: Vec<SocketAddr>, excluded: Vec<IpAddr>) -> (r: Self)
        ensures
            !r.spec_fixed(),
            r.spec_excluded() == excluded@,
            r.spec_list() == usable(list@, excluded@),
    {
        let mut s = Upstreams { list: Vec::new(), excluded, fixed: false };
        let _ = s.refresh(list);
        s
    }

    /// Whether the list is fixed (no refresh needed).
    pub fn is_fixed(&self) -> (r: bool)
        ensures
            r == self.spec_fixed(),
    {
        self.fixed
    }

    /// Current snapshot.
    pub fn get(&self) -> (r: Vec<SocketAddr>)
        ensures
            r@ == self.spec_list(),
    {
        copy_list(&self.list)
    }

    /// Take over the system resolvers (no-op for fixed lists). Returns `true`
    /// if the list changed.
    pub fn refresh(&mut self, list: Vec<SocketAddr>) -> (r: bool)
        ensures
            final(self).spec_fixed() == old(self).spec_fixed(),
            final(self).spec_excluded() == old(self).spec_excluded(),
            final(self).spec_list() == if old(self).spec_fixed() {
                old(self).spec_list()
            } else {
                usable(list@, old(self).spec_excluded())
            },
            r == (final(self).spec_list() != old(self).spec_list()),
    {
        if self.fixed {
            return false;
        }
        self.set(list)
    }

    fn set(&mut self, list: Vec<SocketAddr>) -> (r: bool)
        ensures
            final(self).spec_fixed() == old(self).spec_fixed(),
            final(self).spec_excluded() == old(self).spec_excluded(),
            final(self).spec_list() == usable(list@, old(self).spec_excluded()),
            r == (final(self).spec_list() != old(self).spec_list()),
    {
        reveal(Seq::filter);
        let ghost p = |a: SocketAddr| !self.excluded@.contains(a.spec_ip());
        let mut kept: Vec<SocketAddr> = Vec::new();
        let mut i: usize = 0;
        assert(list@.take(0) =~= Seq::<SocketAddr>::empty());
        while i < list.len()
            invariant
                i <= list@.len(),
                p == (|a: SocketAddr| !self.excluded@.contains(a.spec_ip())),
                kept@ == list@.take(i as int).filter(p),
            decreases list@.len() - i,
        {
            let a = list[i];
            proof {
                reveal(Seq::filter);
                assert(list@.take(i + 1).drop_last() =~= list@.take(i as int));
                assert(list@.take(i + 1).last() == a);
            }
            if !holds_ip(&self.excluded, &a.ip()) {
                kept.push(a);
            }
            i = i + 1;
        }
        assert(list@.take(i as int) =~= list@);
        dedup(&mut kept);
        if kept.len() == 0 {
            kept = fallback_upstreams();
        }
        if same_list(&self.list, &kept) {
            return false;
        }
        self.list = kept;
        true
    }
}

fn holds_ip(list: &Vec<IpAddr>, a: &IpAddr) -> (r: bool)
    ensures
        r == list@.contains(*a),
{
    let mut i: usize = 0;
    while i < list.len()
        invariant
            i <= list@.len(),
            forall|k: int| 0 <= k < i ==> list@[k] != *a,
        decreases list@.len() - i,
    {
        if list[i] == *a {
            assert(list@[i as int] == *a);
            return true;
        }
        i = i + 1;
    }
    false
}

fn same_list(a: &Vec<SocketAddr>, b: &Vec<SocketAddr>) -> (r: bool)
    ensures
        r == (a@ == b@),
{
    if a.len() != b.len() {
        return false;
    }
    let mut i: usize = 0;
    while i < a.len()
        invariant
            a@.len() == b@.len(),
            i <= a@.len(),
            forall|k: int| 0 <= k < i ==> a@[k] == b@[k],
        decreases a@.len() - i,
    {
        if a[i] != b[i] {
            return false;
        }
        i = i + 1;
    }
    assert(a@ =~= b@);
    true
}

fn copy_list(a: &Vec<SocketAddr>) -> (r: Vec<SocketAddr>)
    ensures
        r@ == a@,
{
    let mut out: Vec<SocketAddr> = Vec::new();
    let mut i: usize = 0;
    while i < a.len()
        invariant
            i <= a@.len(),
            out@ == a@.take(i as int),
        decreases a@.len() - i,
    {
        out.push(a[i]);
        assert(a@.take(i + 1) =~= a@.take(i as int).push(a@[i as int]));
        i = i + 1;
    }
    assert(a@.take(i as int) =~= a@);
    out
}

/// There is always an upstream, none of them is listed twice, and unless the
/// public resolvers stand in, none is an excluded address: the forwarder never
/// asks itself.
pub proof fn upstreams_are_usable(list: Seq<SocketAddr>, excluded: Seq<IpAddr>)
    ensures
        usable(list, excluded).len() > 0,
        usable(list, excluded).no_duplicates(),
        usable(list, excluded) == fallback() || forall|i: int|
            0 <= i < usable(list, excluded).len() ==> !excluded.contains(
                (#[trigger] usable(list, excluded)[i]).spec_ip(),
            ) && list.contains(usable(list, excluded)[i]),
{
    let p = |a: SocketAddr| !excluded.contains(a.spec_ip());
    let kept = list.filter(p);
    dedup_keeps_every_address_once(kept);
    let d = deduped(kept);
    if d.len() > 0 {
        assert forall|i: int| 0 <= i < d.len() implies !excluded.contains(
            (#[trigger] d[i]).spec_ip(),
        ) && list.contains(d[i]) by {
            assert(d.contains(d[i]));
            assert(kept.contains(d[i]));
            let k = choose|k: int| 0 <= k < kept.len() && kept[k] == d[i];
            list.lemma_filter_pred(p, k);
            list.lemma_filter_contains_rev(p, d[i]);
        }
    }
}

/// A list without repetitions and without excluded addresses is used as it is.
pub proof fn a_usable_list_stays(list: Seq<SocketAddr>, excluded: Seq<IpAddr>)
    requires
        list.len() > 0,
        list.no_duplicates(),
        forall|i: int| 0 <= i < list.len() ==> !excluded.contains((#[trigger] list[i]).spec_ip()),
    ensures
        usable(list, excluded) == list,
{
    let p = |a: SocketAddr| !excluded.contains(a.spec_ip());
    all_pass(list, p);
    unique_stays(list);
}

proof fn all_pass(list: Seq<SocketAddr>, p: spec_fn(SocketAddr) -> bool)
    requires
        forall|i: int| 0 <= i < list.len() ==> p(#[trigger] list[i]),
    ensures
        list.filter(p) == list,
    decreases list.len(),
{
    reveal(Seq::filter);
    if list.len() > 0 {
        let front = list.drop_last();
        assert forall|i: int| 0 <= i < front.len() implies p(#[trigger] front[i]) by {
            assert(front[i] == list[i]);
        }
        all_pass(front, p);
        assert(p(list[list.len() - 1]));
        assert(front.push(list.last()) =~= list);
    }
}

proof fn unique_stays(list: Seq<SocketAddr>)
    requires
        list.no_duplicates(),
    ensures
        deduped(list) == list,
    decreases list.len(),
{
    if list.len() > 0 {
        let front = list.drop_last();
        unique_stays(front);
        if front.contains(list.last()) {
            let k = choose|k: int| 0 <= k < front.len() && front[k] == list.last();
            assert(list[k] == list[list.len() - 1]);
        }
        assert(front.push(list.last()) =~= list);
    }
}

// Asking the upstreams one after another.

/// The upstreams of one query, asked in order until one answers.
#[derive(Debug)]
pub struct Attempts {
    upstreams: Vec<SocketAddr>,
    next: usize,
    last_error: String,
}

impl Attempts {
    /// The upstreams that were not asked yet, in order.
    pub closed spec fn left(&self) -> Seq<SocketAddr> {
        self.upstreams@.skip(self.next as int)
    }

    /// What is reported if no upstream answers.
    pub closed spec fn spec_error(&self) -> Seq<char> {
        self.last_error@
    }

    /// The position is inside the list.
    pub closed spec fn wf(&self) -> bool {
        self.next <= self.upstreams@.len()
    }

    /// A UDP query: with no upstream at all, that is the error; otherwise the
    /// error is a timeout unless an upstream fails in another way.
    pub fn udp(upstreams: Vec<SocketAddr>) -> (r: Self)
        ensures
            r.wf(),
            r.left() == upstreams@,
            r.spec_error() == if upstreams@.len() == 0 {
                "no DNS upstreams configured"@
            } else {
                "all DNS upstreams timed out"@
            },
    {
        let last_error = if upstreams.len() == 0 {
            "no DNS upstreams configured".to_owned()
        } else {
            "all DNS upstreams timed out".to_owned()
        };
        assert(upstreams@.skip(0) =~= upstreams@);
        Attempts { upstreams, next: 0, last_error }
    }

    /// A TCP connection.
    pub fn tcp(upstreams: Vec<SocketAddr>) -> (r: Self)
        ensures
            r.wf(),
            r.left() == upstreams@,
            r.spec_error() == "no DNS upstreams configured"@,
    {
        assert(upstreams@.skip(0) =~= upstreams@);
        Attempts { upstreams, next: 0, last_error: "no DNS upstreams configured".to_owned() }
    }

    /// The upstream to ask now, or `None` when all have been asked.
    pub fn next(&mut self) -> (r: Option<SocketAddr>)
        requires
            old(self).wf(),
        ensures
            final(self).wf(),
            final(self).spec_error() == old(self).spec_error(),
            match r {
                Some(a) => old(self).left().len() > 0 && a == old(self).left()[0]
                    && final(self).left() == old(self).left().skip(1),
                None => old(self).left().len() == 0 && final(self).left() == old(self).left(),
            },
    {
        if self.next < self.upstreams.len() {
            let a = self.upstreams[self.next];
            let ghost before = self.left();
            self.next = self.next + 1;
            assert(self.left() =~= before.skip(1));
            Some(a)
        } else {
            None
        }
    }

    /// The upstream that was asked last did not answer: `error` says why.
    pub fn failed(&mut self, error: String)
        requires
            old(self).wf(),
        ensures
            final(self).wf(),
            final(self).left() == old(self).left(),
            final(self).spec_error() == error@,
    {
        self.last_error = error;
    }

    /// What is reported when no upstream answered: the last failure.
    pub fn error(&self) -> (r: String)
        ensures
            r@ == self.spec_error(),
    {
        self.last_error.clone()
    }
}

// What the lists say.

proof fn no_brackets(s: Seq<char>)
    requires
        s.len() > 0,
        !s.contains('['),
        !s.contains(']'),
    ensures
        strip_back(strip_front(s, '['), ']', ']') == s,
{
    assert(s.contains(s[0]));
    assert(s.contains(s.last()));
}

/// The text of an address is read as that address at the port of DNS, and the
/// text of an address with a port as that.
pub proof fn an_address_is_a_nameserver(
    v4: Ipv4Addr,
    v6: net::Ipv6Addr,
    port: u16,
    table: Seq<(String, u32)>,
)
    ensures
        nameserver(v4.spec_text(), table) == Some(SocketAddr::V4 { ip: v4, port: 53 }),
        nameserver(net::ipv6_text(v6), table) == Some(
            SocketAddr::V6 { ip: v6, port: 53, scope_id: 0 },
        ),
        nameserver((SocketAddr::V4 { ip: v4, port }).spec_text(), table) == Some(
            SocketAddr::V4 { ip: v4, port },
        ),
{
    let (a, b) = (v4.spec_text(), net::ipv6_text(v6));
    let none = Seq::<char>::empty();
    addresses::address_texts_are_plain(v4, v6, none);
    assert(b + none =~= b);
    addresses::an_ipv4_address_is_read_back(v4);
    addresses::an_ipv6_address_is_read_back(v6);
    addresses::a_socket_address_is_read_back(SocketAddr::V4 { ip: v4, port });
    text::a_trimmed_text_stays(a);
    text::a_trimmed_text_stays(b);
    text::a_cut_is_at_the_first(a, '%', none);
    text::a_cut_is_at_the_first(b, '%', none);
    no_brackets(a);
    no_brackets(b);
    let d = text::dec(port as nat);
    let s = a.push(':') + d;
    text::dec_read_back(port as nat);
    assert(s[0] == a[0]);
    assert(s.last() == d.last());
    assert('0' <= d[d.len() - 1] <= '9');
    text::a_trimmed_text_stays(s);
}

/// An IPv6 address with a scope is on the interface that the scope names.
pub proof fn a_scoped_address_is_a_nameserver(
    v6: net::Ipv6Addr,
    scope: Seq<char>,
    table: Seq<(String, u32)>,
)
    requires
        scope.len() > 0,
        !text::white_space(scope.last()),
    ensures
        nameserver(net::ipv6_text(v6) + seq!['%'] + scope, table) == Some(
            SocketAddr::V6 {
                ip: v6,
                port: 53,
                scope_id: match scope_index(scope, table) {
                    Some(i) => i,
                    None => 0,
                },
            },
        ),
{
    let b = net::ipv6_text(v6);
    let w = seq!['%'] + scope;
    let s = b + seq!['%'] + scope;
    addresses::address_texts_are_plain(Ipv4Addr(0, 0, 0, 0), v6, w);
    addresses::an_ipv6_address_is_read_back(v6);
    assert(s =~= b + w);
    assert(s =~= b.push('%') + scope);
    assert(s[0] == b[0]);
    assert(s.last() == scope.last());
    text::a_trimmed_text_stays(s);
    text::a_cut_is_at_the_first(b, '%', scope);
    no_brackets(b);
}

/// A scope that is a number is that index; any other is the index of the
/// interface of that name, the first where there are several.
pub proof fn a_scope_is_a_number_or_a_name(
    scope: Seq<char>,
    table: Seq<(String, u32)>,
    i: int,
)
    ensures
        text::number_upto(scope, u32::MAX as nat) matches Some(n) ==> scope_index(scope, table)
            == Some(n as u32),
        text::number_upto(scope, u32::MAX as nat) is None && 0 <= i < table.len() && table[i].0@
            == scope && (forall|k: int| 0 <= k < i ==> (#[trigger] table[k]).0@ != scope)
            ==> scope_index(scope, table) == Some(table[i].1),
        text::number_upto(scope, u32::MAX as nat) is None && (forall|k: int|
            0 <= k < table.len() ==> (#[trigger] table[k]).0@ != scope) ==> scope_index(
            scope,
            table,
        ) is None,
{
    named_is_first(table, scope, i);
}

proof fn named_is_first(table: Seq<(String, u32)>, name: Seq<char>, i: int)
    ensures
        0 <= i < table.len() && table[i].0@ == name && (forall|k: int|
            0 <= k < i ==> (#[trigger] table[k]).0@ != name) ==> index_named(table, name) == Some(
            table[i].1,
        ),
        (forall|k: int| 0 <= k < table.len() ==> (#[trigger] table[k]).0@ != name)
            ==> index_named(table, name) is None,
    decreases table.len(),
{
    if table.len() > 0 {
        let rest = table.skip(1);
        named_is_first(rest, name, i - 1);
        assert(forall|k: int| 0 <= k < rest.len() ==> rest[k] == #[trigger] table[k + 1]);
        if 0 < i < table.len() && table[i].0@ == name && (forall|k: int|
            0 <= k < i ==> (#[trigger] table[k]).0@ != name) {
            assert(rest[i - 1] == table[i]);
            assert(table[0].0@ != name);
            assert forall|k: int| 0 <= k < i - 1 implies (#[trigger] rest[k]).0@ != name by {
                assert(rest[k] == table[k + 1]);
            }
        }
        if forall|k: int| 0 <= k < table.len() ==> (#[trigger] table[k]).0@ != name {
            assert(table[0].0@ != name);
            assert forall|k: int| 0 <= k < rest.len() implies (#[trigger] rest[k]).0@
                != name by {
                assert(rest[k] == table[k + 1]);
            }
        }
    }
}

/// Dropping what repeats keeps the order: the first of them stay first.
pub proof fn dedup_keeps_the_order(s: Seq<SocketAddr>, n: int)
    requires
        0 <= n <= s.len(),
    ensures
        deduped(s.take(n)).is_prefix_of(deduped(s)),
    decreases s.len() - n,
{
    if n < s.len() {
        dedup_keeps_the_order(s, n + 1);
        assert(s.take(n + 1).drop_last() =~= s.take(n));
        let (a, b, c) = (deduped(s.take(n)), deduped(s.take(n + 1)), deduped(s));
        assert(a.is_prefix_of(b));
        assert(a =~= c.take(a.len() as int));
    } else {
        assert(s.take(n) =~= s);
    }
}

/// The upstreams in use are the listed ones without the excluded; only where
/// none is left are they 1.1.1.1 and 8.8.8.8.
pub proof fn the_listed_upstreams_are_used(list: Seq<SocketAddr>, excluded: Seq<IpAddr>)
    ensures
        (exists|i: int|
            0 <= i < list.len() && !excluded.contains((#[trigger] list[i]).spec_ip())) ==> forall|
            a: SocketAddr,
        | #[trigger]
            usable(list, excluded).contains(a) <==> list.contains(a) && !excluded.contains(
                a.spec_ip(),
            ),
        (forall|i: int| 0 <= i < list.len() ==> excluded.contains((#[trigger] list[i]).spec_ip()))
            ==> usable(list, excluded) == seq![
            SocketAddr::V4 { ip: Ipv4Addr(1, 1, 1, 1), port: 53 },
            SocketAddr::V4 { ip: Ipv4Addr(8, 8, 8, 8), port: 53 },
        ],
{
    let p = |a: SocketAddr| !excluded.contains(a.spec_ip());
    let kept = list.filter(p);
    dedup_keeps_every_address_once(kept);
    let d = deduped(kept);
    assert forall|a: SocketAddr| #[trigger] d.contains(a) <==> list.contains(a)
        && !excluded.contains(a.spec_ip()) by {
        if kept.contains(a) {
            let k = choose|k: int| 0 <= k < kept.len() && kept[k] == a;
            list.lemma_filter_pred(p, k);
            list.lemma_filter_contains_rev(p, a);
        }
        if list.contains(a) && !excluded.contains(a.spec_ip()) {
            let k = choose|k: int| 0 <= k < list.len() && list[k] == a;
            list.lemma_filter_contains(p, k);
        }
    }
    if exists|i: int| 0 <= i < list.len() && !excluded.contains((#[trigger] list[i]).spec_ip()) {
        let i = choose|i: int|
            0 <= i < list.len() && !excluded.contains((#[trigger] list[i]).spec_ip());
        assert(list.contains(list[i]));
        assert(d.contains(list[i]));
    } else if d.len() > 0 {
        assert(d.contains(d[0]));
        let i = choose|i: int| 0 <= i < list.len() && list[i] == d[0];
    }
}

proof fn the_first_pass_first(list: Seq<SocketAddr>, p: spec_fn(SocketAddr) -> bool, n: int)
    requires
        0 <= n <= list.len(),
    ensures
        list.take(n).filter(p).is_prefix_of(list.filter(p)),
    decreases list.len(),
{
    reveal(Seq::filter);
    if n < list.len() {
        the_first_pass_first(list.drop_last(), p, n);
        assert(list.drop_last().take(n) =~= list.take(n));
        let (a, b, c) = (
            list.take(n).filter(p),
            list.drop_last().filter(p),
            list.filter(p),
        );
        assert(b.is_prefix_of(c));
        assert(a =~= c.take(a.len() as int));
    } else {
        assert(list.take(n) =~= list);
    }
}

/// The upstreams are used in the order of the list.
pub proof fn upstreams_keep_their_order(list: Seq<SocketAddr>, excluded: Seq<IpAddr>, n: int)
    requires
        0 <= n <= list.len(),
        exists|i: int| 0 <= i < n && !excluded.contains((#[trigger] list[i]).spec_ip()),
    ensures
        usable(list.take(n), excluded).is_prefix_of(usable(list, excluded)),
{
    let p = |a: SocketAddr| !excluded.contains(a.spec_ip());
    let (few, all) = (list.take(n).filter(p), list.filter(p));
    the_first_pass_first(list, p, n);
    dedup_keeps_the_order(all, few.len() as int);
    assert(all.take(few.len() as int) =~= few);
    let i = choose|i: int| 0 <= i < n && !excluded.contains((#[trigger] list[i]).spec_ip());
    assert(list.take(n)[i] == list[i]);
    list.take(n).lemma_filter_contains(p, i);
    dedup_keeps_every_address_once(few);
    assert(deduped(few).contains(list[i]));
}

/// Of two lists of nameserver lines the first is read first.
pub proof fn lines_are_read_in_order(
    a: Seq<Seq<char>>,
    b: Seq<Seq<char>>,
    line: Seq<char>,
    table: Seq<(String, u32)>,
)
    ensures
        resolv_conf_lines(a + b, table) == resolv_conf_lines(a, table) + resolv_conf_lines(
            b,
            table,
        ),
        resolv_conf_lines(seq![line], table) == (match resolv_conf_line(line, table) {
            Some(x) => seq![x],
            None => Seq::empty(),
        }),
    decreases b.len(),
{
    reveal_with_fuel(resolv_conf_lines, 2);
    if b.len() > 0 {
        lines_are_read_in_order(a, b.drop_last(), line, table);
        assert((a + b).drop_last() =~= a + b.drop_last());
        assert((a + b).last() == b.last());
        assert(resolv_conf_lines(a + b, table) =~= resolv_conf_lines(a, table)
            + resolv_conf_lines(b, table));
    } else {
        assert(a + b =~= a);
        assert(resolv_conf_lines(a, table) + resolv_conf_lines(b, table) =~= resolv_conf_lines(
            a,
            table,
        ));
    }
    assert(seq![line].drop_last() =~= Seq::<Seq<char>>::empty());
    assert(seq![line].last() == line);
}

/// What follows a `#` or a `;` is a comment.
pub proof fn comments_are_skipped(
    a: Seq<char>,
    b: Seq<char>,
    table: Seq<(String, u32)>,
)
    requires
        !a.contains('#'),
        !a.contains(';'),
    ensures
        resolv_conf_line(a.push('#') + b, table) == resolv_conf_line(a, table),
        resolv_conf_line(a.push(';') + b, table) == resolv_conf_line(a, table),
{
    let n = a.len() as int;
    let (s, t) = (a.push('#') + b, a.push(';') + b);
    assert forall|k: int| 0 <= k < n implies a[k] != '#' && a[k] != ';' && s[k] != '#' && t[k]
        != ';' by {
        assert(a.contains(a[k]));
    }
    text::first_index_is_unique(s, '#', n);
    text::first_index_is_unique(a, '#', n);
    text::first_index_is_unique(a, ';', n);
    assert(a.take(n) =~= a);
    assert(s.take(n) =~= a);
    let u = t.take(text::first_index(t, '#'));
    text::first_index_is_first(t, '#');
    let i = text::first_index(t, '#');
    assert(i > n) by {
        if i < n {
            assert(t[i] == a[i]);
        }
    }
    text::first_index_is_unique(u, ';', n);
    assert(u.take(n) =~= a);
}

/// A line `nameserver` with an address, in words, names that address; a line
/// with any other first word, or without a second, names none.
pub proof fn a_nameserver_line_names_its_address(
    w: Seq<char>,
    x: Seq<char>,
    table: Seq<(String, u32)>,
)
    requires
        w.len() > 0,
        x.len() > 0,
        forall|k: int|
            0 <= k < w.len() ==> !text::white_space(#[trigger] w[k]) && w[k] != '#' && w[k] != ';',
        forall|k: int|
            0 <= k < x.len() ==> !text::white_space(#[trigger] x[k]) && x[k] != '#' && x[k] != ';',
    ensures
        w == "nameserver"@ ==> resolv_conf_line(w + seq![' '] + x, table) == nameserver(x, table),
        w != "nameserver"@ ==> resolv_conf_line(w + seq![' '] + x, table) is None,
        resolv_conf_line(w, table) is None,
{
    let s = w + seq![' '] + x;
    let n = s.len() as int;
    assert forall|k: int| 0 <= k < n implies s[k] != '#' && s[k] != ';' by {
        if k < w.len() {
            assert(s[k] == w[k]);
        } else if k > w.len() {
            assert(s[k] == x[k - w.len() - 1]);
        }
    }
    text::first_index_is_unique(s, '#', n);
    text::first_index_is_unique(s, ';', n);
    assert(s.take(n) =~= s);
    assert(s[0] == w[0]);
    assert(s.last() == x.last());
    text::a_trimmed_text_stays(s);
    text::words_stand_between_spaces(w, ' ', x);
    text::words_stand_between_spaces(x, ' ', Seq::empty());
    assert(s =~= w.push(' ') + x);
    assert(text::words_of(s) =~= seq![w, x]);
    let m = w.len() as int;
    text::first_index_is_unique(w, '#', m);
    text::first_index_is_unique(w, ';', m);
    assert(w.take(m) =~= w);
    text::a_trimmed_text_stays(w);
}

proof fn first_letters(line: Seq<char>)
    ensures
        text::begins(line, "DNS configuration"@) ==> line.len() > 0 && line[0] == 'D',
        text::begins(line, "resolver #"@) ==> line.len() > 0 && line[0] == 'r',
        text::begins(line, "nameserver["@) ==> line.len() > 0 && line[0] == 'n',
        text::begins(line, "port"@) ==> line.len() > 0 && line[0] == 'p',
{
    reveal_strlit("DNS configuration");
    reveal_strlit("resolver #");
    reveal_strlit("nameserver[");
    reveal_strlit("port");
    if text::begins(line, "DNS configuration"@) {
        assert(line.take("DNS configuration"@.len() as int)[0] == line[0]);
    }
    if text::begins(line, "resolver #"@) {
        assert(line.take("resolver #"@.len() as int)[0] == line[0]);
    }
    if text::begins(line, "nameserver["@) {
        assert(line.take("nameserver["@.len() as int)[0] == line[0]);
    }
    if text::begins(line, "port"@) {
        assert(line.take("port"@.len() as int)[0] == line[0]);
    }
}

/// Only the first section of a resolver list counts: nothing is read before its
/// heading, and nothing from the second heading on.
pub proof fn only_the_first_section_counts(
    st: ScutilState,
    raw: Seq<char>,
    table: Seq<(String, u32)>,
)
    ensures
        st.over ==> scutil_step(st, raw, table) == st,
        !st.over && text::begins(text::trimmed(raw), "DNS configuration"@) ==> {
            let r = scutil_step(st, raw, table);
            &&& r.out == st.out
            &&& r.current == st.current
            &&& r.port == st.port
            &&& r.over == st.in_section
            &&& r.in_section
        },
        !st.over && !st.in_section && !text::begins(text::trimmed(raw), "DNS configuration"@)
            ==> scutil_step(st, raw, table) == st,
{
}

/// A resolver of the list begins with its heading, which closes the one before:
/// its servers join the result, each at the port of that resolver where one was
/// given.
pub proof fn a_resolver_is_closed_by_the_next(
    st: ScutilState,
    raw: Seq<char>,
    table: Seq<(String, u32)>,
)
    requires
        !st.over,
        st.in_section,
        text::begins(text::trimmed(raw), "resolver #"@),
    ensures
        ({
            let r = scutil_step(st, raw, table);
            &&& r.out.len() == st.out.len() + st.current.len()
            &&& forall|k: int| 0 <= k < st.out.len() ==> #[trigger] r.out[k] == st.out[k]
            &&& forall|k: int|
                0 <= k < st.current.len() ==> #[trigger] r.out[st.out.len() + k] == (match st.port {
                    Some(p) => st.current[k].spec_with_port(p),
                    None => st.current[k],
                })
            &&& r.current.len() == 0
            &&& r.port is None
            &&& r.in_resolver
            &&& r.in_section
            &&& !r.over
        }),
{
    first_letters(text::trimmed(raw));
}

/// The servers of a resolver are its `nameserver[n] : address` lines, and its
/// port is its `port : n` line.
pub proof fn a_resolver_has_its_servers(
    st: ScutilState,
    raw: Seq<char>,
    n: Seq<char>,
    value: Seq<char>,
    table: Seq<(String, u32)>,
)
    requires
        !st.over,
        st.in_section,
        st.in_resolver,
        !n.contains(':'),
    ensures
        text::trimmed(raw) == "nameserver["@ + (n.push(':') + value) ==> scutil_step(
            st,
            raw,
            table,
        ) == (match nameserver(value, table) {
            Some(a) => ScutilState { current: st.current.push(a), ..st },
            None => st,
        }),
        text::trimmed(raw) == "port"@ + (n.push(':') + value) ==> scutil_step(st, raw, table) == (
        ScutilState {
            port: match text::number_upto(text::trimmed(value), u16::MAX as nat) {
                Some(p) => Some(p as u16),
                None => None,
            },
            ..st
        }),
{
    let rest = n.push(':') + value;
    first_letters(text::trimmed(raw));
    text::a_prefix_comes_off("nameserver["@, rest, text::trimmed(raw));
    text::a_prefix_comes_off("port"@, rest, text::trimmed(raw));
    text::a_cut_is_at_the_first(n, ':', value);
}

/// The servers of the Windows list are the values of its DNS keys and the lines
/// that follow them, as long as these are addresses and no line is blank.
pub proof fn dns_keys_are_followed(
    st: IpconfigState,
    raw: Seq<char>,
    key: Seq<char>,
    value: Seq<char>,
    table: Seq<(String, u32)>,
)
    ensures
        text::trimmed(raw).len() == 0 ==> ipconfig_step(st, raw, table) == (IpconfigState {
            out: st.out,
            in_dns: false,
        }),
        st.in_dns && text::trimmed(raw).len() > 0 ==> (nameserver(
            text::trimmed(raw),
            table,
        ) matches Some(a) ==> ipconfig_step(st, raw, table) == (IpconfigState {
            out: st.out.push(a),
            in_dns: true,
        })),
        text::trimmed(raw) == key.push(':') + value && !key.contains(':') && (!st.in_dns
            || nameserver(text::trimmed(raw), table) is None) ==> {
            let r = ipconfig_step(st, raw, table);
            &&& r.in_dns == is_dns_key(key)
            &&& is_dns_key(key) && nameserver(value, table) is Some ==> r.out == st.out.push(
                nameserver(value, table)->0,
            )
            &&& !is_dns_key(key) || nameserver(value, table) is None ==> r.out == st.out
        },
        text::trimmed(raw).len() > 0 && !text::trimmed(raw).contains(':') && !st.in_dns
            ==> ipconfig_step(st, raw, table) == st,
{
    let line = text::trimmed(raw);
    if !key.contains(':') {
        text::a_cut_is_at_the_first(key, ':', value);
    }
    if !line.contains(':') {
        text::a_cut_is_at_the_first(line, ':', value);
    }
}

/// The list of the system is its configuration file, and, where that names no
/// server, what the system's own tool says.
pub proof fn the_file_comes_first(
    resolv_conf: Option<Seq<char>>,
    scutil: Option<Seq<char>>,
    table: Seq<(String, u32)>,
)
    ensures
        resolv_conf matches Some(t) && resolv_conf_lines(text::lines_of(t), table).len() > 0
            ==> resolvers(resolv_conf, scutil, table) == deduped(
            resolv_conf_lines(text::lines_of(resolv_conf->0), table),
        ),
        (resolv_conf matches Some(t) ==> resolv_conf_lines(text::lines_of(t), table).len() == 0)
            && scutil is Some ==> resolvers(resolv_conf, scutil, table) == deduped(
            scutil_flush(scutil_run(text::lines_of(scutil->0), table)).out,
        ),
        resolv_conf is None && scutil is None ==> resolvers(resolv_conf, scutil, table).len() == 0,
{
    if let Some(t) = resolv_conf {
        let l = resolv_conf_lines(text::lines_of(t), table);
        dedup_keeps_every_address_once(l);
        if l.len() > 0 {
            assert(l.contains(l[0]));
        }
    }
}

/// The lists are read line by line.
pub proof fn lists_are_read_line_by_line(
    lines: Seq<Seq<char>>,
    line: Seq<char>,
    table: Seq<(String, u32)>,
)
    ensures
        ipconfig_run(lines.push(line), table) == ipconfig_step(
            ipconfig_run(lines, table),
            line,
            table,
        ),
        ipconfig_run(Seq::empty(), table).out.len() == 0,
        !ipconfig_run(Seq::empty(), table).in_dns,
        scutil_run(lines.push(line), table) == scutil_step(scutil_run(lines, table), line, table),
        scutil_run(Seq::empty(), table).out.len() == 0,
        scutil_run(Seq::empty(), table).current.len() == 0,
        !scutil_run(Seq::empty(), table).in_section,
        !scutil_run(Seq::empty(), table).in_resolver,
        !scutil_run(Seq::empty(), table).over,
{
    assert(lines.push(line).drop_last() =~= lines);
}

/// An output that could be had is its text.
pub proof fn an_output_is_its_text(s: Option<&str>)
    ensures
        s matches Some(t) ==> view_of(s) == Some(t@),
        s is None ==> view_of(s) is None,
{
}

} // verus!
