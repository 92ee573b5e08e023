//! Addresses and prefixes are read back from the text that they are written
//! as.

use crate::cidr::{self, Ipv4Net};
use crate::net::{self, Ipv4Addr, Ipv6Addr, SocketAddr};
use crate::text;
use vstd::prelude::*;

verus! {

/// A text that does not hold a character.
pub open spec fn lacks(s: Seq<char>, c: char) -> bool {
    forall|i: int| 0 <= i < s.len() ==> s[i] != c
}

// Cutting.

proof fn cut_where_it_was_joined(x: Seq<char>, c: char, rest: Seq<char>)
    requires
        lacks(x, c),
    ensures
        text::cut(x.push(c) + rest, c) == Some((x, rest)),
{
    let s = x.push(c) + rest;
    text::first_index_is_unique(s, c, x.len() as int);
    assert(s.take(x.len() as int) =~= x);
    assert(s.skip(x.len() as int + 1) =~= rest);
}

proof fn no_cut_without(x: Seq<char>, c: char)
    requires
        lacks(x, c),
    ensures
        text::cut(x, c) is None,
        text::pieces(x, c) == seq![x],
{
    text::first_index_is_unique(x, c, x.len() as int);
}

proof fn first_piece(x: Seq<char>, c: char, rest: Seq<char>)
    requires
        lacks(x, c),
    ensures
        text::pieces(x.push(c) + rest, c) == seq![x] + text::pieces(rest, c),
{
    cut_where_it_was_joined(x, c, rest);
}

proof fn digits_lack(n: nat, c: char)
    requires
        !('0' <= c <= '9'),
    ensures
        lacks(text::dec(n), c),
{
    text::dec_read_back(n);
}

// IPv4.

proof fn octet_is_read_back(n: u8)
    ensures
        net::octet(text::dec(n as nat)) == Some(n as nat),
        cidr::loose_octet(text::dec(n as nat)) == Some(n as nat),
        1 <= text::dec(n as nat).len() <= 3,
{
    text::dec_read_back(n as nat);
    reveal_with_fuel(text::dec, 3);
}

/// The octets of an address are the pieces of its text.
proof fn octets_are_pieces(a: Ipv4Addr)
    ensures
        text::pieces(a.spec_text(), '.') == seq![
            text::dec(a.0 as nat),
            text::dec(a.1 as nat),
            text::dec(a.2 as nat),
            text::dec(a.3 as nat),
        ],
{
    let p = text::dec(a.0 as nat);
    let q = text::dec(a.1 as nat);
    let r = text::dec(a.2 as nat);
    let s = text::dec(a.3 as nat);
    digits_lack(a.0 as nat, '.');
    digits_lack(a.1 as nat, '.');
    digits_lack(a.2 as nat, '.');
    digits_lack(a.3 as nat, '.');
    assert(a.spec_text() =~= p.push('.') + (q.push('.') + (r.push('.') + s)));
    no_cut_without(s, '.');
    first_piece(r, '.', s);
    first_piece(q, '.', r.push('.') + s);
    first_piece(p, '.', q.push('.') + (r.push('.') + s));
    assert(text::pieces(a.spec_text(), '.') =~= seq![p, q, r, s]);
}

proof fn ipv4_text_lacks(a: Ipv4Addr, c: char)
    requires
        !('0' <= c <= '9'),
        c != '.',
    ensures
        lacks(a.spec_text(), c),
        a.spec_text().len() >= 7,
        '0' <= a.spec_text()[0] <= '9',
{
    digits_lack(a.0 as nat, c);
    digits_lack(a.1 as nat, c);
    digits_lack(a.2 as nat, c);
    digits_lack(a.3 as nat, c);
    octet_is_read_back(a.0);
    octet_is_read_back(a.1);
    octet_is_read_back(a.2);
    octet_is_read_back(a.3);
    text::dec_read_back(a.0 as nat);
    assert(a.spec_text()[0] == text::dec(a.0 as nat)[0]);
}

/// An IPv4 address is read back from its text.
pub proof fn an_ipv4_address_is_read_back(a: Ipv4Addr)
    ensures
        net::ipv4_value(a.spec_text()) == Some(a),
{
    octets_are_pieces(a);
    octet_is_read_back(a.0);
    octet_is_read_back(a.1);
    octet_is_read_back(a.2);
    octet_is_read_back(a.3);
}

/// A prefix is read back from its text.
pub proof fn a_prefix_is_read_back(n: Ipv4Net)
    requires
        n.wf(),
    ensures
        cidr::net_value(n.spec_text()) == Some(n),
{
    let ip = n.addr.spec_text();
    let len = text::dec(n.prefix_len as nat);
    ipv4_text_lacks(n.addr, '/');
    cut_where_it_was_joined(ip, '/', len);
    octets_are_pieces(n.addr);
    octet_is_read_back(n.addr.0);
    octet_is_read_back(n.addr.1);
    octet_is_read_back(n.addr.2);
    octet_is_read_back(n.addr.3);
    text::dec_read_back(n.prefix_len as nat);
    reveal_with_fuel(text::dec, 2);
    assert(len.len() <= 2);
}

// IPv6.

/// A character of an IPv6 address without an IPv4 address in it.
pub open spec fn hex_or_colon(c: char) -> bool {
    '0' <= c <= '9' || 'a' <= c <= 'f' || c == ':'
}

proof fn hex_is_read_back(n: nat)
    ensures
        net::hex_digits_value(net::hex(n)) == Some(n),
        net::hex(n).len() > 0,
        forall|i: int|
            0 <= i < net::hex(n).len() ==> hex_or_colon(#[trigger] net::hex(n)[i]) && net::hex(
                n,
            )[i] != ':',
    decreases n,
{
    if n >= 16 {
        hex_is_read_back(n / 16);
        assert(net::hex(n).drop_last() =~= net::hex(n / 16));
        assert forall|i: int| 0 <= i < net::hex(n).len() implies hex_or_colon(
            #[trigger] net::hex(n)[i],
        ) && net::hex(n)[i] != ':' by {
            if i < net::hex(n).len() - 1 {
                assert(net::hex(n)[i] == net::hex(n / 16)[i]);
            }
        }
    }
}

proof fn segment_is_read_back(n: u16)
    ensures
        net::hextet(net::hex(n as nat)) == Some(n as nat),
{
    hex_is_read_back(n as nat);
    reveal_with_fuel(net::hex, 4);
    assert(net::hex(n as nat).len() <= 4);
}

/// The first group stands in front of the others.
proof fn groups_from_the_front(g: Seq<u16>)
    requires
        g.len() >= 2,
    ensures
        net::groups_text(g) == net::hex(g[0] as nat).push(':') + net::groups_text(g.skip(1)),
    decreases g.len(),
{
    let first = net::hex(g[0] as nat).push(':');
    let last = net::hex(g.last() as nat);
    if g.len() == 2 {
        assert(net::groups_text(g.drop_last()) == net::hex(g[0] as nat));
        assert(net::groups_text(g.skip(1)) == last);
    } else {
        let front = g.drop_last();
        groups_from_the_front(front);
        assert(front.skip(1) =~= g.skip(1).drop_last());
        assert(g.skip(1).last() == g.last());
        assert((first + net::groups_text(front.skip(1))).push(':') + last =~= first + (
        net::groups_text(front.skip(1)).push(':') + last));
    }
}

/// Groups are read back from their text.
proof fn groups_are_read_back(g: Seq<u16>)
    ensures
        net::groups_of(net::groups_text(g)) == Some(g),
        g.len() > 0 ==> net::groups_text(g).len() > 0,
    decreases g.len(),
{
    if g.len() == 0 {
        assert(g =~= Seq::<u16>::empty());
    } else {
        let x = net::hex(g[0] as nat);
        hex_is_read_back(g[0] as nat);
        segment_is_read_back(g[0]);
        if g.len() == 1 {
            no_cut_without(x, ':');
            let p = seq![x];
            assert(p.skip(1) =~= Seq::<Seq<char>>::empty());
            assert(net::groups_from(p.skip(1)) == Some(Seq::<u16>::empty()));
            assert(seq![g[0]] + Seq::<u16>::empty() =~= g);
        } else {
            let rest = net::groups_text(g.skip(1));
            groups_from_the_front(g);
            groups_are_read_back(g.skip(1));
            first_piece(x, ':', rest);
            let p = seq![x] + text::pieces(rest, ':');
            assert(p.skip(1) =~= text::pieces(rest, ':'));
            assert(seq![g[0]] + g.skip(1) =~= g);
        }
    }
}

/// No two colons in a row, and none at either end.
pub open spec fn tidy(s: Seq<char>) -> bool {
    &&& forall|i: int| 0 <= i < s.len() - 1 ==> !(#[trigger] s[i] == ':' && s[i + 1] == ':')
    &&& s.len() > 0 ==> s[0] != ':' && s.last() != ':'
    &&& forall|i: int| 0 <= i < s.len() ==> hex_or_colon(#[trigger] s[i])
}

proof fn groups_are_tidy(g: Seq<u16>)
    ensures
        tidy(net::groups_text(g)),
    decreases g.len(),
{
    if g.len() == 1 {
        hex_is_read_back(g[0] as nat);
    } else if g.len() > 1 {
        let x = net::hex(g[0] as nat);
        let rest = net::groups_text(g.skip(1));
        hex_is_read_back(g[0] as nat);
        groups_from_the_front(g);
        groups_are_tidy(g.skip(1));
        groups_are_read_back(g.skip(1));
        let s = net::groups_text(g);
        assert(s == x.push(':') + rest);
        assert forall|i: int| 0 <= i < s.len() - 1 implies !(#[trigger] s[i] == ':' && s[i + 1]
            == ':') by {
            if i < x.len() {
                assert(s[i] == x[i]);
            } else if i == x.len() {
                assert(s[i + 1] == rest[0]);
            } else {
                let k = i - x.len() - 1;
                assert(s[i] == rest[k]);
                assert(s[i + 1] == rest[k + 1]);
            }
        }
        assert forall|i: int| 0 <= i < s.len() implies hex_or_colon(#[trigger] s[i]) by {
            if i < x.len() {
                assert(s[i] == x[i]);
            } else if i > x.len() {
                assert(s[i] == rest[i - x.len() - 1]);
            }
        }
        assert(s[0] == x[0]);
        assert(s.last() == rest.last());
    }
}

proof fn no_double_colon(s: Seq<char>)
    requires
        forall|i: int| 0 <= i < s.len() - 1 ==> !(#[trigger] s[i] == ':' && s[i + 1] == ':'),
    ensures
        net::double_colon(s) is None,
    decreases s.len(),
{
    if s.len() >= 2 {
        let t = s.skip(1);
        assert(!(s[0] == ':' && s[0int + 1] == ':'));
        assert forall|i: int| 0 <= i < t.len() - 1 implies !(#[trigger] t[i] == ':' && t[i + 1]
            == ':') by {
            assert(t[i] == s[i + 1]);
            assert(t[i + 1] == s[i + 1 + 1]);
        }
        no_double_colon(t);
    }
}

proof fn double_colon_is_found(s: Seq<char>, at: int)
    requires
        0 <= at <= s.len() - 2,
        s[at] == ':',
        s[at + 1] == ':',
        forall|i: int| 0 <= i < at ==> !(#[trigger] s[i] == ':' && s[i + 1] == ':'),
    ensures
        net::double_colon(s) == Some(at),
    decreases at,
{
    if at > 0 {
        let t = s.skip(1);
        assert(!(s[0] == ':' && s[0int + 1] == ':'));
        assert forall|i: int| 0 <= i < at - 1 implies !(#[trigger] t[i] == ':' && t[i + 1]
            == ':') by {
            assert(t[i] == s[i + 1]);
            assert(t[i + 1] == s[i + 1 + 1]);
        }
        double_colon_is_found(t, at - 1);
    }
}

/// An IPv6 address whose zeros from `at` on are left out is read back.
proof fn shortened_address_is_read_back(a: Ipv6Addr, at: int, n: int)
    requires
        n > 1,
        net::zeros(a.spec_segments(), at, n),
    ensures
        ({
            let g = a.spec_segments();
            let s = net::groups_text(g.take(at)) + "::"@ + net::groups_text(g.skip(at + n));
            &&& net::ipv6_value(s) == Some(a)
            &&& forall|i: int| 0 <= i < s.len() ==> hex_or_colon(#[trigger] s[i])
        }),
{
    reveal_strlit("::");
    let g = a.spec_segments();
    let head = g.take(at);
    let tail = g.skip(at + n);
    let x = net::groups_text(head);
    let y = net::groups_text(tail);
    let s = x + "::"@ + y;
    groups_are_tidy(head);
    groups_are_tidy(tail);
    groups_are_read_back(head);
    groups_are_read_back(tail);
    assert forall|i: int| 0 <= i < x.len() implies !(#[trigger] s[i] == ':' && s[i + 1] == ':') by {
        assert(s[i] == x[i]);
        if i < x.len() - 1 {
            assert(s[i + 1] == x[i + 1]);
        } else {
            assert(x[i] == x.last());
        }
    }
    double_colon_is_found(s, x.len() as int);
    assert(s.take(x.len() as int) =~= x);
    assert(s.skip(x.len() as int + 2) =~= y);
    assert(!x.contains('.')) by {
        assert forall|i: int| 0 <= i < x.len() implies x[i] != '.' by {
            assert(hex_or_colon(x[i]));
        }
    }
    assert(net::filled(head, tail) =~= g);
    assert forall|i: int| 0 <= i < s.len() implies hex_or_colon(#[trigger] s[i]) by {
        if i < x.len() {
            assert(s[i] == x[i]);
        } else if i >= x.len() + 2 {
            assert(s[i] == y[i - x.len() - 2]);
        }
    }
}

/// A character of an address.
pub open spec fn address_char(c: char) -> bool {
    hex_or_colon(c) || c == '.'
}

proof fn four_fs_are_read()
    ensures
        net::hextet(seq!['f', 'f', 'f', 'f']) == Some(0xffffnat),
{
    let f = seq!['f', 'f', 'f', 'f'];
    reveal_with_fuel(net::hex_digits_value, 5);
    assert(f.drop_last() =~= seq!['f', 'f', 'f']);
    assert(f.drop_last().drop_last() =~= seq!['f', 'f']);
    assert(f.drop_last().drop_last().drop_last() =~= seq!['f']);
}

/// The last segments of an IPv4 address in IPv6 form.
pub open spec fn mapped_tail(v4: Ipv4Addr) -> Seq<u16> {
    seq![0xffffu16, (v4.0 * 256 + v4.1) as u16, (v4.2 * 256 + v4.3) as u16]
}

proof fn mapped_tail_is_read_back(v4: Ipv4Addr, y: Seq<char>)
    requires
        y == v4.spec_text(),
    ensures
        net::groups_of(seq!['f', 'f', 'f', 'f'].push(':') + y) == Some(mapped_tail(v4)),
{
    let f = seq!['f', 'f', 'f', 'f'];
    ipv4_text_lacks(v4, ':');
    an_ipv4_address_is_read_back(v4);
    four_fs_are_read();
    assert(lacks(f, ':'));
    first_piece(f, ':', y);
    no_cut_without(y, ':');
    let p = text::pieces(f.push(':') + y, ':');
    assert(p == seq![f] + seq![y]);
    assert(p[0] == f);
    let q = p.skip(1);
    assert(q =~= seq![y]);
    assert(net::hextet(y) is None);
    let last = seq![(v4.0 * 256 + v4.1) as u16, (v4.2 * 256 + v4.3) as u16];
    assert(net::groups_from(q) == Some(last));
    assert(seq![0xffffu16] + last =~= mapped_tail(v4));
}

proof fn mapped_address_is_read_back(a: Ipv6Addr)
    requires
        net::is_mapped(a),
    ensures
        net::ipv6_value(net::ipv6_text(a)) == Some(a),
        forall|i: int|
            0 <= i < net::ipv6_text(a).len() ==> address_char(#[trigger] net::ipv6_text(a)[i]),
{
    reveal_strlit("::ffff:");
    let v4 = net::mapped(a);
    let y = v4.spec_text();
    ipv4_text_is_plain(v4, y);
    mapped_tail_is_read_back(v4, y);
    let s = "::ffff:"@ + y;
    double_colon_is_found(s, 0);
    assert(s.take(0) =~= Seq::<char>::empty());
    assert(s.skip(2) =~= seq!['f', 'f', 'f', 'f'].push(':') + y);
    let tail = mapped_tail(v4);
    assert(v4.0 * 256 + v4.1 == a.6);
    assert(v4.2 * 256 + v4.3 == a.7);
    assert(net::filled(Seq::<u16>::empty(), tail) =~= a.spec_segments());
    assert forall|i: int| 0 <= i < s.len() implies address_char(#[trigger] s[i]) by {
        if i >= 7 {
            assert(s[i] == y[i - 7]);
        }
    }
}

proof fn ipv4_text_is_plain(a: Ipv4Addr, y: Seq<char>)
    requires
        y == a.spec_text(),
    ensures
        forall|i: int| 0 <= i < y.len() ==> address_char(#[trigger] y[i]),
{
    text::dec_read_back(a.0 as nat);
    text::dec_read_back(a.1 as nat);
    text::dec_read_back(a.2 as nat);
    text::dec_read_back(a.3 as nat);
}

/// An IPv6 address is read back from its text.
pub proof fn an_ipv6_address_is_read_back(a: Ipv6Addr)
    ensures
        net::ipv6_value(net::ipv6_text(a)) == Some(a),
        forall|i: int|
            0 <= i < net::ipv6_text(a).len() ==> address_char(#[trigger] net::ipv6_text(a)[i]),
{
    let g = a.spec_segments();
    if net::is_mapped(a) {
        mapped_address_is_read_back(a);
    } else if exists|at: int, n: int| n > 1 && #[trigger] net::longest_zeros(g, at, n) {
        let (at, n) = choose|at: int, n: int| n > 1 && #[trigger] net::longest_zeros(g, at, n);
        shortened_address_is_read_back(a, at, n);
    } else {
        groups_are_tidy(g);
        groups_are_read_back(g);
        no_double_colon(net::groups_text(g));
    }
}

proof fn an_ipv4_socket_is_read_back(ip: Ipv4Addr, port: u16)
    ensures
        net::socket_value((SocketAddr::V4 { ip, port }).spec_text()) == Some(
            SocketAddr::V4 { ip, port },
        ),
{
    let x = ip.spec_text();
    let p = text::dec(port as nat);
    ipv4_text_lacks(ip, ':');
    an_ipv4_address_is_read_back(ip);
    cut_where_it_was_joined(x, ':', p);
    text::dec_read_back(port as nat);
    assert((x.push(':') + p)[0] == x[0]);
}

proof fn a_scope_is_read_back(ip: Ipv6Addr, scope_id: u32, inside: Seq<char>)
    requires
        inside == if scope_id == 0 {
            net::ipv6_text(ip)
        } else {
            net::ipv6_text(ip).push('%') + text::dec(scope_id as nat)
        },
    ensures
        net::scoped_value(inside) == Some((ip, scope_id)),
        lacks(inside, ']'),
{
    let x = net::ipv6_text(ip);
    let scope = text::dec(scope_id as nat);
    an_ipv6_address_is_read_back(ip);
    text::dec_read_back(scope_id as nat);
    assert forall|i: int| 0 <= i < x.len() implies x[i] != '%' && x[i] != ']' by {
        assert(address_char(x[i]));
    }
    if scope_id == 0 {
        no_cut_without(x, '%');
    } else {
        cut_where_it_was_joined(x, '%', scope);
    }
    assert forall|i: int| 0 <= i < inside.len() implies inside[i] != ']' by {
        if i < x.len() {
            assert(inside[i] == x[i]);
        } else if i > x.len() {
            assert(inside[i] == scope[i - x.len() - 1]);
        }
    }
}

proof fn an_ipv6_socket_is_read_back(ip: Ipv6Addr, port: u16, scope_id: u32)
    ensures
        net::socket_value((SocketAddr::V6 { ip, port, scope_id }).spec_text()) == Some(
            SocketAddr::V6 { ip, port, scope_id },
        ),
{
    reveal_strlit("[");
    reveal_strlit("]:");
    reveal_strlit("%");
    let x = net::ipv6_text(ip);
    let p = text::dec(port as nat);
    let scope = text::dec(scope_id as nat);
    let inside = if scope_id == 0 {
        x
    } else {
        x.push('%') + scope
    };
    let s = (SocketAddr::V6 { ip, port, scope_id }).spec_text();
    a_scope_is_read_back(ip, scope_id, inside);
    text::dec_read_back(port as nat);
    let after = seq![':'] + p;
    cut_where_it_was_joined(inside, ']', after);
    assert(s.skip(1) =~= inside.push(']') + after);
    assert(after.skip(1) =~= p);
    assert(s[0] == '[');
}

/// A socket address is read back from its text.
pub proof fn a_socket_address_is_read_back(a: SocketAddr)
    ensures
        net::socket_value(a.spec_text()) == Some(a),
{
    match a {
        SocketAddr::V4 { ip, port } => {
            an_ipv4_socket_is_read_back(ip, port);
        },
        SocketAddr::V6 { ip, port, scope_id } => {
            an_ipv6_socket_is_read_back(ip, port, scope_id);
        },
    }
}

// Which texts are addresses.

proof fn a_plain_number_is_its_text(s: Seq<char>)
    requires
        text::digits_value(s) is Some,
        s.len() == 1 || s[0] != '0',
    ensures
        s == text::dec(text::digits_value(s)->0),
    decreases s.len(),
{
    let v = text::digits_value(s)->0;
    let d = text::digit_value(s.last())->0;
    assert(text::digit_char(d) == s.last());
    if s.len() == 1 {
        assert(s =~= text::dec(v));
    } else {
        let front = s.drop_last();
        let w = text::digits_value(front)->0;
        assert(front[0] == s[0]);
        a_plain_number_is_its_text(front);
        assert(w > 0) by {
            if w == 0 {
                assert(text::dec(0)[0] == '0');
            }
        }
        assert(v / 10 == w && v % 10 == d);
        assert(s =~= text::dec(v));
    }
}

/// A text is read as an IPv4 address exactly when it is the text of one: four
/// numbers up to 255 in decimal digits, without leading zeros, with dots
/// between them.
pub proof fn only_ipv4_texts_are_read(s: Seq<char>, a: Ipv4Addr)
    ensures
        net::ipv4_value(s) == Some(a) <==> s == a.spec_text(),
{
    an_ipv4_address_is_read_back(a);
    if net::ipv4_value(s) == Some(a) {
        let p = text::pieces(s, '.');
        reveal_with_fuel(text::pieces, 5);
        text::first_index_is_first(s, '.');
        let s1 = s.skip(text::first_index(s, '.') + 1);
        text::first_index_is_first(s1, '.');
        let s2 = s1.skip(text::first_index(s1, '.') + 1);
        text::first_index_is_first(s2, '.');
        let s3 = s2.skip(text::first_index(s2, '.') + 1);
        text::first_index_is_first(s3, '.');
        assert(text::pieces(s, '.').len() == 4);
        assert(text::cut(s, '.') is Some);
        assert(text::pieces(s1, '.').len() == 3);
        assert(text::cut(s1, '.') is Some);
        assert(text::pieces(s2, '.').len() == 2);
        assert(text::cut(s2, '.') is Some);
        assert(text::pieces(s3, '.').len() == 1);
        assert(text::cut(s3, '.') is None);
        assert(p[0] == s.take(text::first_index(s, '.')));
        assert(p[1] == s1.take(text::first_index(s1, '.')));
        assert(p[2] == s2.take(text::first_index(s2, '.')));
        assert(p[3] == s3);
        a_plain_number_is_its_text(p[0]);
        a_plain_number_is_its_text(p[1]);
        a_plain_number_is_its_text(p[2]);
        a_plain_number_is_its_text(p[3]);
        assert(s2 =~= p[2] + seq!['.'] + p[3]);
        assert(s1 =~= p[1] + seq!['.'] + s2);
        assert(s =~= p[0] + seq!['.'] + s1);
    }
}

proof fn only_mapped_texts_have_dots(ip: Ipv6Addr)
    ensures
        net::ipv6_text(ip).contains('.') ==> net::ipv6_text(ip)[0] == ':',
{
    let g = ip.spec_segments();
    let s = net::ipv6_text(ip);
    if net::is_mapped(ip) {
        reveal_strlit("::ffff:");
        assert(s[0] == "::ffff:"@[0]);
    } else if exists|at: int, n: int| n > 1 && #[trigger] net::longest_zeros(g, at, n) {
        let (at, n) = choose|at: int, n: int| n > 1 && #[trigger] net::longest_zeros(g, at, n);
        shortened_address_is_read_back(ip, at, n);
        assert forall|k: int| 0 <= k < s.len() implies s[k] != '.' by {
            assert(hex_or_colon(s[k]));
        }
    } else {
        groups_are_tidy(g);
        assert forall|k: int| 0 <= k < s.len() implies s[k] != '.' by {
            assert(hex_or_colon(s[k]));
        }
    }
}

proof fn an_ipv6_text_is_no_other(ip: Ipv6Addr, w: Seq<char>)
    ensures
        net::ipv4_value(net::ipv6_text(ip)) is None,
        net::ipv6_text(ip).len() > 0,
        net::socket_value(net::ipv6_text(ip) + w) is None,
{
    let u = net::ipv6_text(ip);
    an_ipv6_address_is_read_back(ip);
    if !u.contains(':') {
        assert forall|k: int| 0 <= k < u.len() implies u[k] != ':' by {
            assert(u.contains(u[k]));
        }
        no_double_colon(u);
        no_cut_without(u, ':');
        assert(seq![u].skip(1) =~= Seq::<Seq<char>>::empty());
        reveal_with_fuel(net::groups_from, 2);
    }
    if let Some(a) = net::ipv4_value(u) {
        only_ipv4_texts_are_read(u, a);
        ipv4_text_lacks(a, ':');
    }
    let s = u + w;
    assert(address_char(u[0]));
    assert(s[0] != '[');
    let k = choose|k: int| 0 <= k < u.len() && u[k] == ':';
    text::first_index_is_first(s, ':');
    let i = text::first_index(s, ':');
    assert(s[k] == ':');
    let before = s.take(i);
    if let Some(a) = net::ipv4_value(before) {
        only_ipv4_texts_are_read(before, a);
        let d0 = text::dec(a.0 as nat);
        text::dec_read_back(a.0 as nat);
        assert(before[d0.len() as int] == '.');
        assert(u[d0.len() as int] == '.');
        only_mapped_texts_have_dots(ip);
        assert(s[0] == ':');
        assert(i == 0);
    }
}

/// What the text of an address looks like from outside: it is not empty, has no
/// brackets, no scope and no white space, and is neither the text of an address
/// of the other kind nor of an address with a port.
pub proof fn address_texts_are_plain(v4: Ipv4Addr, v6: Ipv6Addr, w: Seq<char>)
    ensures
        v4.spec_text().len() > 0,
        !v4.spec_text().contains('%'),
        !v4.spec_text().contains('['),
        !v4.spec_text().contains(']'),
        net::socket_value(v4.spec_text()) is None,
        net::ipv6_text(v6).len() > 0,
        !net::ipv6_text(v6).contains('%'),
        !net::ipv6_text(v6).contains('['),
        !net::ipv6_text(v6).contains(']'),
        net::ipv4_value(net::ipv6_text(v6)) is None,
        net::socket_value(net::ipv6_text(v6) + w) is None,
        forall|i: int|
            0 <= i < v4.spec_text().len() ==> !text::white_space(#[trigger] v4.spec_text()[i]),
        forall|i: int|
            0 <= i < net::ipv6_text(v6).len() ==> !text::white_space(
                #[trigger] net::ipv6_text(v6)[i],
            ),
{
    let s = v4.spec_text();
    let t = net::ipv6_text(v6);
    ipv4_text_lacks(v4, ':');
    ipv4_text_is_plain(v4, s);
    an_ipv6_address_is_read_back(v6);
    an_ipv6_text_is_no_other(v6, w);
    no_cut_without(s, ':');
}

} // verus!
