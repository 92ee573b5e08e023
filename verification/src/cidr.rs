//! IPv4 prefixes, as the `ipnet` crate reads, cuts and writes them.

use crate::net::{self, Ipv4Addr};
use crate::text;
use vstd::prelude::*;
use vstd::string::StringExecFns;

verus! {

/// An IPv4 address and the length of its network prefix.
#[derive(Clone, Copy, Debug, PartialEq, Eq, Structural)]
pub struct Ipv4Net {
    pub addr: Ipv4Addr,
    pub prefix_len: u8,
}

#[verifier::external_type_specification]
#[verifier::external_body]
pub struct ExAddrParseError(ipnet::AddrParseError);

/// An octet of a prefix: up to three digits.
pub open spec fn loose_octet(s: Seq<char>) -> Option<nat> {
    match text::digits_value(s) {
        Some(v) => if v <= 255 && s.len() <= 3 {
            Some(v)
        } else {
            None
        },
        None => None,
    }
}

/// The prefix length behind the slash: up to two digits.
pub open spec fn prefix_value(s: Seq<char>) -> Option<nat> {
    match text::digits_value(s) {
        Some(v) => if v <= 32 && s.len() <= 2 {
            Some(v)
        } else {
            None
        },
        None => None,
    }
}

/// The prefix that a text writes: four octets, a slash, a length.
pub open spec fn net_value(s: Seq<char>) -> Option<Ipv4Net> {
    match text::cut(s, '/') {
        Some((ip, len)) => {
            let p = text::pieces(ip, '.');
            if p.len() == 4 && loose_octet(p[0]) is Some && loose_octet(p[1]) is Some
                && loose_octet(p[2]) is Some && loose_octet(p[3]) is Some && prefix_value(
                len,
            ) is Some {
                Some(
                    Ipv4Net {
                        addr: Ipv4Addr(
                            loose_octet(p[0])->0 as u8,
                            loose_octet(p[1])->0 as u8,
                            loose_octet(p[2])->0 as u8,
                            loose_octet(p[3])->0 as u8,
                        ),
                        prefix_len: prefix_value(len)->0 as u8,
                    },
                )
            } else {
                None
            }
        },
        None => None,
    }
}

/// The number that an address is.
pub open spec fn address_number(a: Ipv4Addr) -> nat {
    (((a.0 as nat * 256 + a.1 as nat) * 256 + a.2 as nat) * 256 + a.3 as nat) as nat
}

/// The address of a number.
pub open spec fn address_of(n: nat) -> Ipv4Addr {
    Ipv4Addr(
        (n / 0x100_0000) as u8,
        (n / 0x1_0000 % 256) as u8,
        (n / 0x100 % 256) as u8,
        (n % 256) as u8,
    )
}

/// How many addresses share a prefix of the given length.
pub open spec fn block_size(prefix_len: nat) -> nat
    decreases 32 - prefix_len,
{
    if prefix_len >= 32 {
        1
    } else {
        2 * block_size(prefix_len + 1)
    }
}

/// `a` is the first address of the block that `b` lies in.
pub open spec fn starts_block(a: Ipv4Addr, b: Ipv4Addr, prefix_len: nat) -> bool {
    let size = block_size(prefix_len);
    address_number(a) == address_number(b) / size * size
}

/// `str::parse` to an `ipnet::Ipv4Net`: it succeeds exactly on the texts
/// described above, and returns what they write.
#[verifier::external_body]
fn read_net(s: &str) -> (r: Result<([u8; 4], u8), ipnet::AddrParseError>)
    ensures
        r is Ok <==> net_value(s@) is Some,
        r matches Ok(v) ==> net_value(s@) == Some(
            Ipv4Net { addr: Ipv4Addr(v.0@[0], v.0@[1], v.0@[2], v.0@[3]), prefix_len: v.1 },
        ),
{
    let net: ipnet::Ipv4Net = s.parse()?;
    Ok((net.addr().octets(), net.prefix_len()))
}

/// `ipnet::Ipv4Net::trunc`: the first address of the block. A length above 32
/// is no prefix, so it is left out.
#[verifier::external_body]
fn first_address(addr: [u8; 4], prefix_len: u8) -> (r: [u8; 4])
    requires
        prefix_len <= 32,
    ensures
        starts_block(
            Ipv4Addr(r@[0], r@[1], r@[2], r@[3]),
            Ipv4Addr(addr@[0], addr@[1], addr@[2], addr@[3]),
            prefix_len as nat,
        ),
{
    ipnet::Ipv4Net::new_assert(addr.into(), prefix_len).trunc().addr().octets()
}

/// The prefix that a text writes.
pub fn parse_net(s: &str) -> (r: Option<Ipv4Net>)
    ensures
        r == net_value(s@),
{
    match read_net(s) {
        Ok((o, prefix_len)) => Some(Ipv4Net { addr: Ipv4Addr(o[0], o[1], o[2], o[3]), prefix_len }),
        Err(_) => None,
    }
}

impl Ipv4Net {
    /// A length that a prefix can have.
    pub open spec fn wf(self) -> bool {
        self.prefix_len <= 32
    }

    /// The prefix with the bits behind it set to zero.
    pub open spec fn spec_trunc(self) -> Ipv4Net {
        let size = block_size(self.prefix_len as nat);
        Ipv4Net { addr: address_of(address_number(self.addr) / size * size), ..self }
    }

    /// The prefix with the bits behind it set to zero.
    pub fn trunc(&self) -> (r: Self)
        requires
            self.wf(),
        ensures
            r == self.spec_trunc(),
    {
        let o = first_address(self.addr.octets(), self.prefix_len);
        let addr = Ipv4Addr(o[0], o[1], o[2], o[3]);
        proof {
            let a = self.addr;
            assert(Ipv4Addr(
                a.spec_octets()[0],
                a.spec_octets()[1],
                a.spec_octets()[2],
                a.spec_octets()[3],
            ) == a);
            assert(starts_block(addr, a, self.prefix_len as nat));
            an_address_is_its_number(addr);
        }
        Ipv4Net { addr, prefix_len: self.prefix_len }
    }

    /// The prefix as text.
    pub open spec fn spec_text(self) -> Seq<char> {
        self.addr.spec_text().push('/') + text::dec(self.prefix_len as nat)
    }

    /// The prefix as text.
    pub fn text(&self) -> (r: String)
        ensures
            r@ == self.spec_text(),
    {
        let mut out = self.addr.text();
        out.push('/');
        let len = text::decimal(self.prefix_len as u64);
        text::cat2(out.as_str(), len.as_str())
    }
}

/// Prefixes with commas between them.
pub open spec fn nets_text(nets: Seq<Ipv4Net>) -> Seq<char>
    decreases nets.len(),
{
    if nets.len() == 0 {
        Seq::empty()
    } else if nets.len() == 1 {
        nets[0].spec_text()
    } else {
        nets_text(nets.drop_last()) + ", "@ + nets.last().spec_text()
    }
}

/// Prefixes with commas between them.
pub fn write_nets(nets: &Vec<Ipv4Net>) -> (r: String)
    ensures
        r@ == nets_text(nets@),
{
    let mut out = String::new();
    let mut i: usize = 0;
    assert(nets@.take(0) =~= Seq::<Ipv4Net>::empty());
    while i < nets.len()
        invariant
            i <= nets@.len(),
            out@ == nets_text(nets@.take(i as int)),
        decreases nets@.len() - i,
    {
        let ghost now = nets@.take(i + 1);
        assert(now.drop_last() =~= nets@.take(i as int));
        if i > 0 {
            out.append(", ");
        }
        out.append(nets[i].text().as_str());
        proof {
            if i == 0 {
                assert(out@ =~= now[0].spec_text());
            }
        }
        i = i + 1;
    }
    assert(nets@.take(i as int) =~= nets@);
    out
}

/// The same prefixes once more.
pub fn copy_nets(nets: &Vec<Ipv4Net>) -> (r: Vec<Ipv4Net>)
    ensures
        r@ == nets@,
{
    let mut out: Vec<Ipv4Net> = Vec::new();
    let mut i: usize = 0;
    while i < nets.len()
        invariant
            i <= nets@.len(),
            out@ == nets@.take(i as int),
        decreases nets@.len() - i,
    {
        out.push(nets[i]);
        assert(nets@.take(i + 1) =~= nets@.take(i as int).push(nets@[i as int]));
        i = i + 1;
    }
    assert(nets@.take(i as int) =~= nets@);
    out
}

/// An address is that of its number.
pub proof fn an_address_is_its_number(a: Ipv4Addr)
    ensures
        address_of(address_number(a)) == a,
{
}

/// What is read is a prefix.
pub proof fn a_read_prefix_is_one(s: Seq<char>)
    ensures
        net_value(s) matches Some(n) ==> n.wf(),
{
}

/// A prefix is cut to the first address of its block: the block is the
/// addresses that agree in as many bits as the prefix has, twice as many with
/// every bit less.
pub proof fn a_prefix_is_cut_to_its_block(n: Ipv4Net)
    requires
        n.wf(),
    ensures
        ({
            let t = n.spec_trunc();
            let size = block_size(n.prefix_len as nat);
            &&& t.prefix_len == n.prefix_len
            &&& address_number(t.addr) <= address_number(n.addr)
            &&& address_number(n.addr) < address_number(t.addr) + size
            &&& address_number(t.addr) % size == 0
            &&& t.spec_trunc() == t
        }),
        n.prefix_len == 32 ==> n.spec_trunc() == n,
        n.prefix_len == 0 ==> n.spec_trunc().addr == Ipv4Addr(0, 0, 0, 0),
        block_size(32) == 1,
        n.prefix_len < 32 ==> block_size(n.prefix_len as nat) == 2 * block_size(
            n.prefix_len as nat + 1,
        ),
{
    let size = block_size(n.prefix_len as nat);
    let a = address_number(n.addr);
    let t = n.spec_trunc();
    block_size_is_positive(n.prefix_len as nat);
    let start = (a / size * size) as nat;
    assert(a / size * size <= a && a < a / size * size + size) by (nonlinear_arith)
        requires
            size > 0,
    ;
    a_number_is_its_address(start);
    assert(address_number(t.addr) == start);
    assert(start % size == 0 && start / size * size == start) by (nonlinear_arith)
        requires
            size > 0,
            start == a / size * size,
    ;
    an_address_is_its_number(t.addr);
    an_address_is_its_number(n.addr);
    if n.prefix_len == 32 {
        assert(start == a) by (nonlinear_arith)
            requires
                size == 1,
                start == a / size * size,
        ;
    }
    if n.prefix_len == 0 {
        reveal_with_fuel(block_size, 33);
        assert(size == 0x1_0000_0000);
        assert(a < 0x1_0000_0000);
        assert(start == 0) by (nonlinear_arith)
            requires
                size == 0x1_0000_0000,
                0 <= a < 0x1_0000_0000,
                start == a / size * size,
        ;
    }
}

proof fn block_size_is_positive(prefix_len: nat)
    ensures
        block_size(prefix_len) > 0,
    decreases 32 - prefix_len,
{
    if prefix_len < 32 {
        block_size_is_positive(prefix_len + 1);
    }
}

proof fn a_number_is_its_address(n: nat)
    requires
        n < 0x1_0000_0000,
    ensures
        address_number(address_of(n)) == n,
{
}

/// Prefixes are listed in order, with commas between them.
pub proof fn prefixes_are_listed(nets: Seq<Ipv4Net>, n: Ipv4Net)
    ensures
        nets_text(Seq::empty()).len() == 0,
        nets_text(seq![n]) == n.spec_text(),
        nets.len() > 0 ==> nets_text(nets.push(n)) == nets_text(nets) + ", "@ + n.spec_text(),
{
    assert(nets.push(n).drop_last() =~= nets);
}

/// A prefix longer than an address is none, and so is an address without one.
pub proof fn a_prefix_has_a_length(ip: Seq<char>, len: Seq<char>)
    requires
        !ip.contains('/'),
    ensures
        net_value(ip) is None,
        text::digits_value(len) is None || text::digits_value(len)->0 > 32 ==> net_value(
            ip.push('/') + len,
        ) is None,
{
    text::a_cut_is_at_the_first(ip, '/', len);
}

} // verus!
