//! The payload formats that the `postcard` crate reads and writes.
//!
//! An integer wider than a byte is a variable-length number: base 128, least
//! significant digit first, the top bit of a byte set while more follow. A
//! string is its length in bytes as such a number, and then its UTF-8 bytes.
//! The fields of a structure follow one another with nothing in between.

use vstd::prelude::*;
use vstd::utf8;

verus! {

#[verifier::external_type_specification]
#[verifier::external_body]
pub struct ExPostcardError(postcard::Error);

/// The shortest variable-length form of `n`.
pub open spec fn varint(n: nat) -> Seq<u8>
    decreases n,
{
    if n < 128 {
        seq![n as u8]
    } else {
        seq![(128 + n % 128) as u8] + varint(n / 128)
    }
}

/// The number at the start of `b` and how many bytes it takes, where at most
/// `width` bytes may be used and the last of these may hold at most `top`.
pub open spec fn varint_at(b: Seq<u8>, width: nat, top: nat) -> Option<(nat, nat)>
    decreases width,
{
    if width == 0 || b.len() == 0 {
        None
    } else if b[0] < 128 {
        if width == 1 && b[0] > top {
            None
        } else {
            Some((b[0] as nat, 1))
        }
    } else {
        match varint_at(b.skip(1), (width - 1) as nat, top) {
            Some((v, used)) => Some(((b[0] - 128 + 128 * v) as nat, used + 1)),
            None => None,
        }
    }
}

/// A 16-bit number at the start of `b`.
pub open spec fn u16_at(b: Seq<u8>) -> Option<(nat, nat)> {
    varint_at(b, 3, 3)
}

/// A 32-bit number at the start of `b`.
pub open spec fn u32_at(b: Seq<u8>) -> Option<(nat, nat)> {
    varint_at(b, 5, 15)
}

/// A 64-bit number at the start of `b`.
pub open spec fn u64_at(b: Seq<u8>) -> Option<(nat, nat)> {
    varint_at(b, 10, 1)
}

/// A length at the start of `b`: a number as wide as the machine's addresses.
pub open spec fn length_at(b: Seq<u8>) -> Option<(nat, nat)> {
    if usize::BITS == 64 {
        u64_at(b)
    } else {
        u32_at(b)
    }
}

/// The form of a string.
pub open spec fn string_form(s: Seq<char>) -> Seq<u8> {
    varint(utf8::encode_utf8(s).len()) + utf8::encode_utf8(s)
}

/// A string at the start of `b`.
pub open spec fn string_at(b: Seq<u8>) -> Option<Seq<char>> {
    match length_at(b) {
        Some((n, used)) => {
            let rest = b.skip(used as int);
            if n <= rest.len() && utf8::valid_utf8(rest.take(n as int)) {
                Some(utf8::decode_utf8(rest.take(n as int)))
            } else {
                None
            }
        },
        None => None,
    }
}

/// The form of a `Hello` payload.
pub open spec fn hello_form(version: u16, name: Seq<char>) -> Seq<u8> {
    varint(version as nat) + string_form(name)
}

/// The `Hello` payload at the start of `b`; what follows it is not looked at.
pub open spec fn hello_at(b: Seq<u8>) -> Option<(u16, Seq<char>)> {
    match u16_at(b) {
        Some((v, used)) => match string_at(b.skip(used as int)) {
            Some(name) => Some((v as u16, name)),
            None => None,
        },
        None => None,
    }
}

/// The form of a `Config` payload: two addresses, the prefix length and
/// another address, byte by byte, and the MTU.
pub open spec fn config_form(
    guest: Seq<u8>,
    gateway: Seq<u8>,
    prefix_len: u8,
    dns: Seq<u8>,
    mtu: u16,
) -> Seq<u8> {
    (guest + gateway).push(prefix_len) + dns + varint(mtu as nat)
}

/// The `Config` payload at the start of `b`: the thirteen plain bytes and the
/// MTU; what follows is not looked at.
pub open spec fn config_at(b: Seq<u8>) -> Option<(Seq<u8>, u16)> {
    if b.len() < 13 {
        None
    } else {
        match u16_at(b.skip(13)) {
            Some((mtu, _)) => Some((b.take(13), mtu as u16)),
            None => None,
        }
    }
}

/// `postcard::to_allocvec` on a version and a name. Writing to a growing
/// vector does not fail, and the result is the form described above.
#[verifier::external_body]
pub(crate) fn write_hello(version: u16, name: &str) -> (r: Result<Vec<u8>, postcard::Error>)
    ensures
        r is Ok,
        r->Ok_0@ == hello_form(version, name@),
{
    postcard::to_allocvec(&(version, name))
}

/// `postcard::from_bytes` to a version and a name: it succeeds exactly where
/// the bytes start with such a payload, and returns it.
#[verifier::external_body]
pub(crate) fn read_hello(b: &[u8]) -> (r: Result<(u16, String), postcard::Error>)
    ensures
        r is Ok <==> hello_at(b@) is Some,
        r matches Ok(v) ==> hello_at(b@) == Some((v.0, v.1@)),
{
    postcard::from_bytes(b)
}

/// `postcard::to_allocvec` on three addresses, a prefix length and an MTU in
/// the order of a tunnel configuration. Writing to a growing vector does not
/// fail, and the result is the form described above.
#[verifier::external_body]
pub(crate) fn write_config(
    guest: [u8; 4],
    gateway: [u8; 4],
    prefix_len: u8,
    dns: [u8; 4],
    mtu: u16,
) -> (r: Result<Vec<u8>, postcard::Error>)
    ensures
        r is Ok,
        r->Ok_0@ == config_form(guest@, gateway@, prefix_len, dns@, mtu),
{
    postcard::to_allocvec(&(guest, gateway, prefix_len, dns, mtu))
}

/// `postcard::from_bytes` to three addresses, a prefix length and an MTU in
/// the order of a tunnel configuration: it succeeds exactly where the bytes
/// start with such a payload, and returns it.
#[verifier::external_body]
pub(crate) fn read_config(b: &[u8]) -> (r: Result<
    ([u8; 4], [u8; 4], u8, [u8; 4], u16),
    postcard::Error,
>)
    ensures
        r is Ok <==> config_at(b@) is Some,
        r matches Ok(v) ==> config_at(b@) == Some(((v.0@ + v.1@).push(v.2) + v.3@, v.4)),
{
    postcard::from_bytes(b)
}

/// A number of which `width` base-128 digits are enough, the last at most
/// `top`, is read back from its shortest form, whatever follows.
pub proof fn varint_read_back(n: nat, width: nat, top: nat, tail: Seq<u8>)
    requires
        width > 0,
        n < digits_limit(width, top),
    ensures
        varint_at(varint(n) + tail, width, top) == Some((n, varint(n).len())),
        0 < varint(n).len() <= width,
    decreases width,
{
    let b = varint(n) + tail;
    if n < 128 {
        assert(b[0] == n as u8);
    } else {
        assert(width > 1);
        assert(n / 128 < digits_limit((width - 1) as nat, top));
        varint_read_back(n / 128, (width - 1) as nat, top, tail);
        assert(b[0] == (128 + n % 128) as u8);
        assert(b.skip(1) =~= varint(n / 128) + tail);
    }
}

/// One more than the largest number that `width` base-128 digits hold when the
/// last is at most `top`.
pub open spec fn digits_limit(width: nat, top: nat) -> nat
    decreases width,
{
    if width <= 1 {
        if top < 128 { top + 1 } else { 128 }
    } else {
        128 * digits_limit((width - 1) as nat, top)
    }
}

/// A string is read back from its form, whatever follows.
pub proof fn string_read_back(s: Seq<char>, tail: Seq<u8>)
    requires
        utf8::encode_utf8(s).len() <= usize::MAX,
    ensures
        string_at(string_form(s) + tail) == Some(s),
{
    let body = utf8::encode_utf8(s);
    let b = string_form(s) + tail;
    assert(b =~= varint(body.len()) + (body + tail));
    reveal_with_fuel(digits_limit, 11);
    if usize::BITS == 64 {
        varint_read_back(body.len(), 10, 1, body + tail);
    } else {
        varint_read_back(body.len(), 5, 15, body + tail);
    }
    let rest = b.skip(varint(body.len()).len() as int);
    assert(rest =~= body + tail);
    assert(rest.take(body.len() as int) =~= body);
    utf8::encode_utf8_valid_utf8(s);
    utf8::encode_utf8_decode_utf8(s);
}

/// A `Hello` payload is read back from its form, whatever follows.
pub proof fn hello_read_back(version: u16, name: Seq<char>, tail: Seq<u8>)
    requires
        utf8::encode_utf8(name).len() <= usize::MAX,
    ensures
        hello_at(hello_form(version, name) + tail) == Some((version, name)),
{
    let b = hello_form(version, name) + tail;
    let rest = string_form(name) + tail;
    assert(b =~= varint(version as nat) + rest);
    reveal_with_fuel(digits_limit, 4);
    varint_read_back(version as nat, 3, 3, rest);
    assert(b.skip(varint(version as nat).len() as int) =~= rest);
    string_read_back(name, tail);
}

/// A `Config` payload is read back from its form, whatever follows.
pub proof fn config_read_back(
    guest: Seq<u8>,
    gateway: Seq<u8>,
    prefix_len: u8,
    dns: Seq<u8>,
    mtu: u16,
    tail: Seq<u8>,
)
    requires
        guest.len() == 4,
        gateway.len() == 4,
        dns.len() == 4,
    ensures
        config_at(config_form(guest, gateway, prefix_len, dns, mtu) + tail) == Some(
            ((guest + gateway).push(prefix_len) + dns, mtu),
        ),
{
    let b = config_form(guest, gateway, prefix_len, dns, mtu) + tail;
    reveal_with_fuel(digits_limit, 4);
    varint_read_back(mtu as nat, 3, 3, tail);
    assert(b.skip(13) =~= varint(mtu as nat) + tail);
    assert(b.take(13) =~= (guest + gateway).push(prefix_len) + dns);
}

// Discovery messages: a variant number and the fields of the variant.

/// The form of a probe.
pub open spec fn probe_form(variant: u32, version: u16, nonce: u64) -> Seq<u8> {
    varint(variant as nat) + varint(version as nat) + varint(nonce as nat)
}

/// The form of an offer.
pub open spec fn offer_form(
    variant: u32,
    version: u16,
    nonce: u64,
    data_port: u16,
    name: Seq<char>,
) -> Seq<u8> {
    varint(variant as nat) + varint(version as nat) + varint(nonce as nat) + varint(
        data_port as nat,
    ) + string_form(name)
}

/// The variant number at the start of `b`.
pub open spec fn variant_at(b: Seq<u8>) -> Option<u32> {
    match u32_at(b) {
        Some((v, _)) => Some(v as u32),
        None => None,
    }
}

/// A variant number, a version and a nonce at the start of `b`, and how many
/// bytes they take.
pub open spec fn start_at(b: Seq<u8>) -> Option<(u32, u16, u64, nat)> {
    match u32_at(b) {
        Some((variant, n)) => match u16_at(b.skip(n as int)) {
            Some((version, m)) => match u64_at(b.skip((n + m) as int)) {
                Some((nonce, k)) => Some((variant as u32, version as u16, nonce as u64, n + m + k)),
                None => None,
            },
            None => None,
        },
        None => None,
    }
}

/// A variant number and the fields of an offer at the start of `b`.
pub open spec fn offer_at(b: Seq<u8>) -> Option<(u32, u16, u64, u16, Seq<char>)> {
    match start_at(b) {
        Some((variant, version, nonce, n)) => match u16_at(b.skip(n as int)) {
            Some((port, m)) => match string_at(b.skip((n + m) as int)) {
                Some(name) => Some((variant, version, nonce, port as u16, name)),
                None => None,
            },
            None => None,
        },
        None => None,
    }
}

/// `postcard::to_extend` on a variant number and the fields of a probe, onto
/// `out`. Writing to a growing vector does not fail, and what is appended
/// is the form described above.
#[verifier::external_body]
pub(crate) fn append_probe(out: Vec<u8>, variant: u32, version: u16, nonce: u64) -> (r: Result<
    Vec<u8>,
    postcard::Error,
>)
    ensures
        r is Ok,
        r->Ok_0@ == out@ + probe_form(variant, version, nonce),
{
    postcard::to_extend(&(variant, version, nonce), out)
}

/// `postcard::to_extend` on a variant number and the fields of an offer, onto
/// `out`. Writing to a growing vector does not fail, and what is appended
/// is the form described above.
#[verifier::external_body]
pub(crate) fn append_offer(
    out: Vec<u8>,
    variant: u32,
    version: u16,
    nonce: u64,
    data_port: u16,
    name: &str,
) -> (r: Result<Vec<u8>, postcard::Error>)
    ensures
        r is Ok,
        r->Ok_0@ == out@ + offer_form(variant, version, nonce, data_port, name@),
{
    postcard::to_extend(&(variant, version, nonce, data_port, name), out)
}

/// `postcard::from_bytes` to a variant number: it succeeds exactly where the
/// bytes start with one, and returns it.
#[verifier::external_body]
pub(crate) fn read_variant(b: &[u8]) -> (r: Result<u32, postcard::Error>)
    ensures
        r is Ok <==> variant_at(b@) is Some,
        r matches Ok(v) ==> variant_at(b@) == Some(v),
{
    postcard::from_bytes(b)
}

/// `postcard::from_bytes` to a variant number, a version and a nonce: it
/// succeeds exactly where the bytes start with these, and returns them.
#[verifier::external_body]
pub(crate) fn read_probe(b: &[u8]) -> (r: Result<(u32, u16, u64), postcard::Error>)
    ensures
        r is Ok <==> start_at(b@) is Some,
        r matches Ok(v) ==> (start_at(b@) matches Some(s) && s.0 == v.0 && s.1 == v.1 && s.2
            == v.2),
{
    postcard::from_bytes(b)
}

/// `postcard::from_bytes` to a variant number and the fields of an offer: it
/// succeeds exactly where the bytes start with these, and returns them.
#[verifier::external_body]
pub(crate) fn read_offer(b: &[u8]) -> (r: Result<(u32, u16, u64, u16, String), postcard::Error>)
    ensures
        r is Ok <==> offer_at(b@) is Some,
        r matches Ok(v) ==> offer_at(b@) == Some((v.0, v.1, v.2, v.3, v.4@)),
{
    postcard::from_bytes(b)
}

proof fn start_read_back(variant: u32, version: u16, nonce: u64, tail: Seq<u8>)
    ensures
        ({
            let head = varint(variant as nat) + varint(version as nat) + varint(nonce as nat);
            start_at(head + tail) == Some((variant, version, nonce, head.len()))
        }),
{
    let a = varint(variant as nat);
    let b = varint(version as nat);
    let c = varint(nonce as nat);
    let all = a + b + c + tail;
    reveal_with_fuel(digits_limit, 11);
    assert(all =~= a + (b + c + tail));
    varint_read_back(variant as nat, 5, 15, b + c + tail);
    assert(all.skip(a.len() as int) =~= b + (c + tail));
    varint_read_back(version as nat, 3, 3, c + tail);
    assert(all.skip((a.len() + b.len()) as int) =~= c + tail);
    varint_read_back(nonce as nat, 10, 1, tail);
}

/// A probe is read back from its form, whatever follows.
pub proof fn probe_read_back(variant: u32, version: u16, nonce: u64, tail: Seq<u8>)
    ensures
        variant_at(probe_form(variant, version, nonce) + tail) == Some(variant),
        start_at(probe_form(variant, version, nonce) + tail) == Some(
            (variant, version, nonce, probe_form(variant, version, nonce).len()),
        ),
{
    start_read_back(variant, version, nonce, tail);
}

/// An offer is read back from its form, whatever follows.
pub proof fn offer_read_back(
    variant: u32,
    version: u16,
    nonce: u64,
    data_port: u16,
    name: Seq<char>,
    tail: Seq<u8>,
)
    requires
        utf8::encode_utf8(name).len() <= usize::MAX,
    ensures
        variant_at(offer_form(variant, version, nonce, data_port, name) + tail) == Some(variant),
        offer_at(offer_form(variant, version, nonce, data_port, name) + tail) == Some(
            (variant, version, nonce, data_port, name),
        ),
{
    let head = varint(variant as nat) + varint(version as nat) + varint(nonce as nat);
    let port = varint(data_port as nat);
    let rest = port + string_form(name) + tail;
    let all = offer_form(variant, version, nonce, data_port, name) + tail;
    assert(all =~= head + rest);
    start_read_back(variant, version, nonce, rest);
    reveal_with_fuel(digits_limit, 4);
    assert(all.skip(head.len() as int) =~= port + (string_form(name) + tail));
    varint_read_back(data_port as nat, 3, 3, string_form(name) + tail);
    assert(all.skip((head.len() + port.len()) as int) =~= string_form(name) + tail);
    string_read_back(name, tail);
}

} // verus!
