//! ICMP echo: the host answers a `ping` of its tunnel address.

use crate::net::{IpAddr, Ipv4Addr};
use vstd::prelude::*;

verus! {

#[verifier::external_type_specification]
#[verifier::external_body]
pub struct ExLenError(etherparse::err::LenError);

/// The protocol number of ICMP.
pub const ICMP: u8 = 1;

/// The sum of the 16-bit words of some bytes, most significant byte first; a
/// last byte on its own counts as the upper half of a word.
pub open spec fn word_sum(b: Seq<u8>) -> nat
    decreases b.len(),
{
    if b.len() == 0 {
        0
    } else if b.len() == 1 {
        b[0] as nat * 256
    } else {
        b[0] as nat * 256 + b[1] as nat + word_sum(b.skip(2))
    }
}

/// The Internet checksum of words that add up to `sum`: the complement of the
/// sum in one's complement arithmetic.
pub open spec fn complement(sum: nat) -> nat {
    if sum == 0 {
        65535
    } else if sum % 65535 == 0 {
        0
    } else {
        (65535 - sum % 65535) as nat
    }
}

/// An echo header with a given checksum.
pub open spec fn echo_header(kind: u8, checksum: nat, id: u16, seq: u16) -> Seq<u8> {
    seq![
        kind,
        0,
        (checksum / 256) as u8,
        (checksum % 256) as u8,
        (id / 256) as u8,
        (id % 256) as u8,
        (seq / 256) as u8,
        (seq % 256) as u8,
    ]
}

/// The identifier and sequence number of an echo request.
pub open spec fn echo_request(b: Seq<u8>) -> Option<(u16, u16)> {
    if b.len() >= 8 && b[0] == 8 && b[1] == 0 {
        Some(((b[4] * 256 + b[5]) as u16, (b[6] * 256 + b[7]) as u16))
    } else {
        None
    }
}

/// `etherparse::Icmpv4Header::from_slice`, of which only the echo request is
/// told apart: eight bytes or more that begin with the type 8 and the code 0.
/// Its identifier and sequence number are returned.
#[verifier::external_body]
fn read_header(b: &[u8]) -> (r: Result<Option<(u16, u16)>, etherparse::err::LenError>)
    ensures
        echo_request(b@) is Some ==> r is Ok,
        r matches Ok(v) ==> v == echo_request(b@),
{
    let (header, _) = etherparse::Icmpv4Header::from_slice(b)?;
    Ok(match header.icmp_type {
        etherparse::Icmpv4Type::EchoRequest(e) => Some((e.id, e.seq)),
        _ => None,
    })
}

/// `etherparse::Icmpv4Header::with_checksum` and `to_bytes` on an echo reply:
/// the eight header bytes, with the Internet checksum over header and payload.
#[verifier::external_body]
fn write_reply_header(id: u16, seq: u16, payload: &[u8]) -> (r: Vec<u8>)
    ensures
        r@ == echo_header(
            0,
            complement(word_sum(echo_header(0, 0, id, seq) + payload@)),
            id,
            seq,
        ),
{
    let echo = etherparse::IcmpEchoHeader { id, seq };
    let kind = etherparse::Icmpv4Type::EchoReply(echo);
    etherparse::Icmpv4Header::with_checksum(kind, payload).to_bytes().to_vec()
}

/// The reply to an ICMP message, if it is an echo request: the same identifier,
/// sequence number and data.
pub open spec fn echo_reply(b: Seq<u8>) -> Option<Seq<u8>> {
    match echo_request(b) {
        Some((id, seq)) => Some(
            echo_header(
                0,
                complement(word_sum(echo_header(0, 0, id, seq) + b.skip(8))),
                id,
                seq,
            ) + b.skip(8),
        ),
        None => None,
    }
}

/// The reply to an ICMP message, if it is an echo request.
pub fn reply_to(b: &[u8]) -> (r: Option<Vec<u8>>)
    ensures
        r is Some <==> echo_reply(b@) is Some,
        r matches Some(v) ==> echo_reply(b@) == Some(v@),
{
    match read_header(b) {
        Ok(Some((id, seq))) => {
            let rest = vstd::slice::slice_subrange(b, 8, b.len());
            assert(rest@ =~= b@.skip(8));
            let mut out = write_reply_header(id, seq, rest);
            out.extend_from_slice(rest);
            assert(out@ =~= echo_reply(b@)->0);
            Some(out)
        },
        _ => None,
    }
}

/// What the host answers to a packet that is neither TCP nor UDP: ICMP echo to
/// the gateway is answered, everything else is ignored.
pub open spec fn answer(
    protocol: u8,
    dst: IpAddr,
    gateway: Ipv4Addr,
    payload: Seq<u8>,
) -> Option<Seq<u8>> {
    if protocol == ICMP && dst == IpAddr::V4(gateway) {
        echo_reply(payload)
    } else {
        None
    }
}

/// ICMP echo to the gateway is answered so the guest can `ping 10.77.0.1`;
/// everything else that is neither TCP nor UDP is ignored.
pub fn handle_unknown_transport(
    protocol: u8,
    dst: IpAddr,
    gateway: Ipv4Addr,
    payload: &[u8],
) -> (r: Option<Vec<u8>>)
    ensures
        r is Some <==> answer(protocol, dst, gateway, payload@) is Some,
        r matches Some(v) ==> answer(protocol, dst, gateway, payload@) == Some(v@),
{
    if protocol != ICMP || dst != IpAddr::V4(gateway) {
        return None;
    }
    reply_to(payload)
}

/// The words of two parts add up, if the first part ends on a word.
proof fn sum_of_parts(a: Seq<u8>, b: Seq<u8>)
    requires
        a.len() % 2 == 0,
    ensures
        word_sum(a + b) == word_sum(a) + word_sum(b),
    decreases a.len(),
{
    if a.len() == 0 {
        assert(a + b =~= b);
    } else {
        assert((a + b).skip(2) =~= a.skip(2) + b);
        sum_of_parts(a.skip(2), b);
    }
}

proof fn header_sum(checksum: nat, id: u16, seq: u16)
    requires
        checksum < 65536,
    ensures
        word_sum(echo_header(0, checksum, id, seq)) == checksum + id as nat + seq as nat,
{
    reveal_with_fuel(word_sum, 5);
    let h = echo_header(0, checksum, id, seq);
    assert(h.skip(2).skip(2).skip(2).skip(2) =~= Seq::<u8>::empty());
}

/// The reply passes its receiver's check: its words add up to zero in one's
/// complement arithmetic. It echoes the request's identifier, sequence number
/// and data.
pub proof fn a_reply_passes_the_checksum(b: Seq<u8>)
    requires
        echo_request(b) is Some,
    ensures
        echo_reply(b) matches Some(r) && {
            &&& r.len() == b.len()
            &&& r[0] == 0
            &&& r.skip(4) == b.skip(4)
            &&& word_sum(r) % 65535 == 0
        },
{
    let (id, seq) = echo_request(b)->0;
    let rest = b.skip(8);
    let sum = word_sum(echo_header(0, 0, id, seq) + rest);
    let c = complement(sum);
    let head = echo_header(0, c, id, seq);
    let r = head + rest;
    sum_of_parts(echo_header(0, 0, id, seq), rest);
    sum_of_parts(head, rest);
    header_sum(0, id, seq);
    header_sum(c, id, seq);
    assert(word_sum(r) == c + sum);
    assert(r.skip(4) =~= b.skip(4));
}

/// An answer is given exactly to an ICMP echo request for the gateway's own
/// address, and is the reply to it.
pub proof fn only_pings_of_the_gateway_are_answered(
    protocol: u8,
    dst: IpAddr,
    gateway: Ipv4Addr,
    payload: Seq<u8>,
)
    ensures
        answer(protocol, dst, gateway, payload) is Some <==> {
            &&& protocol == 1
            &&& dst == IpAddr::V4(gateway)
            &&& payload.len() >= 8
            &&& payload[0] == 8
            &&& payload[1] == 0
        },
        answer(protocol, dst, gateway, payload) matches Some(r) ==> {
            &&& r.len() == payload.len()
            &&& r[0] == 0
            &&& r[1] == 0
            &&& r.skip(4) == payload.skip(4)
            &&& word_sum(r) % 65535 == 0
        },
{
    if echo_request(payload) is Some {
        a_reply_passes_the_checksum(payload);
    }
}

/// The words of a message are taken high byte first, and a last odd byte counts
/// as the high byte of a word.
pub proof fn words_are_read_high_byte_first(b: Seq<u8>)
    ensures
        b.len() == 0 ==> word_sum(b) == 0,
        b.len() == 1 ==> word_sum(b) == 256 * b[0],
        b.len() == 2 ==> word_sum(b) == 256 * b[0] + b[1],
        b.len() >= 2 ==> word_sum(b) == word_sum(b.take(2)) + word_sum(b.skip(2)),
{
    reveal_with_fuel(word_sum, 2);
    if b.len() >= 2 {
        assert(b == b.take(2) + b.skip(2));
        sum_of_parts(b.take(2), b.skip(2));
    }
}

} // verus!
