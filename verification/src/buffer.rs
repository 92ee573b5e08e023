//! The byte buffers of the `bytes` crate, through which frames are read and
//! written.

use bytes::{Buf, BufMut, Bytes, BytesMut};
use vstd::prelude::*;

verus! {

#[verifier::external_type_specification]
#[verifier::external_body]
pub struct ExBytes(bytes::Bytes);

#[verifier::external_type_specification]
#[verifier::external_body]
pub struct ExBytesMut(bytes::BytesMut);

/// The bytes that a `Bytes` handle stands for.
pub uninterp spec fn bytes_of(b: bytes::Bytes) -> Seq<u8>;

/// The readable bytes of a `BytesMut`, oldest first.
pub uninterp spec fn buffered(b: bytes::BytesMut) -> Seq<u8>;

/// `BytesMut::len`: the number of readable bytes.
#[verifier::external_body]
pub(crate) fn buf_len(b: &BytesMut) -> (n: usize)
    ensures
        n == buffered(*b).len(),
{
    b.len()
}

/// Indexing a `BytesMut`: the byte at position `i`. Outside the readable
/// bytes it panics, so such an `i` is left out.
#[verifier::external_body]
pub(crate) fn buf_at(b: &BytesMut, i: usize) -> (v: u8)
    requires
        i < buffered(*b).len(),
    ensures
        v == buffered(*b)[i as int],
{
    b[i]
}

/// `BytesMut::reserve`: makes room, and leaves the readable bytes as they are.
/// A total beyond what an allocation may hold panics, so it is left out.
#[verifier::external_body]
pub(crate) fn buf_reserve(b: &mut BytesMut, additional: usize)
    requires
        buffered(*old(b)).len() + additional <= isize::MAX,
    ensures
        buffered(*final(b)) == buffered(*old(b)),
{
    b.reserve(additional)
}

/// `Buf::advance` on a `BytesMut`: drops the first `n` readable bytes. It
/// panics past the end, so such an `n` is left out.
#[verifier::external_body]
pub(crate) fn buf_advance(b: &mut BytesMut, n: usize)
    requires
        n <= buffered(*old(b)).len(),
    ensures
        buffered(*final(b)) == buffered(*old(b)).skip(n as int),
{
    b.advance(n)
}

/// `BytesMut::split_to`: cuts the first `n` readable bytes off into a buffer
/// of their own. It panics past the end, so such an `n` is left out.
#[verifier::external_body]
pub(crate) fn buf_split_to(b: &mut BytesMut, n: usize) -> (head: BytesMut)
    requires
        n <= buffered(*old(b)).len(),
    ensures
        buffered(head) == buffered(*old(b)).take(n as int),
        buffered(*final(b)) == buffered(*old(b)).skip(n as int),
{
    b.split_to(n)
}

/// `Buf::get_u8` on a `BytesMut`: takes the first readable byte. It panics on
/// an empty buffer, so that is left out.
#[verifier::external_body]
pub(crate) fn buf_get_u8(b: &mut BytesMut) -> (v: u8)
    requires
        buffered(*old(b)).len() > 0,
    ensures
        v == buffered(*old(b))[0],
        buffered(*final(b)) == buffered(*old(b)).skip(1),
{
    b.get_u8()
}

/// `BytesMut::freeze`: the same bytes, no longer writable.
#[verifier::external_body]
pub(crate) fn buf_freeze(b: BytesMut) -> (r: Bytes)
    ensures
        bytes_of(r) == buffered(b),
{
    b.freeze()
}

/// `BufMut::put_u8` on a `BytesMut`: appends one byte, growing the buffer as
/// needed. A total beyond what an allocation may hold panics, so it is left out.
#[verifier::external_body]
pub(crate) fn buf_put_u8(b: &mut BytesMut, v: u8)
    requires
        buffered(*old(b)).len() + 1 <= isize::MAX,
    ensures
        buffered(*final(b)) == buffered(*old(b)).push(v),
{
    b.put_u8(v)
}

/// `BufMut::put_u32` on a `BytesMut`: appends the four bytes of `v`, most
/// significant first, growing the buffer as needed. A total beyond what an
/// allocation may hold panics, so it is left out.
#[verifier::external_body]
pub(crate) fn buf_put_u32(b: &mut BytesMut, v: u32)
    requires
        buffered(*old(b)).len() + 4 <= isize::MAX,
    ensures
        buffered(*final(b)) == buffered(*old(b)) + be_bytes(v as nat, 4),
{
    b.put_u32(v)
}

/// `BytesMut::extend_from_slice` with the bytes of a `Bytes`: appends them,
/// growing the buffer as needed. A total beyond what an allocation may hold
/// panics, so it is left out.
#[verifier::external_body]
pub(crate) fn buf_extend(b: &mut BytesMut, data: &Bytes)
    requires
        buffered(*old(b)).len() + bytes_of(*data).len() <= isize::MAX,
    ensures
        buffered(*final(b)) == buffered(*old(b)) + bytes_of(*data),
{
    b.extend_from_slice(data)
}

/// `Bytes::len`: the number of bytes.
#[verifier::external_body]
pub(crate) fn bytes_len(b: &Bytes) -> (n: usize)
    ensures
        n == bytes_of(*b).len(),
{
    b.len()
}

/// `Bytes` as a slice, through `AsRef`: the same bytes.
#[verifier::external_body]
pub(crate) fn bytes_slice(b: &Bytes) -> (r: &[u8])
    ensures
        r@ == bytes_of(*b),
{
    b.as_ref()
}

/// `Bytes::clone`: another handle on the same bytes.
pub assume_specification[ <bytes::Bytes as Clone>::clone ](b: &bytes::Bytes) -> (r: bytes::Bytes)
    ensures
        bytes_of(r) == bytes_of(*b),
;

/// `Bytes::from` on a `Vec<u8>`: the same bytes.
#[verifier::external_body]
pub(crate) fn bytes_from_vec(v: Vec<u8>) -> (r: Bytes)
    ensures
        bytes_of(r) == v@,
{
    Bytes::from(v)
}

/// `n` in `width` bytes, most significant first; what does not fit is cut off
/// at the top.
pub open spec fn be_bytes(n: nat, width: nat) -> Seq<u8>
    decreases width,
{
    if width == 0 {
        Seq::empty()
    } else {
        be_bytes(n / 256, (width - 1) as nat).push((n % 256) as u8)
    }
}

/// The number that bytes hold, most significant first.
pub open spec fn be_value(b: Seq<u8>) -> nat
    decreases b.len(),
{
    if b.len() == 0 {
        0
    } else {
        be_value(b.drop_last()) * 256 + b.last() as nat
    }
}

/// One more than the largest number that `width` bytes hold.
pub open spec fn be_limit(width: nat) -> nat
    decreases width,
{
    if width == 0 {
        1
    } else {
        256 * be_limit((width - 1) as nat)
    }
}

/// A number that fits in `width` bytes is the value of its bytes.
pub proof fn be_read_back(n: nat, width: nat)
    requires
        n < be_limit(width),
    ensures
        be_bytes(n, width).len() == width,
        be_value(be_bytes(n, width)) == n,
    decreases width,
{
    if width > 0 {
        be_read_back(n / 256, (width - 1) as nat);
        assert(be_bytes(n, width).drop_last() =~= be_bytes(n / 256, (width - 1) as nat));
    }
}

/// Bytes hold a number below the limit of their count.
pub proof fn be_value_bound(b: Seq<u8>)
    ensures
        be_value(b) < be_limit(b.len()),
    decreases b.len(),
{
    if b.len() > 0 {
        be_value_bound(b.drop_last());
    }
}

/// The eight bytes of `n`, most significant first.
pub(crate) fn u64_to_be(n: u64) -> (r: Vec<u8>)
    ensures
        r@ == be_bytes(n as nat, 8),
{
    let mut out: Vec<u8> = vec![0u8; 8];
    let mut left: u64 = n;
    let mut i: usize = 8;
    proof {
        assert(out@.skip(8) =~= Seq::<u8>::empty());
        assert(be_bytes(n as nat, 8) + Seq::<u8>::empty() =~= be_bytes(n as nat, 8));
    }
    while i > 0
        invariant
            i <= 8,
            out@.len() == 8,
            be_bytes(n as nat, 8) == be_bytes(left as nat, i as nat) + out@.skip(i as int),
        decreases i,
    {
        let ghost before = out@;
        out.set(i - 1, (left % 256) as u8);
        proof {
            assert(be_bytes(left as nat, i as nat) + before.skip(i as int) =~= be_bytes(
                left as nat / 256,
                (i - 1) as nat,
            ) + out@.skip(i - 1));
        }
        left = left / 256;
        i = i - 1;
    }
    proof {
        assert(out@.skip(0) =~= out@);
        assert(be_bytes(left as nat, 0) + out@ =~= out@);
    }
    out
}

/// The number in at most eight bytes, most significant first.
pub(crate) fn be_to_u64(b: &[u8]) -> (r: u64)
    requires
        b@.len() <= 8,
    ensures
        r == be_value(b@),
{
    let mut acc: u64 = 0;
    let mut i: usize = 0;
    while i < b.len()
        invariant
            i <= b@.len() <= 8,
            acc == be_value(b@.take(i as int)),
        decreases b@.len() - i,
    {
        proof {
            let next = b@.take(i + 1);
            assert(next.drop_last() =~= b@.take(i as int));
            be_value_bound(next);
            reveal_with_fuel(be_limit, 9);
            assert(next.last() == b@[i as int]);
        }
        acc = acc * 256 + b[i] as u64;
        i = i + 1;
    }
    proof {
        assert(b@.take(i as int) =~= b@);
    }
    acc
}

} // verus!
