//! Big-endian byte layout: the specification of multi-byte fields, the
//! executable readers, and the growable datagram buffer (an outside
//! crate's, behind trusted contracts).

use vstd::prelude::*;

verus! {

/// The two big-endian bytes of a sixteen-bit value.
pub open spec fn u16_be(x: u16) -> Seq<u8> {
    seq![(x / 0x100) as u8, (x % 0x100) as u8]
}

/// The four big-endian bytes of a thirty-two-bit value.
pub open spec fn u32_be(x: u32) -> Seq<u8> {
    seq![
        (x / 0x1000000) as u8,
        ((x / 0x10000) % 0x100) as u8,
        ((x / 0x100) % 0x100) as u8,
        (x % 0x100) as u8,
    ]
}

/// The eight big-endian bytes of a sixty-four-bit value.
pub open spec fn u64_be(x: u64) -> Seq<u8> {
    seq![
        (x / 0x100000000000000) as u8,
        ((x / 0x1000000000000) % 0x100) as u8,
        ((x / 0x10000000000) % 0x100) as u8,
        ((x / 0x100000000) % 0x100) as u8,
        ((x / 0x1000000) % 0x100) as u8,
        ((x / 0x10000) % 0x100) as u8,
        ((x / 0x100) % 0x100) as u8,
        (x % 0x100) as u8,
    ]
}

/// The value of the two big-endian bytes of `s` at position `i`.
pub open spec fn be16(s: Seq<u8>, i: int) -> int
    recommends
        0 <= i,
        i + 2 <= s.len(),
{
    s[i] * 0x100 + s[i + 1]
}

/// The value of the four big-endian bytes of `s` at position `i`.
pub open spec fn be32(s: Seq<u8>, i: int) -> int
    recommends
        0 <= i,
        i + 4 <= s.len(),
{
    s[i] * 0x1000000 + s[i + 1] * 0x10000 + s[i + 2] * 0x100 + s[i + 3]
}

/// The value of the eight big-endian bytes of `s` at position `i`.
pub open spec fn be64(s: Seq<u8>, i: int) -> int
    recommends
        0 <= i,
        i + 8 <= s.len(),
{
    be32(s, i) * 0x100000000 + be32(s, i + 4)
}

/// Reads the two big-endian bytes of `d` at position `i`.
pub fn read_u16_be(d: &[u8], i: usize) -> (r: u16)
    requires
        i + 2 <= d@.len(),
    ensures
        r as int == be16(d@, i as int),
{
    (d[i] as u16) * 0x100 + (d[i + 1] as u16)
}

/// Reads the four big-endian bytes of `d` at position `i`.
pub fn read_u32_be(d: &[u8], i: usize) -> (r: u32)
    requires
        i + 4 <= d@.len(),
    ensures
        r as int == be32(d@, i as int),
{
    (d[i] as u32) * 0x1000000 + (d[i + 1] as u32) * 0x10000 + (d[i + 2] as u32) * 0x100 + (d[i
        + 3] as u32)
}

/// Reads the eight big-endian bytes of `d` at position `i`.
pub fn read_u64_be(d: &[u8], i: usize) -> (r: u64)
    requires
        i + 8 <= d@.len(),
    ensures
        r as int == be64(d@, i as int),
{
    let n = d.len();
    proof {
        assert(i + 4 <= n);
    }
    let hi = read_u32_be(d, i);
    let lo = read_u32_be(d, i + 4);
    (hi as u64) * 0x100000000 + (lo as u64)
}

/// The bytes a datagram buffer holds so far.
pub uninterp spec fn bm_bytes(b: bytes::BytesMut) -> Seq<u8>;

#[verifier::external_type_specification]
#[verifier::external_body]
pub struct ExBytesMut(bytes::BytesMut);

/// A fresh, empty datagram buffer.
///
/// Relies on `bytes::BytesMut::with_capacity`: the new buffer is empty.
#[verifier::external_body]
pub fn bm_new(capacity: usize) -> (b: bytes::BytesMut)
    ensures
        bm_bytes(b) == Seq::<u8>::empty(),
{
    bytes::BytesMut::with_capacity(capacity)
}

/// Appends a sixty-four-bit value in big-endian order.
///
/// Relies on `bytes::BufMut::put_u64` on `BytesMut`: it appends the
/// value's eight big-endian bytes, growing the buffer as needed.
#[verifier::external_body]
pub fn bm_put_u64(b: &mut bytes::BytesMut, v: u64)
    requires
        bm_bytes(*old(b)).len() + 8 <= 0x7fffffff,
    ensures
        bm_bytes(*final(b)) == bm_bytes(*old(b)) + u64_be(v),
{
    bytes::BufMut::put_u64(b, v)
}

/// Appends a thirty-two-bit value in big-endian order.
///
/// Relies on `bytes::BufMut::put_u32` on `BytesMut`: it appends the
/// value's four big-endian bytes, growing the buffer as needed.
#[verifier::external_body]
pub fn bm_put_u32(b: &mut bytes::BytesMut, v: u32)
    requires
        bm_bytes(*old(b)).len() + 4 <= 0x7fffffff,
    ensures
        bm_bytes(*final(b)) == bm_bytes(*old(b)) + u32_be(v),
{
    bytes::BufMut::put_u32(b, v)
}

/// Appends a sixteen-bit value in big-endian order.
///
/// Relies on `bytes::BufMut::put_u16` on `BytesMut`: it appends the
/// value's two big-endian bytes, growing the buffer as needed.
#[verifier::external_body]
pub fn bm_put_u16(b: &mut bytes::BytesMut, v: u16)
    requires
        bm_bytes(*old(b)).len() + 2 <= 0x7fffffff,
    ensures
        bm_bytes(*final(b)) == bm_bytes(*old(b)) + u16_be(v),
{
    bytes::BufMut::put_u16(b, v)
}

/// Appends a byte slice as it stands.
///
/// Relies on `bytes::BufMut::put_slice` on `BytesMut`: it appends
/// exactly the given bytes, growing the buffer as needed.
#[verifier::external_body]
pub fn bm_put_slice(b: &mut bytes::BytesMut, s: &[u8])
    requires
        bm_bytes(*old(b)).len() + s@.len() <= 0x7fffffff,
    ensures
        bm_bytes(*final(b)) == bm_bytes(*old(b)) + s@,
{
    bytes::BufMut::put_slice(b, s)
}

/// Moves the buffer's bytes out as a plain vector.
///
/// Relies on `From<BytesMut> for Vec<u8>`: the vector holds exactly the
/// buffer's bytes.
#[verifier::external_body]
pub fn bm_into_vec(b: bytes::BytesMut) -> (r: Vec<u8>)
    ensures
        r@ == bm_bytes(b),
{
    Vec::from(b)
}

} // verus!
