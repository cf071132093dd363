//! Byte-level helpers: big-endian integers, fixed-size arrays and
//! sequence concatenation, each with its specification.
use vstd::prelude::*;

verus! {

/// Big-endian encoding of a `u16`.
pub open spec fn be16(x: u16) -> Seq<u8> {
    seq![(x >> 8u16) as u8, (x & 0xffu16) as u8]
}

/// The `u16` that two big-endian bytes encode.
pub open spec fn read_be16(s: Seq<u8>) -> u16 {
    (((s[0] as u16) << 8u16) | (s[1] as u16)) as u16
}

/// Big-endian encoding of a `u64`.
pub open spec fn be64(x: u64) -> Seq<u8> {
    seq![
        (x >> 56u64) as u8,
        (x >> 48u64) as u8,
        (x >> 40u64) as u8,
        (x >> 32u64) as u8,
        (x >> 24u64) as u8,
        (x >> 16u64) as u8,
        (x >> 8u64) as u8,
        x as u8,
    ]
}

/// Big-endian encoding of a `u32`.
pub open spec fn be32(x: u32) -> Seq<u8> {
    seq![(x >> 24u32) as u8, (x >> 16u32) as u8, (x >> 8u32) as u8, x as u8]
}

/// The `u64` that eight big-endian bytes encode.
pub open spec fn read_be64(s: Seq<u8>) -> u64 {
    (((s[0] as u64) << 56u64) | ((s[1] as u64) << 48u64) | ((s[2] as u64) << 40u64) | ((
    s[3] as u64) << 32u64) | ((s[4] as u64) << 24u64) | ((s[5] as u64) << 16u64) | ((
    s[6] as u64) << 8u64) | (s[7] as u64)) as u64
}

/// Thirty-two zero bytes.
pub open spec fn zeros32() -> Seq<u8> {
    Seq::new(32, |i: int| 0u8)
}

/// Reading back a big-endian `u16` gives the number that was written.
pub proof fn lemma_be16_roundtrip(x: u16)
    ensures
        read_be16(be16(x)) == x,
        be16(x).len() == 2,
{
    let b0 = (x >> 8u16) as u8;
    let b1 = (x & 0xffu16) as u8;
    assert((((b0 as u16) << 8u16) | (b1 as u16)) == x) by (bit_vector)
        requires
            b0 == (x >> 8u16) as u8,
            b1 == (x & 0xffu16) as u8,
    ;
}

/// Reading back a big-endian `u64` gives the number that was written.
pub proof fn lemma_be64_roundtrip(x: u64)
    ensures
        read_be64(be64(x)) == x,
        be64(x).len() == 8,
{
    let s = be64(x);
    assert((((((x >> 56u64) as u8) as u64) << 56u64) | ((((x >> 48u64) as u8) as u64) << 48u64)
        | ((((x >> 40u64) as u8) as u64) << 40u64) | ((((x >> 32u64) as u8) as u64) << 32u64) | ((
    ((x >> 24u64) as u8) as u64) << 24u64) | ((((x >> 16u64) as u8) as u64) << 16u64) | ((((x
        >> 8u64) as u8) as u64) << 8u64) | ((x as u8) as u64)) == x) by (bit_vector);
}

/// Appends the bytes of `s` to `buf`.
pub fn append_bytes(buf: &mut Vec<u8>, s: &[u8])
    ensures
        final(buf)@ == old(buf)@ + s@,
{
    let n = s.len();
    let mut i: usize = 0;
    while i < n
        invariant
            n == s@.len(),
            0 <= i <= n,
            buf@ == old(buf)@ + s@.take(i as int),
        decreases n - i,
    {
        buf.push(s[i]);
        i += 1;
        assert(buf@ =~= old(buf)@ + s@.take(i as int));
    }
    assert(s@.take(n as int) =~= s@);
}

/// Appends the big-endian encoding of `x` to `buf`.
pub fn push_be16(buf: &mut Vec<u8>, x: u16)
    ensures
        final(buf)@ == old(buf)@ + be16(x),
{
    buf.push((x >> 8u16) as u8);
    buf.push((x & 0xffu16) as u8);
    assert(buf@ =~= old(buf)@ + be16(x));
}

/// Appends the big-endian encoding of `x` to `buf`.
pub fn push_be32(buf: &mut Vec<u8>, x: u32)
    ensures
        final(buf)@ == old(buf)@ + be32(x),
{
    buf.push((x >> 24u32) as u8);
    buf.push((x >> 16u32) as u8);
    buf.push((x >> 8u32) as u8);
    buf.push(x as u8);
    assert(buf@ =~= old(buf)@ + be32(x));
}

/// Appends the big-endian encoding of `x` to `buf`.
pub fn push_be64(buf: &mut Vec<u8>, x: u64)
    ensures
        final(buf)@ == old(buf)@ + be64(x),
{
    buf.push((x >> 56u64) as u8);
    buf.push((x >> 48u64) as u8);
    buf.push((x >> 40u64) as u8);
    buf.push((x >> 32u64) as u8);
    buf.push((x >> 24u64) as u8);
    buf.push((x >> 16u64) as u8);
    buf.push((x >> 8u64) as u8);
    buf.push(x as u8);
    assert(buf@ =~= old(buf)@ + be64(x));
}

/// Reads a big-endian `u16` at `start`.
pub fn read_be16_at(data: &[u8], start: usize) -> (r: u16)
    requires
        start + 2 <= data@.len(),
    ensures
        r == read_be16(data@.subrange(start as int, start + 2)),
{
    let b0 = data[start];
    let b1 = data[start + 1];
    (((b0 as u16) << 8u16) | (b1 as u16)) as u16
}

/// Reads a big-endian `u64` at `start`.
pub fn read_be64_at(data: &[u8], start: usize) -> (r: u64)
    requires
        start + 8 <= data@.len(),
    ensures
        r == read_be64(data@.subrange(start as int, start + 8)),
{
    let s = Ghost(data@.subrange(start as int, start + 8));
    let b0 = data[start];
    let b1 = data[start + 1];
    let b2 = data[start + 2];
    let b3 = data[start + 3];
    let b4 = data[start + 4];
    let b5 = data[start + 5];
    let b6 = data[start + 6];
    let b7 = data[start + 7];
    assert(b0 == s@[0] && b7 == s@[7]);
    (((b0 as u64) << 56u64) | ((b1 as u64) << 48u64) | ((b2 as u64) << 40u64) | ((b3 as u64)
        << 32u64) | ((b4 as u64) << 24u64) | ((b5 as u64) << 16u64) | ((b6 as u64) << 8u64) | (
    b7 as u64)) as u64
}

/// Copies the 32 bytes at `start` into an array.
pub fn array32_at(data: &[u8], start: usize) -> (r: [u8; 32])
    requires
        start + 32 <= data@.len(),
    ensures
        r@ == data@.subrange(start as int, start + 32),
{
    let mut r = [0u8; 32];
    let len = data.len();
    let mut i: usize = 0;
    while i < 32
        invariant
            0 <= i <= 32,
            len == data@.len(),
            start + 32 <= data@.len(),
            forall|k: int| 0 <= k < i ==> r@[k] == data@[start + k],
        decreases 32 - i,
    {
        r[i] = data[start + i];
        i += 1;
    }
    assert(r@ =~= data@.subrange(start as int, start + 32));
    r
}

/// Copies the 64 bytes at `start` into an array.
pub fn array64_at(data: &[u8], start: usize) -> (r: [u8; 64])
    requires
        start + 64 <= data@.len(),
    ensures
        r@ == data@.subrange(start as int, start + 64),
{
    let mut r = [0u8; 64];
    let len = data.len();
    let mut i: usize = 0;
    while i < 64
        invariant
            0 <= i <= 64,
            len == data@.len(),
            start + 64 <= data@.len(),
            forall|k: int| 0 <= k < i ==> r@[k] == data@[start + k],
        decreases 64 - i,
    {
        r[i] = data[start + i];
        i += 1;
    }
    assert(r@ =~= data@.subrange(start as int, start + 64));
    r
}

/// Whether two 32-byte arrays hold the same bytes.
pub fn bytes32_eq(a: &[u8; 32], b: &[u8; 32]) -> (r: bool)
    ensures
        r == (a@ == b@),
        r == (*a == *b),
{
    let mut i: usize = 0;
    while i < 32
        invariant
            0 <= i <= 32,
            forall|k: int| 0 <= k < i ==> a@[k] == b@[k],
        decreases 32 - i,
    {
        if a[i] != b[i] {
            assert(a@[i as int] != b@[i as int]);
            return false;
        }
        i += 1;
    }
    assert(a@ =~= b@);
    assert(*a =~= *b);
    true
}

/// Whether a 32-byte array is all zeros.
pub fn is_zero32(a: &[u8; 32]) -> (r: bool)
    ensures
        r == (a@ == zeros32()),
{
    let mut i: usize = 0;
    while i < 32
        invariant
            0 <= i <= 32,
            forall|k: int| 0 <= k < i ==> a@[k] == 0u8,
        decreases 32 - i,
    {
        if a[i] != 0 {
            assert(a@[i as int] != zeros32()[i as int]);
            return false;
        }
        i += 1;
    }
    assert(a@ =~= zeros32());
    true
}

/// Thirty-two zero bytes.
pub fn zero32() -> (r: [u8; 32])
    ensures
        r@ == zeros32(),
{
    let r = [0u8; 32];
    assert(r@ =~= zeros32());
    r
}

} // verus!
