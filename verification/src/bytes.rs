//! Big-endian byte access: reads go through `byteorder`, writes are done here.
use vstd::prelude::*;
use byteorder::{BigEndian, ByteOrder};

verus! {

/// Unsigned big-endian value of the two bytes at `i`.
pub open spec fn be16_at(s: Seq<u8>, i: int) -> int {
    s[i] as int * 0x100 + s[i + 1] as int
}

/// Unsigned big-endian value of the three bytes at `i`.
pub open spec fn be24_at(s: Seq<u8>, i: int) -> int {
    s[i] as int * 0x10000 + s[i + 1] as int * 0x100 + s[i + 2] as int
}

/// Unsigned big-endian value of the four bytes at `i`.
pub open spec fn be32_at(s: Seq<u8>, i: int) -> int {
    s[i] as int * 0x1000000 + s[i + 1] as int * 0x10000 + s[i + 2] as int * 0x100
        + s[i + 3] as int
}

/// Unsigned big-endian value of the eight bytes at `i`.
pub open spec fn be64_at(s: Seq<u8>, i: int) -> int {
    be32_at(s, i) * 0x1_0000_0000 + be32_at(s, i + 4)
}

/// Two's-complement reading of a 24-bit unsigned value.
pub open spec fn sign_extend24(v: int) -> int {
    if v >= 0x800000 { v - 0x1000000 } else { v }
}

/// A 24-bit two's-complement reading is the one value in `[-2^23, 2^23)` that agrees with
/// the unsigned value modulo 2^24.
pub proof fn lemma_sign_extend24(v: int)
    requires
        0 <= v < 0x1000000,
    ensures
        -0x800000 <= sign_extend24(v) < 0x800000,
        (v - sign_extend24(v)) % 0x1000000 == 0,
{
}

/// The low 32 bits of `x`, written as four big-endian bytes.
pub open spec fn be_bytes32(x: nat) -> Seq<u8> {
    seq![
        ((x / 0x1000000) % 256) as u8,
        ((x / 0x10000) % 256) as u8,
        ((x / 0x100) % 256) as u8,
        (x % 256) as u8,
    ]
}

/// The low 16 bits of `x`, written as two big-endian bytes.
pub open spec fn be_bytes16(x: nat) -> Seq<u8> {
    seq![((x / 0x100) % 256) as u8, (x % 256) as u8]
}

/// `BigEndian::read_u16` of byteorder: the first two bytes of `buf`, most
/// significant first. It panics on a shorter buffer, which `requires` excludes.
#[verifier::external_body]
pub(crate) fn read_be_u16(buf: &[u8]) -> (r: u16)
    requires
        buf@.len() >= 2,
    ensures
        r as int == be16_at(buf@, 0),
{
    BigEndian::read_u16(buf)
}

/// `BigEndian::read_u24` of byteorder: the first three bytes of `buf`, most
/// significant first. It panics on a shorter buffer, which `requires` excludes.
#[verifier::external_body]
pub(crate) fn read_be_u24(buf: &[u8]) -> (r: u32)
    requires
        buf@.len() >= 3,
    ensures
        r as int == be24_at(buf@, 0),
{
    BigEndian::read_u24(buf)
}

/// `BigEndian::read_i24` of byteorder: the first three bytes of `buf` as a
/// two's-complement 24-bit number. It panics on a shorter buffer, which `requires` excludes.
#[verifier::external_body]
pub(crate) fn read_be_i24(buf: &[u8]) -> (r: i32)
    requires
        buf@.len() >= 3,
    ensures
        r as int == sign_extend24(be24_at(buf@, 0)),
{
    BigEndian::read_i24(buf)
}

/// `BigEndian::read_u32` of byteorder: the first four bytes of `buf`, most
/// significant first. It panics on a shorter buffer, which `requires` excludes.
#[verifier::external_body]
pub(crate) fn read_be_u32(buf: &[u8]) -> (r: u32)
    requires
        buf@.len() >= 4,
    ensures
        r as int == be32_at(buf@, 0),
{
    BigEndian::read_u32(buf)
}

/// `BigEndian::read_u64` of byteorder: the first eight bytes of `buf`, most
/// significant first. It panics on a shorter buffer, which `requires` excludes.
#[verifier::external_body]
pub(crate) fn read_be_u64(buf: &[u8]) -> (r: u64)
    requires
        buf@.len() >= 8,
    ensures
        r as int == be64_at(buf@, 0),
{
    BigEndian::read_u64(buf)
}

/// Appends the low 32 bits of `x` in big-endian order.
pub fn push_be32(v: &mut Vec<u8>, x: u64)
    ensures
        final(v)@ == old(v)@ + be_bytes32(x as nat),
{
    let b0 = ((x >> 24u64) & 0xff) as u8;
    let b1 = ((x >> 16u64) & 0xff) as u8;
    let b2 = ((x >> 8u64) & 0xff) as u8;
    let b3 = (x & 0xff) as u8;
    assert(((x >> 24u64) & 0xff) == (x / 0x1000000) % 256) by (bit_vector);
    assert(((x >> 16u64) & 0xff) == (x / 0x10000) % 256) by (bit_vector);
    assert(((x >> 8u64) & 0xff) == (x / 0x100) % 256) by (bit_vector);
    assert((x & 0xff) == x % 256) by (bit_vector);
    v.push(b0);
    v.push(b1);
    v.push(b2);
    v.push(b3);
    assert(final(v)@ =~= old(v)@ + be_bytes32(x as nat));
}

/// Appends the low 16 bits of `x` in big-endian order.
pub fn push_be16(v: &mut Vec<u8>, x: u64)
    ensures
        final(v)@ == old(v)@ + be_bytes16(x as nat),
{
    let b0 = ((x >> 8u64) & 0xff) as u8;
    let b1 = (x & 0xff) as u8;
    assert(((x >> 8u64) & 0xff) == (x / 0x100) % 256) by (bit_vector);
    assert((x & 0xff) == x % 256) by (bit_vector);
    v.push(b0);
    v.push(b1);
    assert(final(v)@ =~= old(v)@ + be_bytes16(x as nat));
}

/// Appends all of `src` to `v`.
pub fn push_all(v: &mut Vec<u8>, src: &[u8])
    ensures
        final(v)@ == old(v)@ + src@,
{
    let mut i: usize = 0;
    while i < src.len()
        invariant
            i <= src@.len(),
            v@ == old(v)@ + src@.subrange(0, i as int),
        decreases src@.len() - i,
    {
        v.push(src[i]);
        i = i + 1;
        assert(v@ =~= old(v)@ + src@.subrange(0, i as int));
    }
    assert(src@.subrange(0, src@.len() as int) =~= src@);
}

/// A copy of the bytes `[a, b)` of `buf`.
pub fn copy_range(buf: &[u8], a: usize, b: usize) -> (r: Vec<u8>)
    requires
        a <= b <= buf@.len(),
    ensures
        r@ == buf@.subrange(a as int, b as int),
{
    let mut v: Vec<u8> = Vec::new();
    push_all(&mut v, &buf[a..b]);
    v
}

/// Four bytes written by [`be_bytes32`] read back as the value, when it fits in 32 bits.
pub proof fn lemma_be_bytes32_read(x: nat)
    requires
        x < 0x1_0000_0000,
    ensures
        be32_at(be_bytes32(x), 0) == x,
{
    let b = be_bytes32(x);
    assert(b[0] as int == (x / 0x1000000) % 256);
    assert(b[1] as int == (x / 0x10000) % 256);
    assert(b[2] as int == (x / 0x100) % 256);
    assert(b[3] as int == x % 256);
    assert(((x / 0x1000000) % 256) * 0x1000000 + ((x / 0x10000) % 256) * 0x10000
        + ((x / 0x100) % 256) * 0x100 + x % 256 == x) by (nonlinear_arith)
        requires
            x < 0x1_0000_0000,
    {
        assert(x / 0x1000000 < 256);
        assert(x / 0x10000 == (x / 0x1000000) * 256 + (x / 0x10000) % 256);
        assert(x / 0x100 == (x / 0x10000) * 256 + (x / 0x100) % 256);
        assert(x == (x / 0x100) * 256 + x % 256);
    }
}

} // verus!
