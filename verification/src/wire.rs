//! Fixed-width numbers as they lie in the file: the mathematical reading of the bytes, and the
//! calls into `byteorder` that perform it.

use byteorder::{BigEndian, ByteOrder, LittleEndian};
use vstd::prelude::*;
use vstd::slice::slice_subrange;

verus! {

/// The unsigned number held by the four bytes of `s` that start at `at`, least significant
/// byte first.
pub open spec fn le_u32(s: Seq<u8>, at: int) -> int {
    s[at] + 0x100 * s[at + 1] + 0x1_0000 * s[at + 2] + 0x100_0000 * s[at + 3]
}

/// The unsigned number held by the four bytes of `s` that start at `at`, most significant
/// byte first.
pub open spec fn be_u32(s: Seq<u8>, at: int) -> int {
    0x100_0000 * s[at] + 0x1_0000 * s[at + 1] + 0x100 * s[at + 2] + s[at + 3]
}

/// The signed number that a 32-bit two's complement word stands for, given its unsigned
/// reading.
pub open spec fn signed32(u: int) -> int {
    if u < 0x8000_0000 {
        u
    } else {
        u - 0x1_0000_0000
    }
}

/// The signed 32-bit number stored little-endian at offset `at` of `s`.
pub open spec fn le_i32(s: Seq<u8>, at: int) -> i32 {
    signed32(le_u32(s, at)) as i32
}

/// The signed 32-bit number stored big-endian at offset `at` of `s`.
pub open spec fn be_i32(s: Seq<u8>, at: int) -> i32 {
    signed32(be_u32(s, at)) as i32
}

/// The unsigned 64-bit number stored little-endian at offset `at` of `s`.
pub open spec fn le_u64(s: Seq<u8>, at: int) -> u64 {
    (le_u32(s, at) + 0x1_0000_0000 * le_u32(s, at + 4)) as u64
}

/// Whether `bits`, read as an IEEE 754 binary64 number, is zero. Zero has two bit patterns,
/// one of either sign, and a comparison of numbers tells them apart from all others and not
/// from each other.
pub open spec fn is_zero(bits: u64) -> bool {
    bits == 0 || bits == 0x8000_0000_0000_0000
}

/// The eight bytes that store `x` little-endian.
pub open spec fn le_bytes_u64(x: u64) -> Seq<u8> {
    seq![
        (x % 0x100) as u8,
        (x / 0x100 % 0x100) as u8,
        (x / 0x1_0000 % 0x100) as u8,
        (x / 0x100_0000 % 0x100) as u8,
        (x / 0x1_0000_0000 % 0x100) as u8,
        (x / 0x100_0000_0000 % 0x100) as u8,
        (x / 0x1_0000_0000_0000 % 0x100) as u8,
        (x / 0x100_0000_0000_0000 % 0x100) as u8,
    ]
}

/// A 64-bit number is the sum of its eight base-256 digits, each at its weight.
proof fn lemma_digits_u64(x: u64)
    ensures
        x == (x % 0x100) + 0x100 * (x / 0x100 % 0x100) + 0x1_0000 * (x / 0x1_0000 % 0x100)
            + 0x100_0000 * (x / 0x100_0000 % 0x100) + 0x1_0000_0000 * ((x / 0x1_0000_0000 % 0x100)
            + 0x100 * (x / 0x100_0000_0000 % 0x100) + 0x1_0000 * (x / 0x1_0000_0000_0000 % 0x100)
            + 0x100_0000 * (x / 0x100_0000_0000_0000 % 0x100)),
{
    let lo = x % 0x1_0000_0000;
    let hi = x / 0x1_0000_0000;
    assert(x == lo + 0x1_0000_0000 * hi);
    assert(lo == (lo % 0x100) + 0x100 * (lo / 0x100 % 0x100) + 0x1_0000 * (lo / 0x1_0000 % 0x100)
        + 0x100_0000 * (lo / 0x100_0000 % 0x100));
    assert(hi == (hi % 0x100) + 0x100 * (hi / 0x100 % 0x100) + 0x1_0000 * (hi / 0x1_0000 % 0x100)
        + 0x100_0000 * (hi / 0x100_0000 % 0x100));
    assert(lo % 0x100 == x % 0x100 && lo / 0x100 % 0x100 == x / 0x100 % 0x100 && lo / 0x1_0000
        % 0x100 == x / 0x1_0000 % 0x100 && lo / 0x100_0000 % 0x100 == x / 0x100_0000 % 0x100)
        by (bit_vector)
        requires
            lo == x % 0x1_0000_0000,
    ;
    assert(hi % 0x100 == x / 0x1_0000_0000 % 0x100 && hi / 0x100 % 0x100 == x / 0x100_0000_0000
        % 0x100 && hi / 0x1_0000 % 0x100 == x / 0x1_0000_0000_0000 % 0x100 && hi / 0x100_0000
        % 0x100 == x / 0x100_0000_0000_0000 % 0x100) by (bit_vector)
        requires
            hi == x / 0x1_0000_0000,
    ;
}

/// Reading the bytes that store a number gives the number back, wherever in a buffer they
/// lie.
pub proof fn lemma_le_u64_of_le_bytes(s: Seq<u8>, at: int, x: u64)
    requires
        0 <= at,
        at + 8 <= s.len(),
        s.subrange(at, at + 8) == le_bytes_u64(x),
    ensures
        le_u64(s, at) == x,
{
    let b = s.subrange(at, at + 8);
    assert(s[at] == b[0] && s[at + 1] == b[1] && s[at + 2] == b[2] && s[at + 3] == b[3]);
    assert(s[at + 4] == b[4] && s[at + 5] == b[5] && s[at + 6] == b[6] && s[at + 7] == b[7]);
    lemma_digits_u64(x);
}

/// Calls `byteorder::BigEndian::read_i32`, which reads the first four bytes of `buf` as a
/// big-endian two's complement number and panics on a shorter buffer. Trusted: the result
/// is taken to be `be_i32` of those bytes.
#[verifier::external_body]
pub(crate) fn read_i32_be(buf: &[u8]) -> (r: i32)
    requires
        buf@.len() >= 4,
    ensures
        r == be_i32(buf@, 0),
{
    BigEndian::read_i32(buf)
}

/// Calls `byteorder::LittleEndian::read_i32`, which reads the first four bytes of `buf` as a
/// little-endian two's complement number and panics on a shorter buffer. Trusted: the result
/// is taken to be `le_i32` of those bytes.
#[verifier::external_body]
pub(crate) fn read_i32_le(buf: &[u8]) -> (r: i32)
    requires
        buf@.len() >= 4,
    ensures
        r == le_i32(buf@, 0),
{
    LittleEndian::read_i32(buf)
}

/// Calls `byteorder::LittleEndian::read_u64`, which reads the first eight bytes of `buf` as a
/// little-endian unsigned number and panics on a shorter buffer. Trusted: the result is taken
/// to be `le_u64` of those bytes.
#[verifier::external_body]
pub(crate) fn read_u64_le(buf: &[u8]) -> (r: u64)
    requires
        buf@.len() >= 8,
    ensures
        r == le_u64(buf@, 0),
{
    LittleEndian::read_u64(buf)
}

/// Whether `bits`, read as an IEEE 754 binary64 number, is zero.
pub fn bits_are_zero(bits: u64) -> (b: bool)
    ensures
        b == is_zero(bits),
{
    bits == 0 || bits == 0x8000_0000_0000_0000
}

/// The big-endian signed 32-bit number at offset `at` of `buf`.
pub fn i32_be_at(buf: &[u8], at: usize) -> (r: i32)
    requires
        at + 4 <= buf@.len(),
    ensures
        r == be_i32(buf@, at as int),
{
    assert(buf@.len() == buf.len());
    read_i32_be(slice_subrange(buf, at, at + 4))
}

/// The little-endian signed 32-bit number at offset `at` of `buf`.
pub fn i32_le_at(buf: &[u8], at: usize) -> (r: i32)
    requires
        at + 4 <= buf@.len(),
    ensures
        r == le_i32(buf@, at as int),
{
    assert(buf@.len() == buf.len());
    read_i32_le(slice_subrange(buf, at, at + 4))
}

/// The little-endian unsigned 64-bit number at offset `at` of `buf`.
pub fn u64_le_at(buf: &[u8], at: usize) -> (r: u64)
    requires
        at + 8 <= buf@.len(),
    ensures
        r == le_u64(buf@, at as int),
{
    assert(buf@.len() == buf.len());
    read_u64_le(slice_subrange(buf, at, at + 8))
}

} // verus!
