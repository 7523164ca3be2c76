//! Little-endian integer fields, read and written through `byteorder`.

use byteorder::ByteOrder;
use byteorder::LittleEndian;
use vstd::prelude::*;

verus! {

/// The value of the two bytes `b[0], b[1]` read as a little-endian integer.
pub open spec fn le_u16_value(b: Seq<u8>) -> int {
    b[0] as int + 256 * (b[1] as int)
}

/// The value of the four bytes `b[0..4]` read as a little-endian integer.
pub open spec fn le_u32_value(b: Seq<u8>) -> int {
    b[0] as int + 256 * (b[1] as int) + 65536 * (b[2] as int) + 16777216 * (b[3] as int)
}

/// The two bytes of `n`, least significant first.
pub open spec fn le_u16_bytes(n: u16) -> Seq<u8> {
    seq![(n % 256) as u8, (n / 256) as u8]
}

/// The four bytes of `n`, least significant first.
pub open spec fn le_u32_bytes(n: u32) -> Seq<u8> {
    seq![
        (n % 256) as u8,
        ((n / 256) % 256) as u8,
        ((n / 65536) % 256) as u8,
        (n / 16777216) as u8,
    ]
}

/// Reading back the bytes of `n` gives `n`.
pub proof fn lemma_le_u16_roundtrip(n: u16)
    ensures
        le_u16_bytes(n).len() == 2,
        le_u16_value(le_u16_bytes(n)) == n,
{
    let b = le_u16_bytes(n);
    assert(b[0] as int == n % 256);
    assert(b[1] as int == n / 256);
}

/// Reading back the bytes of `n` gives `n`.
pub proof fn lemma_le_u32_roundtrip(n: u32)
    ensures
        le_u32_bytes(n).len() == 4,
        le_u32_value(le_u32_bytes(n)) == n,
{
    let b = le_u32_bytes(n);
    assert(b[0] as int == n % 256);
    assert(b[1] as int == (n / 256) % 256);
    assert(b[2] as int == (n / 65536) % 256);
    assert(b[3] as int == n / 16777216);
    assert((n % 256) + 256 * ((n / 256) % 256) + 65536 * ((n / 65536) % 256) + 16777216 * (
    n / 16777216) == n) by (nonlinear_arith)
        requires
            0 <= n < 0x1_0000_0000,
    ;
}

/// `LittleEndian::read_u16` from byteorder: the first two bytes of `buf`,
/// least significant first. It panics on a shorter buffer, which `requires` rules out.
#[verifier::external_body]
pub fn read_u16_le(buf: &[u8]) -> (n: u16)
    requires
        buf@.len() >= 2,
    ensures
        n == le_u16_value(buf@),
{
    LittleEndian::read_u16(buf)
}

/// `LittleEndian::read_u32` from byteorder: the first four bytes of `buf`,
/// least significant first. It panics on a shorter buffer, which `requires` rules out.
#[verifier::external_body]
pub fn read_u32_le(buf: &[u8]) -> (n: u32)
    requires
        buf@.len() >= 4,
    ensures
        n == le_u32_value(buf@),
{
    LittleEndian::read_u32(buf)
}

/// `LittleEndian::write_u16` from byteorder, into a fresh two-byte buffer:
/// the bytes of `n`, least significant first.
#[verifier::external_body]
pub fn write_u16_le(n: u16) -> (b: [u8; 2])
    ensures
        b@ == le_u16_bytes(n),
{
    let mut b = [0u8; 2];
    LittleEndian::write_u16(&mut b, n);
    b
}

/// `LittleEndian::write_u32` from byteorder, into a fresh four-byte buffer:
/// the bytes of `n`, least significant first.
#[verifier::external_body]
pub fn write_u32_le(n: u32) -> (b: [u8; 4])
    ensures
        b@ == le_u32_bytes(n),
{
    let mut b = [0u8; 4];
    LittleEndian::write_u32(&mut b, n);
    b
}

} // verus!
