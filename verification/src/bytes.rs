//! Fixed-width integers as bytes: little-endian for WAV fields and PCM samples, big-endian for
//! 16-bit device registers.

use vstd::prelude::*;

verus! {

/// The two little-endian bytes of a 16-bit number.
pub open spec fn le16(x: int) -> Seq<u8> {
    seq![(x % 256) as u8, (x / 256 % 256) as u8]
}

/// The four little-endian bytes of a 32-bit number.
pub open spec fn le32(x: int) -> Seq<u8> {
    seq![
        (x % 256) as u8,
        (x / 256 % 256) as u8,
        (x / 65536 % 256) as u8,
        (x / 16777216 % 256) as u8,
    ]
}

/// The two big-endian bytes of a 16-bit number.
pub open spec fn be16(x: int) -> Seq<u8> {
    seq![(x / 256 % 256) as u8, (x % 256) as u8]
}

/// The 16-bit little-endian number stored in `s` from index `at`.
pub open spec fn le16_at(s: Seq<u8>, at: int) -> int {
    s[at] + 256 * s[at + 1]
}

/// The 32-bit little-endian number stored in `s` from index `at`.
pub open spec fn le32_at(s: Seq<u8>, at: int) -> int {
    s[at] + 256 * s[at + 1] + 65536 * s[at + 2] + 16777216 * s[at + 3]
}

/// The two little-endian bytes of a signed 16-bit sample (two's complement).
pub open spec fn le_sample(x: int) -> Seq<u8> {
    le16(if x < 0 { x + 65536 } else { x })
}

/// The signed 16-bit sample with the given low and high byte (two's complement).
pub open spec fn sample_of(lo: u8, hi: u8) -> int {
    if hi < 128 {
        lo + 256 * hi
    } else {
        lo + 256 * hi - 65536
    }
}

/// The little-endian bytes of a 32-bit number.
pub fn le32_bytes(x: u32) -> (b: [u8; 4])
    ensures
        b@ == le32(x as int),
{
    let b = [
        (x % 256) as u8,
        (x / 256 % 256) as u8,
        (x / 65536 % 256) as u8,
        (x / 16777216 % 256) as u8,
    ];
    assert(b@ =~= le32(x as int));
    b
}

/// The big-endian bytes of a 16-bit number.
pub fn be16_bytes(x: u16) -> (b: [u8; 2])
    ensures
        b@ == be16(x as int),
{
    let b = [(x / 256 % 256) as u8, (x % 256) as u8];
    assert(b@ =~= be16(x as int));
    b
}

/// The little-endian bytes of a signed 16-bit sample.
pub fn sample_bytes(x: i16) -> (b: [u8; 2])
    ensures
        b@ == le_sample(x as int),
{
    let u: i32 = if x < 0 { x as i32 + 65536 } else { x as i32 };
    let b = [(u % 256) as u8, (u / 256) as u8];
    assert(b@ =~= le_sample(x as int));
    b
}

/// The signed 16-bit sample with the given low and high byte.
pub fn sample_from_bytes(lo: u8, hi: u8) -> (x: i16)
    ensures
        x == sample_of(lo, hi),
{
    let u: i32 = lo as i32 + 256 * (hi as i32);
    if hi < 128 {
        u as i16
    } else {
        (u - 65536) as i16
    }
}

/// A sample is read back from its own bytes.
pub proof fn le_sample_read_back(x: int)
    requires
        -32768 <= x <= 32767,
    ensures
        sample_of(le_sample(x)[0], le_sample(x)[1]) == x,
        le_sample(x).len() == 2,
        le_sample(x)[0] + 256 * le_sample(x)[1] == x || le_sample(x)[0] + 256 * le_sample(x)[1] == x
            + 65536,
{
}

/// A 32-bit number is read back from its own bytes.
pub proof fn le32_read_back(x: int)
    requires
        0 <= x <= u32::MAX,
    ensures
        le32(x).len() == 4,
        le32_at(le32(x), 0) == x,
        le32(x)[0] + 256 * le32(x)[1] + 65536 * le32(x)[2] + 16777216 * le32(x)[3] == x,
{
    assert(x / 65536 == x / 256 / 256);
    assert(x / 16777216 == x / 65536 / 256);
    assert(0 <= x / 16777216 < 256);
    assert(x == 256 * (x / 256) + x % 256);
    assert(x / 256 == 256 * (x / 65536) + x / 256 % 256);
    assert(x / 65536 == 256 * (x / 16777216) + x / 65536 % 256);
}

/// The bytes of a 16-bit number weigh 1 and 256: the low one comes first in little-endian order
/// and last in big-endian order.
pub proof fn word_bytes_have_place_values(x: int)
    requires
        0 <= x <= u16::MAX,
    ensures
        le16(x).len() == 2,
        le16(x)[0] + 256 * le16(x)[1] == x,
        be16(x).len() == 2,
        256 * be16(x)[0] + be16(x)[1] == x,
{
}

/// A sample lies in the range of a signed 16-bit number and agrees with its two bytes modulo
/// 65536. There is just one such number.
pub proof fn sample_is_twos_complement(lo: u8, hi: u8)
    ensures
        -32768 <= sample_of(lo, hi) <= 32767,
        (sample_of(lo, hi) - lo - 256 * hi) % 65536 == 0,
{
}

/// Reading numbers from bytes weighs the bytes by their places.
pub proof fn reading_weighs_bytes(s: Seq<u8>, at: int)
    ensures
        le16_at(s, at) == s[at] + s[at + 1] * 256,
        le32_at(s, at) == le16_at(s, at) + le16_at(s, at + 2) * 65536,
{
}

} // verus!
