//! Bit fields of the 16-bit calibration and RAM words of the sensor.

use vstd::prelude::*;

verus! {

/// Least significant nibble (bits 0..4).
pub open spec fn spec_nibble1(w: u16) -> u16 {
    w % 16
}

/// Second nibble (bits 4..8).
pub open spec fn spec_nibble2(w: u16) -> u16 {
    (w / 16) % 16
}

/// Third nibble (bits 8..12).
pub open spec fn spec_nibble3(w: u16) -> u16 {
    (w / 256) % 16
}

/// Most significant nibble (bits 12..16).
pub open spec fn spec_nibble4(w: u16) -> u16 {
    w / 4096
}

/// Most significant byte.
pub open spec fn spec_ms_byte(w: u16) -> u8 {
    (w / 256) as u8
}

/// Least significant byte.
pub open spec fn spec_ls_byte(w: u16) -> u8 {
    (w % 256) as u8
}

/// The six most significant bits (bits 10..16).
pub open spec fn spec_msbits6(w: u16) -> u16 {
    w / 1024
}

/// The ten least significant bits (bits 0..10).
pub open spec fn spec_lsbits10(w: u16) -> u16 {
    w % 1024
}

/// Two's-complement reading of an unsigned field whose sign bit has weight `half`:
/// values from `half` upwards stand for `v - 2 * half`.
pub open spec fn sext(v: int, half: int) -> int {
    if v >= half {
        v - 2 * half
    } else {
        v
    }
}

/// Bits 0..4 of `w`.
pub fn nibble1(w: u16) -> (r: u16)
    ensures
        r == spec_nibble1(w),
{
    assert(w & 0x000F == w % 16) by (bit_vector);
    w & 0x000F
}

/// Bits 4..8 of `w`, shifted down.
pub fn nibble2(w: u16) -> (r: u16)
    ensures
        r == spec_nibble2(w),
{
    assert((w & 0x00F0) >> 4 == (w / 16) % 16) by (bit_vector);
    (w & 0x00F0) >> 4
}

/// Bits 8..12 of `w`, shifted down.
pub fn nibble3(w: u16) -> (r: u16)
    ensures
        r == spec_nibble3(w),
{
    assert((w & 0x0F00) >> 8 == (w / 256) % 16) by (bit_vector);
    (w & 0x0F00) >> 8
}

/// Bits 12..16 of `w`, shifted down.
pub fn nibble4(w: u16) -> (r: u16)
    ensures
        r == spec_nibble4(w),
{
    assert((w & 0xF000) >> 12 == w / 4096) by (bit_vector);
    (w & 0xF000) >> 12
}

/// High byte of `w`.
pub fn ms_byte(w: u16) -> (r: u8)
    ensures
        r == spec_ms_byte(w),
{
    assert((w & 0xFF00) >> 8 == w / 256) by (bit_vector);
    ((w & 0xFF00) >> 8) as u8
}

/// Low byte of `w`.
pub fn ls_byte(w: u16) -> (r: u8)
    ensures
        r == spec_ls_byte(w),
{
    assert(w & 0x00FF == w % 256) by (bit_vector);
    (w & 0x00FF) as u8
}

/// Bits 10..16 of `w`, shifted down.
pub fn msbits6(w: u16) -> (r: u16)
    ensures
        r == spec_msbits6(w),
{
    assert((w & 0xFC00) >> 10 == w / 1024) by (bit_vector);
    (w & 0xFC00) >> 10
}

/// Bits 0..10 of `w`.
pub fn lsbits10(w: u16) -> (r: u16)
    ensures
        r == spec_lsbits10(w),
{
    assert(w & 0x03FF == w % 1024) by (bit_vector);
    w & 0x03FF
}

/// Two's-complement value of a byte, as the sensor stores signed 8-bit coefficients.
pub fn signed_byte(b: u8) -> (r: i8)
    ensures
        r == sext(b as int, 128),
{
    assert((b as i8) as int == if b >= 128 { b - 256 } else { b as int }) by (bit_vector);
    b as i8
}

/// Two's-complement value of an unsigned field whose sign bit has weight `half`.
pub fn signed_field(v: u16, half: u16) -> (r: i32)
    requires
        half > 0,
        v < 2 * half,
        2 * half <= 0x10000,
    ensures
        r == sext(v as int, half as int),
{
    if v >= half {
        v as i32 - 2 * (half as i32)
    } else {
        v as i32
    }
}

/// The four nibbles put back together give the word.
pub proof fn lemma_nibbles_recompose(w: u16)
    ensures
        w == spec_nibble1(w) + 16 * spec_nibble2(w) + 256 * spec_nibble3(w) + 4096 * spec_nibble4(w),
        spec_nibble1(w) < 16 && spec_nibble2(w) < 16 && spec_nibble3(w) < 16 && spec_nibble4(w) < 16,
{
    assert(w == w % 16 + 16 * ((w / 16) % 16) + 256 * ((w / 256) % 16) + 4096 * (w / 4096))
        by (bit_vector);
    assert(w / 4096 < 16) by (bit_vector);
}

/// The two bytes put back together give the word.
pub proof fn lemma_bytes_recompose(w: u16)
    ensures
        w == 256 * spec_ms_byte(w) + spec_ls_byte(w),
{
}

/// The six-bit and ten-bit fields put back together give the word.
pub proof fn lemma_six_ten_recompose(w: u16)
    ensures
        w == 1024 * spec_msbits6(w) + spec_lsbits10(w),
        spec_msbits6(w) < 64 && spec_lsbits10(w) < 1024,
{
}

} // verus!
