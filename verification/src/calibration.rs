//! Decoding of the sensor's EEPROM into integer calibration parameters,
//! and detection of its broken and outlier pixels.

use vstd::prelude::*;
use vstd::arithmetic::power2::{pow2, lemma_pow2_pos, lemma_pow2_strictly_increases, lemma2_to64};
use vstd::bits::{lemma_u32_shl_is_mul, lemma_u32_pow2_no_overflow};
use crate::types::Error;
use crate::words::{
    spec_nibble1, spec_nibble2, spec_nibble3, spec_nibble4, spec_ms_byte, spec_ls_byte,
    spec_msbits6, spec_lsbits10, sext, nibble1, nibble2, nibble3, nibble4, ms_byte, ls_byte,
    msbits6, lsbits10, signed_byte, signed_field,
};

verus! {

/// Number of 16-bit words of the EEPROM image.
pub const EEPROM_WORDS: usize = 832;

/// Index of the first per-pixel word in the EEPROM image.
pub const PIXEL_WORDS_START: usize = 64;

/// `2^s` for a shift below 31.
pub fn pow2_u32(s: u32) -> (r: u32)
    requires
        s < 31,
    ensures
        r == pow2(s as nat),
        r <= 0x4000_0000,
{
    proof {
        lemma_u32_pow2_no_overflow(s as nat);
        lemma_u32_shl_is_mul(1, s);
        lemma2_to64();
        if s < 30 {
            lemma_pow2_strictly_increases(s as nat, 30);
        }
    }
    1u32 << s
}

/// Nibble number `k` (0 = least significant) of `w`.
pub open spec fn nibble_at(w: u16, k: int) -> u16 {
    if k == 0 {
        spec_nibble1(w)
    } else if k == 1 {
        spec_nibble2(w)
    } else if k == 2 {
        spec_nibble3(w)
    } else {
        spec_nibble4(w)
    }
}

/// Signed 4-bit row or column correction number `idx`, packed four to a word
/// from EEPROM word `base` on, least significant nibble first.
pub open spec fn packed_correction(ee: Seq<u16>, base: int, idx: int) -> int {
    sext(nibble_at(ee[base + idx / 4], idx % 4) as int, 8)
}

/// Reads the packed signed 4-bit correction number `idx` stored from word `base` on.
fn read_packed_correction(ee: &[u16; 832], base: usize, idx: usize) -> (r: i32)
    requires
        base + idx / 4 < 832,
    ensures
        r == packed_correction(ee@, base as int, idx as int),
        -8 <= r < 8,
{
    let w = ee[base + idx / 4];
    let k: usize = idx % 4;
    let n = if k == 0 {
        nibble1(w)
    } else if k == 1 {
        nibble2(w)
    } else if k == 2 {
        nibble3(w)
    } else {
        nibble4(w)
    };
    proof {
        crate::words::lemma_nibbles_recompose(w);
    }
    signed_field(n, 8)
}

/// `a * 2^s` for a small signed value and a shift below 16.
fn shifted(a: i32, s: u16) -> (r: i32)
    requires
        -64 <= a < 64,
        s < 16,
    ensures
        r == a * pow2(s as nat),
        -64 * 32768 <= r <= 63 * 32768,
        a >= 0 ==> 0 <= r <= a * 32768,
        a < 0 ==> a * 32768 <= r < 0,
{
    let p = pow2_u32(s as u32);
    proof {
        lemma2_to64();
        if s < 15 {
            lemma_pow2_strictly_increases(s as nat, 15);
        }
        assert(p <= 32768);
        assert(-64 * 32768 <= a * p <= 63 * 32768) by (nonlinear_arith)
            requires
                -64 <= a < 64,
                0 < p <= 32768,
        ;
        assert(a >= 0 ==> 0 <= a * p <= a * 32768) by (nonlinear_arith)
            requires
                0 < p <= 32768,
        ;
        assert(a < 0 ==> a * 32768 <= a * p < 0) by (nonlinear_arith)
            requires
                0 < p <= 32768,
        ;
    }
    a * (p as i32)
}

/// Row of a pixel index.
pub open spec fn pixel_row(p: int) -> int {
    p / 32
}

/// Column of a pixel index.
pub open spec fn pixel_col(p: int) -> int {
    p % 32
}

/// Uncorrected offset of pixel `p`: its own 6-bit value scaled by the remainder
/// scale, plus the reference offset and its row and column corrections.
pub open spec fn offset_value(ee: Seq<u16>, p: int) -> int {
    let w = ee[PIXEL_WORDS_START + p];
    let scales = ee[16];
    sext(spec_msbits6(w) as int, 32) * pow2(spec_nibble1(scales) as nat)
        + ee[17]
        + packed_correction(ee, 18, pixel_row(p)) * pow2(spec_nibble3(scales) as nat)
        + packed_correction(ee, 24, pixel_col(p)) * pow2(spec_nibble2(scales) as nat)
}

/// Sensitivity numerator of pixel `p` (to be divided by `2^alpha_exp`): its own
/// 6-bit value scaled by the remainder scale, plus the reference and its row and
/// column corrections.
pub open spec fn alpha_value(ee: Seq<u16>, p: int) -> int {
    let w = ee[PIXEL_WORDS_START + p];
    let scales = ee[32];
    sext(((w / 16) % 64) as int, 32) * pow2(spec_nibble1(scales) as nat)
        + ee[33]
        + packed_correction(ee, 34, pixel_row(p)) * pow2(spec_nibble3(scales) as nat)
        + packed_correction(ee, 40, pixel_col(p)) * pow2(spec_nibble2(scales) as nat)
}

/// Offset of pixel `p`, truncated to 16 bits as the parameter table stores it.
fn pixel_offset(ee: &[u16; 832], p: usize) -> (r: i16)
    requires
        p < 768,
    ensures
        r == (offset_value(ee@, p as int) as i16),
{
    let scales = ee[16];
    let w = ee[PIXEL_WORDS_START + p];
    let own = signed_field(msbits6(w), 32);
    let rem = shifted(own, nibble1(scales));
    let row = shifted(read_packed_correction(ee, 18, p / 32), nibble3(scales));
    let col = shifted(read_packed_correction(ee, 24, p % 32), nibble2(scales));
    let off: i32 = rem + ee[17] as i32 + row + col;
    off as i16
}

/// Sensitivity numerator of pixel `p`.
fn pixel_alpha(ee: &[u16; 832], p: usize) -> (r: i32)
    requires
        p < 768,
    ensures
        r == alpha_value(ee@, p as int),
{
    let scales = ee[32];
    let w = ee[PIXEL_WORDS_START + p];
    assert((w & 0x03F0) >> 4 == (w / 16) % 64) by (bit_vector);
    let own = signed_field((w & 0x03F0) >> 4, 32);
    let rem = shifted(own, nibble1(scales));
    let row = shifted(read_packed_correction(ee, 34, p / 32), nibble3(scales));
    let col = shifted(read_packed_correction(ee, 40, p % 32), nibble2(scales));
    rem + ee[33] as i32 + row + col
}


/// Absolute value.
pub open spec fn abs_int(v: int) -> int {
    if v < 0 {
        -v
    } else {
        v
    }
}

/// Largest absolute value of the coefficients in `s` (0 for no coefficients).
pub open spec fn max_abs(s: Seq<i32>) -> int
    decreases s.len(),
{
    if s.len() == 0 {
        0
    } else {
        let m = max_abs(s.drop_last());
        let a = abs_int(s.last() as int);
        if a > m {
            a
        } else {
            m
        }
    }
}

/// Scaling the largest magnitude `m / 2^s` by `2^n` reaches 63.4.
pub open spec fn scale_reaches(m: int, n: nat, s: nat) -> bool {
    5 * m * pow2(n) >= 317 * pow2(s)
}

/// `n` is the smallest exponent for which `m / 2^s` scaled by `2^n` reaches 63.4.
pub open spec fn is_least_scale(m: int, n: nat, s: nat) -> bool {
    &&& scale_reaches(m, n, s)
    &&& n > 0 ==> !scale_reaches(m, (n - 1) as nat, s)
}

/// The signed 8-bit coefficient that stands for `v / 2^s` after scaling by `2^k`:
/// rounded half away from zero, and held to the range of `i8`.
pub open spec fn rounded_coefficient(v: int, k: nat, s: nat) -> int {
    let r = (2 * abs_int(v) * pow2(k) + pow2(s)) / (2 * pow2(s) as int);
    let signed = if v < 0 {
        -r
    } else {
        r
    };
    if signed > 127 {
        127
    } else if signed < -128 {
        -128
    } else {
        signed
    }
}

/// Largest magnitude of the coefficients.
fn max_magnitude(raw: &Vec<i32>) -> (m: u64)
    requires
        forall|i: int| 0 <= i < raw@.len() ==> -0x40000 < #[trigger] raw@[i] < 0x40000,
    ensures
        m == max_abs(raw@),
        m < 0x40000,
{
    let mut m: u64 = 0;
    let mut i: usize = 0;
    while i < raw.len()
        invariant
            i <= raw@.len(),
            forall|j: int| 0 <= j < raw@.len() ==> -0x40000 < #[trigger] raw@[j] < 0x40000,
            m == max_abs(raw@.take(i as int)),
            m < 0x40000,
        decreases raw@.len() - i,
    {
        let v = raw[i];
        let a: u64 = if v < 0 {
            (-v) as u64
        } else {
            v as u64
        };
        if a > m {
            m = a;
        }
        assert(raw@.take(i + 1).drop_last() =~= raw@.take(i as int));
        i += 1;
    }
    assert(raw@.take(raw@.len() as int) =~= raw@);
    m
}

/// Smallest exponent that brings the largest magnitude `m / 2^s` to at least 63.4.
fn least_scale(m: u64, s: u32) -> (k: u32)
    requires
        0 < m < 0x40000,
        s <= 23,
    ensures
        is_least_scale(m as int, k as nat, s as nat),
        k <= s + 7,
{
    let target: u64 = 317 * (pow2_u32(s) as u64);
    let mut t: u64 = m;
    let mut k: u32 = 0;
    proof {
        lemma2_to64();
        assert(t == m * pow2(0));
    }
    while 5 * t < target
        invariant
            0 < m < 0x40000,
            s <= 23,
            target == 317 * pow2(s as nat),
            k <= s + 7,
            t == m * pow2(k as nat),
            t <= 0x40000 * 0x4000_0000,
            k > 0 ==> !scale_reaches(m as int, (k - 1) as nat, s as nat),
        decreases s + 7 - k,
    {
        proof {
            lemma2_to64();
            lemma_pow2_pos(s as nat);
            assert(!scale_reaches(m as int, k as nat, s as nat)) by (nonlinear_arith)
                requires
                    t == m * pow2(k as nat),
                    5 * t < 317 * pow2(s as nat),
            ;
            if k == s + 7 {
                vstd::arithmetic::power2::lemma_pow2_adds(s as nat, 7);
                assert(5 * m * pow2(k as nat) >= 317 * pow2(s as nat)) by (nonlinear_arith)
                    requires
                        m >= 1,
                        pow2(k as nat) == pow2(s as nat) * 128,
                        pow2(s as nat) > 0,
                ;
                assert(false);
            }
            assert(k + 1 <= 30);
            lemma_pow2_strictly_increases((k + 1) as nat, 31);
            vstd::arithmetic::power2::lemma_pow2_unfold((k + 1) as nat);
            assert(2 * t == m * pow2((k + 1) as nat)) by (nonlinear_arith)
                requires
                    t == m * pow2(k as nat),
                    pow2((k + 1) as nat) == 2 * pow2(k as nat),
            ;
            assert(m * pow2((k + 1) as nat) < 0x40000 * 0x8000_0000) by (nonlinear_arith)
                requires
                    m < 0x40000,
                    pow2((k + 1) as nat) < pow2(31),
                    pow2(31) == 0x8000_0000,
            ;
        }
        t = 2 * t;
        k = k + 1;
    }
    proof {
        assert(scale_reaches(m as int, k as nat, s as nat)) by (nonlinear_arith)
            requires
                t == m * pow2(k as nat),
                5 * t >= target,
                target == 317 * pow2(s as nat),
        ;
    }
    k
}

/// The coefficient `v / 2^s` scaled by `2^k`, rounded half away from zero and held to `i8`.
fn round_coefficient(v: i32, k: u32, s: u32) -> (r: i8)
    requires
        -0x40000 < v < 0x40000,
        k <= 30,
        s <= 23,
    ensures
        r == rounded_coefficient(v as int, k as nat, s as nat),
{
    let a: u64 = if v < 0 {
        (-v) as u64
    } else {
        v as u64
    };
    let pk = pow2_u32(k) as u64;
    let ps = pow2_u32(s) as u64;
    proof {
        lemma_pow2_pos(s as nat);
        assert(a * pk <= 0x40000 * 0x4000_0000) by (nonlinear_arith)
            requires
                a <= 0x40000,
                pk <= 0x4000_0000,
        ;
    }
    let num: u64 = 2 * (a * pk) + ps;
    let q: u64 = num / (2 * ps);
    let c: u64 = if v < 0 {
        if q > 128 {
            128
        } else {
            q
        }
    } else {
        if q > 127 {
            127
        } else {
            q
        }
    };
    proof {
        assert(abs_int(v as int) == a);
        assert(2 * abs_int(v as int) * pow2(k as nat) == 2 * (a * pk)) by (nonlinear_arith)
            requires
                abs_int(v as int) == a,
                pow2(k as nat) == pk,
        ;
    }
    if v < 0 {
        (-(c as i32)) as i8
    } else {
        c as i8
    }
}

/// Brings coefficients `raw[i] / 2^s` to signed bytes with a common scale:
/// the scale is the smallest power of two that lifts the largest magnitude to
/// 63.4, and each coefficient is rounded half away from zero.
pub fn normalize_coefficients(raw: &Vec<i32>, s: u32) -> (res: (Vec<i8>, u8))
    requires
        forall|i: int| 0 <= i < raw@.len() ==> -0x40000 < #[trigger] raw@[i] < 0x40000,
        s <= 23,
        max_abs(raw@) > 0,
    ensures
        is_least_scale(max_abs(raw@), res.1 as nat, s as nat),
        res.0@.len() == raw@.len(),
        forall|i: int|
            0 <= i < raw@.len() ==> #[trigger] res.0@[i] == rounded_coefficient(
                raw@[i] as int,
                res.1 as nat,
                s as nat,
            ),
{
    let m = max_magnitude(raw);
    let k = least_scale(m, s);
    let mut out: Vec<i8> = Vec::new();
    let mut i: usize = 0;
    while i < raw.len()
        invariant
            i <= raw@.len(),
            k <= 30,
            s <= 23,
            forall|j: int| 0 <= j < raw@.len() ==> -0x40000 < #[trigger] raw@[j] < 0x40000,
            out@.len() == i,
            forall|j: int|
                0 <= j < i ==> #[trigger] out@[j] == rounded_coefficient(
                    raw@[j] as int,
                    k as nat,
                    s as nat,
                ),
        decreases raw@.len() - i,
    {
        out.push(round_coefficient(raw[i], k, s));
        i += 1;
    }
    (out, k as u8)
}


/// Rounding law: the coefficient for `x = v * 2^k / 2^s` lies in the range of
/// `i8`; away from the two ends of that range it is the integer nearest to `x`
/// (at most half away, with halves going away from zero), and it sits at an end
/// only where `x` is at least 126.5 or at most -127.5.
pub proof fn lemma_coefficient_is_nearest(v: int, k: nat, s: nat)
    ensures
        -128 <= rounded_coefficient(v, k, s) <= 127,
        ({
            let c = rounded_coefficient(v, k, s);
            let e = c * pow2(s) - v * pow2(k);
            -128 < c < 127 && v >= 0 ==> -pow2(s) < 2 * e <= pow2(s)
        }),
        ({
            let c = rounded_coefficient(v, k, s);
            let e = c * pow2(s) - v * pow2(k);
            -128 < c < 127 && v < 0 ==> -pow2(s) <= 2 * e < pow2(s)
        }),
        rounded_coefficient(v, k, s) == 127 ==> 2 * v * pow2(k) >= 253 * pow2(s),
        rounded_coefficient(v, k, s) == -128 ==> 2 * v * pow2(k) <= -255 * pow2(s),
{
    let ps: int = pow2(s) as int;
    let pk: int = pow2(k) as int;
    lemma_pow2_pos(s);
    lemma_pow2_pos(k);
    let a: int = abs_int(v);
    let n: int = 2 * a * pk + ps;
    let d: int = 2 * ps;
    assert(a >= 0);
    assert(n >= 0) by (nonlinear_arith)
        requires
            a >= 0,
            pk > 0,
            ps > 0,
            n == 2 * a * pk + ps,
    ;
    let r: int = n / d;
    vstd::arithmetic::div_mod::lemma_fundamental_div_mod(n, d);
    vstd::arithmetic::div_mod::lemma_mod_pos_bound(n, d);
    let m: int = n % d;
    assert(r >= 0) by (nonlinear_arith)
        requires
            n == d * r + m,
            n >= 0,
            0 <= m < d,
    ;
    assert(2 * (r * ps - a * pk) == ps - m) by (nonlinear_arith)
        requires
            n == d * r + m,
            n == 2 * a * pk + ps,
            d == 2 * ps,
    ;
    assert(r >= 127 ==> 2 * a * pk >= 253 * ps) by (nonlinear_arith)
        requires
            2 * (r * ps - a * pk) == ps - m,
            0 <= m < d,
            d == 2 * ps,
            ps > 0,
    ;
    assert(r >= 128 ==> 2 * a * pk >= 255 * ps) by (nonlinear_arith)
        requires
            2 * (r * ps - a * pk) == ps - m,
            0 <= m < d,
            d == 2 * ps,
            ps > 0,
    ;
    assert(r == (2 * abs_int(v) * pow2(k) + pow2(s)) / (2 * pow2(s) as int));
    let c = rounded_coefficient(v, k, s);
    if v >= 0 {
        assert(a == v);
        if -128 < c < 127 {
            assert(c == r);
            assert(2 * (c * ps - v * pk) == ps - m);
        }
        if c == 127 {
            assert(r >= 127);
        }
    } else {
        assert(a == -v);
        assert(v * pk == -(a * pk)) by (nonlinear_arith)
            requires
                a == -v,
        ;
        if -128 < c < 127 {
            assert(c == -r);
            assert(c * ps == -(r * ps)) by (nonlinear_arith)
                requires
                    c == -r,
            ;
        }
        if c == -128 {
            assert(r >= 128);
            assert(2 * v * pk == -(2 * a * pk)) by (nonlinear_arith)
                requires
                    a == -v,
            ;
        }
    }
}

/// Which of the four interleaved sub-grids (row parity, column parity) pixel `p` lies in.
pub open spec fn split_index(p: int) -> int {
    2 * (pixel_row(p) % 2) + pixel_col(p) % 2
}

/// Signed temperature-drift base coefficient of sub-grid `split`.
pub open spec fn kta_base(ee: Seq<u16>, split: int) -> int {
    if split == 0 {
        sext(spec_ms_byte(ee[54]) as int, 128)
    } else if split == 1 {
        sext(spec_ms_byte(ee[55]) as int, 128)
    } else if split == 2 {
        sext(spec_ls_byte(ee[54]) as int, 128)
    } else {
        sext(spec_ls_byte(ee[55]) as int, 128)
    }
}

/// Numerator of the temperature-drift coefficient of pixel `p` (over `2^kta_exponent`).
pub open spec fn kta_coefficient(ee: Seq<u16>, p: int) -> int {
    sext(((ee[PIXEL_WORDS_START + p] / 2) % 8) as int, 4) * pow2(spec_nibble1(ee[56]) as nat)
        + kta_base(ee, split_index(p))
}

/// Binary exponent of the temperature-drift coefficients.
pub open spec fn kta_exponent(ee: Seq<u16>) -> nat {
    (spec_nibble2(ee[56]) + 8) as nat
}

/// Signed supply-drift coefficient of sub-grid `split`.
pub open spec fn kv_base(ee: Seq<u16>, split: int) -> int {
    let w = ee[52];
    if split == 0 {
        sext(spec_nibble4(w) as int, 8)
    } else if split == 1 {
        sext(spec_nibble2(w) as int, 8)
    } else if split == 2 {
        sext(spec_nibble3(w) as int, 8)
    } else {
        sext(spec_nibble1(w) as int, 8)
    }
}

/// Numerator of the supply-drift coefficient of pixel `p` (over `2^kv_exponent`).
pub open spec fn kv_coefficient(ee: Seq<u16>, p: int) -> int {
    kv_base(ee, split_index(p))
}

/// Binary exponent of the supply-drift coefficients.
pub open spec fn kv_exponent(ee: Seq<u16>) -> nat {
    spec_nibble3(ee[56]) as nat
}

/// All temperature-drift numerators, pixel by pixel.
pub open spec fn kta_coefficients(ee: Seq<u16>) -> Seq<i32> {
    Seq::new(768, |p: int| kta_coefficient(ee, p) as i32)
}

/// All supply-drift numerators, pixel by pixel.
pub open spec fn kv_coefficients(ee: Seq<u16>) -> Seq<i32> {
    Seq::new(768, |p: int| kv_coefficient(ee, p) as i32)
}

/// The drift coefficients can be brought to a common scale: neither table is all zero.
pub open spec fn scales_defined(ee: Seq<u16>) -> bool {
    max_abs(kta_coefficients(ee)) > 0 && max_abs(kv_coefficients(ee)) > 0
}

/// Temperature-drift base coefficient of sub-grid `split`.
fn read_kta_base(ee: &[u16; 832], split: usize) -> (r: i32)
    requires
        split < 4,
    ensures
        r == kta_base(ee@, split as int),
        -128 <= r < 128,
{
    let b = if split == 0 {
        signed_byte(ms_byte(ee[54]))
    } else if split == 1 {
        signed_byte(ms_byte(ee[55]))
    } else if split == 2 {
        signed_byte(ls_byte(ee[54]))
    } else {
        signed_byte(ls_byte(ee[55]))
    };
    b as i32
}

/// Supply-drift base coefficient of sub-grid `split`.
fn read_kv_base(ee: &[u16; 832], split: usize) -> (r: i32)
    requires
        split < 4,
    ensures
        r == kv_base(ee@, split as int),
        -8 <= r < 8,
{
    let w = ee[52];
    proof {
        crate::words::lemma_nibbles_recompose(w);
    }
    let n = if split == 0 {
        nibble4(w)
    } else if split == 1 {
        nibble2(w)
    } else if split == 2 {
        nibble3(w)
    } else {
        nibble1(w)
    };
    signed_field(n, 8)
}

/// Temperature-drift numerator of pixel `p`.
fn pixel_kta(ee: &[u16; 832], p: usize) -> (r: i32)
    requires
        p < 768,
    ensures
        r == kta_coefficient(ee@, p as int),
        -0x40000 < r < 0x40000,
{
    let w = ee[PIXEL_WORDS_START + p];
    assert((w & 0x000E) >> 1 == (w / 2) % 8) by (bit_vector);
    let own = signed_field((w & 0x000E) >> 1, 4);
    let scaled = shifted(own, nibble1(ee[56]));
    let split: usize = 2 * ((p / 32) % 2) + p % 2;
    assert(split == split_index(p as int));
    scaled + read_kta_base(ee, split)
}

/// Supply-drift numerator of pixel `p`.
fn pixel_kv(ee: &[u16; 832], p: usize) -> (r: i32)
    requires
        p < 768,
    ensures
        r == kv_coefficient(ee@, p as int),
        -8 <= r < 8,
{
    let split: usize = 2 * ((p / 32) % 2) + p % 2;
    assert(split == split_index(p as int));
    read_kv_base(ee, split)
}

/// Temperature-drift numerators of all pixels.
fn kta_table(ee: &[u16; 832]) -> (r: Vec<i32>)
    ensures
        r@ == kta_coefficients(ee@),
        r@.len() == 768,
        forall|i: int| 0 <= i < r@.len() ==> -0x40000 < #[trigger] r@[i] < 0x40000,
        forall|i: int| 0 <= i < 768 ==> #[trigger] r@[i] == kta_coefficient(ee@, i),
{
    let mut out: Vec<i32> = Vec::new();
    let mut p: usize = 0;
    while p < 768
        invariant
            p <= 768,
            out@.len() == p,
            forall|i: int| 0 <= i < p ==> #[trigger] out@[i] == kta_coefficient(ee@, i),
            forall|i: int| 0 <= i < p ==> -0x40000 < #[trigger] out@[i] < 0x40000,
        decreases 768 - p,
    {
        out.push(pixel_kta(ee, p));
        p += 1;
    }
    assert(out@ =~= kta_coefficients(ee@));
    out
}

/// Supply-drift numerators of all pixels.
fn kv_table(ee: &[u16; 832]) -> (r: Vec<i32>)
    ensures
        r@ == kv_coefficients(ee@),
        r@.len() == 768,
        forall|i: int| 0 <= i < r@.len() ==> -0x40000 < #[trigger] r@[i] < 0x40000,
        forall|i: int| 0 <= i < 768 ==> #[trigger] r@[i] == kv_coefficient(ee@, i),
{
    let mut out: Vec<i32> = Vec::new();
    let mut p: usize = 0;
    while p < 768
        invariant
            p <= 768,
            out@.len() == p,
            forall|i: int| 0 <= i < p ==> #[trigger] out@[i] == kv_coefficient(ee@, i),
            forall|i: int| 0 <= i < p ==> -8 <= #[trigger] out@[i] < 8,
        decreases 768 - p,
    {
        out.push(pixel_kv(ee, p));
        p += 1;
    }
    assert(out@ =~= kv_coefficients(ee@));
    out
}


/// Two pixel indices lie in the same or neighbouring rows and the same or
/// neighbouring columns (diagonal neighbours and the pixel itself included).
pub open spec fn pixels_adjacent(pix1: u16, pix2: u16) -> bool {
    let dr = pix1 / 32 - pix2 / 32;
    let dc = pix1 % 32 - pix2 % 32;
    -1 <= dr <= 1 && -1 <= dc <= 1
}

/// Whether two pixels touch, row- and column-wise within one step.
pub fn check_adjacent_pixels(pix1: u16, pix2: u16) -> (r: bool)
    ensures
        r == pixels_adjacent(pix1, pix2),
{
    let lp1 = pix1 >> 5;
    let lp2 = pix2 >> 5;
    assert(pix1 >> 5 == pix1 / 32 && (pix1 >> 5) << 5 <= pix1 && pix1 - ((pix1 >> 5) << 5) == pix1 % 32)
        by (bit_vector);
    assert(pix2 >> 5 == pix2 / 32 && (pix2 >> 5) << 5 <= pix2 && pix2 - ((pix2 >> 5) << 5) == pix2 % 32)
        by (bit_vector);
    let cp1 = pix1 - (lp1 << 5);
    let cp2 = pix2 - (lp2 << 5);
    let row_diff: i32 = (lp1 as i32) - (lp2 as i32);
    if row_diff > -2 && row_diff < 2 {
        let col_diff: i32 = (cp1 as i32) - (cp2 as i32);
        if col_diff > -2 && col_diff < 2 {
            return true;
        }
    }
    false
}

/// Adjacency does not depend on the order of the two pixels, and a pixel is adjacent to itself.
pub proof fn lemma_adjacency_symmetric(pix1: u16, pix2: u16)
    ensures
        pixels_adjacent(pix1, pix2) == pixels_adjacent(pix2, pix1),
        pixels_adjacent(pix1, pix1),
{
}

/// Pixel `p` is broken: its calibration word is zero.
pub open spec fn is_broken(ee: Seq<u16>, p: int) -> bool {
    ee[PIXEL_WORDS_START + p] == 0
}

/// Pixel `p` is an outlier: its calibration word is not zero and has its lowest bit set.
pub open spec fn is_outlier(ee: Seq<u16>, p: int) -> bool {
    ee[PIXEL_WORDS_START + p] != 0 && ee[PIXEL_WORDS_START + p] % 2 == 1
}

/// The broken (`outlier == false`) or outlier pixels below index `n`, in increasing order.
pub open spec fn flagged_upto(ee: Seq<u16>, n: int, outlier: bool) -> Seq<u16>
    decreases n,
{
    if n <= 0 {
        Seq::empty()
    } else {
        let prev = flagged_upto(ee, n - 1, outlier);
        let hit = if outlier {
            is_outlier(ee, n - 1)
        } else {
            is_broken(ee, n - 1)
        };
        if hit {
            prev.push((n - 1) as u16)
        } else {
            prev
        }
    }
}

/// All broken pixels of the EEPROM image, in increasing order.
pub open spec fn broken_pixels(ee: Seq<u16>) -> Seq<u16> {
    flagged_upto(ee, 768, false)
}

/// All outlier pixels of the EEPROM image, in increasing order.
pub open spec fn outlier_pixels(ee: Seq<u16>) -> Seq<u16> {
    flagged_upto(ee, 768, true)
}

/// A list of at most five pixels, filled up to five with the "no pixel" marker 0xFFFF.
pub open spec fn padded(s: Seq<u16>) -> Seq<u16> {
    Seq::new(5, |i: int| if i < s.len() { s[i] } else { 0xFFFFu16 })
}

/// Two different entries of the list are adjacent pixels.
pub open spec fn any_adjacent(s: Seq<u16>) -> bool {
    exists|i: int, j: int| 0 <= i < j < s.len() && pixels_adjacent(#[trigger] s[i], #[trigger] s[j])
}

/// Verdict on the bad pixels of an EEPROM image: at most four broken, at most
/// four outliers, at most four together, and no two of them adjacent.
pub open spec fn deviation_verdict(ee: Seq<u16>) -> Result<(), Error> {
    let b = broken_pixels(ee);
    let o = outlier_pixels(ee);
    if b.len() > 4 {
        Err(Error::TooManyBrokenPixels)
    } else if o.len() > 4 {
        Err(Error::TooManyOutlierPixels)
    } else if b.len() + o.len() > 4 {
        Err(Error::TooManyBadPixels)
    } else if any_adjacent(b + o) {
        Err(Error::AdjacentBadPixels)
    } else {
        Ok(())
    }
}

/// The flagged pixels below `n` are pixels below `n` of the named kind.
proof fn lemma_flagged_members(ee: Seq<u16>, n: int, outlier: bool)
    requires
        0 <= n <= 768,
    ensures
        flagged_upto(ee, n, outlier).len() <= n,
        forall|i: int|
            0 <= i < flagged_upto(ee, n, outlier).len() ==> {
                let q = #[trigger] flagged_upto(ee, n, outlier)[i];
                &&& q < n
                &&& outlier ==> is_outlier(ee, q as int)
                &&& !outlier ==> is_broken(ee, q as int)
            },
    decreases n,
{
    if n > 0 {
        lemma_flagged_members(ee, n - 1, outlier);
    }
}

/// What an accepted EEPROM image guarantees of its bad pixels: at most four
/// in all, each a pixel of the image, no pixel both broken and an outlier, and
/// no two of them touching; their lists hold pixels or the 0xFFFF marker only.
pub proof fn lemma_accepted_bad_pixels(ee: Seq<u16>)
    requires
        deviation_verdict(ee).is_ok(),
    ensures
        broken_pixels(ee).len() + outlier_pixels(ee).len() <= 4,
        !any_adjacent(broken_pixels(ee) + outlier_pixels(ee)),
        forall|i: int, j: int|
            0 <= i < broken_pixels(ee).len() && 0 <= j < outlier_pixels(ee).len() ==> #[trigger] broken_pixels(
                ee,
            )[i] != #[trigger] outlier_pixels(ee)[j],
        forall|i: int|
            0 <= i < 5 ==> #[trigger] padded(broken_pixels(ee))[i] == 0xFFFF || padded(
                broken_pixels(ee),
            )[i] < 768,
        forall|i: int|
            0 <= i < 5 ==> #[trigger] padded(outlier_pixels(ee))[i] == 0xFFFF || padded(
                outlier_pixels(ee),
            )[i] < 768,
{
    lemma_flagged_members(ee, 768, false);
    lemma_flagged_members(ee, 768, true);
}

proof fn lemma_all_broken_counted(ee: Seq<u16>, n: int)
    requires
        0 <= n <= 768,
        forall|p: int| 0 <= p < n ==> #[trigger] is_broken(ee, p),
    ensures
        flagged_upto(ee, n, false).len() == n,
    decreases n,
{
    if n > 0 {
        lemma_all_broken_counted(ee, n - 1);
    }
}

/// An image whose pixel words are all zero, as a dead sensor or a bus that
/// reads zeros gives, is refused as having too many broken pixels.
pub proof fn lemma_dead_sensor_refused(ee: Seq<u16>)
    requires
        ee.len() == 832,
        forall|p: int| 0 <= p < 768 ==> #[trigger] ee[PIXEL_WORDS_START + p] == 0,
    ensures
        deviation_verdict(ee) == Err::<(), Error>(Error::TooManyBrokenPixels),
{
    assert forall|p: int| 0 <= p < 768 implies #[trigger] is_broken(ee, p) by {
        assert(ee[PIXEL_WORDS_START + p] == 0);
    }
    lemma_all_broken_counted(ee, 768);
}

/// Which error a refused image gets: too many broken pixels wins over every
/// other reason, then too many outliers, then too many together; adjacency is
/// judged only for images with at most four bad pixels, and an image with at
/// most four bad pixels, no two touching, is accepted.
pub proof fn lemma_verdict_precedence(ee: Seq<u16>)
    ensures
        broken_pixels(ee).len() >= 5 ==> deviation_verdict(ee) == Err::<(), Error>(
            Error::TooManyBrokenPixels,
        ),
        broken_pixels(ee).len() <= 4 && outlier_pixels(ee).len() >= 5 ==> deviation_verdict(ee)
            == Err::<(), Error>(Error::TooManyOutlierPixels),
        broken_pixels(ee).len() <= 4 && outlier_pixels(ee).len() <= 4 && broken_pixels(ee).len()
            + outlier_pixels(ee).len() >= 5 ==> deviation_verdict(ee) == Err::<(), Error>(
            Error::TooManyBadPixels,
        ),
        deviation_verdict(ee) == Err::<(), Error>(Error::AdjacentBadPixels) ==> broken_pixels(
            ee,
        ).len() + outlier_pixels(ee).len() <= 4,
        broken_pixels(ee).len() + outlier_pixels(ee).len() <= 4 && !any_adjacent(
            broken_pixels(ee) + outlier_pixels(ee),
        ) ==> deviation_verdict(ee) is Ok,
{
}

/// The flagged pixels below `n` hold every pixel below `n` of the named kind,
/// in strictly increasing order.
proof fn lemma_flagged_complete(ee: Seq<u16>, n: int, outlier: bool)
    requires
        0 <= n <= 768,
    ensures
        forall|p: int|
            0 <= p < n && (if outlier { is_outlier(ee, p) } else { is_broken(ee, p) })
                ==> #[trigger] flagged_upto(ee, n, outlier).contains(p as u16),
        forall|i: int, j: int|
            0 <= i < j < flagged_upto(ee, n, outlier).len() ==> #[trigger] flagged_upto(
                ee,
                n,
                outlier,
            )[i] < #[trigger] flagged_upto(ee, n, outlier)[j],
    decreases n,
{
    if n > 0 {
        lemma_flagged_complete(ee, n - 1, outlier);
        lemma_flagged_members(ee, n - 1, outlier);
        let prev = flagged_upto(ee, n - 1, outlier);
        let cur = flagged_upto(ee, n, outlier);
        assert forall|p: int|
            0 <= p < n && (if outlier { is_outlier(ee, p) } else { is_broken(ee, p) })
                implies #[trigger] cur.contains(p as u16) by {
            if p < n - 1 {
                assert(prev.contains(p as u16));
                let k: int = choose|k: int| 0 <= k < prev.len() && prev[k] == p as u16;
                assert(cur[k] == prev[k]);
            } else {
                assert(cur[cur.len() - 1] == (n - 1) as u16);
            }
        }
        assert forall|i: int, j: int| 0 <= i < j < cur.len() implies #[trigger] cur[i] < #[trigger] cur[j] by {
            if j < prev.len() {
                assert(cur[i] == prev[i] && cur[j] == prev[j]);
            } else {
                assert(cur[i] == prev[i]);
                assert(prev[i] < n - 1);
            }
        }
    }
}

/// The broken-pixel list holds exactly the pixels whose calibration word is
/// zero, and the outlier list exactly those whose word is non-zero and odd,
/// each in strictly increasing order.
pub proof fn lemma_bad_pixel_lists(ee: Seq<u16>, p: int)
    requires
        ee.len() == 832,
        0 <= p < 768,
    ensures
        broken_pixels(ee).contains(p as u16) <==> ee[64 + p] == 0,
        outlier_pixels(ee).contains(p as u16) <==> ee[64 + p] != 0 && ee[64 + p] % 2 == 1,
        forall|i: int, j: int|
            0 <= i < j < broken_pixels(ee).len() ==> #[trigger] broken_pixels(ee)[i]
                < #[trigger] broken_pixels(ee)[j],
        forall|i: int, j: int|
            0 <= i < j < outlier_pixels(ee).len() ==> #[trigger] outlier_pixels(ee)[i]
                < #[trigger] outlier_pixels(ee)[j],
{
    lemma_flagged_complete(ee, 768, false);
    lemma_flagged_complete(ee, 768, true);
    lemma_flagged_members(ee, 768, false);
    lemma_flagged_members(ee, 768, true);
    let b = broken_pixels(ee);
    let o = outlier_pixels(ee);
    if b.contains(p as u16) {
        let k: int = choose|k: int| 0 <= k < b.len() && b[k] == p as u16;
        assert(is_broken(ee, b[k] as int));
    }
    if o.contains(p as u16) {
        let k: int = choose|k: int| 0 <= k < o.len() && o[k] == p as u16;
        assert(is_outlier(ee, o[k] as int));
    }
}

/// Adjacency is one step or less in both the row and the column: a pixel
/// touches its right neighbour and its diagonal neighbour below, but not the
/// pixel two columns or two rows away, nor, from the last column, the first
/// pixel of the next row.
pub proof fn lemma_adjacency_reach(p: u16)
    requires
        p < 768,
    ensures
        p % 32 < 31 ==> pixels_adjacent(p, (p + 1) as u16),
        p % 32 < 31 && p < 736 ==> pixels_adjacent(p, (p + 33) as u16),
        p < 736 ==> pixels_adjacent(p, (p + 32) as u16),
        p % 32 < 30 ==> !pixels_adjacent(p, (p + 2) as u16),
        p < 704 ==> !pixels_adjacent(p, (p + 64) as u16),
        p % 32 == 31 && p < 767 ==> !pixels_adjacent(p, (p + 1) as u16),
{
}

/// Records the broken or outlier pixels: the first five in increasing order,
/// and their number, counted up to five.
fn scan_flagged(ee: &[u16; 832], outlier: bool) -> (res: (Vec<u16>, usize))
    ensures
        res.0@.len() == 5,
        res.1 == if flagged_upto(ee@, 768, outlier).len() < 5 {
            flagged_upto(ee@, 768, outlier).len() as int
        } else {
            5
        },
        forall|i: int| 0 <= i < res.1 ==> #[trigger] res.0@[i] == flagged_upto(ee@, 768, outlier)[i],
        forall|i: int| res.1 <= i < 5 ==> #[trigger] res.0@[i] == 0xFFFF,
{
    let mut list: Vec<u16> = Vec::new();
    let mut k: usize = 0;
    while k < 5
        invariant
            k <= 5,
            list@.len() == k,
            forall|i: int| 0 <= i < k ==> #[trigger] list@[i] == 0xFFFF,
        decreases 5 - k,
    {
        list.push(0xFFFF);
        k += 1;
    }
    let mut cnt: usize = 0;
    let mut pix: usize = 0;
    while pix < 768
        invariant
            pix <= 768,
            list@.len() == 5,
            cnt == if flagged_upto(ee@, pix as int, outlier).len() < 5 {
                flagged_upto(ee@, pix as int, outlier).len() as int
            } else {
                5
            },
            forall|i: int| 0 <= i < cnt ==> #[trigger] list@[i] == flagged_upto(ee@, pix as int, outlier)[i],
            forall|i: int| cnt <= i < 5 ==> #[trigger] list@[i] == 0xFFFF,
        decreases 768 - pix,
    {
        let w = ee[pix + PIXEL_WORDS_START];
        let hit = if outlier {
            w != 0 && (w & 0x0001) != 0
        } else {
            w == 0
        };
        assert((w & 0x0001) != 0 <==> w % 2 == 1) by (bit_vector);
        if hit && cnt < 5 {
            list.set(cnt, pix as u16);
            cnt += 1;
        }
        pix += 1;
    }
    (list, cnt)
}

/// Two different entries of `list[..n]` are adjacent pixels.
fn has_adjacent_pair(list: &Vec<u16>, n: usize) -> (r: bool)
    requires
        n <= list@.len(),
    ensures
        r == any_adjacent(list@.take(n as int)),
{
    let ghost s = list@.take(n as int);
    let mut i: usize = 0;
    while i < n
        invariant
            n <= list@.len(),
            s == list@.take(n as int),
            i <= n,
            forall|a: int, b: int| 0 <= a < b < s.len() && a < i ==> !pixels_adjacent(s[a], s[b]),
        decreases n - i,
    {
        let mut j: usize = i + 1;
        while j < n
            invariant
                n <= list@.len(),
                s == list@.take(n as int),
                i < n,
                i + 1 <= j <= n,
                forall|a: int, b: int| 0 <= a < b < s.len() && a < i ==> !pixels_adjacent(s[a], s[b]),
                forall|b: int| i < b < j ==> !pixels_adjacent(s[i as int], #[trigger] s[b]),
            decreases n - j,
        {
            if check_adjacent_pixels(list[i], list[j]) {
                assert(pixels_adjacent(s[i as int], s[j as int]));
                return true;
            }
            j += 1;
        }
        i += 1;
    }
    false
}

/// Finds the broken and outlier pixels of an EEPROM image and refuses images
/// with too many or adjacent ones. On success, both lists hold their pixels
/// in increasing order, filled up to five entries with 0xFFFF.
pub fn find_deviating_pixels(ee: &[u16; 832]) -> (res: Result<(Vec<u16>, Vec<u16>), Error>)
    ensures
        res.is_err() ==> res == Err::<(Vec<u16>, Vec<u16>), Error>(
            deviation_verdict(ee@)->Err_0,
        ),
        res.is_ok() <==> deviation_verdict(ee@).is_ok(),
        res matches Ok((b, o)) ==> b@ == padded(broken_pixels(ee@)) && o@ == padded(
            outlier_pixels(ee@),
        ),
{
    let (broken, bcnt) = scan_flagged(ee, false);
    let (outliers, ocnt) = scan_flagged(ee, true);
    let ghost b = broken_pixels(ee@);
    let ghost o = outlier_pixels(ee@);
    if bcnt > 4 {
        return Err(Error::TooManyBrokenPixels);
    }
    if ocnt > 4 {
        return Err(Error::TooManyOutlierPixels);
    }
    if bcnt + ocnt > 4 {
        return Err(Error::TooManyBadPixels);
    }
    let mut all: Vec<u16> = Vec::new();
    let mut i: usize = 0;
    while i < bcnt
        invariant
            i <= bcnt,
            bcnt == b.len(),
            broken@.len() == 5,
            bcnt <= 4,
            forall|k: int| 0 <= k < bcnt ==> #[trigger] broken@[k] == b[k],
            all@ == b.take(i as int),
        decreases bcnt - i,
    {
        all.push(broken[i]);
        i += 1;
    }
    let mut j: usize = 0;
    while j < ocnt
        invariant
            j <= ocnt,
            ocnt == o.len(),
            outliers@.len() == 5,
            ocnt <= 4,
            forall|k: int| 0 <= k < ocnt ==> #[trigger] outliers@[k] == o[k],
            all@ == b + o.take(j as int),
        decreases ocnt - j,
    {
        all.push(outliers[j]);
        j += 1;
    }
    assert(o.take(ocnt as int) =~= o);
    assert(all@.take(all@.len() as int) =~= all@);
    if has_adjacent_pair(&all, all.len()) {
        return Err(Error::AdjacentBadPixels);
    }
    assert(broken@ =~= padded(b));
    assert(outliers@ =~= padded(o));
    Ok((broken, outliers))
}


/// Calibration parameters of one sensor, decoded from its EEPROM image.
///
/// Fractional parameters are kept exactly, as an integer numerator and a
/// binary exponent (or a fixed divisor named in the field's comment).
pub struct CalibrationParams {
    /// Supply-voltage slope, in ADC counts per volt.
    pub kvdd: i16,
    /// ADC reading of the supply at 25 °C.
    pub vdd25: i16,
    /// Supply dependence of the PTAT sensor, in units of 1/4096.
    pub kvptat: i16,
    /// Temperature slope of the PTAT sensor, in units of 1/8.
    pub ktptat: i16,
    /// PTAT reading at 25 °C.
    pub vptat25: u16,
    /// PTAT scale word: the factor is `alpha_ptat / 2^14 + 8`.
    pub alpha_ptat: u16,
    /// Gain reference.
    pub gain_ee: i16,
    /// Thermal-gradient coefficient, in units of 1/32.
    pub tgc: i8,
    /// ADC resolution code the sensor was calibrated at.
    pub resolution_ee: u8,
    /// Readout pattern the sensor was calibrated in: 0 (interleaved) or 0x80 (chess).
    pub calibration_mode_ee: u8,
    /// Ambient dependence of the sensitivity, in units of 1/8192.
    pub ks_ta: i8,
    /// Object-temperature dependences of the four ranges, over `2^ks_to_scale`.
    pub ks_to: Vec<i8>,
    /// Binary exponent of `ks_to`.
    pub ks_to_scale: u8,
    /// Corner temperatures of the five ranges, in °C.
    pub ct: Vec<i16>,
    /// Sensitivity numerators of the pixels, over `2^alpha_exp`.
    pub alpha: Vec<i32>,
    /// Binary exponent of `alpha`.
    pub alpha_exp: u8,
    /// Offsets of the pixels.
    pub offset: Vec<i16>,
    /// Temperature-drift coefficients of the pixels, over `2^kta_scale`.
    pub kta: Vec<i8>,
    /// Binary exponent of `kta`.
    pub kta_scale: u8,
    /// Supply-drift coefficients of the pixels, over `2^kv_scale`.
    pub kv: Vec<i8>,
    /// Binary exponent of `kv`.
    pub kv_scale: u8,
    /// Sensitivity numerator of the compensation pixel of subpage 0, over `2^cp_alpha_exp`.
    pub cp_alpha: i16,
    /// Binary exponent of `cp_alpha`.
    pub cp_alpha_exp: u8,
    /// Subpage 1 compensation sensitivity is `cp_alpha * (1 + cp_alpha_ratio / 128)`.
    pub cp_alpha_ratio: i8,
    /// Offsets of the two compensation pixels.
    pub cp_offset: Vec<i16>,
    /// Temperature drift of the compensation pixels, over `2^cp_kta_exp`.
    pub cp_kta: i8,
    /// Binary exponent of `cp_kta`.
    pub cp_kta_exp: u8,
    /// Supply drift of the compensation pixels, over `2^cp_kv_exp`.
    pub cp_kv: i8,
    /// Binary exponent of `cp_kv`.
    pub cp_kv_exp: u8,
    /// Interleave/chess corrections, in units of 1/16, 1/2 and 1/8.
    pub il_chess: Vec<i8>,
    /// Broken pixels in increasing order, filled up to five with 0xFFFF.
    pub broken_pixels: Vec<u16>,
    /// Outlier pixels in increasing order, filled up to five with 0xFFFF.
    pub outlier_pixels: Vec<u16>,
}

/// Corner-temperature step of the ranges, in °C.
pub open spec fn ct_step(ee: Seq<u16>) -> int {
    ((ee[63] / 4096) % 4) * 10
}

/// The scalar parameters decoded from the image.
pub open spec fn scalars_decoded(ee: Seq<u16>, c: CalibrationParams) -> bool {
    &&& c.kvdd == 32 * sext(spec_ms_byte(ee[51]) as int, 128)
    &&& c.vdd25 == (spec_ls_byte(ee[51]) - 256) * 32 - 8192
    &&& c.kvptat == sext(spec_msbits6(ee[50]) as int, 32)
    &&& c.ktptat == sext(spec_lsbits10(ee[50]) as int, 512)
    &&& c.vptat25 == ee[49]
    &&& c.alpha_ptat == spec_nibble4(ee[16]) * 4096
    &&& c.gain_ee == sext(ee[48] as int, 32768)
    &&& c.tgc == sext(spec_ls_byte(ee[60]) as int, 128)
    &&& c.resolution_ee == (ee[56] / 4096) % 4
    &&& c.ks_ta == sext(spec_ms_byte(ee[60]) as int, 128)
    &&& c.calibration_mode_ee == (if (ee[10] / 2048) % 2 == 1 { 0int } else { 0x80int })
}

/// The range parameters decoded from the image.
pub open spec fn ranges_decoded(ee: Seq<u16>, c: CalibrationParams) -> bool {
    &&& c.ct@ == seq![
        -40i16,
        0i16,
        (spec_nibble2(ee[63]) * ct_step(ee)) as i16,
        (spec_nibble2(ee[63]) * ct_step(ee) + spec_nibble3(ee[63]) * ct_step(ee)) as i16,
        400i16,
    ]
    &&& c.ks_to_scale == spec_nibble1(ee[63]) + 8
    &&& c.ks_to@ == seq![
        sext(spec_ls_byte(ee[61]) as int, 128) as i8,
        sext(spec_ms_byte(ee[61]) as int, 128) as i8,
        sext(spec_ls_byte(ee[62]) as int, 128) as i8,
        sext(spec_ms_byte(ee[62]) as int, 128) as i8,
    ]
}

/// The compensation-pixel and interleave/chess parameters decoded from the image.
pub open spec fn compensation_decoded(ee: Seq<u16>, c: CalibrationParams) -> bool {
    let off0 = sext(spec_lsbits10(ee[58]) as int, 512);
    &&& c.cp_offset@ == seq![off0 as i16, (sext(spec_msbits6(ee[58]) as int, 32) + off0) as i16]
    &&& c.cp_alpha == sext(spec_lsbits10(ee[57]) as int, 512)
    &&& c.cp_alpha_exp == spec_nibble4(ee[32]) + 27
    &&& c.cp_alpha_ratio == sext(spec_msbits6(ee[57]) as int, 32)
    &&& c.cp_kta == sext(spec_ls_byte(ee[59]) as int, 128)
    &&& c.cp_kta_exp == spec_nibble2(ee[56]) + 8
    &&& c.cp_kv == sext(spec_ms_byte(ee[59]) as int, 128)
    &&& c.cp_kv_exp == spec_nibble3(ee[56])
    &&& c.il_chess@ == seq![
        sext((ee[53] % 64) as int, 32) as i8,
        sext(((ee[53] / 64) % 32) as int, 16) as i8,
        sext((ee[53] / 2048) as int, 16) as i8,
    ]
}

/// The per-pixel tables decoded from the image.
pub open spec fn pixels_decoded(ee: Seq<u16>, c: CalibrationParams) -> bool {
    &&& c.alpha_exp == spec_nibble4(ee[32]) + 30
    &&& c.alpha@.len() == 768
    &&& forall|p: int| 0 <= p < 768 ==> #[trigger] c.alpha@[p] == alpha_value(ee, p)
    &&& c.offset@.len() == 768
    &&& forall|p: int| 0 <= p < 768 ==> #[trigger] c.offset@[p] == (offset_value(ee, p) as i16)
    &&& is_least_scale(max_abs(kta_coefficients(ee)), c.kta_scale as nat, kta_exponent(ee))
    &&& c.kta@.len() == 768
    &&& forall|p: int|
        0 <= p < 768 ==> #[trigger] c.kta@[p] == rounded_coefficient(
            kta_coefficient(ee, p),
            c.kta_scale as nat,
            kta_exponent(ee),
        )
    &&& is_least_scale(max_abs(kv_coefficients(ee)), c.kv_scale as nat, kv_exponent(ee))
    &&& c.kv@.len() == 768
    &&& forall|p: int|
        0 <= p < 768 ==> #[trigger] c.kv@[p] == rounded_coefficient(
            kv_coefficient(ee, p),
            c.kv_scale as nat,
            kv_exponent(ee),
        )
    &&& c.broken_pixels@ == padded(broken_pixels(ee))
    &&& c.outlier_pixels@ == padded(outlier_pixels(ee))
}

/// Every parameter of `c` is the one the EEPROM image `ee` encodes.
pub open spec fn params_decoded(ee: Seq<u16>, c: CalibrationParams) -> bool {
    &&& scalars_decoded(ee, c)
    &&& ranges_decoded(ee, c)
    &&& compensation_decoded(ee, c)
    &&& pixels_decoded(ee, c)
}

/// The calibration mode is chess (0x80) exactly when bit 11 of EEPROM word 10
/// is clear, and interleaved (0) exactly when it is set.
pub proof fn lemma_calibration_mode_bit(ee: Seq<u16>, c: CalibrationParams)
    requires
        ee.len() == 832,
        params_decoded(ee, c),
    ensures
        c.calibration_mode_ee == 0x80 <==> ee[10] & 0x0800 == 0,
        c.calibration_mode_ee == 0 <==> ee[10] & 0x0800 != 0,
{
    let w: u16 = ee[10];
    assert((w & 0x0800 == 0) <==> ((w / 2048) % 2 == 0)) by (bit_vector);
    assert((w / 2048) % 2 == 0 || (w / 2048) % 2 == 1);
}

/// Two integers of the window `[-h, h)` that are congruent modulo `2h` are equal.
proof fn lemma_congruent_in_window(x: int, y: int, h: int)
    requires
        h > 0,
        -h <= x < h,
        -h <= y < h,
        (x - y) % (2 * h) == 0,
    ensures
        x == y,
{
    vstd::arithmetic::div_mod::lemma_fundamental_div_mod(x - y, 2 * h);
    let q: int = (x - y) / (2 * h);
    assert(x - y == 2 * h * q);
    assert(q == 0) by (nonlinear_arith)
        requires
            x - y == 2 * h * q,
            -2 * h < x - y < 2 * h,
            h > 0,
    ;
}

/// Nibble `k` of `w` is `w` divided by `2^(4k)`, taken modulo 16.
proof fn lemma_nibble_at_shift(w: u16, k: int)
    requires
        0 <= k < 4,
    ensures
        nibble_at(w, k) as int == ((w as int) / (pow2((4 * k) as nat) as int)) % 16,
{
    lemma2_to64();
    crate::words::lemma_nibbles_recompose(w);
    let x: int = w as int;
    if k == 0 {
        assert(pow2(0) == 1);
        assert(x / 1 == x);
    } else if k == 1 {
        assert(pow2(4) == 16);
    } else if k == 2 {
        assert(pow2(8) == 256);
    } else {
        assert(pow2(12) == 4096);
        assert(x / 4096 < 16);
        assert((x / 4096) % 16 == x / 4096);
    }
}

/// Offset law: the offset of pixel `p` is, truncated to 16 bits, its own 6-bit
/// field (bits 10..16 of its word, read in two's complement) times
/// `2^(bits 0..4 of word 16)`, plus the reference offset of word 17, plus the
/// signed 4-bit correction of its row times `2^(bits 8..12 of word 16)` and
/// that of its column times `2^(bits 4..8 of word 16)`. The row corrections
/// are packed four to a word from word 18 on and the column corrections from
/// word 24 on, least significant nibble first. Here `own`, `rc` and `cc` are
/// those three signed fields, each given as the value of its width congruent
/// to the stored bits.
pub proof fn lemma_offset_decoding(
    ee: Seq<u16>,
    c: CalibrationParams,
    p: int,
    own: int,
    rc: int,
    cc: int,
)
    requires
        ee.len() == 832,
        params_decoded(ee, c),
        0 <= p < 768,
        -32 <= own < 32,
        (own - ee[64 + p] / 1024) % 64 == 0,
        -8 <= rc < 8,
        (rc - ((ee[18 + (p / 32) / 4] as int) / (pow2((4 * ((p / 32) % 4)) as nat) as int)) % 16) % 16 == 0,
        -8 <= cc < 8,
        (cc - ((ee[24 + (p % 32) / 4] as int) / (pow2((4 * ((p % 32) % 4)) as nat) as int)) % 16) % 16 == 0,
    ensures
        c.offset@[p] == ((own * pow2((ee[16] % 16) as nat) + ee[17] + rc * pow2(
            ((ee[16] / 256) % 16) as nat,
        ) + cc * pow2(((ee[16] / 16) % 16) as nat)) as i16),
{
    let w: u16 = ee[64 + p];
    let m: int = spec_msbits6(w) as int;
    assert(m < 64);
    let so: int = sext(m, 32);
    if m >= 32 {
        assert((own - so) % 64 == 0);
    }
    lemma_congruent_in_window(own, so, 32);
    let row: int = p / 32;
    let col: int = p % 32;
    let rw: u16 = ee[18 + row / 4];
    let cw: u16 = ee[24 + col / 4];
    lemma_nibble_at_shift(rw, row % 4);
    lemma_nibble_at_shift(cw, col % 4);
    let rn: int = nibble_at(rw, row % 4) as int;
    let cn: int = nibble_at(cw, col % 4) as int;
    assert(rn < 16 && cn < 16);
    let rs: int = sext(rn, 8);
    let cs: int = sext(cn, 8);
    if rn >= 8 {
        assert((rc - rs) % 16 == 0);
    }
    if cn >= 8 {
        assert((cc - cs) % 16 == 0);
    }
    lemma_congruent_in_window(rc, rs, 8);
    lemma_congruent_in_window(cc, cs, 8);
    assert(packed_correction(ee, 18, row) == rc);
    assert(packed_correction(ee, 24, col) == cc);
    assert(c.offset@[p] == (offset_value(ee, p) as i16));
}

/// Sensitivity law: the sensitivity numerator of pixel `p` is its own 6-bit
/// field (bits 4..10 of its word, read in two's complement) times
/// `2^(bits 0..4 of word 32)`, plus the reference of word 33, plus the signed
/// 4-bit correction of its row times `2^(bits 8..12 of word 32)` and that of its
/// column times `2^(bits 4..8 of word 32)`; the row corrections are packed four
/// to a word from word 34 on and the column corrections from word 40 on, least
/// significant nibble first. `own`, `rc` and `cc` are those signed fields, each
/// given as the value of its width congruent to the stored bits.
pub proof fn lemma_alpha_decoding(
    ee: Seq<u16>,
    c: CalibrationParams,
    p: int,
    own: int,
    rc: int,
    cc: int,
)
    requires
        ee.len() == 832,
        params_decoded(ee, c),
        0 <= p < 768,
        -32 <= own < 32,
        (own - (ee[64 + p] / 16) % 64) % 64 == 0,
        -8 <= rc < 8,
        (rc - ((ee[34 + (p / 32) / 4] as int) / (pow2((4 * ((p / 32) % 4)) as nat) as int)) % 16) % 16 == 0,
        -8 <= cc < 8,
        (cc - ((ee[40 + (p % 32) / 4] as int) / (pow2((4 * ((p % 32) % 4)) as nat) as int)) % 16) % 16 == 0,
    ensures
        c.alpha@[p] == own * pow2((ee[32] % 16) as nat) + ee[33] + rc * pow2(
            ((ee[32] / 256) % 16) as nat,
        ) + cc * pow2(((ee[32] / 16) % 16) as nat),
{
    let w: u16 = ee[64 + p];
    let m: int = ((w / 16) % 64) as int;
    let so: int = sext(m, 32);
    if m >= 32 {
        assert((own - so) % 64 == 0);
    }
    lemma_congruent_in_window(own, so, 32);
    let row: int = p / 32;
    let col: int = p % 32;
    let rw: u16 = ee[34 + row / 4];
    let cw: u16 = ee[40 + col / 4];
    lemma_nibble_at_shift(rw, row % 4);
    lemma_nibble_at_shift(cw, col % 4);
    let rn: int = nibble_at(rw, row % 4) as int;
    let cn: int = nibble_at(cw, col % 4) as int;
    let rs: int = sext(rn, 8);
    let cs: int = sext(cn, 8);
    if rn >= 8 {
        assert((rc - rs) % 16 == 0);
    }
    if cn >= 8 {
        assert((cc - cs) % 16 == 0);
    }
    lemma_congruent_in_window(rc, rs, 8);
    lemma_congruent_in_window(cc, cs, 8);
    assert(packed_correction(ee, 34, row) == rc);
    assert(packed_correction(ee, 40, col) == cc);
    assert(c.alpha@[p] == alpha_value(ee, p));
}

/// The two's-complement reading of a field of `2h` values lies in `[-h, h)` and
/// is congruent to the stored bits modulo `2h`.
proof fn lemma_sext_window(v: int, h: int)
    requires
        h > 0,
        0 <= v < 2 * h,
    ensures
        -h <= sext(v, h) < h,
        (sext(v, h) - v) % (2 * h) == 0,
{
    if v >= h {
        vstd::arithmetic::div_mod::lemma_fundamental_div_mod_converse_mod(-2 * h, 2 * h, -1, 0);
    } else {
        vstd::arithmetic::div_mod::lemma_fundamental_div_mod_converse_mod(0, 2 * h, 0, 0);
    }
}

/// Scalar law: each signed scalar parameter is the two's-complement value of its
/// bit field, that is the value of the field's signed range congruent to the
/// stored bits; the unsigned ones are their fields as stored.
pub proof fn lemma_scalar_fields(ee: Seq<u16>, c: CalibrationParams)
    requires
        ee.len() == 832,
        params_decoded(ee, c),
    ensures
        c.kvdd as int % 32 == 0,
        -128 <= c.kvdd as int / 32 < 128,
        (c.kvdd as int / 32 - ee[51] / 256) % 256 == 0,
        c.vdd25 == (ee[51] % 256 - 256) * 32 - 8192,
        -32 <= c.kvptat < 32,
        (c.kvptat - ee[50] / 1024) % 64 == 0,
        -512 <= c.ktptat < 512,
        (c.ktptat - ee[50] % 1024) % 1024 == 0,
        c.vptat25 == ee[49],
        c.alpha_ptat == (ee[16] / 4096) * 4096,
        (c.gain_ee - ee[48]) % 65536 == 0,
        -128 <= c.tgc < 128,
        (c.tgc - ee[60] % 256) % 256 == 0,
        (c.ks_ta - ee[60] / 256) % 256 == 0,
        c.resolution_ee == (ee[56] / 4096) % 4,
        -512 <= c.cp_alpha < 512,
        (c.cp_alpha - ee[57] % 1024) % 1024 == 0,
        -32 <= c.cp_alpha_ratio < 32,
        (c.cp_alpha_ratio - ee[57] / 1024) % 64 == 0,
        (c.cp_kta - ee[59] % 256) % 256 == 0,
        (c.cp_kv - ee[59] / 256) % 256 == 0,
        c.cp_alpha_exp == ee[32] / 4096 + 27,
        c.cp_kta_exp == (ee[56] / 16) % 16 + 8,
        c.cp_kv_exp == (ee[56] / 256) % 16,
        c.alpha_exp == ee[32] / 4096 + 30,
        -512 <= c.cp_offset@[0] < 512,
        (c.cp_offset@[0] - ee[58] % 1024) % 1024 == 0,
        -32 <= c.cp_offset@[1] - c.cp_offset@[0] < 32,
        (c.cp_offset@[1] - c.cp_offset@[0] - ee[58] / 1024) % 64 == 0,
        -32 <= c.il_chess@[0] < 32,
        (c.il_chess@[0] - ee[53] % 64) % 64 == 0,
        -16 <= c.il_chess@[1] < 16,
        (c.il_chess@[1] - (ee[53] / 64) % 32) % 32 == 0,
        -16 <= c.il_chess@[2] < 16,
        (c.il_chess@[2] - ee[53] / 2048) % 32 == 0,
        -128 <= c.ks_to@[0] < 128,
        (c.ks_to@[0] - ee[61] % 256) % 256 == 0,
        -128 <= c.ks_to@[1] < 128,
        (c.ks_to@[1] - ee[61] / 256) % 256 == 0,
        -128 <= c.ks_to@[2] < 128,
        (c.ks_to@[2] - ee[62] % 256) % 256 == 0,
        -128 <= c.ks_to@[3] < 128,
        (c.ks_to@[3] - ee[62] / 256) % 256 == 0,
        c.ks_to_scale == ee[63] % 16 + 8,
        c.ct@[0] == -40 && c.ct@[1] == 0 && c.ct@[4] == 400,
        c.ct@[2] == (ee[63] / 16) % 16 * ((ee[63] / 4096) % 4 * 10),
        c.ct@[3] == c.ct@[2] + (ee[63] / 256) % 16 * ((ee[63] / 4096) % 4 * 10),
{
    lemma_sext_window((ee[51] / 256) as int, 128);
    lemma_sext_window((ee[50] / 1024) as int, 32);
    lemma_sext_window((ee[50] % 1024) as int, 512);
    lemma_sext_window(ee[48] as int, 32768);
    lemma_sext_window((ee[60] % 256) as int, 128);
    lemma_sext_window((ee[60] / 256) as int, 128);
    lemma_sext_window((ee[57] % 1024) as int, 512);
    lemma_sext_window((ee[57] / 1024) as int, 32);
    lemma_sext_window((ee[59] % 256) as int, 128);
    lemma_sext_window((ee[59] / 256) as int, 128);
    lemma_sext_window((ee[58] % 1024) as int, 512);
    lemma_sext_window((ee[58] / 1024) as int, 32);
    lemma_sext_window((ee[53] % 64) as int, 32);
    lemma_sext_window(((ee[53] / 64) % 32) as int, 16);
    lemma_sext_window((ee[53] / 2048) as int, 16);
    lemma_sext_window((ee[61] % 256) as int, 128);
    lemma_sext_window((ee[61] / 256) as int, 128);
    lemma_sext_window((ee[62] % 256) as int, 128);
    lemma_sext_window((ee[62] / 256) as int, 128);
    lemma2_to64();
    let st: int = ((ee[63] / 4096) % 4 * 10) as int;
    let n2: int = ((ee[63] / 16) % 16) as int;
    let n3: int = ((ee[63] / 256) % 16) as int;
    assert(st == ct_step(ee));
    assert(0 <= n2 * st <= 450 && 0 <= n3 * st <= 450) by (nonlinear_arith)
        requires
            0 <= st <= 30,
            0 <= n2 < 16,
            0 <= n3 < 16,
    ;
    let kd: int = sext((ee[51] / 256) as int, 128);
    assert(c.kvdd as int / 32 == kd && c.kvdd as int % 32 == 0) by (nonlinear_arith)
        requires
            c.kvdd as int == 32 * kd,
    ;
}

/// Temperature-drift law: the drift coefficient of pixel `p` is, rounded at the
/// table's scale, `own * 2^(bits 0..4 of word 56) + base` over
/// `2^(bits 4..8 of word 56 + 8)`, where `own` is the signed 3-bit field in
/// bits 1..4 of the pixel's word and `base` the signed byte of its sub-grid:
/// the high byte of word 54 for even rows and even columns, of word 55 for even
/// rows and odd columns, and the low bytes of those words for odd rows.
pub proof fn lemma_kta_decoding(ee: Seq<u16>, c: CalibrationParams, p: int, own: int, base: int)
    requires
        ee.len() == 832,
        params_decoded(ee, c),
        0 <= p < 768,
        -4 <= own < 4,
        (own - (ee[64 + p] / 2) % 8) % 8 == 0,
        -128 <= base < 128,
        (base - (if (p / 32) % 2 == 0 {
            ee[54 + (p % 32) % 2] / 256
        } else {
            ee[54 + (p % 32) % 2] % 256
        })) % 256 == 0,
    ensures
        c.kta@[p] == rounded_coefficient(
            own * pow2((ee[56] % 16) as nat) + base,
            c.kta_scale as nat,
            ((ee[56] / 16) % 16 + 8) as nat,
        ),
{
    let m: int = ((ee[64 + p] / 2) % 8) as int;
    lemma_sext_window(m, 4);
    lemma_congruent_in_window(own, sext(m, 4), 4);
    let row_odd: bool = (p / 32) % 2 == 1;
    let col_odd: bool = (p % 32) % 2 == 1;
    let b: int = kta_base(ee, split_index(p));
    let raw: int = if !row_odd {
        (ee[54 + (p % 32) % 2] / 256) as int
    } else {
        (ee[54 + (p % 32) % 2] % 256) as int
    };
    lemma_sext_window(raw, 128);
    assert(b == sext(raw, 128));
    lemma_congruent_in_window(base, b, 128);
    assert(c.kta@[p] == rounded_coefficient(kta_coefficient(ee, p), c.kta_scale as nat, kta_exponent(ee)));
}

/// Supply-drift law: the supply-drift coefficient of pixel `p` is, rounded at
/// the table's scale, `base` over `2^(bits 8..12 of word 56)`, where `base` is
/// the signed nibble of word 52 for the pixel's sub-grid: bits 12..16 for even
/// rows and even columns, bits 4..8 for even rows and odd columns, bits 8..12
/// for odd rows and even columns, and bits 0..4 for odd rows and odd columns.
pub proof fn lemma_kv_decoding(ee: Seq<u16>, c: CalibrationParams, p: int, base: int)
    requires
        ee.len() == 832,
        params_decoded(ee, c),
        0 <= p < 768,
        -8 <= base < 8,
        (base - (if (p / 32) % 2 == 0 {
            if (p % 32) % 2 == 0 {
                ee[52] / 4096
            } else {
                (ee[52] / 16) % 16
            }
        } else {
            if (p % 32) % 2 == 0 {
                (ee[52] / 256) % 16
            } else {
                ee[52] % 16
            }
        })) % 16 == 0,
    ensures
        c.kv@[p] == rounded_coefficient(base, c.kv_scale as nat, ((ee[56] / 256) % 16) as nat),
{
    let w: u16 = ee[52];
    crate::words::lemma_nibbles_recompose(w);
    let raw: int = if (p / 32) % 2 == 0 {
        if (p % 32) % 2 == 0 {
            (w / 4096) as int
        } else {
            ((w / 16) % 16) as int
        }
    } else {
        if (p % 32) % 2 == 0 {
            ((w / 256) % 16) as int
        } else {
            (w % 16) as int
        }
    };
    lemma_sext_window(raw, 8);
    assert(kv_base(ee, split_index(p)) == sext(raw, 8));
    lemma_congruent_in_window(base, sext(raw, 8), 8);
    assert(c.kv@[p] == rounded_coefficient(kv_coefficient(ee, p), c.kv_scale as nat, kv_exponent(ee)));
}

/// Whether the drift coefficients of the image can be scaled (neither table all zero).
pub fn coefficients_scalable(ee: &[u16; 832]) -> (r: bool)
    ensures
        r == scales_defined(ee@),
{
    let kta = kta_table(ee);
    let kv = kv_table(ee);
    max_magnitude(&kta) > 0 && max_magnitude(&kv) > 0
}

/// Decodes the calibration parameters of an EEPROM image.
///
/// Fails exactly when the image has more than four broken pixels, more than
/// four outlier pixels, more than four of both together, or two adjacent bad
/// pixels; the first of these that holds names the error. The bad pixels are
/// judged before anything else, so an image of a dead sensor (all words zero)
/// is refused as having too many broken pixels. An accepted image must have
/// drift coefficients that are not all zero, for them to be scaled.
pub fn extract_parameters(ee: &[u16; 832]) -> (res: Result<CalibrationParams, Error>)
    requires
        deviation_verdict(ee@).is_ok() ==> scales_defined(ee@),
    ensures
        res.is_ok() <==> deviation_verdict(ee@).is_ok(),
        res.is_err() ==> res->Err_0 == deviation_verdict(ee@)->Err_0,
        res matches Ok(c) ==> params_decoded(ee@, c),
{
    // Bad pixels.
    let (broken_pixels, outlier_pixels) = match find_deviating_pixels(ee) {
        Ok(lists) => lists,
        Err(e) => {
            return Err(e);
        },
    };

    // Supply voltage.
    let kvdd: i16 = 32 * (signed_byte(ms_byte(ee[51])) as i16);
    let vdd25: i16 = ((ls_byte(ee[51]) as i16 - 256) * 32 - 8192) as i16;

    // PTAT sensor.
    let kvptat = signed_field(msbits6(ee[50]), 32) as i16;
    let ktptat = signed_field(lsbits10(ee[50]), 512) as i16;
    let vptat25 = ee[49];
    let w16 = ee[16];
    assert(w16 & 0xF000 == (w16 / 4096) * 4096) by (bit_vector);
    let alpha_ptat = w16 & 0xF000;

    let w48 = ee[48];
    let gain_ee = #[verifier::truncate] (w48 as i16);
    assert((w48 as i16) as int == if w48 >= 32768 { w48 - 65536 } else { w48 as int })
        by (bit_vector);
    let tgc = signed_byte(ls_byte(ee[60]));
    let w56 = ee[56];
    assert((w56 & 0x3000) >> 12 == (w56 / 4096) % 4) by (bit_vector);
    let resolution_ee = ((w56 & 0x3000) >> 12) as u8;
    let ks_ta = signed_byte(ms_byte(ee[60]));

    // Ranges of the object temperature.
    let w63 = ee[63];
    assert((w63 & 0x3000) >> 12 == (w63 / 4096) % 4) by (bit_vector);
    let step: i16 = (((w63 & 0x3000) >> 12) * 10) as i16;
    let n2 = nibble2(w63) as i16;
    let n3 = nibble3(w63) as i16;
    proof {
        crate::words::lemma_nibbles_recompose(w63);
        assert(0 <= n2 * step <= 450 && 0 <= n3 * step <= 450) by (nonlinear_arith)
            requires
                0 <= n2 < 16,
                0 <= n3 < 16,
                0 <= step <= 30,
        ;
    }
    let ct2: i16 = n2 * step;
    let ct3: i16 = ct2 + n3 * step;
    let ct: Vec<i16> = vec![-40, 0, ct2, ct3, 400];
    let ks_to_scale = (nibble1(ee[63]) + 8) as u8;
    let ks_to: Vec<i8> = vec![
        signed_byte(ls_byte(ee[61])),
        signed_byte(ms_byte(ee[61])),
        signed_byte(ls_byte(ee[62])),
        signed_byte(ms_byte(ee[62])),
    ];

    // Compensation pixels.
    let cp_alpha_exp = (nibble4(ee[32]) + 27) as u8;
    let off0 = signed_field(lsbits10(ee[58]), 512);
    let off1 = signed_field(msbits6(ee[58]), 32) + off0;
    let cp_offset: Vec<i16> = vec![off0 as i16, off1 as i16];
    let cp_alpha = signed_field(lsbits10(ee[57]), 512) as i16;
    let cp_alpha_ratio = signed_field(msbits6(ee[57]), 32) as i8;
    let cp_kta = signed_byte(ls_byte(ee[59]));
    let cp_kta_exp = (nibble2(ee[56]) + 8) as u8;
    let cp_kv = signed_byte(ms_byte(ee[59]));
    let cp_kv_exp = nibble3(ee[56]) as u8;

    // Readout pattern and interleave/chess corrections.
    let w10 = ee[10];
    assert((((w10 & 0x0800) >> 4) as u8) ^ 0x80u8 == if (w10 / 2048) % 2 == 1 { 0u8 } else { 0x80u8 })
        by (bit_vector);
    let calibration_mode_ee = (#[verifier::truncate] (((w10 & 0x0800) >> 4) as u8)) ^ 0x80;
    let w53 = ee[53];
    assert(w53 & 0x003F == w53 % 64 && (w53 & 0x07C0) >> 6 == (w53 / 64) % 32 && (w53 & 0xF800) >> 11
        == w53 / 2048) by (bit_vector);
    let il_chess: Vec<i8> = vec![
        signed_field(w53 & 0x003F, 32) as i8,
        signed_field((w53 & 0x07C0) >> 6, 16) as i8,
        signed_field((w53 & 0xF800) >> 11, 16) as i8,
    ];

    // Per-pixel tables.
    let alpha_exp = (nibble4(ee[32]) + 30) as u8;
    let mut alpha: Vec<i32> = Vec::new();
    let mut offset: Vec<i16> = Vec::new();
    let mut p: usize = 0;
    while p < 768
        invariant
            p <= 768,
            alpha@.len() == p,
            offset@.len() == p,
            forall|i: int| 0 <= i < p ==> #[trigger] alpha@[i] == alpha_value(ee@, i),
            forall|i: int| 0 <= i < p ==> #[trigger] offset@[i] == (offset_value(ee@, i) as i16),
        decreases 768 - p,
    {
        alpha.push(pixel_alpha(ee, p));
        offset.push(pixel_offset(ee, p));
        p += 1;
    }
    let kta_raw = kta_table(ee);
    proof {
        crate::words::lemma_nibbles_recompose(ee[56]);
    }
    let (kta, kta_scale) = normalize_coefficients(&kta_raw, (nibble2(ee[56]) + 8) as u32);
    let kv_raw = kv_table(ee);
    let (kv, kv_scale) = normalize_coefficients(&kv_raw, nibble3(ee[56]) as u32);

    let c = CalibrationParams {
        kvdd,
        vdd25,
        kvptat,
        ktptat,
        vptat25,
        alpha_ptat,
        gain_ee,
        tgc,
        resolution_ee,
        calibration_mode_ee,
        ks_ta,
        ks_to,
        ks_to_scale,
        ct,
        alpha,
        alpha_exp,
        offset,
        kta,
        kta_scale,
        kv,
        kv_scale,
        cp_alpha,
        cp_alpha_exp,
        cp_alpha_ratio,
        cp_offset,
        cp_kta,
        cp_kta_exp,
        cp_kv,
        cp_kv_exp,
        il_chess,
        broken_pixels,
        outlier_pixels,
    };
    proof {
        crate::words::lemma_nibbles_recompose(ee[63]);
        crate::words::lemma_nibbles_recompose(ee[32]);
        crate::words::lemma_bytes_recompose(ee[51]);
        assert(scalars_decoded(ee@, c));
        assert(ranges_decoded(ee@, c));
        assert(compensation_decoded(ee@, c));
        assert(pixels_decoded(ee@, c));
    }
    Ok(c)
}

} // verus!
