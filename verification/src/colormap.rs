//! Colours of the thermal view and of the screen test, as RGB565 words.

use vstd::prelude::*;
use embedded_graphics::pixelcolor::Rgb565;
use embedded_graphics::pixelcolor::raw::{RawData, RawU16};

verus! {

/// The RGB565 word of a colour given by 8-bit channel values: the low five
/// bits of red, the low six bits of green and the low five bits of blue,
/// packed from the most significant bit down.
pub open spec fn rgb565_storage(r: u8, g: u8, b: u8) -> u16 {
    ((r % 32) * 2048 + (g % 64) * 32 + b % 32) as u16
}

/// Calls `Rgb565::new(r, g, b)` of embedded-graphics and takes the colour's
/// raw 16-bit word through `RawU16::from` and `into_inner`. Claimed: the word
/// is the channels masked to 5, 6 and 5 bits and packed red-green-blue, as
/// `Rgb565::new` builds it (`(r & 31) << 11 | (g & 63) << 5 | (b & 31)`).
#[verifier::external_body]
fn rgb565_raw(r: u8, g: u8, b: u8) -> (c: u16)
    ensures
        c == rgb565_storage(r, g, b),
{
    RawU16::from(Rgb565::new(r, g, b)).into_inner()
}

/// Channel values of entry `i` of the ironbow colour map: black through blue,
/// cyan, white-ish cyan, yellow, orange and red back to white.
pub open spec fn ironbow_channels(i: u8) -> (u8, u8, u8) {
    if i < 32 {
        (0, 0, (i * 8) as u8)
    } else if i < 64 {
        (0, ((i - 32) * 8) as u8, 255)
    } else if i < 96 {
        (((i - 64) * 8) as u8, 255, 255)
    } else if i < 128 {
        (255, (255 - (i - 96) * 8) as u8, 0)
    } else if i < 160 {
        (255, (255 - (i - 128) * 8) as u8, 0)
    } else if i < 200 {
        (255, ((i - 160) * 6 / 2 + 64) as u8, 0)
    } else {
        (255, 255, ((i - 200) * 4) as u8)
    }
}

/// `a * k` held to at most 255.
fn scaled_channel(a: u8, k: u32) -> (r: u8)
    requires
        k <= 8,
    ensures
        r == (if a * k > 255 { 255 } else { a * k }),
{
    assert(a * k <= 255 * 8) by (nonlinear_arith)
        requires
            k <= 8,
            a <= 255,
    ;
    let v: u32 = a as u32 * k;
    if v > 255 {
        255
    } else {
        v as u8
    }
}

/// Channel values of ironbow entry `i`.
pub fn ironbow_rgb(i: u8) -> (c: (u8, u8, u8))
    ensures
        c == ironbow_channels(i),
{
    if i < 32 {
        (0, 0, scaled_channel(i, 8))
    } else if i < 64 {
        (0, scaled_channel(i - 32, 8), 255)
    } else if i < 96 {
        (scaled_channel(i - 64, 8), 255, 255)
    } else if i < 128 {
        (255, 255u8.saturating_sub((i - 96) * 8), 0)
    } else if i < 160 {
        let v = scaled_channel(i - 128, 8);
        (255, 255u8.saturating_sub(v), 0)
    } else if i < 200 {
        (255, (i - 160) * 6 / 2 + 64, 0)
    } else {
        (255, 255, scaled_channel(i - 200, 4))
    }
}

/// The 256-entry ironbow colour map, as RGB565 words.
pub fn make_ironbow() -> (map: Vec<u16>)
    ensures
        map@.len() == 256,
        forall|i: int|
            0 <= i < 256 ==> #[trigger] map@[i] == rgb565_storage(
                ironbow_channels(i as u8).0,
                ironbow_channels(i as u8).1,
                ironbow_channels(i as u8).2,
            ),
{
    let mut map: Vec<u16> = Vec::new();
    let mut i: u32 = 0;
    while i < 256
        invariant
            i <= 256,
            map@.len() == i,
            forall|k: int|
                0 <= k < i ==> #[trigger] map@[k] == rgb565_storage(
                    ironbow_channels(k as u8).0,
                    ironbow_channels(k as u8).1,
                    ironbow_channels(k as u8).2,
                ),
        decreases 256 - i,
    {
        let (r, g, b) = ironbow_rgb(i as u8);
        map.push(rgb565_raw(r, g, b));
        i += 1;
    }
    map
}

/// Channel values of column `x` of the screen-test hue gradient; `x * 2`
/// wraps around at 256 as an 8-bit value does.
pub open spec fn gradient_channels(x: u8) -> (u8, u8, u8) {
    let t = ((x * 2) % 256) as u8;
    let r = if t < 128 { (128 - t) as u8 } else { 0u8 };
    let g = if t < 128 { t } else { (255 - t) as u8 };
    let b = if t >= 128 { (t - 128) as u8 } else { 0u8 };
    (r, g, b)
}

/// RGB565 word of column `x` of the screen-test hue gradient.
pub fn gradient_color(x: u8) -> (c: u16)
    ensures
        c == rgb565_storage(gradient_channels(x).0, gradient_channels(x).1, gradient_channels(x).2),
{
    let t = x.wrapping_mul(2);
    let r = if t < 128 {
        128u8.saturating_sub(t)
    } else {
        0
    };
    let g = if t < 128 {
        t
    } else {
        255u8.saturating_sub(t)
    };
    let b = if t >= 128 {
        t.saturating_sub(128)
    } else {
        0
    };
    rgb565_raw(r, g, b)
}


/// The hue gradient repeats every 128 columns, and across the first half of a
/// period red fades into green (their sum stays 128, no blue) while across the
/// second half green fades into blue (their sum stays 127, no red).
pub proof fn lemma_gradient_shape(x: u8)
    ensures
        x < 128 ==> gradient_channels(x) == gradient_channels((x + 128) as u8),
        (x * 2) % 256 < 128 ==> gradient_channels(x).0 + gradient_channels(x).1 == 128
            && gradient_channels(x).2 == 0,
        (x * 2) % 256 >= 128 ==> gradient_channels(x).1 + gradient_channels(x).2 == 127
            && gradient_channels(x).0 == 0,
{
}

/// Channel values (8-bit scale) of entry `i` of the lava colour map: black
/// through dark red and red, orange and yellow, up to white.
pub open spec fn lava_channels(i: u8) -> (u8, u8, u8) {
    if i < 64 {
        ((i * 4) as u8, 0, 0)
    } else if i < 128 {
        (255, ((i - 64) * 2) as u8, 0)
    } else if i < 192 {
        (255, (128 + (i - 128) * 2) as u8, 0)
    } else {
        (255, 255, ((i - 192) * 4) as u8)
    }
}

/// Channel values of lava entry `i`, on the 8-bit scale.
pub fn lava_rgb(i: u8) -> (c: (u8, u8, u8))
    ensures
        c == lava_channels(i),
{
    if i < 64 {
        (i * 4, 0, 0)
    } else if i < 128 {
        (255, (i - 64) * 2, 0)
    } else if i < 192 {
        (255, 128 + (i - 128) * 2, 0)
    } else {
        (255, 255, (i - 192) * 4)
    }
}

/// The 256-entry lava colour map, as RGB565 words: each 8-bit channel is
/// brought to the colour's 5-, 6- and 5-bit range by dropping its low bits.
pub fn make_lava() -> (map: Vec<u16>)
    ensures
        map@.len() == 256,
        forall|i: int|
            0 <= i < 256 ==> #[trigger] map@[i] == rgb565_storage(
                (lava_channels(i as u8).0 / 8) as u8,
                (lava_channels(i as u8).1 / 4) as u8,
                (lava_channels(i as u8).2 / 8) as u8,
            ),
{
    let mut map: Vec<u16> = Vec::new();
    let mut i: u32 = 0;
    while i < 256
        invariant
            i <= 256,
            map@.len() == i,
            forall|k: int|
                0 <= k < i ==> #[trigger] map@[k] == rgb565_storage(
                    (lava_channels(k as u8).0 / 8) as u8,
                    (lava_channels(k as u8).1 / 4) as u8,
                    (lava_channels(k as u8).2 / 8) as u8,
                ),
        decreases 256 - i,
    {
        let (r, g, b) = lava_rgb(i as u8);
        map.push(rgb565_raw(r / 8, g / 4, b / 8));
        i += 1;
    }
    map
}

/// The lava map only brightens: from each entry to the next no channel
/// decreases, it starts at black and ends at white.
pub proof fn lemma_lava_brightens(i: u8)
    requires
        i < 255,
    ensures
        lava_channels(i).0 <= lava_channels((i + 1) as u8).0,
        lava_channels(i).1 <= lava_channels((i + 1) as u8).1,
        lava_channels(i).2 <= lava_channels((i + 1) as u8).2,
        lava_channels(0) == (0u8, 0u8, 0u8),
        lava_channels(255) == (255u8, 255u8, 252u8),
{
}

/// The ironbow map starts at black, its red channel never decreases from one
/// entry to the next, and within each band green and blue move by at most
/// eight per entry.
pub proof fn lemma_ironbow_red_rises(i: u8)
    requires
        i < 255,
    ensures
        ironbow_channels(i).0 <= ironbow_channels((i + 1) as u8).0,
        ironbow_channels(0) == (0u8, 0u8, 0u8),
        i != 31 && i != 63 && i != 95 && i != 127 && i != 159 && i != 199 ==> -8 <= ironbow_channels(
            (i + 1) as u8,
        ).1 - ironbow_channels(i).1 <= 8 && -8 <= ironbow_channels((i + 1) as u8).2
            - ironbow_channels(i).2 <= 8,
{
}

} // verus!
