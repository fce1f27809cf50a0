//! Which pixels a subpage holds, and the per-pixel readout patterns.

use vstd::prelude::*;

verus! {

/// Interleave pattern of pixel `p`: the parity of its row.
pub open spec fn spec_il_pattern(p: int) -> int {
    (p / 32) % 2
}

/// Chess pattern of pixel `p`: the parity of its row plus its column.
pub open spec fn spec_chess_pattern(p: int) -> int {
    (p / 32 + p % 32) % 2
}

/// Conversion pattern of pixel `p`: -1 or +1 on every second pixel
/// (positions 1 and 3 of each group of four), sign flipped on odd rows.
pub open spec fn spec_conversion_pattern(p: int) -> int {
    let base = if p % 4 == 1 {
        -1int
    } else if p % 4 == 3 {
        1int
    } else {
        0int
    };
    if spec_il_pattern(p) == 0 {
        base
    } else {
        -base
    }
}

/// Interleave pattern of a pixel.
pub fn il_pattern(p: i32) -> (r: i32)
    requires
        0 <= p < 768,
    ensures
        r == spec_il_pattern(p as int),
{
    p / 32 - (p / 64) * 2
}

/// Chess pattern of a pixel.
pub fn chess_pattern(p: i32) -> (r: i32)
    requires
        0 <= p < 768,
    ensures
        r == spec_chess_pattern(p as int),
{
    let il = il_pattern(p);
    let parity = p - (p / 2) * 2;
    assert(0 <= il <= 1 && 0 <= parity <= 1);
    assert(il ^ parity == if il == parity { 0i32 } else { 1i32 }) by (bit_vector)
        requires
            0 <= il <= 1,
            0 <= parity <= 1,
    ;
    il ^ parity
}

/// Conversion pattern of a pixel.
pub fn conversion_pattern(p: i32) -> (r: i32)
    requires
        0 <= p < 768,
    ensures
        r == spec_conversion_pattern(p as int),
{
    let il = il_pattern(p);
    let base: i32 = (p + 2) / 4 - (p + 3) / 4 + (p + 1) / 4 - p / 4;
    let sign: i32 = 1 - 2 * il;
    proof {
        let q = p / 4;
        let r = p % 4;
        assert(p == 4 * q + r);
        if r == 0 {
            assert(base == 0);
        } else if r == 1 {
            assert(base == -1);
        } else if r == 2 {
            assert(base == 0);
        } else {
            assert(base == 1);
        }
    }
    assert(sign == 1 || sign == -1);
    assert(base * sign == if sign == 1 { base as int } else { -base });
    base * sign
}

/// The interleave, chess and conversion patterns of all pixels.
pub fn gen_patterns() -> (r: (Vec<i8>, Vec<i8>, Vec<i8>))
    ensures
        r.0@.len() == 768 && r.1@.len() == 768 && r.2@.len() == 768,
        forall|p: int| 0 <= p < 768 ==> #[trigger] r.0@[p] == spec_il_pattern(p),
        forall|p: int| 0 <= p < 768 ==> #[trigger] r.1@[p] == spec_chess_pattern(p),
        forall|p: int| 0 <= p < 768 ==> #[trigger] r.2@[p] == spec_conversion_pattern(p),
{
    let mut il: Vec<i8> = Vec::new();
    let mut chess: Vec<i8> = Vec::new();
    let mut conv: Vec<i8> = Vec::new();
    let mut i: usize = 0;
    while i < 768
        invariant
            i <= 768,
            il@.len() == i && chess@.len() == i && conv@.len() == i,
            forall|p: int| 0 <= p < i ==> #[trigger] il@[p] == spec_il_pattern(p),
            forall|p: int| 0 <= p < i ==> #[trigger] chess@[p] == spec_chess_pattern(p),
            forall|p: int| 0 <= p < i ==> #[trigger] conv@[p] == spec_conversion_pattern(p),
        decreases 768 - i,
    {
        let p = i as i32;
        il.push(il_pattern(p) as i8);
        chess.push(chess_pattern(p) as i8);
        conv.push(conversion_pattern(p) as i8);
        i += 1;
    }
    (il, chess, conv)
}

/// Pixel `p` belongs to subpage `subpage` under readout pattern `mode`
/// (0 interleaved, by row parity; otherwise chess, by row plus column parity).
pub open spec fn spec_pixel_in_subpage(p: int, mode: u16, subpage: u16) -> bool {
    let pattern = if mode == 0 {
        spec_il_pattern(p)
    } else {
        spec_chess_pattern(p)
    };
    pattern == subpage
}

/// Whether pixel `p` is measured in subpage `subpage` under readout pattern `mode`.
pub fn pixel_in_subpage(p: u16, mode: u16, subpage: u16) -> (r: bool)
    requires
        p < 768,
    ensures
        r == spec_pixel_in_subpage(p as int, mode, subpage),
{
    let pattern = if mode == 0 {
        il_pattern(p as i32)
    } else {
        chess_pattern(p as i32)
    };
    pattern as u16 == subpage
}

/// Each pixel lies in exactly one of the two subpages, whatever the pattern.
pub proof fn lemma_subpages_partition(p: int, mode: u16)
    requires
        0 <= p < 768,
    ensures
        spec_pixel_in_subpage(p, mode, 0) != spec_pixel_in_subpage(p, mode, 1),
{
}

/// Neighbouring pixels and the patterns: along a row the interleave pattern
/// stays and the chess pattern alternates; from one row to the next both
/// change. The conversion pattern is 0 on even pixels and ±1 on odd ones, the
/// two odd pixels of a group of four have opposite signs, and the next row has
/// the opposite sign at the same column.
pub proof fn lemma_pattern_neighbours(p: int)
    requires
        0 <= p < 768,
    ensures
        spec_il_pattern(p) == 0 || spec_il_pattern(p) == 1,
        spec_chess_pattern(p) == 0 || spec_chess_pattern(p) == 1,
        p % 32 < 31 ==> spec_il_pattern(p + 1) == spec_il_pattern(p) && spec_chess_pattern(p + 1)
            != spec_chess_pattern(p),
        p < 736 ==> spec_il_pattern(p + 32) != spec_il_pattern(p) && spec_chess_pattern(p + 32)
            != spec_chess_pattern(p),
        p % 2 == 0 ==> spec_conversion_pattern(p) == 0,
        p % 2 == 1 ==> spec_conversion_pattern(p) == 1 || spec_conversion_pattern(p) == -1,
        p % 4 == 1 && p % 32 < 30 ==> spec_conversion_pattern(p + 2) == -spec_conversion_pattern(p),
        p < 736 ==> spec_conversion_pattern(p + 32) == -spec_conversion_pattern(p),
        p < 32 && p % 4 == 1 ==> spec_conversion_pattern(p) == -1,
{
}

} // verus!
