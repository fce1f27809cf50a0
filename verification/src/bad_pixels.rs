//! Which neighbours stand in for a bad pixel in a measured image.

use vstd::prelude::*;

verus! {

/// Marker of an unused entry in a bad-pixel list.
pub const NO_PIXEL: u16 = 0xFFFF;

/// How the value of a bad pixel is rebuilt from other pixels of the image.
#[derive(Clone, Copy, Debug, PartialEq, Eq, Structural)]
pub enum Repair {
    /// The value of one other pixel.
    Copy(usize),
    /// The mean of two pixels.
    Mean(usize, usize),
    /// The median of four pixels.
    Median(usize, usize, usize, usize),
    /// Horizontal extrapolation along the flatter side: with `l1, l2` the first
    /// and second pixel to the left and `r1, r2` those to the right, the value is
    /// `l1 + (l1 - l2)` if `|r1 - r2| > |l1 - l2|`, else `r1 + (r1 - r2)`.
    Gradient { l1: usize, l2: usize, r1: usize, r2: usize },
}

/// One step of a repair: the pixel to rebuild and how.
#[derive(Clone, Copy, Debug, PartialEq, Eq, Structural)]
pub struct RepairStep {
    pub pixel: usize,
    pub rule: Repair,
}

/// `pixel` is one of the listed broken or outlier pixels.
pub open spec fn spec_is_pixel_bad(pixel: u16, broken: Seq<u16>, outliers: Seq<u16>) -> bool {
    exists|i: int| 0 <= i < 5 && (pixel == outliers[i] || pixel == broken[i])
}

/// Whether `pixel` is one of the five listed broken or outlier pixels.
pub fn is_pixel_bad(pixel: u16, broken: &[u16], outliers: &[u16]) -> (r: bool)
    requires
        broken@.len() >= 5,
        outliers@.len() >= 5,
    ensures
        r == spec_is_pixel_bad(pixel, broken@, outliers@),
{
    let mut i: usize = 0;
    while i < 5
        invariant
            i <= 5,
            broken@.len() >= 5,
            outliers@.len() >= 5,
            forall|k: int| 0 <= k < i ==> !(pixel == outliers@[k] || pixel == broken@[k]),
        decreases 5 - i,
    {
        if pixel == outliers[i] || pixel == broken[i] {
            return true;
        }
        i += 1;
    }
    false
}

/// The repair of bad pixel `pix` (`pix < 768`) under readout pattern `mode`
/// (1 chess, anything else interleaved).
///
/// In chess mode the value comes from the diagonal neighbours: the median of
/// the four inside the image, the mean of two along an edge, a single one at a
/// corner. Otherwise it comes from the same row: a single neighbour at the
/// outer columns, the mean of both next to them, and elsewhere an extrapolation
/// from the flatter side unless a pixel two steps away is bad too.
pub open spec fn repair_rule(pix: int, mode: u16, broken: Seq<u16>, outliers: Seq<u16>) -> Repair {
    let line = pix / 32;
    let column = pix % 32;
    if mode == 1 {
        if line == 0 {
            if column == 0 {
                Repair::Copy(33)
            } else if column == 31 {
                Repair::Copy(62)
            } else {
                Repair::Mean((pix + 31) as usize, (pix + 33) as usize)
            }
        } else if line == 23 {
            if column == 0 {
                Repair::Copy(705)
            } else if column == 31 {
                Repair::Copy(734)
            } else {
                Repair::Mean((pix - 33) as usize, (pix - 31) as usize)
            }
        } else if column == 0 {
            Repair::Mean((pix - 31) as usize, (pix + 33) as usize)
        } else if column == 31 {
            Repair::Mean((pix - 33) as usize, (pix + 31) as usize)
        } else {
            Repair::Median(
                (pix - 33) as usize,
                (pix - 31) as usize,
                (pix + 31) as usize,
                (pix + 33) as usize,
            )
        }
    } else {
        if column == 0 {
            Repair::Copy((pix + 1) as usize)
        } else if column == 1 || column == 30 {
            Repair::Mean((pix - 1) as usize, (pix + 1) as usize)
        } else if column == 31 {
            Repair::Copy((pix - 1) as usize)
        } else if !spec_is_pixel_bad((pix - 2) as u16, broken, outliers) && !spec_is_pixel_bad(
            (pix + 2) as u16,
            broken,
            outliers,
        ) {
            Repair::Gradient {
                l1: (pix - 1) as usize,
                l2: (pix - 2) as usize,
                r1: (pix + 1) as usize,
                r2: (pix + 2) as usize,
            }
        } else {
            Repair::Mean((pix - 1) as usize, (pix + 1) as usize)
        }
    }
}

/// The entries of a bad-pixel list that name a pixel, in order.
pub open spec fn listed_pixels(pixels: Seq<u16>) -> Seq<u16> {
    pixels.filter(|p: u16| p != NO_PIXEL)
}

/// Every pixel a repair reads lies in the image.
pub open spec fn repair_in_image(r: Repair) -> bool {
    match r {
        Repair::Copy(a) => a < 768,
        Repair::Mean(a, b) => a < 768 && b < 768,
        Repair::Median(a, b, c, d) => a < 768 && b < 768 && c < 768 && d < 768,
        Repair::Gradient { l1, l2, r1, r2 } => l1 < 768 && l2 < 768 && r1 < 768 && r2 < 768,
    }
}

/// The repair of one bad pixel.
pub fn repair_for(pix: u16, mode: u16, broken: &[u16], outliers: &[u16]) -> (r: Repair)
    requires
        pix < 768,
        broken@.len() >= 5,
        outliers@.len() >= 5,
    ensures
        r == repair_rule(pix as int, mode, broken@, outliers@),
        repair_in_image(r),
{
    let p = pix as usize;
    let line = (pix >> 5) as usize;
    assert(pix >> 5 == pix / 32) by (bit_vector);
    assert(line << 5 == line * 32) by (bit_vector)
        requires
            line < 24,
    ;
    assert(line * 32 <= p && p - line * 32 == pix % 32);
    let column = p - (line << 5);
    if mode == 1 {
        if line == 0 {
            if column == 0 {
                Repair::Copy(33)
            } else if column == 31 {
                Repair::Copy(62)
            } else {
                Repair::Mean(p + 31, p + 33)
            }
        } else if line == 23 {
            if column == 0 {
                Repair::Copy(705)
            } else if column == 31 {
                Repair::Copy(734)
            } else {
                Repair::Mean(p - 33, p - 31)
            }
        } else if column == 0 {
            Repair::Mean(p - 31, p + 33)
        } else if column == 31 {
            Repair::Mean(p - 33, p + 31)
        } else {
            Repair::Median(p - 33, p - 31, p + 31, p + 33)
        }
    } else {
        if column == 0 {
            Repair::Copy(p + 1)
        } else if column == 1 || column == 30 {
            Repair::Mean(p - 1, p + 1)
        } else if column == 31 {
            Repair::Copy(p - 1)
        } else if !is_pixel_bad(pix.wrapping_sub(2), broken, outliers) && !is_pixel_bad(
            pix.wrapping_add(2),
            broken,
            outliers,
        ) {
            Repair::Gradient { l1: p - 1, l2: p - 2, r1: p + 1, r2: p + 2 }
        } else {
            Repair::Mean(p - 1, p + 1)
        }
    }
}

/// The repairs of the bad pixels of `pixels` (entries other than 0xFFFF, each
/// below 768), in list order, under readout pattern `mode`.
///
/// The repairs are meant to be applied in order: a later one may read a pixel
/// an earlier one rebuilt.
pub fn correct_bad_pixels(pixels: &[u16], mode: u16, broken: &[u16], outliers: &[u16]) -> (r: Vec<
    RepairStep,
>)
    requires
        broken@.len() >= 5,
        outliers@.len() >= 5,
        forall|i: int| 0 <= i < pixels@.len() ==> #[trigger] pixels@[i] == NO_PIXEL || pixels@[i] < 768,
    ensures
        r@.len() == listed_pixels(pixels@).len(),
        forall|i: int|
            0 <= i < r@.len() ==> (#[trigger] r@[i]).pixel == listed_pixels(pixels@)[i] && r@[i].rule
                == repair_rule(listed_pixels(pixels@)[i] as int, mode, broken@, outliers@)
                && repair_in_image(r@[i].rule),
{
    let mut steps: Vec<RepairStep> = Vec::new();
    let mut i: usize = 0;
    while i < pixels.len()
        invariant
            i <= pixels@.len(),
            broken@.len() >= 5,
            outliers@.len() >= 5,
            forall|k: int| 0 <= k < pixels@.len() ==> #[trigger] pixels@[k] == NO_PIXEL || pixels@[k] < 768,
            steps@.len() == listed_pixels(pixels@.take(i as int)).len(),
            forall|k: int|
                0 <= k < steps@.len() ==> (#[trigger] steps@[k]).pixel == listed_pixels(
                    pixels@.take(i as int),
                )[k] && steps@[k].rule == repair_rule(
                    listed_pixels(pixels@.take(i as int))[k] as int,
                    mode,
                    broken@,
                    outliers@,
                ) && repair_in_image(steps@[k].rule),
        decreases pixels@.len() - i,
    {
        let pix = pixels[i];
        proof {
            reveal_with_fuel(Seq::filter, 1);
            assert(pixels@.take(i + 1).drop_last() =~= pixels@.take(i as int));
        }
        if pix != NO_PIXEL {
            let rule = repair_for(pix, mode, broken, outliers);
            steps.push(RepairStep { pixel: pix as usize, rule });
        }
        i += 1;
    }
    assert(pixels@.take(pixels@.len() as int) =~= pixels@);
    steps
}


/// The pixels a repair reads.
pub open spec fn repair_sources(r: Repair) -> Seq<usize> {
    match r {
        Repair::Copy(a) => seq![a],
        Repair::Mean(a, b) => seq![a, b],
        Repair::Median(a, b, c, d) => seq![a, b, c, d],
        Repair::Gradient { l1, l2, r1, r2 } => seq![l1, l2, r1, r2],
    }
}

/// A bad pixel is rebuilt only from other pixels close to it: in chess mode
/// from diagonal neighbours (one row and one column away), otherwise from
/// pixels of its own row at most two columns away.
pub proof fn lemma_repairs_read_neighbours(pix: int, mode: u16, broken: Seq<u16>, outliers: Seq<u16>)
    requires
        0 <= pix < 768,
    ensures
        forall|k: int|
            0 <= k < repair_sources(repair_rule(pix, mode, broken, outliers)).len() ==> {
                let q = #[trigger] repair_sources(repair_rule(pix, mode, broken, outliers))[k] as int;
                let dr = q / 32 - pix / 32;
                let dc = q % 32 - pix % 32;
                &&& 0 <= q < 768
                &&& q != pix
                &&& mode == 1 ==> (dr == 1 || dr == -1) && (dc == 1 || dc == -1)
                &&& mode != 1 ==> dr == 0 && (dc == 1 || dc == -1 || dc == 2 || dc == -2)
            },
{
}

/// Interleaved readout (any mode but 1) repairs a bad pixel from its own row:
/// at column 0 or 31 it copies the one neighbour in the image, at column 1 or
/// 30 it takes the mean of the left and right neighbours, and at columns 2 to
/// 29 it extrapolates from the flatter side when neither pixel two columns away
/// is listed bad, falling back to the mean of the two neighbours when one is.
pub proof fn lemma_interleave_repair(pix: int, mode: u16, broken: Seq<u16>, outliers: Seq<u16>)
    requires
        0 <= pix < 768,
        mode != 1,
        broken.len() >= 5,
        outliers.len() >= 5,
    ensures
        pix % 32 == 0 ==> repair_rule(pix, mode, broken, outliers) == Repair::Copy((pix + 1) as usize),
        pix % 32 == 31 ==> repair_rule(pix, mode, broken, outliers) == Repair::Copy((pix - 1) as usize),
        pix % 32 == 1 || pix % 32 == 30 ==> repair_rule(pix, mode, broken, outliers) == Repair::Mean(
            (pix - 1) as usize,
            (pix + 1) as usize,
        ),
        2 <= pix % 32 <= 29 && (forall|i: int|
            0 <= i < 5 ==> broken[i] as int != pix - 2 && broken[i] as int != pix + 2
                && outliers[i] as int != pix - 2 && outliers[i] as int != pix + 2) ==> repair_rule(
            pix,
            mode,
            broken,
            outliers,
        ) == (Repair::Gradient {
            l1: (pix - 1) as usize,
            l2: (pix - 2) as usize,
            r1: (pix + 1) as usize,
            r2: (pix + 2) as usize,
        }),
        2 <= pix % 32 <= 29 && (exists|i: int|
            0 <= i < 5 && (broken[i] as int == pix - 2 || broken[i] as int == pix + 2
                || outliers[i] as int == pix - 2 || outliers[i] as int == pix + 2)) ==> repair_rule(
            pix,
            mode,
            broken,
            outliers,
        ) == Repair::Mean((pix - 1) as usize, (pix + 1) as usize),
{
    let col: int = pix % 32;
    if 2 <= col <= 29 {
        let lm: u16 = (pix - 2) as u16;
        let rp: u16 = (pix + 2) as u16;
        assert(lm as int == pix - 2);
        assert(rp as int == pix + 2);
        if spec_is_pixel_bad(lm, broken, outliers) {
            let i: int = choose|i: int| 0 <= i < 5 && (lm == outliers[i] || lm == broken[i]);
            assert(broken[i] as int == pix - 2 || outliers[i] as int == pix - 2);
        }
        if spec_is_pixel_bad(rp, broken, outliers) {
            let i: int = choose|i: int| 0 <= i < 5 && (rp == outliers[i] || rp == broken[i]);
            assert(broken[i] as int == pix + 2 || outliers[i] as int == pix + 2);
        }
        if exists|i: int|
            0 <= i < 5 && (broken[i] as int == pix - 2 || broken[i] as int == pix + 2
                || outliers[i] as int == pix - 2 || outliers[i] as int == pix + 2) {
            let i: int = choose|i: int|
                0 <= i < 5 && (broken[i] as int == pix - 2 || broken[i] as int == pix + 2
                    || outliers[i] as int == pix - 2 || outliers[i] as int == pix + 2);
            assert(spec_is_pixel_bad(lm, broken, outliers) || spec_is_pixel_bad(rp, broken, outliers));
        }
    }
}

/// Chess readout (mode 1) repairs a bad pixel from its diagonal neighbours: the
/// median of all four inside the image, the mean of the two that exist on an
/// edge, and the one that exists at a corner.
pub proof fn lemma_chess_repair(pix: int, broken: Seq<u16>, outliers: Seq<u16>)
    requires
        0 <= pix < 768,
    ensures
        1 <= pix / 32 <= 22 && 1 <= pix % 32 <= 30 ==> repair_rule(pix, 1, broken, outliers)
            == Repair::Median(
            (pix - 33) as usize,
            (pix - 31) as usize,
            (pix + 31) as usize,
            (pix + 33) as usize,
        ),
        pix / 32 == 0 && 1 <= pix % 32 <= 30 ==> repair_rule(pix, 1, broken, outliers) == Repair::Mean(
            (pix + 31) as usize,
            (pix + 33) as usize,
        ),
        pix / 32 == 23 && 1 <= pix % 32 <= 30 ==> repair_rule(pix, 1, broken, outliers)
            == Repair::Mean((pix - 33) as usize, (pix - 31) as usize),
        1 <= pix / 32 <= 22 && pix % 32 == 0 ==> repair_rule(pix, 1, broken, outliers) == Repair::Mean(
            (pix - 31) as usize,
            (pix + 33) as usize,
        ),
        1 <= pix / 32 <= 22 && pix % 32 == 31 ==> repair_rule(pix, 1, broken, outliers)
            == Repair::Mean((pix - 33) as usize, (pix + 31) as usize),
        pix == 0 ==> repair_rule(pix, 1, broken, outliers) == Repair::Copy(33),
        pix == 31 ==> repair_rule(pix, 1, broken, outliers) == Repair::Copy(62),
        pix == 736 ==> repair_rule(pix, 1, broken, outliers) == Repair::Copy(705),
        pix == 767 ==> repair_rule(pix, 1, broken, outliers) == Repair::Copy(734),
{
}

} // verus!
