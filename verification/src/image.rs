//! A decoded image as a flat pixel buffer, with the aggregate statistics
//! the derivation consults: mean luminosity and mean HSL saturation, both
//! carried as exact integer sums over scaled per-pixel values.

use vstd::arithmetic::div_mod::lemma_multiply_divide_le;
use vstd::prelude::*;

use crate::color::Color;
use crate::color::lum_spec;
use crate::convert::abs_i;
use crate::convert::chan_max;
use crate::convert::chan_min;

verus! {

/// A decoded image: where it came from and its pixels, flat and in row
/// order. Any downsampling happens at decode time, before construction,
/// so statistics and clustering see the same samples.
pub struct RawImage {
    /// The source identifier: a path, or an embedded marker.
    pub path: String,
    /// The pixel samples, one 8-bit sRGB triple each.
    pub pixels: Vec<Color>,
}

/// The sum of the scaled luminosities of a pixel sequence; each term is
/// in 0 ..= 2_550_000.
pub open spec fn sum_lum(s: Seq<Color>) -> int
    decreases s.len(),
{
    if s.len() == 0 {
        0
    } else {
        sum_lum(s.drop_last()) + lum_spec(s.last())
    }
}

/// HSL saturation of one pixel, scaled by 1_000_000 and floored: delta
/// over sum below half lightness, delta over (510 - sum) above it.
pub open spec fn sat_scaled(c: Color) -> int {
    let mx = chan_max(c.r as int, c.g as int, c.b as int);
    let mn = chan_min(c.r as int, c.g as int, c.b as int);
    if mx == mn {
        0
    } else {
        (mx - mn) * 1000000 / (255 - abs_i(mx + mn - 255))
    }
}

/// The sum of the scaled saturations of a pixel sequence; each term is
/// in 0 ..= 1_000_000.
pub open spec fn sum_sat(s: Seq<Color>) -> int
    decreases s.len(),
{
    if s.len() == 0 {
        0
    } else {
        sum_sat(s.drop_last()) + sat_scaled(s.last())
    }
}

/// Whether a pixel set classifies as light: mean luminosity above one
/// half, stated over the exact sum.
pub open spec fn is_light_spec(s: Seq<Color>) -> bool {
    2 * sum_lum(s) > s.len() * 2550000
}

/// Whether a pixel set has low saturation: mean scaled saturation below
/// 0.12, stated over the exact sum.
pub open spec fn is_low_saturation_spec(s: Seq<Color>) -> bool {
    sum_sat(s) < s.len() * 120000
}

/// Scaled HSL saturation of one pixel.
fn pixel_saturation(c: &Color) -> (s: u32)
    ensures
        s == sat_scaled(*c),
        s <= 1000000,
{
    let ab = if c.r > c.g { c.r } else { c.g };
    let mx = (if c.b > ab { c.b } else { ab }) as u32;
    let mn = (if c.r > c.g {
        if c.b < c.g { c.b } else { c.g }
    } else {
        if c.b < c.r { c.b } else { c.r }
    }) as u32;
    if mx == mn {
        return 0;
    }
    let sum = mx + mn;
    let den = if sum > 255 { 510 - sum } else { sum };
    let d = mx - mn;
    proof {
        lemma_multiply_divide_le((d * 1000000) as int, den as int, 1000000);
    }
    (d * 1000000) / den
}

/// Sums of scaled luminosity and saturation over a pixel buffer.
fn pixel_sums(pixels: &Vec<Color>) -> (sums: (u128, u128))
    ensures
        sums.0 == sum_lum(pixels@),
        sums.1 == sum_sat(pixels@),
        sums.0 <= pixels@.len() * 2550000,
        sums.1 <= pixels@.len() * 1000000,
{
    let n = pixels.len();
    let mut lum_acc: u128 = 0;
    let mut sat_acc: u128 = 0;
    let mut i: usize = 0;
    while i < n
        invariant
            i <= n,
            n == pixels@.len(),
            lum_acc == sum_lum(pixels@.take(i as int)),
            sat_acc == sum_sat(pixels@.take(i as int)),
            lum_acc <= i * 2550000,
            sat_acc <= i * 1000000,
        decreases n - i,
    {
        let c = &pixels[i];
        let l = c.luminocity();
        let s = pixel_saturation(c);
        proof {
            assert(pixels@.take(i + 1).drop_last() =~= pixels@.take(i as int));
            assert(pixels@.take(i + 1).last() == pixels@[i as int]);
        }
        lum_acc = lum_acc + (l as u128);
        sat_acc = sat_acc + (s as u128);
        i = i + 1;
    }
    proof {
        assert(pixels@.take(n as int) =~= pixels@);
    }
    (lum_acc, sat_acc)
}

impl RawImage {
    /// Wrap an already decoded pixel buffer with its source identifier.
    pub fn new(path: String, pixels: Vec<Color>) -> (img: RawImage)
        ensures
            img.path@ == path@,
            img.pixels@ == pixels@,
    {
        RawImage { path, pixels }
    }

    /// Mean scaled luminosity over every sample, floored; the full range
    /// is 0 ..= 2_550_000.
    pub fn mean_luminocity(&self) -> (m: u64)
        requires
            self.pixels@.len() > 0,
        ensures
            m == sum_lum(self.pixels@) / self.pixels@.len() as int,
    {
        let (lum, _) = pixel_sums(&self.pixels);
        let n = self.pixels.len();
        proof {
            lemma_multiply_divide_le(lum as int, n as int, 2550000);
        }
        (lum / (n as u128)) as u64
    }

    /// Mean scaled saturation over every sample, floored; the full range
    /// is 0 ..= 1_000_000.
    pub fn mean_saturation(&self) -> (m: u64)
        requires
            self.pixels@.len() > 0,
        ensures
            m == sum_sat(self.pixels@) / self.pixels@.len() as int,
    {
        let (_, sat) = pixel_sums(&self.pixels);
        let n = self.pixels.len();
        proof {
            lemma_multiply_divide_le(sat as int, n as int, 1000000);
        }
        (sat / (n as u128)) as u64
    }

    /// Whether the image classifies as light: mean luminosity strictly
    /// above one half, decided on the exact sum.
    pub fn is_light(&self) -> (res: bool)
        ensures
            res == is_light_spec(self.pixels@),
    {
        let (lum, _) = pixel_sums(&self.pixels);
        let n = self.pixels.len();
        2 * lum > (n as u128) * 2550000
    }

    /// Whether the image has low saturation: mean scaled saturation
    /// strictly below 0.12, decided on the exact sum.
    pub fn is_low_saturation(&self) -> (res: bool)
        ensures
            res == is_low_saturation_spec(self.pixels@),
    {
        let (_, sat) = pixel_sums(&self.pixels);
        let n = self.pixels.len();
        sat < (n as u128) * 120000
    }
}

} // verus!
