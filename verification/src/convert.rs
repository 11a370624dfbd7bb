//! Color-space transforms in exact integer arithmetic.
//!
//! Every channel value is carried as an integer numerator over a known
//! positive denominator, so hue extraction, HSV/HSL conversion, saturation
//! scaling and hue rotation are all exact. Hue is held in millidegrees
//! (the usual three-decimal rounding of a degree value), and the final
//! 8-bit channels are produced by scaling to 255, rounding half to even
//! and clamping — the same policy an `f32` pipeline applies when packing
//! normalized channels into bytes.

use vstd::arithmetic::div_mod::lemma_multiply_divide_lt;
use vstd::prelude::*;

use crate::color::Color;

verus! {

/// Absolute value.
pub open spec fn abs_i(x: int) -> int {
    if x < 0 { -x } else { x }
}

/// Round `p / d` half to even, for `p >= 0 < d`.
pub open spec fn rhe(p: int, d: int) -> int
    recommends
        p >= 0,
        d > 0,
{
    let q = p / d;
    let r = p % d;
    if 2 * r > d {
        q + 1
    } else if 2 * r < d {
        q
    } else if q % 2 == 0 {
        q
    } else {
        q + 1
    }
}

/// Round `p / d` half away from zero, for `d > 0`.
pub open spec fn rhaz(p: int, d: int) -> int
    recommends
        d > 0,
{
    if p >= 0 {
        (2 * p + d) / (2 * d)
    } else {
        -((2 * -p + d) / (2 * d))
    }
}

/// Pack the exact value `n / d` into an 8-bit channel: scale to 255,
/// round half to even, clamp to 0..=255.
pub open spec fn quantize(n: int, d: int) -> int
    recommends
        d > 0,
{
    if n <= 0 {
        0
    } else if n >= d {
        255
    } else {
        rhe(255 * n, d)
    }
}

/// Largest of three channel numerators.
pub open spec fn chan_max(a: int, b: int, c: int) -> int {
    if c > (if a > b { a } else { b }) {
        c
    } else if a > b {
        a
    } else {
        b
    }
}

/// Smallest of three channel numerators.
pub open spec fn chan_min(a: int, b: int, c: int) -> int {
    if a > b {
        if c < b { c } else { b }
    } else {
        if c < a { c } else { a }
    }
}

/// The chroma difference entering the hue formula: which pair of channels
/// it spans depends on which channel is largest.
pub open spec fn hue_sep(a: int, b: int, c: int) -> int {
    if c > (if a > b { a } else { b }) {
        a - b
    } else if a > b {
        b - c
    } else {
        c - a
    }
}

/// The hue sector offset paired with `hue_sep`: 4 when blue is largest,
/// 0 when red is, 2 when green is.
pub open spec fn hue_coeff(a: int, b: int, c: int) -> int {
    if c > (if a > b { a } else { b }) {
        4
    } else if a > b {
        0
    } else {
        2
    }
}

/// Hue of a channel triple in millidegrees, rounded half away from zero:
/// 60 * (sep / delta + coeff) degrees, or 0 for a gray triple.
/// The triple may be scaled by any positive factor without changing it.
pub open spec fn hue_millis(a: int, b: int, c: int) -> int {
    let d = chan_max(a, b, c) - chan_min(a, b, c);
    if d == 0 {
        0
    } else {
        rhaz(hue_sep(a, b, c) * 60000 + hue_coeff(a, b, c) * 60000 * d, d)
    }
}

/// A hue in millidegrees brought into [0, 360000).
pub open spec fn pos_millis(h: int) -> int {
    if h < 0 {
        h + 360000
    } else if h >= 360000 {
        h - 360000
    } else {
        h
    }
}

/// The triangle wave over a positive hue: how far into its sector pair
/// the hue sits, in 0..=60000 millidegrees.
pub open spec fn tri_wave(hpos: int) -> int {
    let t = hpos % 120000;
    if t < 60000 {
        t
    } else {
        120000 - t
    }
}

/// A fresh color sharing this color's (rounded) hue, with saturation and
/// value replaced, converted back from HSV. `sp` and `vp` are percents.
/// Channel numerators are over the denominator 600_000_000
/// (= 100 * 100 * 60000).
pub open spec fn accent_spec(c: Color, sp: int, vp: int) -> Color {
    let h = pos_millis(hue_millis(c.r as int, c.g as int, c.b as int));
    let z = h / 60000;
    let w = tri_wave(h);
    let nv = vp * 6000000;
    let nc = vp * sp * 60000;
    let nx = vp * sp * w;
    let nm = nv - nc;
    let rn = if z == 1 || z == 4 { nm + nx } else if z == 2 || z == 3 { nm } else { nv };
    let gn = if z == 0 || z == 3 { nm + nx } else if z == 1 || z == 2 { nv } else { nm };
    let bn = if z == 0 || z == 1 { nm } else if z == 3 || z == 4 { nv } else { nm + nx };
    Color {
        r: quantize(rn, 600000000) as u8,
        g: quantize(gn, 600000000) as u8,
        b: quantize(bn, 600000000) as u8,
    }
}

/// HSL saturation of a scaled channel triple as a fraction with positive
/// denominator: delta over sum when the lightness is at most one half,
/// delta over (2 - sum) above it. A gray triple, and the degenerate case
/// of an out-of-range lightness making the divisor zero, count as zero.
pub open spec fn hsl_sat(maxn: int, minn: int, den: int) -> (int, int)
    recommends
        0 <= minn <= maxn,
        den > 0,
{
    if maxn == minn {
        (0, 1)
    } else {
        let sum = maxn + minn;
        let d = maxn - minn;
        let q0 = if sum > den { 2 * den - sum } else { sum };
        if q0 == 0 {
            (0, 1)
        } else if q0 < 0 {
            (-d, -q0)
        } else {
            (d, q0)
        }
    }
}

/// The relative saturation factor for a percentage: deltas above 100%
/// are stretched twofold.
pub open spec fn saturate_factor(sp: int) -> (int, int) {
    if sp > 100 {
        (sp - 100, 50)
    } else {
        (sp - 100, 100)
    }
}

/// Clamp a fraction with positive denominator into [0, 1].
pub open spec fn clamp01(p: int, q: int) -> (int, int)
    recommends
        q > 0,
{
    if p <= 0 {
        (0, 1)
    } else if p >= q {
        (1, 1)
    } else {
        (p, q)
    }
}

/// Scale a saturation fraction toward full saturation (nonnegative
/// factor) or toward zero (negative factor), clamping into [0, 1]:
/// s + max(1 - s, 0) * f, or s + max(s, 0) * f.
pub open spec fn saturate_apply(p0: int, q0: int, sp: int) -> (int, int)
    recommends
        q0 > 0,
{
    let f = saturate_factor(sp);
    let pre = if f.0 >= 0 {
        p0 * f.1 + (if q0 - p0 > 0 { q0 - p0 } else { 0 }) * f.0
    } else {
        p0 * f.1 + (if p0 > 0 { p0 } else { 0 }) * f.0
    };
    clamp01(pre, q0 * f.1)
}

/// Convert a lightness numerator (over 51000), a saturation fraction
/// `p / q` in [0, 1] and a positive hue back to 8-bit RGB channels.
/// The channel numerators are over the denominator `51000 * q * 120000`.
pub open spec fn hsl_rgb_spec(sumn: int, p: int, q: int, hpos: int) -> Color {
    let aa = 51000 - abs_i(2 * sumn - 51000);
    let k = aa * p;
    let ld = sumn * q * 120000;
    let md = ld - k * 60000;
    let cd = ld + k * 60000;
    let xd = md + 2 * (k * tri_wave(hpos));
    let d2 = 51000 * q * 120000;
    let z = hpos / 60000;
    let rn = if z == 1 || z == 4 { xd } else if z == 2 || z == 3 { md } else { cd };
    let gn = if z == 0 || z == 3 { xd } else if z == 1 || z == 2 { cd } else { md };
    let bn = if z == 0 || z == 1 { md } else if z == 3 || z == 4 { cd } else { xd };
    Color {
        r: quantize(rn, d2) as u8,
        g: quantize(gn, d2) as u8,
        b: quantize(bn, d2) as u8,
    }
}

/// A brightness-scaled channel numerator clamped to full scale: the
/// scaled channels are packed back into a color before HSL reads them,
/// and that conversion clamps each channel into [0, 1].
pub open spec fn clamp_chan(n: int) -> int {
    if n > 25500 {
        25500
    } else {
        n
    }
}

/// Modulate a color: scale the channels by a brightness percentage
/// (100 is the identity) and clamp each to full scale, move to HSL —
/// whose saturation and lightness are clamped into [0, 1] in turn —
/// then adjust saturation by the stretched delta, rotate hue by
/// `360 * hp / 100` degrees, and convert back. Channel numerators start
/// over the denominator 25500.
pub open spec fn modulate_spec(c: Color, bp: int, sp: int, hp: int) -> Color {
    let nr = clamp_chan(c.r * bp);
    let ng = clamp_chan(c.g * bp);
    let nb = clamp_chan(c.b * bp);
    let maxn = chan_max(nr, ng, nb);
    let minn = chan_min(nr, ng, nb);
    let h = hue_millis(nr, ng, nb);
    let sumn = maxn + minn;
    let sumc = if sumn > 51000 { 51000 } else { sumn };
    let s0 = hsl_sat(maxn, minn, 25500);
    let sc = clamp01(s0.0, s0.1);
    let s1 = saturate_apply(sc.0, sc.1, sp);
    hsl_rgb_spec(sumc, s1.0, s1.1, pos_millis(h + (3600 * hp) % 360000))
}

/// An accent built with zero saturation is achromatic: its three
/// channels agree, whatever hue the base color contributes.
pub proof fn lemma_zero_saturation_accent_is_gray(c: Color, vp: int)
    ensures
        accent_spec(c, 0, vp).r == accent_spec(c, 0, vp).g,
        accent_spec(c, 0, vp).g == accent_spec(c, 0, vp).b,
{
}

/// Quantize the exact value `n / d` into an 8-bit channel.
fn quantize_exec(n: i128, d: i128) -> (res: u8)
    requires
        0 < d <= 0x7fff_ffff_ffff_ffff,
        -0x7fff_ffff_ffff_ffff <= n <= 0x7fff_ffff_ffff_ffff,
    ensures
        res as int == quantize(n as int, d as int),
{
    if n <= 0 {
        return 0;
    }
    if n >= d {
        return 255;
    }
    let p: u128 = (255 * n) as u128;
    let du: u128 = d as u128;
    let q = p / du;
    let r = p % du;
    proof {
        lemma_multiply_divide_lt(p as int, du as int, 255);
    }
    let out: u128 = if 2 * r > du {
        q + 1
    } else if 2 * r < du {
        q
    } else if q % 2 == 0 {
        q
    } else {
        q + 1
    };
    out as u8
}

/// Hue of a channel triple in millidegrees; the channels may carry any
/// common positive scale up to 65025.
fn hue_exec(a: u32, b: u32, c: u32) -> (h: i64)
    requires
        a <= 65025,
        b <= 65025,
        c <= 65025,
    ensures
        h as int == hue_millis(a as int, b as int, c as int),
        -60000 <= h <= 300000,
{
    let ab = if a > b { a } else { b };
    let mx = if c > ab { c } else { ab };
    let mn = if a > b {
        if c < b { c } else { b }
    } else {
        if c < a { c } else { a }
    };
    let d = (mx - mn) as i64;
    if d == 0 {
        return 0;
    }
    let sep: i64 = if c > ab {
        a as i64 - b as i64
    } else if a > b {
        b as i64 - c as i64
    } else {
        c as i64 - a as i64
    };
    let coeff: i64 = if c > ab { 4 } else if a > b { 0 } else { 2 };
    proof {
        assert(0 <= coeff * 60000 * d <= 240000 * d) by (nonlinear_arith)
            requires
                coeff == 0 || coeff == 2 || coeff == 4,
                0 < d,
        ;
    }
    let num = sep * 60000 + coeff * 60000 * d;
    assert(-60000 * d <= num <= 300000 * d);
    let dd = (2 * d) as u64;
    if num >= 0 {
        let q = ((2 * num + d) as u64) / dd;
        proof {
            lemma_multiply_divide_lt((2 * num + d) as int, dd as int, 300001);
        }
        q as i64
    } else {
        let q = ((2 * -num + d) as u64) / dd;
        proof {
            lemma_multiply_divide_lt((2 * -num + d) as int, dd as int, 60001);
        }
        -(q as i64)
    }
}

impl Color {
    /// Generate a new color with this color's hue and the given
    /// saturation and value percentages, via HSV.
    pub fn accent(&self, saturation: u8, value: u8) -> (res: Color)
        requires
            saturation <= 100,
            value <= 100,
        ensures
            res == accent_spec(*self, saturation as int, value as int),
    {
        let h0 = hue_exec(self.r as u32, self.g as u32, self.b as u32);
        let hpos: u64 = if h0 < 0 { (h0 + 360000) as u64 } else { h0 as u64 };
        let z = hpos / 60000;
        let t = hpos % 120000;
        let w: u64 = if t < 60000 { t } else { 120000 - t };
        let sp = saturation as u64;
        let vp = value as u64;
        proof {
            assert(vp * sp <= vp * 100 && vp * sp <= 10000) by (nonlinear_arith)
                requires
                    sp <= 100,
                    vp <= 100,
            ;
        }
        let nv = vp * 6000000;
        let vpsp = vp * sp;
        let nc = vpsp * 60000;
        proof {
            assert(vpsp * w <= 10000 * 60000) by (nonlinear_arith)
                requires
                    vpsp <= 10000,
                    w <= 60000,
            ;
        }
        let nx = vpsp * w;
        let nm = nv - nc;
        let rn = if z == 1 || z == 4 { nm + nx } else if z == 2 || z == 3 { nm } else { nv };
        let gn = if z == 0 || z == 3 { nm + nx } else if z == 1 || z == 2 { nv } else { nm };
        let bn = if z == 0 || z == 1 { nm } else if z == 3 || z == 4 { nv } else { nm + nx };
        Color {
            r: quantize_exec(rn as i128, 600000000),
            g: quantize_exec(gn as i128, 600000000),
            b: quantize_exec(bn as i128, 600000000),
        }
    }

    /// Generate a new color by modulating brightness, saturation and hue
    /// percentages in HSL space.
    pub fn modulate(&self, brightness: u8, saturation: u8, hue: u8) -> (res: Color)
        ensures
            res == modulate_spec(
                *self,
                brightness as int,
                saturation as int,
                hue as int,
            ),
    {
        let bp = brightness as u32;
        proof {
            assert((self.r as int) * (bp as int) <= 65025 && (self.g as int) * (bp as int)
                <= 65025 && (self.b as int) * (bp as int) <= 65025) by (nonlinear_arith)
                requires
                    self.r <= 255,
                    self.g <= 255,
                    self.b <= 255,
                    bp <= 255,
            ;
        }
        let sr = self.r as u32 * bp;
        let sg = self.g as u32 * bp;
        let sb = self.b as u32 * bp;
        let nr = if sr > 25500 { 25500 } else { sr };
        let ng = if sg > 25500 { 25500 } else { sg };
        let nb = if sb > 25500 { 25500 } else { sb };
        let h0 = hue_exec(nr, ng, nb);
        let ab = if nr > ng { nr } else { ng };
        let mx = if nb > ab { nb } else { ab };
        let mn = if nr > ng {
            if nb < ng { nb } else { ng }
        } else {
            if nb < nr { nb } else { nr }
        };
        let sumn = mx + mn;
        let sumc = if sumn > 51000 { 51000 } else { sumn };
        let (p0, q0) = sat_fraction(mx, mn);
        let (p, q) = saturate_exec(p0, q0, saturation);
        let shift = ((3600 * (hue as i64)) % 360000);
        let hh = h0 + shift;
        let hpos: u64 = if hh < 0 {
            (hh + 360000) as u64
        } else if hh >= 360000 {
            (hh - 360000) as u64
        } else {
            hh as u64
        };
        hsl_to_rgb8(sumc, p, q, hpos)
    }
}

/// The HSL saturation fraction of a scaled channel pair, over the channel
/// denominator 25500, clamped into [0, 1].
fn sat_fraction(mx: u32, mn: u32) -> (res: (i64, i64))
    requires
        mn <= mx <= 65025,
    ensures
        res.0 == clamp01(hsl_sat(mx as int, mn as int, 25500).0, hsl_sat(
            mx as int,
            mn as int,
            25500,
        ).1).0,
        res.1 == clamp01(hsl_sat(mx as int, mn as int, 25500).0, hsl_sat(
            mx as int,
            mn as int,
            25500,
        ).1).1,
        0 <= res.0 <= res.1,
        1 <= res.1 <= 79050,
{
    let raw: (i64, i64) = if mx == mn {
        (0, 1)
    } else {
        let sum = (mx + mn) as i64;
        let dc = (mx - mn) as i64;
        let q0 = if sum > 25500 { 51000 - sum } else { sum };
        if q0 == 0 {
            (0, 1)
        } else if q0 < 0 {
            (-dc, -q0)
        } else {
            (dc, q0)
        }
    };
    if raw.0 <= 0 {
        (0, 1)
    } else if raw.0 >= raw.1 {
        (1, 1)
    } else {
        raw
    }
}

/// Apply the relative saturation factor for the percentage `sp` to the
/// fraction `p0 / q0` and clamp into [0, 1].
fn saturate_exec(p0: i64, q0: i64, sp: u8) -> (res: (i64, i64))
    requires
        0 <= p0 <= q0,
        1 <= q0 <= 79050,
    ensures
        res.0 == saturate_apply(p0 as int, q0 as int, sp as int).0,
        res.1 == saturate_apply(p0 as int, q0 as int, sp as int).1,
        0 <= res.0 <= res.1,
        1 <= res.1 <= 7905000,
{
    let spi = sp as i64;
    let (fnum, fden): (i64, i64) = if spi > 100 { (spi - 100, 50) } else { (spi - 100, 100) };
    proof {
        assert(0 <= p0 * fden <= 7905000) by (nonlinear_arith)
            requires
                0 <= p0 <= 79050,
                fden == 50 || fden == 100,
        ;
        assert(forall|x: i64, y: i64| 0 <= x <= 150000 && -100 <= y <= 155
            ==> -15000000 <= #[trigger] (x * y) <= 23250000) by (nonlinear_arith);
        assert(1 <= q0 * fden <= 7905000) by (nonlinear_arith)
            requires
                1 <= q0 <= 79050,
                fden == 50 || fden == 100,
        ;
    }
    let pre = if fnum >= 0 {
        p0 * fden + (if q0 - p0 > 0 { q0 - p0 } else { 0 }) * fnum
    } else {
        p0 * fden + (if p0 > 0 { p0 } else { 0 }) * fnum
    };
    let pre_d = q0 * fden;
    if pre <= 0 {
        (0, 1)
    } else if pre >= pre_d {
        (1, 1)
    } else {
        (pre, pre_d)
    }
}

/// Convert a lightness numerator, a clamped saturation fraction and a
/// positive hue back to 8-bit RGB channels.
fn hsl_to_rgb8(sumn: u32, p: i64, q: i64, hpos: u64) -> (res: Color)
    requires
        sumn <= 130050,
        0 <= p <= q,
        1 <= q <= 7905000,
        hpos < 360000,
    ensures
        res == hsl_rgb_spec(sumn as int, p as int, q as int, hpos as int),
{
    let z = hpos / 60000;
    let t = hpos % 120000;
    let w: u64 = if t < 60000 { t } else { 120000 - t };
    let two_sum = 2 * (sumn as i64);
    let aa: i64 = 51000 - (if two_sum - 51000 < 0 { 51000 - two_sum } else { two_sum - 51000 });
    proof {
        assert(-1250000000000 <= (aa as int) * (p as int) <= 1250000000000) by (nonlinear_arith)
            requires
                -158100 <= aa <= 51000,
                0 <= p <= 7905000,
        ;
        assert(0 <= (sumn as int) * (q as int) <= 1028164500000) by (nonlinear_arith)
            requires
                0 <= sumn <= 130050,
                1 <= q <= 7905000,
        ;
    }
    let k: i128 = (aa as i128) * (p as i128);
    let sq: i128 = (sumn as i128) * (q as i128);
    let ld: i128 = sq * 120000;
    let md = ld - k * 60000;
    let cd = ld + k * 60000;
    proof {
        assert(-75000000000000000 <= (k as int) * (w as int) <= 75000000000000000) by (
        nonlinear_arith)
            requires
                -1250000000000 <= k <= 1250000000000,
                0 <= w <= 60000,
        ;
    }
    let kw: i128 = k * (w as i128);
    let xd = md + 2 * kw;
    let d2: i128 = 51000 * (q as i128) * 120000;
    let rn = if z == 1 || z == 4 { xd } else if z == 2 || z == 3 { md } else { cd };
    let gn = if z == 0 || z == 3 { xd } else if z == 1 || z == 2 { cd } else { md };
    let bn = if z == 0 || z == 1 { md } else if z == 3 || z == 4 { cd } else { xd };
    Color {
        r: quantize_exec(rn, d2),
        g: quantize_exec(gn, d2),
        b: quantize_exec(bn, d2),
    }
}

} // verus!
