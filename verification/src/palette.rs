//! Palette derivation: cluster colors in, ordered theme slots out.
//!
//! The four primary colors are sorted by luminosity (ascending for a dark
//! image, descending for a light one), the gradiant is resolved, and each
//! primary gets a text color (its negative, modulated) and a 9-step
//! accent ramp from the resolved gradiant's table.

use vstd::prelude::*;
use vstd::seq_lib::to_multiset_update;
use vstd::string::StringExecFns;

use crate::color::Color;
use crate::color::lum_spec;
use crate::convert::accent_spec;
use crate::convert::modulate_spec;
use crate::gradiant::Gradiant;
use crate::gradiant::gradiant_table;
use crate::gradiant::resolve_spec;
use crate::image::RawImage;
use crate::image::is_light_spec;
use crate::image::is_low_saturation_spec;

verus! {

/// Why a palette could not be derived.
#[derive(Clone, Copy, Debug, PartialEq, Eq, Structural)]
pub enum PaletteError {
    /// The pixel source was empty, or clustering could not supply the
    /// four requested primary colors.
    InsufficientColors,
}

/// One theme slot: a primary color, a text color legible on it, and its
/// ordered 9-step accent ramp.
#[derive(Debug)]
pub struct PaletteColor {
    pub primary: Color,
    pub text: Color,
    pub accents: Vec<Color>,
}

/// A derived palette: the source identifier, the dark/light theme, the
/// gradiant actually used (never `Auto`), and the four ordered slots.
/// Slot order is meaningful: colors are ordered by luminosity — the
/// canonical ordering of this library — ascending for a dark theme and
/// descending for a light one, so slot 0 is the background tone. The
/// sort is stable, so colors of equal luminosity keep the order in
/// which the cluster step handed them over.
#[derive(Debug)]
pub struct Palette {
    pub file: String,
    pub theme: String,
    pub gradiant: Gradiant,
    pub color0: PaletteColor,
    pub color1: PaletteColor,
    pub color2: PaletteColor,
    pub color3: PaletteColor,
}

/// Luminosity is non-decreasing along the sequence.
pub open spec fn sorted_asc(s: Seq<Color>) -> bool {
    forall|x: int, y: int| 0 <= x < y < s.len() ==> lum_spec(s[x]) <= lum_spec(s[y])
}

/// Luminosity is non-increasing along the sequence.
pub open spec fn sorted_desc(s: Seq<Color>) -> bool {
    forall|x: int, y: int| 0 <= x < y < s.len() ==> lum_spec(s[x]) >= lum_spec(s[y])
}

/// Insert a color into a sequence just before its first element of
/// strictly larger luminosity — after any element of equal luminosity.
pub open spec fn insert_by_lum(c: Color, s: Seq<Color>) -> Seq<Color>
    decreases s.len(),
{
    if s.len() == 0 {
        seq![c]
    } else if lum_spec(c) < lum_spec(s[0]) {
        seq![c] + s
    } else {
        seq![s[0]] + insert_by_lum(c, s.drop_first())
    }
}

/// Stable insertion sort by luminosity, ascending: colors of equal
/// luminosity keep their incoming order.
pub open spec fn sort_by_lum(s: Seq<Color>) -> Seq<Color>
    decreases s.len(),
{
    if s.len() == 0 {
        s
    } else {
        insert_by_lum(s.last(), sort_by_lum(s.drop_last()))
    }
}

/// The text color of a primary: its per-channel negative, brightened for
/// a dark primary (188%) or dimmed for a light one (16%), desaturated to
/// 10% and hue-shifted by a full turn.
pub open spec fn text_spec(c: Color) -> Color {
    let neg = Color { r: (255 - c.r) as u8, g: (255 - c.g) as u8, b: (255 - c.b) as u8 };
    modulate_spec(neg, if lum_spec(c) < 1275000 { 188 } else { 16 }, 10, 100)
}

/// The 9-step accent ramp of a primary under a gradiant: one accent per
/// table row, holding the primary's hue and taking the row's saturation
/// and brightness, in table order.
pub open spec fn accent_ramp_spec(c: Color, g: Gradiant) -> Seq<Color> {
    gradiant_table(g).map_values(|bs: (u8, u8)| accent_spec(c, bs.1 as int, bs.0 as int))
}

/// A well-formed theme slot for primary `c` under gradiant `g`.
pub open spec fn palette_color_ok(pc: PaletteColor, c: Color, g: Gradiant) -> bool {
    &&& pc.primary == c
    &&& pc.text == text_spec(c)
    &&& pc.accents@ == accent_ramp_spec(c, g)
    &&& pc.accents@.len() == 9
}

/// The four primary colors of a palette, in slot order.
pub open spec fn primaries(p: Palette) -> Seq<Color> {
    seq![p.color0.primary, p.color1.primary, p.color2.primary, p.color3.primary]
}

/// Everything `Palette::create` promises of a derived palette, given the
/// pixels and path of the image, the cluster colors, and the requested
/// gradiant.
pub open spec fn palette_spec(
    p: Palette,
    pixels: Seq<Color>,
    path: Seq<char>,
    centroids: Seq<Color>,
    requested: Gradiant,
) -> bool {
    let light = is_light_spec(pixels);
    let style = resolve_spec(requested, is_low_saturation_spec(pixels));
    &&& p.file@ == path
    &&& p.theme@ == (if light { "light"@ } else { "dark"@ })
    &&& p.gradiant == style
    &&& p.gradiant != Gradiant::Auto
    &&& primaries(p).to_multiset() == centroids.to_multiset()
    &&& (light ==> sorted_desc(primaries(p)))
    &&& (!light ==> sorted_asc(primaries(p)))
    &&& (light ==> primaries(p) == sort_by_lum(centroids).reverse())
    &&& (!light ==> primaries(p) == sort_by_lum(centroids))
    &&& palette_color_ok(p.color0, p.color0.primary, style)
    &&& palette_color_ok(p.color1, p.color1.primary, style)
    &&& palette_color_ok(p.color2, p.color2.primary, style)
    &&& palette_color_ok(p.color3, p.color3.primary, style)
}

/// A pure grayscale pixel contributes nothing to the saturation sum.
proof fn lemma_gray_sum_sat(pixels: Seq<Color>)
    requires
        forall|i: int| 0 <= i < pixels.len() ==> (#[trigger] pixels[i]).r == pixels[i].g
            && pixels[i].g == pixels[i].b,
    ensures
        crate::image::sum_sat(pixels) == 0,
    decreases pixels.len(),
{
    if pixels.len() > 0 {
        lemma_gray_sum_sat(pixels.drop_last());
    }
}

/// Gradient resolution on a grayscale image: a pixel set whose samples
/// all have equal channels has mean saturation zero, so a requested
/// `Auto` gradiant resolves to `Mono`.
pub proof fn lemma_grayscale_resolves_mono(pixels: Seq<Color>)
    requires
        pixels.len() > 0,
        forall|i: int| 0 <= i < pixels.len() ==> (#[trigger] pixels[i]).r == pixels[i].g
            && pixels[i].g == pixels[i].b,
    ensures
        crate::image::sum_sat(pixels) == 0,
        is_low_saturation_spec(pixels),
        resolve_spec(Gradiant::Auto, is_low_saturation_spec(pixels)) == Gradiant::Mono,
{
    lemma_gray_sum_sat(pixels);
}

/// A fully saturated pixel (smallest channel zero, largest nonzero)
/// contributes the full scale to the saturation sum.
proof fn lemma_saturated_sum_sat(pixels: Seq<Color>)
    requires
        forall|i: int| 0 <= i < pixels.len() ==> crate::convert::chan_min(
            (#[trigger] pixels[i]).r as int,
            pixels[i].g as int,
            pixels[i].b as int,
        ) == 0 && crate::convert::chan_max(
            pixels[i].r as int,
            pixels[i].g as int,
            pixels[i].b as int,
        ) > 0,
    ensures
        crate::image::sum_sat(pixels) == pixels.len() * 1000000,
    decreases pixels.len(),
{
    if pixels.len() > 0 {
        lemma_saturated_sum_sat(pixels.drop_last());
        let c = pixels.last();
        let mx = crate::convert::chan_max(c.r as int, c.g as int, c.b as int);
        vstd::arithmetic::div_mod::lemma_div_multiples_vanish(1000000, mx);
        assert(mx * 1000000 == 1000000 * mx) by (nonlinear_arith);
        assert(crate::image::sat_scaled(c) == 1000000);
    }
}

/// Gradient resolution on a fully saturated image: a pixel set whose
/// samples all have full HSL saturation does not count as low
/// saturation, so a requested `Auto` gradiant resolves to `Standard`.
pub proof fn lemma_saturated_resolves_standard(pixels: Seq<Color>)
    requires
        pixels.len() > 0,
        forall|i: int| 0 <= i < pixels.len() ==> crate::convert::chan_min(
            (#[trigger] pixels[i]).r as int,
            pixels[i].g as int,
            pixels[i].b as int,
        ) == 0 && crate::convert::chan_max(
            pixels[i].r as int,
            pixels[i].g as int,
            pixels[i].b as int,
        ) > 0,
    ensures
        crate::image::sum_sat(pixels) == pixels.len() * 1000000,
        !is_low_saturation_spec(pixels),
        resolve_spec(Gradiant::Auto, is_low_saturation_spec(pixels)) == Gradiant::Standard,
{
    lemma_saturated_sum_sat(pixels);
}

/// Inserting a color grows a sequence by one.
proof fn lemma_insert_by_lum_len(c: Color, s: Seq<Color>)
    ensures
        insert_by_lum(c, s).len() == s.len() + 1,
    decreases s.len(),
{
    if s.len() > 0 && !(lum_spec(c) < lum_spec(s[0])) {
        lemma_insert_by_lum_len(c, s.drop_first());
    }
}

/// Sorting keeps a sequence's length.
proof fn lemma_sort_by_lum_len(s: Seq<Color>)
    ensures
        sort_by_lum(s).len() == s.len(),
    decreases s.len(),
{
    if s.len() > 0 {
        lemma_sort_by_lum_len(s.drop_last());
        lemma_insert_by_lum_len(s.last(), sort_by_lum(s.drop_last()));
    }
}

/// Where `insert_by_lum` puts the new color: right at the boundary index
/// `j` between the elements of luminosity up to the new color's and the
/// strictly brighter rest.
proof fn lemma_insert_by_lum_at(c: Color, s: Seq<Color>, j: int)
    requires
        0 <= j <= s.len(),
        forall|k: int| 0 <= k < j ==> lum_spec(s[k]) <= lum_spec(c),
        j < s.len() ==> lum_spec(s[j]) > lum_spec(c),
    ensures
        insert_by_lum(c, s) == s.take(j) + seq![c] + s.skip(j),
    decreases s.len(),
{
    if j == 0 {
        if s.len() == 0 {
            assert(insert_by_lum(c, s) =~= s.take(0) + seq![c] + s.skip(0));
        } else {
            assert(insert_by_lum(c, s) =~= s.take(0) + seq![c] + s.skip(0));
        }
    } else {
        lemma_insert_by_lum_at(c, s.drop_first(), j - 1);
        assert(seq![s[0]] + (s.drop_first().take(j - 1) + seq![c] + s.drop_first().skip(j - 1))
            =~= s.take(j) + seq![c] + s.skip(j));
    }
}

/// Sort colors by luminosity, ascending and stable: the result is
/// exactly `sort_by_lum` of the input, so colors of equal luminosity
/// keep their incoming order.
fn sort_colors(colors: Vec<Color>) -> (res: Vec<Color>)
    ensures
        res@ == sort_by_lum(colors@),
        res@.len() == colors@.len(),
        res@.to_multiset() == colors@.to_multiset(),
        sorted_asc(res@),
{
    let mut arr = colors;
    let ghost orig = arr@;
    let n = arr.len();
    if n == 0 {
        proof {
            assert(sort_by_lum(orig) =~= orig);
        }
        return arr;
    }
    proof {
        assert(orig.take(1).drop_last() =~= orig.take(0));
        assert(sort_by_lum(orig.take(0)) =~= orig.take(0));
        assert(arr@.take(1) =~= insert_by_lum(orig.take(1).last(), sort_by_lum(orig.take(0))));
        assert(arr@.skip(1) =~= orig.skip(1));
    }
    let mut i: usize = 1;
    while i < n
        invariant
            1 <= i <= n,
            n == arr@.len(),
            n == orig.len(),
            arr@.to_multiset() == orig.to_multiset(),
            sorted_asc(arr@.take(i as int)),
            arr@.take(i as int) == sort_by_lum(orig.take(i as int)),
            arr@.skip(i as int) == orig.skip(i as int),
        decreases n - i,
    {
        proof {
            assert forall|x: int, y: int| 0 <= x <= y <= i && y != i implies lum_spec(arr@[x])
                <= lum_spec(arr@[y]) by {
                if x < y {
                    assert(arr@.take(i as int)[x] == arr@[x]);
                    assert(arr@.take(i as int)[y] == arr@[y]);
                }
            }
        }
        let ghost ss = sort_by_lum(orig.take(i as int));
        let ghost x = orig[i as int];
        proof {
            lemma_sort_by_lum_len(orig.take(i as int));
            assert(arr@.skip(i as int)[0] == arr@[i as int]);
            assert(orig.skip(i as int)[0] == orig[i as int]);
            assert forall|k: int| i < k < n implies arr@[k] == orig[k] by {
                assert(arr@.skip(i as int)[k - i] == arr@[k]);
                assert(orig.skip(i as int)[k - i] == orig[k]);
            }
            assert forall|k: int| 0 <= k < i implies arr@[k] == ss[k] by {
                assert(arr@.take(i as int)[k] == arr@[k]);
            }
            assert forall|x2: int, y2: int| 0 <= x2 < y2 < ss.len() implies lum_spec(ss[x2])
                <= lum_spec(ss[y2]) by {
                assert(arr@.take(i as int)[x2] == arr@[x2]);
                assert(arr@.take(i as int)[y2] == arr@[y2]);
            }
        }
        let mut j: usize = i;
        while j > 0 && arr[j - 1].luminocity() > arr[j].luminocity()
            invariant
                j <= i < n,
                n == arr@.len(),
                n == orig.len(),
                ss == sort_by_lum(orig.take(i as int)),
                ss.len() == i,
                sorted_asc(ss),
                x == orig[i as int],
                arr@.to_multiset() == orig.to_multiset(),
                forall|a: int, b: int| 0 <= a <= b <= i && b != j
                    ==> lum_spec(arr@[a]) <= lum_spec(arr@[b]),
                forall|k: int| 0 <= k < j ==> arr@[k] == ss[k],
                arr@[j as int] == x,
                forall|k: int| j < k <= i ==> arr@[k] == ss[k - 1],
                forall|k: int| i < k < n ==> arr@[k] == orig[k],
                forall|k: int| j <= k < i ==> lum_spec(ss[k]) > lum_spec(x),
            decreases j,
        {
            let a = arr[j - 1];
            let b = arr[j];
            let ghost before = arr@;
            arr.set(j - 1, b);
            arr.set(j, a);
            proof {
                let s1 = before.update(j - 1, b);
                to_multiset_update(before, j - 1, b);
                to_multiset_update(s1, j as int, a);
                before.to_multiset_ensures();
                assert(before.contains(a));
                assert(arr@ == s1.update(j as int, a));
                assert(arr@.to_multiset() =~= before.to_multiset());
            }
            j = j - 1;
        }
        proof {
            assert forall|k: int| 0 <= k < j implies lum_spec(ss[k]) <= lum_spec(x) by {
                assert(lum_spec(ss[j - 1]) <= lum_spec(x));
            }
            lemma_insert_by_lum_at(x, ss, j as int);
            assert(arr@.take(i + 1) =~= ss.take(j as int) + seq![x] + ss.skip(j as int));
            assert(orig.take(i + 1).drop_last() =~= orig.take(i as int));
            assert(arr@.take(i + 1) == sort_by_lum(orig.take(i + 1)));
            assert(arr@.skip(i + 1) =~= orig.skip(i + 1));
        }
        i = i + 1;
    }
    proof {
        assert(arr@.take(n as int) =~= arr@);
        assert(orig.take(n as int) =~= orig);
    }
    arr
}

/// Reverse a color sequence.
fn reverse_colors(colors: Vec<Color>) -> (res: Vec<Color>)
    ensures
        res@ == colors@.reverse(),
{
    let n = colors.len();
    let mut out: Vec<Color> = Vec::new();
    let mut i: usize = 0;
    while i < n
        invariant
            i <= n,
            n == colors@.len(),
            out@.len() == i,
            forall|k: int| 0 <= k < i ==> out@[k] == colors@[n - 1 - k],
        decreases n - i,
    {
        out.push(colors[n - 1 - i]);
        i = i + 1;
    }
    proof {
        assert(out@ =~= colors@.reverse());
    }
    out
}

/// Derive one theme slot for a primary color under a gradiant.
fn derive_palette_color(c: Color, g: &Gradiant) -> (pc: PaletteColor)
    ensures
        palette_color_ok(pc, c, *g),
{
    let dark = c.luminocity() < 1275000;
    let text = c.negative().modulate(if dark { 188 } else { 16 }, 10, 100);
    let table = g.gradiant();
    let mut accents: Vec<Color> = Vec::new();
    let mut i: usize = 0;
    while i < table.len()
        invariant
            i <= table@.len(),
            table@ == gradiant_table(*g),
            table@.len() == 9,
            forall|k: int| 0 <= k < 9 ==> (#[trigger] table@[k]).0 <= 100 && table@[k].1 <= 100,
            accents@.len() == i,
            forall|k: int| 0 <= k < i ==> accents@[k] == accent_spec(
                c,
                table@[k].1 as int,
                table@[k].0 as int,
            ),
        decreases table@.len() - i,
    {
        let pair = table[i];
        accents.push(c.accent(pair.1, pair.0));
        i = i + 1;
    }
    proof {
        assert(accents@ =~= accent_ramp_spec(c, *g));
    }
    PaletteColor { primary: c, text, accents }
}

/// The theme name for a brightness classification.
fn theme_str(light: bool) -> (s: String)
    ensures
        s@ == (if light { "light"@ } else { "dark"@ }),
{
    if light {
        String::from_str("light")
    } else {
        String::from_str("dark")
    }
}

impl Palette {
    /// Generate the palette of an image from its four cluster colors and
    /// the requested gradiant.
    ///
    /// Succeeds exactly when the image has pixels and exactly four
    /// cluster colors were supplied; a cluster step that could not
    /// produce them (fewer distinct colors in the image than clusters)
    /// surfaces here as `InsufficientColors`.
    #[verifier::rlimit(100)]
    pub fn create(image: &RawImage, colors: Vec<Color>, gradiant: Gradiant) -> (res: Result<
        Palette,
        PaletteError,
    >)
        ensures
            res is Ok <==> (colors@.len() == 4 && image.pixels@.len() > 0),
            res matches Ok(p) ==> palette_spec(
                p,
                image.pixels@,
                image.path@,
                colors@,
                gradiant,
            ),
            res matches Err(e) ==> e == PaletteError::InsufficientColors,
    {
        if colors.len() != 4 || image.pixels.len() == 0 {
            return Err(PaletteError::InsufficientColors);
        }
        let light = image.is_light();
        let style = gradiant.resolve(image.is_low_saturation());
        let ghost centroids = colors@;
        let sorted = sort_colors(colors);
        proof {
            sorted@.lemma_reverse_to_multiset();
        }
        let ordered = if light { reverse_colors(sorted) } else { sorted };
        let pc0 = derive_palette_color(ordered[0], &style);
        let pc1 = derive_palette_color(ordered[1], &style);
        let pc2 = derive_palette_color(ordered[2], &style);
        let pc3 = derive_palette_color(ordered[3], &style);
        let palette = Palette {
            file: image.path.clone(),
            theme: theme_str(light),
            gradiant: style,
            color0: pc0,
            color1: pc1,
            color2: pc2,
            color3: pc3,
        };
        proof {
            assert(primaries(palette) =~= ordered@);
        }
        Ok(palette)
    }
}

} // verus!
