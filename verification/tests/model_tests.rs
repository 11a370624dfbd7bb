//! The library computes its color transforms in exact integer
//! arithmetic. These tests hold that model against the external color
//! crate's `f32` pipeline over a sample grid: the two may differ only by
//! float rounding noise, so every 8-bit channel must agree within one
//! step.

use palette::{Hsl, Hsv, IntoColor, Saturate, SetHue, ShiftHue, Srgb};

use wallgen::Color;

fn close(a: (u8, u8, u8), b: (u8, u8, u8)) -> bool {
    a.0.abs_diff(b.0) <= 1 && a.1.abs_diff(b.1) <= 1 && a.2.abs_diff(b.2) <= 1
}

fn accent_ref(c: Color, saturation: f32, value: f32) -> (u8, u8, u8) {
    let srgb: Srgb<f32> = Srgb::new(c.r, c.g, c.b).into_format();
    let hsv: Hsv = srgb.into_color();
    let hue = (hsv.hue.into_inner() * 1000.0).round() / 1000.0;
    let out: Srgb<f32> = Hsv::new(hue, saturation, value).into_color();
    out.into_format::<u8>().into_components()
}

fn modulate_ref(c: Color, brightness: u8, saturation: u8, hue: u8) -> (u8, u8, u8) {
    let mut srgb: Srgb<f32> = Srgb::new(c.r, c.g, c.b).into_format();
    if brightness != 100 {
        let value = brightness as f32 / 100.0;
        srgb.red *= value;
        srgb.green *= value;
        srgb.blue *= value;
    }
    // Packing the scaled channels back into a color clamps them into
    // [0, 1] before anything reads the HSL projection.
    let srgb: Srgb<f32> = srgb.into_color();
    let mut sv = saturation as f32 / 100.0;
    let mut hv = hue as f32 / 100.0;
    sv = if sv > 1.0 { (sv - 1.0) * 2.0 } else { sv - 1.0 };
    hv = (360.0 * hv) % 360.0;
    let mut hsl: Hsl = srgb.into_color();
    hsl.set_hue((hsl.hue.into_inner() * 1000.0).round() / 1000.0);
    let out: Srgb<f32> = hsl.saturate(sv).shift_hue(hv).into_color();
    out.into_format::<u8>().into_components()
}

fn sample_grid() -> Vec<Color> {
    let mut out = Vec::new();
    for r in (0..=255).step_by(17) {
        for g in (0..=255).step_by(17) {
            for b in (0..=255).step_by(17) {
                out.push(Color::from_rgb(r as u8, g as u8, b as u8));
            }
        }
    }
    out.push(Color::from_rgb(13, 200, 77));
    out.push(Color::from_rgb(250, 3, 97));
    out.push(Color::from_rgb(1, 254, 128));
    out
}

#[test]
fn accent_tracks_the_float_pipeline() {
    let pairs = [(50u8, 32u8), (99, 18), (0, 10), (20, 100), (70, 80)];
    for c in sample_grid() {
        for (s, v) in pairs {
            let got = c.accent(s, v).rgb();
            let want = accent_ref(c, s as f32 / 100.0, v as f32 / 100.0);
            assert!(
                close(got, want),
                "accent({c:?}, {s}, {v}): {got:?} vs {want:?}"
            );
        }
    }
}

#[test]
fn modulate_tracks_the_float_pipeline() {
    // The two argument triples the derivation actually uses.
    for c in sample_grid() {
        for (b, s, h) in [(188u8, 10u8, 100u8), (16, 10, 100)] {
            let got = c.modulate(b, s, h).rgb();
            let want = modulate_ref(c, b, s, h);
            assert!(
                close(got, want),
                "modulate({c:?}, {b}, {s}, {h}): {got:?} vs {want:?}"
            );
        }
    }
}

#[test]
fn modulate_tracks_the_float_pipeline_on_unusual_arguments() {
    for c in sample_grid() {
        for (b, s, h) in [(100u8, 150u8, 0u8), (130, 250, 25), (60, 100, 50), (0, 0, 0)] {
            let got = c.modulate(b, s, h).rgb();
            let want = modulate_ref(c, b, s, h);
            assert!(
                close(got, want),
                "modulate({c:?}, {b}, {s}, {h}): {got:?} vs {want:?}"
            );
        }
    }
}
