//! The clustering step the generator runs before `Palette::create`:
//! three seeded k-means runs over the pixel buffer, lowest score wins.
//! These tests pin its determinism and what too few distinct colors
//! produces, end to end through `Palette::create`.

use kmeans_colors::get_kmeans_hamerly;
use palette::Srgb;

use wallgen::Color;
use wallgen::Gradiant;
use wallgen::Palette;
use wallgen::PaletteError;
use wallgen::RawImage;

fn extract(pixels: &[Color], k: usize) -> Vec<Color> {
    let buf: Vec<Srgb<f32>> = pixels
        .iter()
        .map(|c| Srgb::new(c.r, c.g, c.b).into_format())
        .collect();
    let result = (0..3)
        .map(|i| get_kmeans_hamerly(k, 20, 0.0025, false, &buf, 12345 + i as u64))
        .min_by(|r1, r2| r1.score.partial_cmp(&r2.score).unwrap())
        .expect("no kmeans result available");
    result
        .centroids
        .into_iter()
        .map(|c| {
            let (r, g, b) = c.into_format::<u8>().into_components();
            Color::from_rgb(r, g, b)
        })
        .collect()
}

fn four_color_pixels() -> Vec<Color> {
    let mut pixels = Vec::new();
    for _ in 0..25 {
        pixels.push(Color::from_rgb(250, 10, 10));
        pixels.push(Color::from_rgb(10, 250, 10));
        pixels.push(Color::from_rgb(10, 10, 250));
        pixels.push(Color::from_rgb(240, 240, 240));
    }
    pixels
}

#[test]
fn extraction_is_deterministic() {
    let pixels = four_color_pixels();
    let mut a = extract(&pixels, 4);
    let mut b = extract(&pixels, 4);
    a.sort_by_key(|c| c.rgb());
    b.sort_by_key(|c| c.rgb());
    assert_eq!(a, b);
}

#[test]
fn extraction_finds_the_four_clusters() {
    let pixels = four_color_pixels();
    let mut centroids = extract(&pixels, 4);
    centroids.sort_by_key(|c| c.rgb());
    centroids.dedup();
    assert_eq!(centroids.len(), 4);
    let img = RawImage::new(String::from("embedded"), pixels);
    let p = Palette::create(&img, extract(&img.pixels, 4), Gradiant::Auto).unwrap();
    assert_eq!(p.gradiant, Gradiant::Standard);
}

#[test]
fn two_distinct_colors_cannot_fill_four_clusters() {
    let mut pixels = Vec::new();
    for _ in 0..50 {
        pixels.push(Color::from_rgb(0, 0, 0));
        pixels.push(Color::from_rgb(255, 255, 255));
    }
    let centroids = extract(&pixels, 4);
    assert!(centroids.len() < 4);
    let img = RawImage::new(String::from("embedded"), pixels);
    assert_eq!(
        Palette::create(&img, centroids, Gradiant::Auto).unwrap_err(),
        PaletteError::InsufficientColors
    );
}
