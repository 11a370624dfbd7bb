use wallgen::Color;
use wallgen::RawImage;

fn uniform(c: Color, n: usize) -> RawImage {
    RawImage::new(String::from("embedded"), vec![c; n])
}

#[test]
fn new_keeps_path_and_pixels() {
    let img = uniform(Color::from_rgb(1, 2, 3), 5);
    assert_eq!(img.path, "embedded");
    assert_eq!(img.pixels.len(), 5);
    assert_eq!(img.pixels[4], Color::from_rgb(1, 2, 3));
}

#[test]
fn mean_luminocity_of_uniform_image() {
    assert_eq!(uniform(Color::from_rgb(255, 255, 255), 7).mean_luminocity(), 2_550_000);
    assert_eq!(uniform(Color::from_rgb(0, 0, 0), 3).mean_luminocity(), 0);
}

#[test]
fn mean_luminocity_averages() {
    let img = RawImage::new(
        String::from("embedded"),
        vec![Color::from_rgb(0, 0, 0), Color::from_rgb(255, 255, 255)],
    );
    assert_eq!(img.mean_luminocity(), 1_275_000);
}

#[test]
fn is_light_needs_strict_majority() {
    // Half white, half black sits exactly at the threshold: not light.
    let img = RawImage::new(
        String::from("embedded"),
        vec![Color::from_rgb(0, 0, 0), Color::from_rgb(255, 255, 255)],
    );
    assert!(!img.is_light());
    assert!(uniform(Color::from_rgb(200, 200, 200), 4).is_light());
    assert!(!uniform(Color::from_rgb(100, 100, 100), 4).is_light());
}

#[test]
fn mean_saturation_of_gray_is_zero() {
    let img = uniform(Color::from_rgb(90, 90, 90), 6);
    assert_eq!(img.mean_saturation(), 0);
    assert!(img.is_low_saturation());
}

#[test]
fn mean_saturation_of_pure_color_is_full() {
    let img = uniform(Color::from_rgb(255, 0, 0), 6);
    assert_eq!(img.mean_saturation(), 1_000_000);
    assert!(!img.is_low_saturation());
}

#[test]
fn low_saturation_threshold_is_twelve_percent() {
    // HSL saturation of (146, 110, 110) is 36/254 ~ 0.1417: not low.
    let above = uniform(Color::from_rgb(146, 110, 110), 3);
    assert!(!above.is_low_saturation());
    // HSL saturation of (139, 115, 115) is 24/254 ~ 0.0945: low.
    let below = uniform(Color::from_rgb(139, 115, 115), 3);
    assert!(below.is_low_saturation());
}
