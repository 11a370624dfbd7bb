use wallgen::Color;
use wallgen::ParseError;

#[test]
fn from_rgb_stores_channels() {
    let c = Color::from_rgb(12, 200, 255);
    assert_eq!(c.rgb(), (12, 200, 255));
}

#[test]
fn hex_is_canonical_uppercase() {
    assert_eq!(Color::from_rgb(255, 0, 10).hex(), "#FF000A");
    assert_eq!(Color::from_rgb(0, 0, 0).hex(), "#000000");
    assert_eq!(Color::from_rgb(171, 205, 239).hex(), "#ABCDEF");
}

#[test]
fn from_hex_accepts_optional_hash() {
    assert_eq!(Color::from_hex("#A1B2C3"), Ok(Color::from_rgb(161, 178, 195)));
    assert_eq!(Color::from_hex("A1B2C3"), Ok(Color::from_rgb(161, 178, 195)));
    assert_eq!(Color::from_hex("#a1b2c3"), Ok(Color::from_rgb(161, 178, 195)));
}

#[test]
fn from_hex_needs_exactly_six_digits() {
    assert_eq!(Color::from_hex("#ABC"), Err(ParseError::InvalidHex));
    assert_eq!(Color::from_hex("#A1B2C3D4"), Err(ParseError::InvalidHex));
    assert_eq!(Color::from_hex(""), Err(ParseError::InvalidHex));
    assert_eq!(Color::from_hex("#ZZZZZZ"), Err(ParseError::InvalidHex));
}

#[test]
fn parse_round_trips_hex() {
    let cases = [
        Color::from_rgb(0, 0, 0),
        Color::from_rgb(255, 255, 255),
        Color::from_rgb(1, 2, 3),
        Color::from_rgb(161, 178, 195),
        Color::from_rgb(255, 0, 10),
    ];
    for c in cases {
        assert_eq!(Color::parse(&c.hex()), Ok(c));
    }
}

#[test]
fn parse_failures() {
    assert_eq!(Color::parse("notacolor"), Err(ParseError::UnrecognizedFormat));
    assert_eq!(Color::parse("#ZZZZZZ"), Err(ParseError::InvalidHex));
    assert_eq!(Color::parse("rgb(1,2)"), Err(ParseError::InvalidComponent));
}

#[test]
fn parse_rgb_forms() {
    assert_eq!(Color::parse("rgb(1,2,3)"), Ok(Color::from_rgb(1, 2, 3)));
    assert_eq!(Color::parse("rgba(1,2,3,128)"), Ok(Color::from_rgb(1, 2, 3)));
    assert_eq!(Color::parse("rgb(255,0,0)"), Ok(Color::from_rgb(255, 0, 0)));
    assert_eq!(Color::parse("rgb(+10,0,0)"), Ok(Color::from_rgb(10, 0, 0)));
}

#[test]
fn parse_rgb_component_errors() {
    assert_eq!(Color::parse("rgb(256,0,0)"), Err(ParseError::InvalidComponent));
    assert_eq!(Color::parse("rgb(1, 2, 3)"), Err(ParseError::InvalidComponent));
    assert_eq!(Color::parse("rgb(a,2,3)"), Err(ParseError::InvalidComponent));
    assert_eq!(Color::parse("rgb()"), Err(ParseError::InvalidComponent));
    assert_eq!(Color::parse("rgba(1,2,3,999)"), Err(ParseError::InvalidComponent));
}

#[test]
fn parse_rgb_needs_closing_paren() {
    assert_eq!(Color::parse("rgb(1,2,3"), Err(ParseError::UnrecognizedFormat));
}

#[test]
fn luminocity_scaled_values() {
    assert_eq!(Color::from_rgb(0, 0, 0).luminocity(), 0);
    assert_eq!(Color::from_rgb(255, 255, 255).luminocity(), 2_550_000);
    assert_eq!(Color::from_rgb(255, 0, 0).luminocity(), 2126 * 255);
    assert_eq!(Color::from_rgb(0, 255, 0).luminocity(), 7152 * 255);
    assert_eq!(Color::from_rgb(0, 0, 255).luminocity(), 722 * 255);
}

#[test]
fn negative_complements_channels() {
    assert_eq!(Color::from_rgb(0, 10, 255).negative(), Color::from_rgb(255, 245, 0));
    assert_eq!(Color::from_rgb(255, 255, 255).negative(), Color::from_rgb(0, 0, 0));
}

#[test]
fn accent_keeps_hue_of_pure_red() {
    let red = Color::from_rgb(255, 0, 0);
    assert_eq!(red.accent(100, 100), red);
    // Saturation zero gives a gray at the requested value.
    assert_eq!(red.accent(0, 50), Color::from_rgb(128, 128, 128));
}

#[test]
fn accent_of_black_is_gray_ramp_value() {
    let black = Color::from_rgb(0, 0, 0);
    // Hue of a gray triple is zero; value 10% maps to 25.5, which rounds
    // half to even as 26.
    assert_eq!(black.accent(0, 10), Color::from_rgb(26, 26, 26));
}

#[test]
fn modulate_brightness_100_is_identity() {
    let c = Color::from_rgb(200, 40, 100);
    assert_eq!(c.modulate(100, 100, 100), c);
}

#[test]
fn modulate_white_brightens_to_white() {
    let white = Color::from_rgb(255, 255, 255);
    assert_eq!(white.modulate(188, 10, 100), white);
}

#[test]
fn modulate_clamps_scaled_channels_before_hsl() {
    // The negative of #E64D33 is (25, 178, 204); at 188% brightness the
    // green and blue channels overshoot and clamp to full scale, giving
    // (0.1843, 1, 1): hue 180, full saturation, lightness 0.592. The
    // 10% saturation delta then lands on #8DA1A1.
    let primary = Color::parse("#E64D33").unwrap();
    assert_eq!(primary.negative().modulate(188, 10, 100).hex(), "#8DA1A1");
}

#[test]
fn modulate_dims_a_light_color() {
    // A gray stays gray under saturation changes; 16% of 255 is 40.8,
    // rounded half to even as 41.
    let white = Color::from_rgb(255, 255, 255);
    assert_eq!(white.modulate(16, 10, 100), Color::from_rgb(41, 41, 41));
}
