use wallgen::Color;
use wallgen::ParseError;
use wallgen::config::Config;
use wallgen::template::rgb;
use wallgen::template::rgb_string;

#[test]
fn rgb_string_projects_channels_in_decimal() {
    assert_eq!(rgb_string(&Color::from_rgb(255, 0, 10)), "rgb(255,0,10)");
    assert_eq!(rgb_string(&Color::from_rgb(7, 42, 100)), "rgb(7,42,100)");
}

#[test]
fn rgb_filter_rewrites_hex() {
    assert_eq!(rgb(String::from("#FF000A")).unwrap(), "rgb(255,0,10)");
    assert_eq!(rgb(String::from("00FF00")).unwrap(), "rgb(0,255,0)");
}

#[test]
fn rgb_filter_rejects_malformed_colors() {
    assert_eq!(rgb(String::from("#XYZ")).unwrap_err(), ParseError::InvalidHex);
    assert_eq!(rgb(String::from("rgb(1,2,3)")).unwrap_err(), ParseError::InvalidHex);
}

#[test]
fn filter_round_trips_the_canonical_form() {
    let c = Color::from_rgb(161, 178, 195);
    assert_eq!(rgb(c.hex()).unwrap(), rgb_string(&c));
}

#[test]
fn default_config_is_empty_auto() {
    let c = Config::default();
    assert_eq!(c.gradiant, wallgen::Gradiant::Auto);
    assert!(c.templates.is_empty());
}
