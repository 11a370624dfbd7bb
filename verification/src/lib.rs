//! Palette derivation engine: turns a grid of pixel colors into a fixed
//! color theme (4 primary tones, each with a text color and a 9-step accent
//! ramp), using deterministic color-space transforms.
//!
//! Colors are modeled as 8-bit sRGB triples, and every color-space
//! computation (hue, HSL/HSV conversion, luminosity, saturation) is carried
//! out in exact integer arithmetic over scaled values, so that the whole
//! pipeline is deterministic and fully specified.

pub mod cli;
pub mod color;
pub mod config;
pub mod convert;
pub mod gradiant;
pub mod image;
pub mod palette;
pub mod template;

pub use color::Color;
pub use color::ParseError;
pub use gradiant::Gradiant;
pub use image::RawImage;
pub use palette::Palette;
pub use palette::PaletteColor;
pub use palette::PaletteError;
