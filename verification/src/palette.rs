//! Colour palettes of the glyphs, as paints of `svg_composer`.

use vstd::prelude::*;
use svg_composer::element::attributes::{Color, ColorName, Paint};

verus! {

#[verifier::external_type_specification]
#[verifier::external_body]
pub struct ExColor(Color);

#[verifier::external_type_specification]
#[verifier::external_body]
pub struct ExPaint(Paint);

/// What `Color::from_rgb` returns for a red, green and blue component.
pub uninterp spec fn rgb_color(r: u8, g: u8, b: u8) -> Color;

/// What `Paint::from_color` returns for a colour.
pub uninterp spec fn color_paint(color: Color) -> Paint;

/// What `Color::from_name` returns for a named colour of the palettes.
pub uninterp spec fn named_color(name: NamedColor) -> Color;

/// `Color::from_rgb`: the colour of the given components; the same
/// components always give the same colour.
#[verifier::external_body]
fn color_from_rgb(r: u8, g: u8, b: u8) -> (color: Color)
    ensures
        color == rgb_color(r, g, b),
{
    Color::from_rgb(r, g, b)
}

/// `Paint::from_color`: a paint that fills with the colour.
#[verifier::external_body]
fn paint_from_color(color: Color) -> (paint: Paint)
    ensures
        paint == color_paint(color),
{
    Paint::from_color(color)
}

/// `Paint::new_empty`: the paint that paints nothing ("none" in SVG).
#[verifier::external_body]
fn paint_none() -> Paint {
    Paint::new_empty()
}

/// The named colours that the palettes use.
#[derive(Clone, Copy, Debug, PartialEq, Eq, Structural)]
pub enum NamedColor {
    Aqua,
    Black,
    Fuchsia,
    Gray,
    Olive,
    Red,
    White,
    Yellow,
}

/// `Color::from_name`: the named colour.
#[verifier::external_body]
fn color_from_name(name: NamedColor) -> (color: Color)
    ensures
        color == named_color(name),
{
    Color::from_name(match name {
        NamedColor::Aqua => ColorName::Aqua,
        NamedColor::Black => ColorName::Black,
        NamedColor::Fuchsia => ColorName::Fuchsia,
        NamedColor::Gray => ColorName::Gray,
        NamedColor::Olive => ColorName::Olive,
        NamedColor::Red => ColorName::Red,
        NamedColor::White => ColorName::White,
        NamedColor::Yellow => ColorName::Yellow,
    })
}

/// The colours of stegano.graphics.
#[derive(Clone, Copy, Debug, PartialEq, Eq, Structural)]
pub enum SteganoPalette {
    Yellow00,
    Brown00,
    LightPink00,
    Grey,
    LightBlue00,
    DarkBlue00,
    Whitish00,
    Transparent,
}

/// The red, green and blue components of a palette colour; none for the
/// transparent one.
pub open spec fn stegano_rgb(p: SteganoPalette) -> Option<(u8, u8, u8)> {
    match p {
        SteganoPalette::Yellow00 => Some((245u8, 194u8, 102u8)),
        SteganoPalette::Brown00 => Some((178u8, 92u8, 34u8)),
        SteganoPalette::LightPink00 => Some((252u8, 226u8, 212u8)),
        SteganoPalette::Grey => Some((90u8, 118u8, 126u8)),
        SteganoPalette::LightBlue00 => Some((146u8, 189u8, 193u8)),
        SteganoPalette::DarkBlue00 => Some((28u8, 53u8, 63u8)),
        SteganoPalette::Whitish00 => Some((241u8, 241u8, 241u8)),
        SteganoPalette::Transparent => None,
    }
}

/// The paint of an opaque colour given by its components.
pub open spec fn rgb_paint(r: u8, g: u8, b: u8) -> Paint {
    color_paint(rgb_color(r, g, b))
}

/// The paint of a named colour.
pub open spec fn name_paint(name: NamedColor) -> Paint {
    color_paint(named_color(name))
}

fn paint_rgb(r: u8, g: u8, b: u8) -> (paint: Paint)
    ensures
        paint == rgb_paint(r, g, b),
{
    paint_from_color(color_from_rgb(r, g, b))
}

fn paint_named(name: NamedColor) -> (paint: Paint)
    ensures
        paint == name_paint(name),
{
    paint_from_color(color_from_name(name))
}

impl SteganoPalette {
    /// The components of the colour (see `stegano_rgb`).
    pub fn rgb(&self) -> (c: Option<(u8, u8, u8)>)
        ensures
            c == stegano_rgb(*self),
    {
        match *self {
            SteganoPalette::Yellow00 => Some((245, 194, 102)),
            SteganoPalette::Brown00 => Some((178, 92, 34)),
            SteganoPalette::LightPink00 => Some((252, 226, 212)),
            SteganoPalette::Grey => Some((90, 118, 126)),
            SteganoPalette::LightBlue00 => Some((146, 189, 193)),
            SteganoPalette::DarkBlue00 => Some((28, 53, 63)),
            SteganoPalette::Whitish00 => Some((241, 241, 241)),
            SteganoPalette::Transparent => None,
        }
    }

    /// The paint of the colour: an opaque fill of its components, or no
    /// paint for the transparent one.
    pub fn to_paint(&self) -> (paint: Paint)
        ensures
            stegano_rgb(*self) matches Some((r, g, b)) ==> paint == rgb_paint(r, g, b),
    {
        match self.rgb() {
            Some((r, g, b)) => paint_rgb(r, g, b),
            None => paint_none(),
        }
    }
}

/// The paints of a glyph by use.
#[derive(Clone, Copy)]
pub struct UsagePalette {
    pub primary: Paint,
    pub secondary: Paint,
    pub background_0: Paint,
    pub background_1: Paint,
    pub whitish: Paint,
    pub warning_0: Paint,
    pub warning_1: Paint,
    pub error: Paint,
}

impl UsagePalette {
    /// The plain palette of named colours.
    pub fn default() -> (p: UsagePalette)
        ensures
            p.primary == name_paint(NamedColor::Aqua),
            p.secondary == name_paint(NamedColor::Fuchsia),
            p.background_0 == name_paint(NamedColor::Gray),
            p.background_1 == name_paint(NamedColor::Black),
            p.whitish == name_paint(NamedColor::White),
            p.warning_0 == name_paint(NamedColor::Yellow),
            p.warning_1 == name_paint(NamedColor::Yellow),
            p.error == name_paint(NamedColor::Red),
    {
        UsagePalette {
            primary: paint_named(NamedColor::Aqua),
            secondary: paint_named(NamedColor::Fuchsia),
            background_0: paint_named(NamedColor::Gray),
            background_1: paint_named(NamedColor::Black),
            whitish: paint_named(NamedColor::White),
            warning_0: paint_named(NamedColor::Yellow),
            warning_1: paint_named(NamedColor::Yellow),
            error: paint_named(NamedColor::Red),
        }
    }

    /// The stegano.graphics palette: yellow on dark blue.
    pub fn stegano_default() -> (p: UsagePalette)
        ensures
            p.primary == rgb_paint(245, 194, 102),
            p.secondary == rgb_paint(178, 92, 34),
            p.background_0 == rgb_paint(252, 226, 212),
            p.background_1 == rgb_paint(28, 53, 63),
            p.whitish == rgb_paint(241, 241, 241),
            p.warning_0 == name_paint(NamedColor::Olive),
            p.warning_1 == name_paint(NamedColor::Aqua),
            p.error == name_paint(NamedColor::Fuchsia),
    {
        UsagePalette {
            primary: SteganoPalette::Yellow00.to_paint(),
            secondary: paint_rgb(178, 92, 34),
            background_0: paint_rgb(252, 226, 212),
            background_1: paint_rgb(28, 53, 63),
            whitish: paint_rgb(241, 241, 241),
            warning_0: paint_named(NamedColor::Olive),
            warning_1: paint_named(NamedColor::Aqua),
            error: paint_named(NamedColor::Fuchsia),
        }
    }

    /// The stegano.graphics variant: brown on light pink.
    pub fn stegano_variant() -> (p: UsagePalette)
        ensures
            p.primary == rgb_paint(178, 92, 34),
            p.secondary == rgb_paint(245, 194, 102),
            p.background_0 == rgb_paint(28, 53, 63),
            p.background_1 == rgb_paint(252, 226, 212),
            p.whitish == rgb_paint(241, 241, 241),
            p.warning_0 == name_paint(NamedColor::Olive),
            p.warning_1 == name_paint(NamedColor::Aqua),
            p.error == name_paint(NamedColor::Fuchsia),
    {
        UsagePalette {
            primary: paint_rgb(178, 92, 34),
            secondary: paint_rgb(245, 194, 102),
            background_0: paint_rgb(28, 53, 63),
            background_1: paint_rgb(252, 226, 212),
            whitish: paint_rgb(241, 241, 241),
            warning_0: paint_named(NamedColor::Olive),
            warning_1: paint_named(NamedColor::Aqua),
            error: paint_named(NamedColor::Fuchsia),
        }
    }
}

} // verus!
