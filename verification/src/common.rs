use vstd::prelude::*;

verus! {

/// A colour with four integer channels, each from 0 to 255.
#[derive(Clone, Copy, Debug)]
pub struct Color {
    pub r: u8,
    pub g: u8,
    pub b: u8,
    pub a: u8,
}

impl Color {
    /// Transparent black.
    pub fn new() -> (color: Color)
        ensures
            color == (Color { r: 0, g: 0, b: 0, a: 0 }),
    {
        Color { r: 0, g: 0, b: 0, a: 0 }
    }

    /// A grey of the given intensity and opacity.
    pub fn from_intensity(intensity: u8, alpha: u8) -> (color: Color)
        ensures
            color == (Color { r: intensity, g: intensity, b: intensity, a: alpha }),
    {
        Color { r: intensity, g: intensity, b: intensity, a: alpha }
    }

    /// The four channels in the order red, green, blue, alpha.
    pub fn channels(&self) -> (c: (u8, u8, u8, u8))
        ensures
            c == (self.r, self.g, self.b, self.a),
    {
        (self.r, self.g, self.b, self.a)
    }
}

impl PartialEq for Color {
    fn eq(&self, other: &Color) -> (equal: bool) {
        self.r == other.r && self.g == other.g && self.b == other.b && self.a == other.a
    }
}

impl Eq for Color {

}

impl vstd::std_specs::cmp::PartialEqSpecImpl for Color {
    open spec fn obeys_eq_spec() -> bool {
        true
    }

    open spec fn eq_spec(&self, other: &Color) -> bool {
        self.r == other.r && self.g == other.g && self.b == other.b && self.a == other.a
    }
}

/// A colour equals the four numbers that are its channels, in the order red,
/// green, blue, alpha.
impl PartialEq<(u8, u8, u8, u8)> for Color {
    fn eq(&self, other: &(u8, u8, u8, u8)) -> (equal: bool) {
        self.r == other.0 && self.g == other.1 && self.b == other.2 && self.a == other.3
    }
}

impl vstd::std_specs::cmp::PartialEqSpecImpl<(u8, u8, u8, u8)> for Color {
    open spec fn obeys_eq_spec() -> bool {
        true
    }

    open spec fn eq_spec(&self, other: &(u8, u8, u8, u8)) -> bool {
        self.r == other.0 && self.g == other.1 && self.b == other.2 && self.a == other.3
    }
}

impl PartialEq<Color> for (u8, u8, u8, u8) {
    fn eq(&self, other: &Color) -> (equal: bool) {
        self.0 == other.r && self.1 == other.g && self.2 == other.b && self.3 == other.a
    }
}

impl vstd::std_specs::cmp::PartialEqSpecImpl<Color> for (u8, u8, u8, u8) {
    open spec fn obeys_eq_spec() -> bool {
        true
    }

    open spec fn eq_spec(&self, other: &Color) -> bool {
        self.0 == other.r && self.1 == other.g && self.2 == other.b && self.3 == other.a
    }
}

/// The shape of the pointer while it is over a widget.
#[derive(Clone, Copy, Debug, PartialEq, Eq, Structural)]
pub enum Cursor {
    Arrow,
    IBeam,
    Crosshair,
    Hand,
    HResize,
    VResize,
}

/// A button of the pointing device.
#[derive(Clone, Copy, Debug, PartialEq, Eq, Structural)]
pub enum MouseButton {
    Unknown,
    Left,
    Middle,
    Right,
    X1,
    X2,
}

/// A font that the drawing layer has loaded, known to it under `name`.
#[derive(Clone, Debug)]
pub struct Font {
    pub name: String,
}

} // verus!
