//! The colour theme: eight shades of blue, darkest first.

use vstd::prelude::*;
use crate::ui::shape::Color;

verus! {

/// Eight shades from deep sea blue (`g0`) to sky white (`g7`).
#[derive(Debug, Clone, Copy, PartialEq, Eq)]
pub struct LightBlueTheme {
    pub g0: Color,
    pub g1: Color,
    pub g2: Color,
    pub g3: Color,
    pub g4: Color,
    pub g5: Color,
    pub g6: Color,
    pub g7: Color,
}

/// The theme the widgets use.
pub type GrayTheme = LightBlueTheme;

/// The shades, as the RGB565 channels they are made from.
pub open spec fn spec_theme() -> LightBlueTheme {
    LightBlueTheme {
        g0: Color { r: 2, g: 10, b: 24 },
        g1: Color { r: 4, g: 16, b: 34 },
        g2: Color { r: 6, g: 22, b: 44 },
        g3: Color { r: 9, g: 30, b: 52 },
        g4: Color { r: 12, g: 38, b: 58 },
        g5: Color { r: 16, g: 48, b: 68 },
        g6: Color { r: 22, g: 58, b: 76 },
        g7: Color { r: 28, g: 62, b: 80 },
    }
}

impl LightBlueTheme {
    /// The theme.
    pub fn new() -> (t: Self)
        ensures
            t == spec_theme(),
    {
        LightBlueTheme {
            g0: Color { r: 2, g: 10, b: 24 },
            g1: Color { r: 4, g: 16, b: 34 },
            g2: Color { r: 6, g: 22, b: 44 },
            g3: Color { r: 9, g: 30, b: 52 },
            g4: Color { r: 12, g: 38, b: 58 },
            g5: Color { r: 16, g: 48, b: 68 },
            g6: Color { r: 22, g: 58, b: 76 },
            g7: Color { r: 28, g: 62, b: 80 },
        }
    }

    /// Text: the darkest shade.
    pub fn text(&self) -> (c: Color)
        ensures
            c == self.g0,
    {
        self.g0
    }

    /// Borders: the darkest shade.
    pub fn border(&self) -> (c: Color)
        ensures
            c == self.g0,
    {
        self.g0
    }

    /// Backgrounds: the lightest shade.
    pub fn background(&self) -> (c: Color)
        ensures
            c == self.g7,
    {
        self.g7
    }

    /// A button at rest.
    pub fn primary(&self) -> (c: Color)
        ensures
            c == self.g4,
    {
        self.g4
    }

    /// A pressed button.
    pub fn pressed(&self) -> (c: Color)
        ensures
            c == self.g1,
    {
        self.g1
    }

    /// A disabled button.
    pub fn disabled(&self) -> (c: Color)
        ensures
            c == self.g5,
    {
        self.g5
    }
}

impl Default for LightBlueTheme {
    /// The theme.
    fn default() -> (t: Self)
        ensures
            t == spec_theme(),
    {
        Self::new()
    }
}

} // verus!
