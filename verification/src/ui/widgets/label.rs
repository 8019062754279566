//! A line of text.

use vstd::prelude::*;
use vstd::string::*;
use crate::ui::bounding_box::{BoundingBox, in_i32};
use crate::ui::shape::{Shape, ShapeView, push_text, shapes_view};
use crate::ui::theme::{GrayTheme, spec_theme};

verus! {

/// Text at (`x`, `y`), or centred on `x` when `centered`.
#[derive(Debug, Clone, Copy, PartialEq, Eq)]
pub struct Label {
    pub x: i32,
    pub y: i32,
    pub text: &'static str,
    pub theme: GrayTheme,
    pub centered: bool,
}

/// The number of bytes of `s`.
pub open spec fn text_len(s: &str) -> int {
    s.spec_bytes().len() as int
}

impl Label {
    /// `text` at (`x`, `y`), left aligned.
    pub fn new(x: i32, y: i32, text: &'static str) -> (l: Self)
        ensures
            l == (Label { x, y, text, theme: spec_theme(), centered: false }),
    {
        Label { x, y, text, theme: GrayTheme::new(), centered: false }
    }

    /// The label in `theme`.
    pub fn with_theme(self, theme: GrayTheme) -> (l: Self)
        ensures
            l == (Label { theme, ..self }),
    {
        Label { theme, ..self }
    }

    /// The label centred on its `x`.
    pub fn centered(self) -> (l: Self)
        ensures
            l == (Label { centered: true, ..self }),
    {
        Label { centered: true, ..self }
    }

    /// Whether the box arithmetic stays in `i32`.
    pub open spec fn fits(&self) -> bool {
        &&& text_len(self.text) * 12 <= i32::MAX
        &&& in_i32(self.x - text_len(self.text) * 6)
    }

    /// The box the text takes: 12 pixels a byte, 20 high, centred on `x`
    /// when the label is centred.
    pub fn bounding_box(&self) -> (b: BoundingBox)
        requires
            self.fits(),
        ensures
            b.width == text_len(self.text) * 12,
            b.height == 20,
            b.y == self.y,
            b.x == if self.centered {
                self.x - text_len(self.text) * 6
            } else {
                self.x as int
            },
    {
        let width = (self.text.len() * 12) as u32;
        let height = 20u32;
        if self.centered {
            BoundingBox::new(self.x - width as i32 / 2, self.y, width, height)
        } else {
            BoundingBox::new(self.x, self.y, width, height)
        }
    }

    /// What the label draws: its text in the text colour, centred on `x`
    /// by half of 6 pixels a byte when centred.
    pub fn shapes(&self) -> (v: Vec<Shape>)
        requires
            self.fits(),
        ensures
            shapes_view(v@) == seq![
                ShapeView::Text {
                    x: if self.centered {
                        self.x - text_len(self.text) * 3
                    } else {
                        self.x as int
                    },
                    y: self.y as int,
                    text: self.text@,
                    color: self.theme.g0,
                },
            ],
    {
        let mut out: Vec<Shape> = Vec::new();
        let x = if self.centered {
            self.x - (self.text.len() * 6) as i32 / 2
        } else {
            self.x
        };
        push_text(&mut out, x, self.y, self.text, self.theme.text());
        assert(shapes_view(out@) =~= seq![
            ShapeView::Text { x: x as int, y: self.y as int, text: self.text@, color: self.theme.g0 },
        ]);
        out
    }
}

} // verus!
