//! The air pressure card.

use vstd::prelude::*;
use vstd::string::*;
use crate::ui::bounding_box::{BoundingBox, in_i32};
use crate::ui::shape::{Shape, ShapeView, framed, push_frame, push_text, shapes_view};
use crate::ui::theme::{GrayTheme, spec_theme};
use crate::ui::widgets::card::card_text_fits;
use crate::ui::widgets::label::text_len;

verus! {

/// A 100x200 card showing air pressure: title, a "P" mark, the current
/// value, the highest and the lowest.
#[derive(Debug, Clone, Copy, PartialEq, Eq)]
pub struct PressureCard {
    pub x: i32,
    pub y: i32,
    pub width: u32,
    pub height: u32,
    pub theme: GrayTheme,
}

impl PressureCard {
    /// A card at (`x`, `y`).
    pub fn new(x: i32, y: i32) -> (c: Self)
        ensures
            c == (PressureCard { x, y, width: 100, height: 200, theme: spec_theme() }),
    {
        PressureCard { x, y, width: 100, height: 200, theme: GrayTheme::new() }
    }

    /// The card in `theme`.
    pub fn with_theme(self, theme: GrayTheme) -> (c: Self)
        ensures
            c == (PressureCard { theme, ..self }),
    {
        PressureCard { theme, ..self }
    }

    /// The card's box.
    pub fn bounding_box(&self) -> (b: BoundingBox)
        ensures
            b == (BoundingBox { x: self.x, y: self.y, width: self.width, height: self.height }),
    {
        BoundingBox::new(self.x, self.y, self.width, self.height)
    }

    /// What the card draws with the formatted `value`, `high` and `low`: a
    /// light box with dark edges, the title, the mark and the value
    /// centred, the highest and the lowest one above the other.
    pub fn shapes(&self, value: &str, high: &str, low: &str) -> (v: Vec<Shape>)
        requires
            card_text_fits(self.x, self.y, self.width, self.height),
            in_i32(self.y + 145),
            text_len(value) <= 16,
        ensures
            shapes_view(v@) == framed(
                self.x as int,
                self.y as int,
                self.width as int,
                self.height as int,
                self.theme.g7,
                self.theme.g0,
                self.theme.g0,
                self.theme.g0,
                self.theme.g0,
            ) + seq![
                ShapeView::Text {
                    x: self.x + self.width / 2 - 25,
                    y: self.y + 5,
                    text: "PRESS"@,
                    color: self.theme.g0,
                },
                ShapeView::Text {
                    x: self.x + self.width / 2 - 5,
                    y: self.y + 35,
                    text: "P"@,
                    color: self.theme.g0,
                },
                ShapeView::Text {
                    x: self.x + self.width / 2 - text_len(value) * 5,
                    y: self.y + 80,
                    text: value@,
                    color: self.theme.g0,
                },
                ShapeView::Text { x: self.x + 10, y: self.y + 120, text: high@, color: self.theme.g0 },
                ShapeView::Text { x: self.x + 10, y: self.y + 145, text: low@, color: self.theme.g0 },
            ],
    {
        let ink = self.theme.g0;
        let mut out: Vec<Shape> = Vec::new();
        push_frame(&mut out, self.x, self.y, self.width, self.height, self.theme.g7, ink, ink, ink, ink);
        let ghost framed_part = shapes_view(out@);
        let title = "PRESS";
        proof {
            reveal_strlit("PRESS");
            assert(is_ascii(title));
        }
        let center = self.x + self.width as i32 / 2;
        push_text(&mut out, center - title.len() as i32 * 5, self.y + 5, title, ink);
        push_text(&mut out, center - 5, self.y + 35, "P", ink);
        push_text(&mut out, center - value.len() as i32 * 5, self.y + 80, value, ink);
        push_text(&mut out, self.x + 10, self.y + 120, high, ink);
        push_text(&mut out, self.x + 10, self.y + 145, low, ink);
        assert(shapes_view(out@) =~= framed_part + seq![
            ShapeView::Text { x: self.x + self.width / 2 - 25, y: self.y + 5, text: "PRESS"@, color: ink },
            ShapeView::Text { x: self.x + self.width / 2 - 5, y: self.y + 35, text: "P"@, color: ink },
            ShapeView::Text {
                x: self.x + self.width / 2 - text_len(value) * 5,
                y: self.y + 80,
                text: value@,
                color: ink,
            },
            ShapeView::Text { x: self.x + 10, y: self.y + 120, text: high@, color: ink },
            ShapeView::Text { x: self.x + 10, y: self.y + 145, text: low@, color: ink },
        ]);
        out
    }
}

} // verus!
