//! The temperature or humidity card.

use vstd::prelude::*;
use vstd::string::*;
use crate::ui::bounding_box::{BoundingBox, in_i32};
use crate::ui::icons::PixelIcon;
use crate::ui::shape::{Shape, ShapeView, frame_fits, framed, push_frame, push_shape, push_text, shapes_view};
use crate::ui::theme::{GrayTheme, spec_theme};
use crate::ui::widgets::label::text_len;

verus! {

/// A 145x120 card showing temperature (`show_temp`) or humidity: title,
/// icon, the current value, the highest and the lowest.
#[derive(Debug, Clone, Copy, PartialEq, Eq)]
pub struct TempHumidCard {
    pub x: i32,
    pub y: i32,
    pub width: u32,
    pub height: u32,
    pub theme: GrayTheme,
    pub show_temp: bool,
}

/// Whether the text arithmetic of a card at `x`, `w` wide, stays in `i32`
/// for values of at most 16 bytes: the lowest text row is at `y + 90`.
pub open spec fn card_text_fits(x: i32, y: i32, w: u32, h: u32) -> bool {
    &&& frame_fits(x, y, w, h)
    &&& in_i32(x + w / 2)
    &&& in_i32(x + w / 2 - 80)
    &&& in_i32(x + 70)
    &&& in_i32(y + 90)
}

impl TempHumidCard {
    /// A card at (`x`, `y`).
    pub fn new(x: i32, y: i32, show_temp: bool) -> (c: Self)
        ensures
            c == (TempHumidCard { x, y, width: 145, height: 120, theme: spec_theme(), show_temp }),
    {
        TempHumidCard { x, y, width: 145, height: 120, theme: GrayTheme::new(), show_temp }
    }

    /// The card in `theme`.
    pub fn with_theme(self, theme: GrayTheme) -> (c: Self)
        ensures
            c == (TempHumidCard { theme, ..self }),
    {
        TempHumidCard { theme, ..self }
    }

    /// The card's box.
    pub fn bounding_box(&self) -> (b: BoundingBox)
        ensures
            b == (BoundingBox { x: self.x, y: self.y, width: self.width, height: self.height }),
    {
        BoundingBox::new(self.x, self.y, self.width, self.height)
    }

    /// The card's title.
    pub open spec fn title(&self) -> Seq<char> {
        if self.show_temp {
            "THERMO"@
        } else {
            "HUMID"@
        }
    }

    /// The length of the title.
    pub open spec fn title_len(&self) -> int {
        if self.show_temp {
            6
        } else {
            5
        }
    }

    /// What the card draws with the formatted `value`, `high` and `low`:
    /// a light box with dark edges, the title and the value centred, the
    /// icon doubled below the title, the highest and lowest side by side at
    /// the bottom.
    pub fn shapes(&self, value: &str, high: &str, low: &str) -> (v: Vec<Shape>)
        requires
            card_text_fits(self.x, self.y, self.width, self.height),
            text_len(value) <= 16,
        ensures
            shapes_view(v@) == framed(
                self.x as int,
                self.y as int,
                self.width as int,
                self.height as int,
                self.theme.g7,
                self.theme.g0,
                self.theme.g0,
                self.theme.g0,
                self.theme.g0,
            ) + seq![
                ShapeView::Text {
                    x: self.x + self.width / 2 - self.title_len() * 5,
                    y: self.y + 5,
                    text: self.title(),
                    color: self.theme.g0,
                },
                ShapeView::Icon {
                    icon: if self.show_temp {
                        PixelIcon::Thermo
                    } else {
                        PixelIcon::Humid
                    },
                    x: self.x + self.width / 2 - 8,
                    y: self.y + 30,
                    scale: 2,
                    color: self.theme.g0,
                },
                ShapeView::Text {
                    x: self.x + self.width / 2 - text_len(value) * 5,
                    y: self.y + 60,
                    text: value@,
                    color: self.theme.g0,
                },
                ShapeView::Text { x: self.x + 10, y: self.y + 90, text: high@, color: self.theme.g0 },
                ShapeView::Text { x: self.x + 70, y: self.y + 90, text: low@, color: self.theme.g0 },
            ],
    {
        let ink = self.theme.g0;
        let mut out: Vec<Shape> = Vec::new();
        push_frame(&mut out, self.x, self.y, self.width, self.height, self.theme.g7, ink, ink, ink, ink);
        let ghost framed_part = shapes_view(out@);
        let title = if self.show_temp {
            "THERMO"
        } else {
            "HUMID"
        };
        proof {
            reveal_strlit("THERMO");
            reveal_strlit("HUMID");
            assert(is_ascii(title));
        }
        let center = self.x + self.width as i32 / 2;
        push_text(&mut out, center - title.len() as i32 * 5, self.y + 5, title, ink);
        let icon = if self.show_temp {
            PixelIcon::Thermo
        } else {
            PixelIcon::Humid
        };
        push_shape(&mut out, Shape::Icon { icon, x: center - 8, y: self.y + 30, scale: 2, color: ink });
        push_text(&mut out, center - value.len() as i32 * 5, self.y + 60, value, ink);
        push_text(&mut out, self.x + 10, self.y + 90, high, ink);
        push_text(&mut out, self.x + 70, self.y + 90, low, ink);
        assert(shapes_view(out@) =~= framed_part + seq![
            ShapeView::Text {
                x: self.x + self.width / 2 - self.title_len() * 5,
                y: self.y + 5,
                text: self.title(),
                color: ink,
            },
            ShapeView::Icon { icon, x: self.x + self.width / 2 - 8, y: self.y + 30, scale: 2, color: ink },
            ShapeView::Text {
                x: self.x + self.width / 2 - text_len(value) * 5,
                y: self.y + 60,
                text: value@,
                color: ink,
            },
            ShapeView::Text { x: self.x + 10, y: self.y + 90, text: high@, color: ink },
            ShapeView::Text { x: self.x + 70, y: self.y + 90, text: low@, color: ink },
        ]);
        out
    }
}

} // verus!
