//! A push button.

use vstd::prelude::*;
use crate::ui::bounding_box::{BoundingBox, in_i32};
use crate::ui::shape::{Color, Shape, ShapeView, frame_fits, framed, push_frame, push_text, shapes_view};
use crate::ui::theme::{GrayTheme, spec_theme};
use crate::ui::widgets::label::text_len;

verus! {

/// A button with a caption.
#[derive(Debug, Clone, Copy, PartialEq, Eq)]
pub struct Button {
    pub x: i32,
    pub y: i32,
    pub width: u32,
    pub height: u32,
    pub text: &'static str,
    pub theme: GrayTheme,
    pub pressed: bool,
    pub id: u32,
    pub enabled: bool,
}

/// The fill of a button: disabled, else pressed, else at rest.
pub open spec fn button_fill(b: Button) -> Color {
    if !b.enabled {
        b.theme.g5
    } else if b.pressed {
        b.theme.g1
    } else {
        b.theme.g4
    }
}

/// The top and left edges of a button: lighter when pressed.
pub open spec fn button_edge(b: Button) -> Color {
    if b.pressed {
        b.theme.g2
    } else {
        b.theme.g0
    }
}

impl Button {
    /// An enabled button at rest.
    pub fn new(id: u32, x: i32, y: i32, width: u32, height: u32, text: &'static str) -> (b: Self)
        ensures
            b == (Button {
                x,
                y,
                width,
                height,
                text,
                theme: spec_theme(),
                pressed: false,
                id,
                enabled: true,
            }),
    {
        Button { x, y, width, height, text, theme: GrayTheme::new(), pressed: false, id, enabled: true }
    }

    /// The button in `theme`.
    pub fn with_theme(self, theme: GrayTheme) -> (b: Self)
        ensures
            b == (Button { theme, ..self }),
    {
        Button { theme, ..self }
    }

    /// The button's box.
    pub fn bounding_box(&self) -> (b: BoundingBox)
        ensures
            b == (BoundingBox { x: self.x, y: self.y, width: self.width, height: self.height }),
    {
        BoundingBox::new(self.x, self.y, self.width, self.height)
    }

    /// Whether (`x`, `y`) lies on the button.
    pub fn contains(&self, x: i32, y: i32) -> (r: bool)
        requires
            self.bounding_box_fits(),
        ensures
            r == (BoundingBox { x: self.x, y: self.y, width: self.width, height: self.height }).holds(
                x as int,
                y as int,
            ),
    {
        self.bounding_box().contains(x, y)
    }

    /// Whether the button's box has edges in `i32`.
    pub open spec fn bounding_box_fits(&self) -> bool {
        (BoundingBox { x: self.x, y: self.y, width: self.width, height: self.height }).edges_fit()
    }

    /// Whether the drawing arithmetic stays in `i32`.
    pub open spec fn fits(&self) -> bool {
        &&& frame_fits(self.x, self.y, self.width, self.height)
        &&& text_len(self.text) * 6 <= i32::MAX
        &&& in_i32(self.x + self.width / 2)
        &&& in_i32(self.x + self.width / 2 - text_len(self.text) * 3)
        &&& in_i32(self.y + self.height / 2)
        &&& in_i32(self.y + self.height / 2 - 5)
    }

    /// What the button draws: its box in the fill colour with the top and
    /// left edges in the edge colour and the bottom and right edges in the
    /// border colour, then the caption centred.
    pub fn shapes(&self) -> (v: Vec<Shape>)
        requires
            self.fits(),
        ensures
            shapes_view(v@) == framed(
                self.x as int,
                self.y as int,
                self.width as int,
                self.height as int,
                button_fill(*self),
                button_edge(*self),
                self.theme.g0,
                button_edge(*self),
                self.theme.g0,
            ).push(
                ShapeView::Text {
                    x: self.x + self.width / 2 - text_len(self.text) * 3,
                    y: self.y + self.height / 2 - 5,
                    text: self.text@,
                    color: self.theme.g0,
                },
            ),
    {
        let btn_color = if !self.enabled {
            self.theme.disabled()
        } else if self.pressed {
            self.theme.pressed()
        } else {
            self.theme.primary()
        };
        let border_color = if self.pressed {
            self.theme.g2
        } else {
            self.theme.border()
        };
        let mut out: Vec<Shape> = Vec::new();
        push_frame(
            &mut out,
            self.x,
            self.y,
            self.width,
            self.height,
            btn_color,
            border_color,
            self.theme.border(),
            border_color,
            self.theme.border(),
        );
        let tx = self.x + self.width as i32 / 2 - (self.text.len() * 6) as i32 / 2;
        let ty = self.y + self.height as i32 / 2 - 5;
        push_text(&mut out, tx, ty, self.text, self.theme.text());
        out
    }
}

} // verus!
