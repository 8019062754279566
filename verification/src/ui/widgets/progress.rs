//! A progress bar.

use vstd::prelude::*;
use crate::ui::bounding_box::{BoundingBox, in_i32};
use crate::ui::shape::{Shape, ShapeView, fill, frame_fits, framed, push_frame, push_shape, shapes_view};
use crate::ui::theme::{GrayTheme, spec_theme};

verus! {

/// A bar that fills from the left as its value goes from `min` to `max`.
/// `last_fill_width` is the fill that was drawn last.
#[derive(Debug, Clone, Copy, PartialEq, Eq)]
pub struct ProgressBar {
    pub x: i32,
    pub y: i32,
    pub width: u32,
    pub height: u32,
    pub value: i32,
    pub min: i32,
    pub max: i32,
    pub theme: GrayTheme,
    pub id: u32,
    pub last_fill_width: u32,
}

/// The fill of a bar `width` wide, `fill_w` of which is full: inside the
/// border, at most the inner width.
pub open spec fn bar_fill(x: int, y: int, width: int, height: int, fill_w: int, color: crate::ui::shape::Color) -> Seq<ShapeView> {
    if fill_w > 2 {
        seq![
            fill(
                x + 1,
                y + 1,
                if fill_w - 2 < width - 2 {
                    fill_w - 2
                } else {
                    width - 2
                },
                if height >= 2 {
                    height - 2
                } else {
                    0
                },
                color,
            ),
        ]
    } else {
        Seq::empty()
    }
}

/// `value` clamped to `min..=max`.
pub open spec fn clamp_value(value: i32, min: i32, max: i32) -> i32 {
    if value < min {
        min
    } else if value > max {
        max
    } else {
        value
    }
}

/// A value set on a bar lies in its range, and a value in the range is
/// kept as it is.
pub proof fn law_set_value_in_range(value: i32, min: i32, max: i32)
    requires
        min <= max,
    ensures
        min <= clamp_value(value, min, max) <= max,
        min <= value <= max ==> clamp_value(value, min, max) == value,
{
}

impl ProgressBar {
    /// An empty bar over 0..=100.
    pub fn new(id: u32, x: i32, y: i32, width: u32, height: u32) -> (p: Self)
        ensures
            p == (ProgressBar {
                x,
                y,
                width,
                height,
                value: 0,
                min: 0,
                max: 100,
                theme: spec_theme(),
                id,
                last_fill_width: 0,
            }),
    {
        ProgressBar {
            x,
            y,
            width,
            height,
            value: 0,
            min: 0,
            max: 100,
            theme: GrayTheme::new(),
            id,
            last_fill_width: 0,
        }
    }

    /// The bar in `theme`.
    pub fn with_theme(self, theme: GrayTheme) -> (p: Self)
        ensures
            p == (ProgressBar { theme, ..self }),
    {
        ProgressBar { theme, ..self }
    }

    /// The bar over `min..=max`.
    pub fn with_range(self, min: i32, max: i32) -> (p: Self)
        ensures
            p == (ProgressBar { min, max, ..self }),
    {
        ProgressBar { min, max, ..self }
    }

    /// Sets the value, clamped to the range.
    pub fn set_value(&mut self, value: i32)
        requires
            old(self).min <= old(self).max,
        ensures
            *final(self) == (ProgressBar { value: clamp_value(value, old(self).min, old(self).max), ..*old(self) }),
    {
        self.value = if value < self.min {
            self.min
        } else if value > self.max {
            self.max
        } else {
            value
        };
    }

    /// The bar's box.
    pub fn bounding_box(&self) -> (b: BoundingBox)
        ensures
            b == (BoundingBox { x: self.x, y: self.y, width: self.width, height: self.height }),
    {
        BoundingBox::new(self.x, self.y, self.width, self.height)
    }

    /// The box to redraw when the fill is now `fill_w`: none when it is the
    /// fill drawn last, else the whole bar.
    pub fn dirty_rect(&self, fill_w: u32) -> (r: Option<BoundingBox>)
        ensures
            r == if fill_w == self.last_fill_width {
                None
            } else {
                Some(BoundingBox { x: self.x, y: self.y, width: self.width, height: self.height })
            },
    {
        if fill_w == self.last_fill_width {
            return None;
        }
        Some(self.bounding_box())
    }

    /// Records that the bar was drawn with fill `fill_w`.
    pub fn mark_drawn(&mut self, fill_w: u32)
        ensures
            *final(self) == (ProgressBar { last_fill_width: fill_w, ..*old(self) }),
    {
        self.last_fill_width = fill_w;
    }

    /// Whether the drawing arithmetic stays in `i32`.
    pub open spec fn fits(&self) -> bool {
        &&& frame_fits(self.x, self.y, self.width, self.height)
        &&& in_i32(self.x + 1)
        &&& in_i32(self.y + 1)
    }

    /// What the bar draws with fill `fill_w`: its box in the background
    /// colour with border edges, then the fill in the third shade when it is
    /// wider than the border.
    pub fn shapes(&self, fill_w: u32) -> (v: Vec<Shape>)
        requires
            self.fits(),
            fill_w > 2 ==> self.width >= 2,
        ensures
            shapes_view(v@) == framed(
                self.x as int,
                self.y as int,
                self.width as int,
                self.height as int,
                self.theme.g7,
                self.theme.g0,
                self.theme.g0,
                self.theme.g0,
                self.theme.g0,
            ) + bar_fill(
                self.x as int,
                self.y as int,
                self.width as int,
                self.height as int,
                fill_w as int,
                self.theme.g2,
            ),
    {
        let mut out: Vec<Shape> = Vec::new();
        let border = self.theme.border();
        push_frame(
            &mut out,
            self.x,
            self.y,
            self.width,
            self.height,
            self.theme.background(),
            border,
            border,
            border,
            border,
        );
        let ghost framed_part = shapes_view(out@);
        if fill_w > 2 {
            let inner = self.width - 2;
            let w = if fill_w - 2 < inner { fill_w - 2 } else { inner };
            let h = if self.height >= 2 { self.height - 2 } else { 0 };
            push_shape(&mut out, Shape::Fill { x: self.x + 1, y: self.y + 1, w, h, color: self.theme.g2 });
        }
        assert(shapes_view(out@) =~= framed_part + bar_fill(
            self.x as int,
            self.y as int,
            self.width as int,
            self.height as int,
            fill_w as int,
            self.theme.g2,
        ));
        out
    }
}

} // verus!
