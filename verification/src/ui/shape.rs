//! What a widget draws: filled rectangles, text and icons, in order.

use vstd::prelude::*;
use crate::ui::bounding_box::in_i32;
use crate::ui::icons::PixelIcon;

verus! {

/// An RGB565 colour by its channels: red and blue of 5 bits, green of 6.
#[derive(Debug, Clone, Copy, PartialEq, Eq)]
pub struct Color {
    pub r: u8,
    pub g: u8,
    pub b: u8,
}

/// One drawing primitive.
#[derive(Debug, Clone, PartialEq, Eq)]
pub enum Shape {
    /// The rectangle at (`x`, `y`) of `w` by `h` pixels, filled.
    Fill { x: i32, y: i32, w: u32, h: u32, color: Color },
    /// `text` in the 10x20 font, its top left corner at (`x`, `y`).
    Text { x: i32, y: i32, text: String, color: Color },
    /// `icon` at (`x`, `y`), each of its pixels a `scale` by `scale` square.
    Icon { icon: PixelIcon, x: i32, y: i32, scale: u32, color: Color },
}

/// A [`Shape`] with its text taken as characters.
pub enum ShapeView {
    Fill { x: int, y: int, w: int, h: int, color: Color },
    Text { x: int, y: int, text: Seq<char>, color: Color },
    Icon { icon: PixelIcon, x: int, y: int, scale: int, color: Color },
}

impl View for Shape {
    type V = ShapeView;

    open spec fn view(&self) -> ShapeView {
        match self {
            Shape::Fill { x, y, w, h, color } => ShapeView::Fill {
                x: *x as int,
                y: *y as int,
                w: *w as int,
                h: *h as int,
                color: *color,
            },
            Shape::Text { x, y, text, color } => ShapeView::Text {
                x: *x as int,
                y: *y as int,
                text: text@,
                color: *color,
            },
            Shape::Icon { icon, x, y, scale, color } => ShapeView::Icon {
                icon: *icon,
                x: *x as int,
                y: *y as int,
                scale: *scale as int,
                color: *color,
            },
        }
    }
}

/// A list of shapes, each taken by its view.
pub open spec fn shapes_view(v: Seq<Shape>) -> Seq<ShapeView> {
    v.map_values(|s: Shape| s@)
}

/// A filled rectangle.
pub open spec fn fill(x: int, y: int, w: int, h: int, color: Color) -> ShapeView {
    ShapeView::Fill { x, y, w, h, color }
}

/// A box of `w` by `h` at (`x`, `y`): the background, then the top,
/// bottom, left and right edges, one pixel thick.
pub open spec fn framed(x: int, y: int, w: int, h: int, background: Color, top: Color, bottom: Color, left: Color, right: Color) -> Seq<ShapeView> {
    seq![
        fill(x, y, w, h, background),
        fill(x, y, w, 1, top),
        fill(x, y + h - 1, w, 1, bottom),
        fill(x, y, 1, h, left),
        fill(x + w - 1, y, 1, h, right),
    ]
}

/// Whether the box's far edges, as the drawing computes them, are `i32`
/// values.
pub open spec fn frame_fits(x: i32, y: i32, w: u32, h: u32) -> bool {
    &&& w <= i32::MAX
    &&& h <= i32::MAX
    &&& in_i32(x + w)
    &&& in_i32(x + w - 1)
    &&& in_i32(y + h)
    &&& in_i32(y + h - 1)
}

/// Appends `s` to `out`.
pub fn push_shape(out: &mut Vec<Shape>, s: Shape)
    ensures
        shapes_view(final(out)@) == shapes_view(old(out)@).push(s@),
{
    let ghost before = out@;
    out.push(s);
    assert(shapes_view(out@) =~= shapes_view(before).push(s@));
}

/// Appends the box of `w` by `h` at (`x`, `y`) to `out`.
pub fn push_frame(
    out: &mut Vec<Shape>,
    x: i32,
    y: i32,
    w: u32,
    h: u32,
    background: Color,
    top: Color,
    bottom: Color,
    left: Color,
    right: Color,
)
    requires
        frame_fits(x, y, w, h),
    ensures
        shapes_view(final(out)@) == shapes_view(old(out)@) + framed(
            x as int,
            y as int,
            w as int,
            h as int,
            background,
            top,
            bottom,
            left,
            right,
        ),
{
    let ghost before = shapes_view(out@);
    push_shape(out, Shape::Fill { x, y, w, h, color: background });
    push_shape(out, Shape::Fill { x, y, w, h: 1, color: top });
    push_shape(out, Shape::Fill { x, y: y + h as i32 - 1, w, h: 1, color: bottom });
    push_shape(out, Shape::Fill { x, y, w: 1, h, color: left });
    push_shape(out, Shape::Fill { x: x + w as i32 - 1, y, w: 1, h, color: right });
    assert(shapes_view(out@) =~= before + framed(
        x as int,
        y as int,
        w as int,
        h as int,
        background,
        top,
        bottom,
        left,
        right,
    ));
}

/// Appends `text` at (`x`, `y`) to `out`.
pub fn push_text(out: &mut Vec<Shape>, x: i32, y: i32, text: &str, color: Color)
    ensures
        shapes_view(final(out)@) == shapes_view(old(out)@).push(
            ShapeView::Text { x: x as int, y: y as int, text: text@, color },
        ),
{
    push_shape(out, Shape::Text { x, y, text: text.to_owned(), color });
}

} // verus!
