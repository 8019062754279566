//! 16x16 one-bit icons, drawn scaled.

use vstd::prelude::*;
use crate::ui::bounding_box::in_i32;
use crate::ui::shape::{Color, Shape, ShapeView, fill, push_shape, shapes_view};

verus! {

/// The icons.
#[derive(Debug, Clone, Copy, PartialEq, Eq)]
pub enum PixelIcon {
    /// A thermometer.
    Thermo,
    /// A drop.
    Humid,
    /// A house.
    Home,
    /// A gear.
    Settings,
}

/// An icon's bitmap: 16 rows of two bytes, the most significant bit of the
/// first byte leftmost.
pub open spec fn icon_data(icon: PixelIcon) -> [u8; 32] {
    match icon {
        PixelIcon::Thermo => [
            0x03u8, 0xC0u8, 0x04u8, 0x20u8, 0x04u8, 0x20u8, 0x04u8, 0xA0u8,
            0x04u8, 0xA0u8, 0x04u8, 0xA0u8, 0x04u8, 0xA0u8, 0x04u8, 0xA0u8,
            0x08u8, 0x10u8, 0x11u8, 0x88u8, 0x13u8, 0xC8u8, 0x13u8, 0xC8u8,
            0x11u8, 0x88u8, 0x08u8, 0x10u8, 0x07u8, 0xE0u8, 0x00u8, 0x00u8,
        ],
        PixelIcon::Humid => [
            0x01u8, 0x80u8, 0x02u8, 0x40u8, 0x02u8, 0x40u8, 0x04u8, 0x20u8,
            0x04u8, 0x20u8, 0x08u8, 0x10u8, 0x10u8, 0x08u8, 0x20u8, 0x04u8,
            0x40u8, 0x02u8, 0x40u8, 0xC2u8, 0x42u8, 0x02u8, 0x20u8, 0x04u8,
            0x10u8, 0x08u8, 0x0Fu8, 0xF0u8, 0x00u8, 0x00u8, 0x00u8, 0x00u8,
        ],
        PixelIcon::Home => [
            0x01u8, 0x80u8, 0x02u8, 0x40u8, 0x04u8, 0x20u8, 0x08u8, 0x10u8,
            0x10u8, 0x08u8, 0x20u8, 0x04u8, 0x7Fu8, 0xFEu8, 0x08u8, 0x10u8,
            0x08u8, 0x10u8, 0x0Bu8, 0xD0u8, 0x0Au8, 0x50u8, 0x0Au8, 0x50u8,
            0x0Au8, 0xD0u8, 0x0Au8, 0x50u8, 0x0Fu8, 0xF0u8, 0x00u8, 0x00u8,
        ],
        PixelIcon::Settings => [
            0x01u8, 0x80u8, 0x02u8, 0x40u8, 0x38u8, 0x1Cu8, 0x40u8, 0x02u8,
            0x43u8, 0xC2u8, 0x84u8, 0x21u8, 0x88u8, 0x11u8, 0x88u8, 0x11u8,
            0x88u8, 0x11u8, 0x88u8, 0x11u8, 0x84u8, 0x21u8, 0x43u8, 0xC2u8,
            0x40u8, 0x02u8, 0x38u8, 0x1Cu8, 0x02u8, 0x40u8, 0x01u8, 0x80u8,
        ],
    }
}

/// Row `row` of a bitmap as 16 bits.
pub open spec fn row_bits(d: [u8; 32], row: int) -> u16 {
    (d[2 * row] as int * 256 + d[2 * row + 1] as int) as u16
}

/// Whether pixel (`col`, `row`) of a bitmap is set.
pub open spec fn pixel_on(d: [u8; 32], row: int, col: int) -> bool {
    (row_bits(d, row) >> ((15 - col) as u16)) & 1u16 == 1u16
}

/// What cell `k` (row `k / 16`, column `k % 16`) adds to the drawing: its
/// square when the pixel is set.
pub open spec fn icon_cell(icon: PixelIcon, x: int, y: int, scale: int, color: Color, k: int) -> Seq<ShapeView> {
    if pixel_on(icon_data(icon), k / 16, k % 16) {
        seq![fill(x + (k % 16) * scale, y + (k / 16) * scale, scale, scale, color)]
    } else {
        Seq::empty()
    }
}

/// The squares of cells `0..k`, in row-major order.
pub open spec fn icon_cells(icon: PixelIcon, x: int, y: int, scale: int, color: Color, k: int) -> Seq<ShapeView>
    decreases k,
{
    if k <= 0 {
        Seq::empty()
    } else {
        icon_cells(icon, x, y, scale, color, k - 1) + icon_cell(icon, x, y, scale, color, k - 1)
    }
}

impl PixelIcon {
    /// The icon's bitmap.
    pub fn data(&self) -> (d: [u8; 32])
        ensures
            d == icon_data(*self),
    {
        match self {
            PixelIcon::Thermo => [
                0x03u8, 0xC0u8, 0x04u8, 0x20u8, 0x04u8, 0x20u8, 0x04u8, 0xA0u8,
                0x04u8, 0xA0u8, 0x04u8, 0xA0u8, 0x04u8, 0xA0u8, 0x04u8, 0xA0u8,
                0x08u8, 0x10u8, 0x11u8, 0x88u8, 0x13u8, 0xC8u8, 0x13u8, 0xC8u8,
                0x11u8, 0x88u8, 0x08u8, 0x10u8, 0x07u8, 0xE0u8, 0x00u8, 0x00u8,
            ],
            PixelIcon::Humid => [
                0x01u8, 0x80u8, 0x02u8, 0x40u8, 0x02u8, 0x40u8, 0x04u8, 0x20u8,
                0x04u8, 0x20u8, 0x08u8, 0x10u8, 0x10u8, 0x08u8, 0x20u8, 0x04u8,
                0x40u8, 0x02u8, 0x40u8, 0xC2u8, 0x42u8, 0x02u8, 0x20u8, 0x04u8,
                0x10u8, 0x08u8, 0x0Fu8, 0xF0u8, 0x00u8, 0x00u8, 0x00u8, 0x00u8,
            ],
            PixelIcon::Home => [
                0x01u8, 0x80u8, 0x02u8, 0x40u8, 0x04u8, 0x20u8, 0x08u8, 0x10u8,
                0x10u8, 0x08u8, 0x20u8, 0x04u8, 0x7Fu8, 0xFEu8, 0x08u8, 0x10u8,
                0x08u8, 0x10u8, 0x0Bu8, 0xD0u8, 0x0Au8, 0x50u8, 0x0Au8, 0x50u8,
                0x0Au8, 0xD0u8, 0x0Au8, 0x50u8, 0x0Fu8, 0xF0u8, 0x00u8, 0x00u8,
            ],
            PixelIcon::Settings => [
                0x01u8, 0x80u8, 0x02u8, 0x40u8, 0x38u8, 0x1Cu8, 0x40u8, 0x02u8,
                0x43u8, 0xC2u8, 0x84u8, 0x21u8, 0x88u8, 0x11u8, 0x88u8, 0x11u8,
                0x88u8, 0x11u8, 0x88u8, 0x11u8, 0x84u8, 0x21u8, 0x43u8, 0xC2u8,
                0x40u8, 0x02u8, 0x38u8, 0x1Cu8, 0x02u8, 0x40u8, 0x01u8, 0x80u8,
            ],
        }
    }

    /// The squares that draw the icon at (`x`, `y`), each pixel `scale` by
    /// `scale`.
    pub fn squares(&self, x: i32, y: i32, scale: u32, color: Color) -> (v: Vec<Shape>)
        requires
            15 * scale <= i32::MAX,
            in_i32(x + 15 * scale),
            in_i32(y + 15 * scale),
        ensures
            shapes_view(v@) == icon_cells(*self, x as int, y as int, scale as int, color, 256),
    {
        let data = self.data();
        let mut out: Vec<Shape> = Vec::new();
        let mut row: usize = 0;
        while row < 16
            invariant
                row <= 16,
                data == icon_data(*self),
                15 * scale <= i32::MAX,
                in_i32(x + 15 * scale),
                in_i32(y + 15 * scale),
                shapes_view(out@) == icon_cells(*self, x as int, y as int, scale as int, color, 16 * row),
            decreases 16 - row,
        {
            let hi = data[row * 2];
            let lo = data[row * 2 + 1];
            let row_data: u16 = ((hi as u16) << 8u16) | (lo as u16);
            assert(row_data == hi as int * 256 + lo as int) by (bit_vector)
                requires
                    row_data == ((hi as u16) << 8u16) | (lo as u16),
            ;
            assert(row_data == row_bits(data, row as int));
            assert(row * scale <= 15 * scale) by (nonlinear_arith)
                requires
                    row < 16,
            ;
            let mut col: usize = 0;
            while col < 16
                invariant
                    row < 16,
                    col <= 16,
                    data == icon_data(*self),
                    row_data == row_bits(data, row as int),
                    15 * scale <= i32::MAX,
                    in_i32(x + 15 * scale),
                    in_i32(y + 15 * scale),
                    row * scale <= 15 * scale,
                    shapes_view(out@) == icon_cells(
                        *self,
                        x as int,
                        y as int,
                        scale as int,
                        color,
                        16 * row + col,
                    ),
                decreases 16 - col,
            {
                let k: Ghost<int> = Ghost(16 * row + col);
                assert(k@ / 16 == row && k@ % 16 == col);
                if (row_data >> ((15 - col) as u16)) & 1 == 1 {
                    assert(col * scale <= 15 * scale) by (nonlinear_arith)
                        requires
                            col < 16,
                    ;
                    let px = x + col as i32 * scale as i32;
                    let py = y + row as i32 * scale as i32;
                    push_shape(&mut out, Shape::Fill { x: px, y: py, w: scale, h: scale, color });
                }
                assert(shapes_view(out@) =~= icon_cells(
                    *self,
                    x as int,
                    y as int,
                    scale as int,
                    color,
                    16 * row + col + 1,
                ));
                col = col + 1;
            }
            row = row + 1;
        }
        out
    }
}

} // verus!
