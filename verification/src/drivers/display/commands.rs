//! ILI9341 command codes.

use vstd::prelude::*;

verus! {

/// No operation.
pub const NOP: u8 = 0x00;
/// Software reset.
pub const SWRESET: u8 = 0x01;
/// Leave sleep mode.
pub const SLPOUT: u8 = 0x11;
/// Display on.
pub const DISPON: u8 = 0x29;
/// Column address set.
pub const CASET: u8 = 0x2A;
/// Page (row) address set.
pub const PASET: u8 = 0x2B;
/// Memory write.
pub const RAMWR: u8 = 0x2C;
/// Memory access control: scan direction and colour order.
pub const MADCTL: u8 = 0x36;
/// Pixel format.
pub const COLMOD: u8 = 0x3A;
/// Frame rate control.
pub const FRMCTR1: u8 = 0xB1;
/// Power control 1.
pub const PWCTR1: u8 = 0xC0;
/// Power control 2.
pub const PWCTR2: u8 = 0xC1;
/// VCOM control.
pub const VMCTR1: u8 = 0xC5;
/// Inversion off.
pub const INVOFF: u8 = 0x20;
/// Positive gamma correction.
pub const GMCTRP1: u8 = 0xE0;
/// Negative gamma correction.
pub const GMCTRN1: u8 = 0xE1;

} // verus!
