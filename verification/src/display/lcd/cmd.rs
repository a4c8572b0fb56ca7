//! ST7789V command set.
use vstd::prelude::*;

verus! {

pub const SWRESET: u8 = 0x01;
pub const SLPOUT: u8 = 0x11;
pub const NORON: u8 = 0x13;
pub const INVON: u8 = 0x21;
pub const DISPON: u8 = 0x29;
pub const CASET: u8 = 0x2A;
pub const RASET: u8 = 0x2B;
pub const RAMWR: u8 = 0x2C;
pub const MADCTL: u8 = 0x36;
pub const COLMOD: u8 = 0x3A;
pub const FRMCTR1: u8 = 0xB1;
pub const FRMCTR2: u8 = 0xB2;
pub const PWCTRL1: u8 = 0xD0;

} // verus!
