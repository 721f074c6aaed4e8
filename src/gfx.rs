//! Indexed-color images, their compositing, sprites and the screen.

pub mod blit;
pub mod image;
pub mod palettes;
pub mod screen;
pub mod sprite;

use vstd::prelude::*;

verus! {

/// One displayable color, four channels in RGBA order.
pub type Color = [u8; 4];

/// Width of the logical display in pixels.
pub const SCREEN_WIDTH: u32 = 160;

/// Height of the logical display in pixels.
pub const SCREEN_HEIGHT: u32 = 144;

/// Pixel values below this are color indices; the others mark transparency.
pub const PALETTE_LEN: u8 = 4;

} // verus!
