use vstd::prelude::*;

use super::Color;

verus! {

/// Four shades from darkest to lightest.
pub fn default_colors() -> (r: [Color; 4])
    ensures
        r@ == seq![[15u8, 56, 15, 255], [48u8, 98, 48, 255], [139u8, 172, 15, 255], [155u8, 188, 15, 255]],
{
    [[15, 56, 15, 255], [48, 98, 48, 255], [139, 172, 15, 255], [155, 188, 15, 255]]
}

} // verus!
