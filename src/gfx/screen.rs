use vstd::prelude::*;

use super::image::{is_color, Image};
use super::{Color, PALETTE_LEN, SCREEN_HEIGHT, SCREEN_WIDTH};
use crate::math::size::Size;

verus! {

/// The logical frame buffer: an indexed image and the palette it is shown with.
pub struct Screen {
    pub image: Image,
    pub colors: [Color; 4],
}

/// The four bytes emitted for one pixel of color `c` (stored RGBA): blue,
/// green, red, alpha.
pub open spec fn emitted(c: Color) -> Seq<u8> {
    seq![c@[2], c@[1], c@[0], c@[3]]
}

impl Screen {
    /// A display-sized image of index 0, with an all-zero palette.
    pub fn new() -> (r: Screen)
        ensures
            r.image@.size == (Size { width: SCREEN_WIDTH, height: SCREEN_HEIGHT }),
            r.image@.pixels == Seq::new(r.image@.size.area(), |_i: int| 0u8),
            r.colors@ == seq![[0u8, 0, 0, 0], [0u8, 0, 0, 0], [0u8, 0, 0, 0], [0u8, 0, 0, 0]],
    {
        proof {
            let (w, h) = (SCREEN_WIDTH as int, SCREEN_HEIGHT as int);
            assert(w * h <= usize::MAX) by (nonlinear_arith)
                requires
                    w == 160,
                    h == 144,
            ;
        }
        let image = Image::new((SCREEN_WIDTH, SCREEN_HEIGHT), 0u8);
        let colors = [[0, 0, 0, 0], [0, 0, 0, 0], [0, 0, 0, 0], [0, 0, 0, 0]];
        Screen { image: image, colors: colors }
    }

    /// Whether every pixel of the image is a color index, so that the palette
    /// resolves it.
    pub open spec fn resolvable(&self) -> bool {
        forall|i: int| 0 <= i < self.image@.pixels.len() ==> is_color(#[trigger] self.image@.pixels[i])
    }

    /// The bytes of a resolved frame: for each pixel, the palette entry it
    /// selects, emitted as `emitted` gives it.
    pub open spec fn is_frame(&self, frame: Seq<u8>) -> bool {
        &&& frame.len() == 4 * self.image@.pixels.len()
        &&& forall|i: int, c: int|
            0 <= i < self.image@.pixels.len() && 0 <= c < 4 ==> #[trigger] frame[4 * i + c]
                == emitted(self.colors@[self.image@.pixels[i] as int])[c]
    }

    /// Whether every pixel of the image is a color index.
    pub fn is_resolvable(&self) -> (r: bool)
        ensures
            r == self.resolvable(),
    {
        let buf = self.image.buffer();
        let mut i: usize = 0;
        while i < buf.len()
            invariant
                buf@ == self.image@.pixels,
                i <= buf@.len(),
                forall|j: int| 0 <= j < i ==> is_color(#[trigger] self.image@.pixels[j]),
            decreases buf@.len() - i,
        {
            if buf[i] >= PALETTE_LEN {
                return false;
            }
            i = i + 1;
        }
        true
    }

    /// Resolve every pixel through the palette into a packed frame of four bytes
    /// per pixel, in blue, green, red, alpha order.
    pub fn resolve(&self) -> (r: Vec<u8>)
        requires
            self.resolvable(),
        ensures
            self.is_frame(r@),
    {
        let buf = self.image.buffer();
        let n = buf.len();
        let mut out: Vec<u8> = Vec::new();
        let mut i: usize = 0;
        while i < n
            invariant
                n == self.image@.pixels.len(),
                buf@ == self.image@.pixels,
                self.resolvable(),
                i <= n,
                out@.len() == 4 * i,
                forall|j: int, c: int|
                    0 <= j < i && 0 <= c < 4 ==> #[trigger] out@[4 * j + c] == emitted(
                        self.colors@[self.image@.pixels[j] as int],
                    )[c],
            decreases n - i,
        {
            let p = buf[i];
            assert(is_color(p));
            let col = self.colors[p as usize];
            out.push(col[2]);
            out.push(col[1]);
            out.push(col[0]);
            out.push(col[3]);
            proof {
                assert forall|j: int, c: int| 0 <= j < i + 1 && 0 <= c < 4 implies #[trigger] out@[4
                    * j + c] == emitted(self.colors@[self.image@.pixels[j] as int])[c] by {
                    if j < i {
                        assert(4 * j + c < 4 * i);
                    }
                }
            }
            i = i + 1;
        }
        out
    }
}

} // verus!
