//! Conversion of decoded images into indexed images.

use vstd::prelude::*;

use crate::gfx::image::Image;

verus! {

/// The pixel value for one luma/alpha sample: one of the four shades where the
/// sample is all but opaque, else the transparency marker 4.
pub open spec fn index_of_sample(luma: u8, alpha: u8) -> u8 {
    if alpha > 240 {
        luma / 64
    } else {
        4
    }
}

/// An image of size `dims` (width, height) from 8-bit luma/alpha samples, two
/// bytes per pixel, row by row. Pixels past the samples stay 0; more samples
/// than pixels is an error.
pub fn load_image(dims: (u32, u32), luma_alpha: &Vec<u8>) -> (r: Result<Image, String>)
    requires
        dims.0 as nat * dims.1 as nat <= usize::MAX,
        dims.0 <= i32::MAX,
        dims.1 <= i32::MAX,
        luma_alpha@.len() % 2 == 0,
    ensures
        r is Ok <==> luma_alpha@.len() / 2 <= dims.0 * dims.1,
        r matches Ok(img) ==> {
            &&& img@.size.width == dims.0
            &&& img@.size.height == dims.1
            &&& forall|i: int|
                0 <= i < img@.pixels.len() ==> #[trigger] img@.pixels[i] == if i < luma_alpha@.len()
                    / 2 {
                    index_of_sample(luma_alpha@[2 * i], luma_alpha@[2 * i + 1])
                } else {
                    0
                }
        },
{
    let mut image = Image::new(dims, 0u8);
    let n = luma_alpha.len() / 2;
    let mut i: usize = 0;
    while i < n
        invariant
            n == luma_alpha@.len() / 2,
            luma_alpha@.len() % 2 == 0,
            luma_alpha@.len() <= usize::MAX,
            i <= n,
            i <= image@.pixels.len(),
            image@.size.width == dims.0,
            image@.size.height == dims.1,
            image@.pixels.len() == dims.0 * dims.1,
            forall|j: int|
                0 <= j < image@.pixels.len() ==> #[trigger] image@.pixels[j] == if j < i {
                    index_of_sample(luma_alpha@[2 * j], luma_alpha@[2 * j + 1])
                } else {
                    0
                },
        decreases n - i,
    {
        let luma = luma_alpha[2 * i];
        let alpha = luma_alpha[2 * i + 1];
        let v = if alpha > 240 {
            luma / 64
        } else {
            4
        };
        match image.set_index(i, v) {
            Ok(()) => {},
            Err(e) => {
                return Err(e);
            },
        }
        i = i + 1;
    }
    Ok(image)
}

} // verus!
