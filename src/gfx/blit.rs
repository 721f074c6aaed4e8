use vstd::prelude::*;

use super::image::{Image, ImageView};
use crate::math::rect::{Rect, RectModel};

verus! {

/// The value of an optional rectangle.
pub open spec fn model_of(r: Option<Rect>) -> Option<RectModel> {
    match r {
        Some(r) => Some(r@),
        None => None,
    }
}

/// Something that can be composited onto an image.
pub trait Blit {
    /// Whether every pixel that `blit_to` reads or writes with these arguments
    /// lies inside the images involved.
    spec fn can_blit(&self, src: Option<RectModel>, target: ImageView, dst: Option<RectModel>) -> bool;

    /// The target image after `blit_to` with these arguments.
    spec fn blitted(
        &self,
        src: Option<RectModel>,
        target: ImageView,
        dst: Option<RectModel>,
    ) -> ImageView;

    /// Composite onto `target`; an absent rectangle stands for the whole image.
    fn blit_to(&self, src: Option<Rect>, target: &mut Image, dst: Option<Rect>)
        requires
            self.can_blit(model_of(src), old(target)@, model_of(dst)),
        ensures
            final(target)@ == self.blitted(model_of(src), old(target)@, model_of(dst)),
    ;
}

} // verus!
