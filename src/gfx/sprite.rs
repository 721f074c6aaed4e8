use vstd::prelude::*;

use super::blit::{model_of, Blit};
use super::image::{default_rect, Image, ImageDelegate, ImageView};
use crate::math::rect::{rect_fits, Rect, RectModel};
use crate::math::Position;

verus! {

/// An image placed at an offset: its blit moves the destination rectangle by
/// the offset before compositing.
pub struct Sprite {
    image: ImageDelegate,
    offset: Position,
}

/// The destination rectangle (the whole target where none is given) moved by `offset`.
pub open spec fn offset_dst(dst: Option<RectModel>, target: ImageView, offset: Position) -> RectModel {
    let d = default_rect(dst, target);
    RectModel { x: d.x + offset.x, y: d.y + offset.y, w: d.w, h: d.h }
}

impl Sprite {
    pub closed spec fn delegate(&self) -> ImageDelegate {
        self.image
    }

    pub closed spec fn placed_at(&self) -> Position {
        self.offset
    }

    pub fn new(im: ImageDelegate, offset: Position) -> (r: Self)
        ensures
            r.delegate() == im,
            r.placed_at() == offset,
    {
        Sprite { image: im, offset: offset }
    }
}

impl Blit for Sprite {
    open spec fn can_blit(
        &self,
        src: Option<RectModel>,
        target: ImageView,
        dst: Option<RectModel>,
    ) -> bool {
        let m = offset_dst(dst, target, self.placed_at());
        &&& i32::MIN <= m.x
        &&& i32::MIN <= m.y
        &&& rect_fits(m.x, m.y, m.w as int, m.h as int)
        &&& self.delegate().can_blit(src, target, Some(m))
    }

    open spec fn blitted(
        &self,
        src: Option<RectModel>,
        target: ImageView,
        dst: Option<RectModel>,
    ) -> ImageView {
        self.delegate().blitted(src, target, Some(offset_dst(dst, target, self.placed_at())))
    }

    fn blit_to(&self, src: Option<Rect>, target: &mut Image, dst: Option<Rect>) {
        proof {
            use_type_invariant(&*target);
        }
        let dst: Rect = if let Some(r) = dst {
            proof {
                use_type_invariant(&r);
            }
            Rect::new(r.x() + self.offset.x, r.y() + self.offset.y, r.w(), r.h())
        } else {
            let size = target.size();
            Rect::new(self.offset.x, self.offset.y, size.width, size.height)
        };
        self.image.blit_to(src, target, Some(dst));
    }
}

} // verus!
