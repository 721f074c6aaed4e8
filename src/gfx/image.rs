use vstd::prelude::*;

use std::rc::Rc;

use vstd::arithmetic::div_mod::{lemma_fundamental_div_mod, lemma_fundamental_div_mod_converse};
use vstd::arithmetic::mul::lemma_mul_is_commutative;
use vstd::std_specs::convert::IntoSpec;

use super::blit::{model_of, Blit};
use super::PALETTE_LEN;
use crate::math::rect::{Rect, RectModel};
use crate::math::size::Size;

verus! {

/// The mathematical value of an image: its size and its pixels, row by row
/// from the top-left corner.
pub struct ImageView {
    pub size: Size,
    pub pixels: Seq<u8>,
}

impl ImageView {
    pub open spec fn width(self) -> nat {
        self.size.width as nat
    }

    pub open spec fn height(self) -> nat {
        self.size.height as nat
    }

    /// One pixel per position, and a size whose bounds a `Rect` can hold.
    pub open spec fn wf(self) -> bool {
        &&& self.pixels.len() == self.size.area()
        &&& self.size.width <= i32::MAX
        &&& self.size.height <= i32::MAX
    }

    pub open spec fn in_bounds(self, x: int, y: int) -> bool {
        0 <= x < self.width() && 0 <= y < self.height()
    }

    /// Where the pixel at `(x, y)` is stored.
    pub open spec fn index(self, x: int, y: int) -> int {
        y * self.width() + x
    }

    pub open spec fn pixel(self, x: int, y: int) -> u8 {
        self.pixels[self.index(x, y)]
    }

    /// The rectangle that the whole image covers.
    pub open spec fn bounds(self) -> RectModel {
        RectModel { x: 0, y: 0, w: self.width(), h: self.height() }
    }

    /// Whether `w` lies inside the image.
    pub open spec fn holds(self, w: RectModel) -> bool {
        0 <= w.x && 0 <= w.y && w.max_x() <= self.width() && w.max_y() <= self.height()
    }
}

/// Whether a pixel value is a color index; the other values mark transparency.
pub open spec fn is_color(v: u8) -> bool {
    v < PALETTE_LEN
}

/// `dst` where every pixel inside `window` whose value in `src` (at the same
/// coordinates) is a color index takes that value; every other pixel is kept.
pub open spec fn composite(src: ImageView, dst: ImageView, window: RectModel) -> ImageView {
    ImageView {
        size: dst.size,
        pixels: Seq::new(
            dst.pixels.len(),
            |i: int|
                {
                    let x = i % dst.width() as int;
                    let y = i / dst.width() as int;
                    if window.contains(x, y) && is_color(src.pixel(x, y)) {
                        src.pixel(x, y)
                    } else {
                        dst.pixels[i]
                    }
                },
        ),
    }
}

/// The rectangle a blit uses in place of an absent one: the whole image.
pub open spec fn default_rect(r: Option<RectModel>, img: ImageView) -> RectModel {
    match r {
        Some(r) => r,
        None => img.bounds(),
    }
}

/// The window a blit copies through: the source rectangle clipped into the
/// destination rectangle, both in one coordinate space.
pub open spec fn blit_window(
    src_img: ImageView,
    src: Option<RectModel>,
    dst_img: ImageView,
    dst: Option<RectModel>,
) -> RectModel {
    default_rect(src, src_img).clip(default_rect(dst, dst_img))
}

/// An indexed-color image: one byte per pixel, row by row from the top-left
/// corner. Values below `PALETTE_LEN` are color indices; the others are
/// transparent when the image is composited.
pub struct Image {
    buffer: Vec<u8>,
    size: Size,
}

impl View for Image {
    type V = ImageView;

    closed spec fn view(&self) -> ImageView {
        ImageView { size: self.size, pixels: self.buffer@ }
    }
}

proof fn lemma_index_in_buffer(v: ImageView, x: int, y: int)
    requires
        v.in_bounds(x, y),
    ensures
        0 <= v.index(x, y) < v.size.area(),
        0 <= y * v.width() <= v.index(x, y),
{
    let w = v.width() as int;
    let h = v.height() as int;
    assert(0 <= y * w) by (nonlinear_arith)
        requires
            0 <= y,
            0 <= w,
    ;
    assert((y + 1) * w <= h * w) by (nonlinear_arith)
        requires
            y + 1 <= h,
            0 <= w,
    ;
    assert((y + 1) * w == y * w + w) by (nonlinear_arith);
}

/// Pixels in `window` at rows before `row`, or in `row` before column `col`,
/// have been composited from `src`; the others are as in `dst`.
spec fn composite_upto(
    src: ImageView,
    dst: ImageView,
    window: RectModel,
    row: int,
    col: int,
) -> Seq<u8> {
    Seq::new(
        dst.pixels.len(),
        |i: int|
            {
                let x = i % dst.width() as int;
                let y = i / dst.width() as int;
                if window.contains(x, y) && (y < row || (y == row && x < col)) && is_color(
                    src.pixel(x, y),
                ) {
                    src.pixel(x, y)
                } else {
                    dst.pixels[i]
                }
            },
    )
}

impl Image {
    /// Every value of the type satisfies this (`use_type_invariant`).
    #[verifier::type_invariant]
    pub open spec fn inv(&self) -> bool {
        self@.wf()
    }

    /// An image of the given size with every pixel set to `color`.
    pub fn new<S: Into<Size>>(size: S, color: u8) -> (r: Self)
        requires
            <S as IntoSpec<Size>>::obeys_into_spec(),
            size.into_spec().area() <= usize::MAX,
            size.into_spec().width <= i32::MAX,
            size.into_spec().height <= i32::MAX,
        ensures
            r@.size == size.into_spec(),
            r@.pixels == Seq::new(r@.size.area(), |_i: int| color),
    {
        let s: Size = size.into();
        let buffer = s.buffer(color);
        Image { buffer: buffer, size: s }
    }

    pub fn size(&self) -> (r: Size)
        ensures
            r == self@.size,
    {
        self.size
    }

    /// The pixels, row by row.
    pub fn buffer(&self) -> (r: &Vec<u8>)
        ensures
            r@ == self@.pixels,
    {
        &self.buffer
    }

    fn offset(&self, x: u32, y: u32) -> (r: usize)
        requires
            self@.in_bounds(x as int, y as int),
        ensures
            r == self@.index(x as int, y as int),
            r < self@.pixels.len(),
    {
        proof {
            use_type_invariant(self);
            lemma_index_in_buffer(self@, x as int, y as int);
        }
        let _n = self.buffer.len();
        (y as usize) * (self.size.width as usize) + (x as usize)
    }

    fn put(&mut self, i: usize, color: u8)
        requires
            i < old(self)@.pixels.len(),
        ensures
            final(self)@.size == old(self)@.size,
            final(self)@.pixels == old(self)@.pixels.update(i as int, color),
        no_unwind
    {
        proof {
            use_type_invariant(&*self);
        }
        self.buffer[i] = color;
    }

    /// Where the pixel at `position` (column, row) is stored, or an error
    /// where it lies outside the image.
    fn index_of_position(&self, position: (u32, u32)) -> (r: Result<usize, String>)
        ensures
            match r {
                Ok(i) => self@.in_bounds(position.0 as int, position.1 as int) && i == self@.index(
                    position.0 as int,
                    position.1 as int,
                ) && i < self@.pixels.len(),
                Err(_) => !self@.in_bounds(position.0 as int, position.1 as int),
            },
    {
        if position.0 >= self.size.width || position.1 >= self.size.height {
            return Err("error out of range".to_string());
        }
        Ok(self.offset(position.0, position.1))
    }

    /// Set the pixel at `position` (column, row); an error where it lies outside the image.
    pub fn set_pixel(&mut self, position: (u32, u32), color: u8) -> (r: Result<(), String>)
        ensures
            r is Ok <==> old(self)@.in_bounds(position.0 as int, position.1 as int),
            final(self)@.size == old(self)@.size,
            final(self)@.pixels == if r is Ok {
                old(self)@.pixels.update(
                    old(self)@.index(position.0 as int, position.1 as int),
                    color,
                )
            } else {
                old(self)@.pixels
            },
    {
        let i = match self.index_of_position(position) {
            Ok(i) => i,
            Err(e) => return Err(e),
        };
        self.put(i, color);
        Ok(())
    }

    /// Set the pixel stored at `index`; an error where there is none.
    pub fn set_index(&mut self, index: usize, color: u8) -> (r: Result<(), String>)
        ensures
            r is Ok <==> index < old(self)@.pixels.len(),
            final(self)@.size == old(self)@.size,
            final(self)@.pixels == if r is Ok {
                old(self)@.pixels.update(index as int, color)
            } else {
                old(self)@.pixels
            },
    {
        if index < self.buffer.len() {
            self.put(index, color);
            Ok(())
        } else {
            Err("Invalid index".to_string())
        }
    }

    /// The pixel at `position` (column, row); an error where it lies outside the image.
    pub fn get_pixel(&self, position: (u32, u32)) -> (r: Result<u8, String>)
        ensures
            r is Ok <==> self@.in_bounds(position.0 as int, position.1 as int),
            r is Ok ==> r->Ok_0 == self@.pixel(position.0 as int, position.1 as int),
    {
        let i = match self.index_of_position(position) {
            Ok(i) => i,
            Err(e) => return Err(e),
        };
        Ok(self.buffer[i])
    }
}

impl Blit for Image {
    open spec fn can_blit(
        &self,
        src: Option<RectModel>,
        target: ImageView,
        dst: Option<RectModel>,
    ) -> bool {
        let w = blit_window(self@, src, target, dst);
        w.is_zero() || (self@.holds(w) && target.holds(w))
    }

    open spec fn blitted(
        &self,
        src: Option<RectModel>,
        target: ImageView,
        dst: Option<RectModel>,
    ) -> ImageView {
        composite(self@, target, blit_window(self@, src, target, dst))
    }

    /// Copy every color-index pixel of the window from this image to the same
    /// coordinates of `target`; transparent pixels leave `target` as it was.
    fn blit_to(&self, src: Option<Rect>, target: &mut Image, dst: Option<Rect>) {
        proof {
            use_type_invariant(self);
            use_type_invariant(&*target);
        }
        let src_rect: Rect = match src {
            Some(s) => s,
            None => Rect::new(0, 0, self.size.width, self.size.height),
        };
        let dest_rect: Rect = match dst {
            Some(s) => s,
            None => Rect::new(0, 0, target.size.width, target.size.height),
        };
        let clip_rect = src_rect.clip(&dest_rect);
        let ghost before = target@;
        let ghost window = clip_rect@;
        assert(window == blit_window(self@, model_of(src), before, model_of(dst)));
        if clip_rect.is_zero() {
            assert(target@.pixels =~= composite(self@, before, window).pixels);
            return;
        }
        proof {
            use_type_invariant(&clip_rect);
        }
        let ghost w = before.width() as int;
        let end_x = clip_rect.max_x();
        let end_y = clip_rect.max_y();
        let mut iy = clip_rect.y();
        assert(target@.pixels =~= composite_upto(self@, before, window, iy as int, window.x));
        while iy < end_y
            invariant
                window == clip_rect@,
                !window.is_zero(),
                self@.holds(window),
                before.holds(window),
                w == before.width(),
                self@.wf(),
                before.wf(),
                end_x == window.max_x(),
                end_y == window.max_y(),
                window.y <= iy <= end_y,
                target@.size == before.size,
                target@.pixels == composite_upto(self@, before, window, iy as int, window.x),
            decreases end_y - iy,
        {
            let mut ix = clip_rect.x();
            while ix < end_x
                invariant
                    window == clip_rect@,
                    !window.is_zero(),
                    self@.holds(window),
                    before.holds(window),
                    w == before.width(),
                    self@.wf(),
                    before.wf(),
                    end_x == window.max_x(),
                    end_y == window.max_y(),
                    window.y <= iy < end_y,
                    window.x <= ix <= end_x,
                    target@.size == before.size,
                    target@.pixels == composite_upto(self@, before, window, iy as int, ix as int),
                decreases end_x - ix,
            {
                let color = self.buffer[self.offset(ix as u32, iy as u32)];
                let ghost prev = target@.pixels;
                let ghost k = before.index(ix as int, iy as int);
                proof {
                    lemma_index_in_buffer(before, ix as int, iy as int);
                    lemma_fundamental_div_mod_converse(k, w, iy as int, ix as int);
                    lemma_mul_is_commutative(w, iy as int);
                }
                if color < PALETTE_LEN {
                    let i = target.offset(ix as u32, iy as u32);
                    target.put(i, color);
                }
                proof {
                    let next = composite_upto(self@, before, window, iy as int, ix + 1);
                    assert forall|i: int| 0 <= i < prev.len() implies #[trigger] target@.pixels[i]
                        == next[i] by {
                        if i != k {
                            lemma_fundamental_div_mod(i, w);
                        }
                    }
                    assert(target@.pixels =~= next);
                }
                ix = ix + 1;
            }
            assert(target@.pixels =~= composite_upto(self@, before, window, iy + 1, window.x));
            iy = iy + 1;
        }
        assert(target@.pixels =~= composite(self@, before, window).pixels);
    }
}

/// Compositing the same image twice, with the same rectangles, leaves the
/// target as compositing it once does (for an opaque source as for any other).
pub proof fn lemma_blit_idempotent(
    img: Image,
    target: ImageView,
    src: Option<RectModel>,
    dst: Option<RectModel>,
)
    requires
        target.wf(),
    ensures
        img.blitted(src, img.blitted(src, target, dst), dst) == img.blitted(src, target, dst),
{
    let once = img.blitted(src, target, dst);
    assert(blit_window(img@, src, once, dst) == blit_window(img@, src, target, dst));
    assert(img.blitted(src, once, dst).pixels =~= once.pixels);
}

/// A source pixel that marks transparency leaves the target pixel at the
/// same coordinates as it was.
pub proof fn lemma_blit_keeps_transparent(
    img: Image,
    target: ImageView,
    src: Option<RectModel>,
    dst: Option<RectModel>,
    x: int,
    y: int,
)
    requires
        target.wf(),
        target.in_bounds(x, y),
        !is_color(img@.pixel(x, y)),
    ensures
        img.blitted(src, target, dst).pixel(x, y) == target.pixel(x, y),
{
    let w = target.width() as int;
    lemma_index_in_buffer(target, x, y);
    lemma_fundamental_div_mod_converse(target.index(x, y), w, y, x);
}

/// A view of part of a shared image: the pixels of `image` inside `rect`.
pub struct SubImage {
    image: Rc<Image>,
    rect: Rect,
}

impl SubImage {
    /// The image viewed.
    pub closed spec fn shared(&self) -> Image {
        *self.image
    }

    /// The part of the image in view.
    pub closed spec fn region(&self) -> Rect {
        self.rect
    }

    /// The rectangle lies inside the image. Every value of the type satisfies
    /// this (`use_type_invariant`).
    #[verifier::type_invariant]
    pub open spec fn inv(&self) -> bool {
        self.shared()@.holds(self.region()@)
    }

    /// A view of `rect` in `image`; `None` where `rect` does not lie inside it.
    pub fn new(image: Rc<Image>, rect: Rect) -> (r: Option<SubImage>)
        ensures
            r is Some <==> (*image)@.holds(rect@),
            r matches Some(v) ==> v.shared() == *image && v.region() == rect,
    {
        let size = image.size();
        if rect.x() >= 0 && rect.y() >= 0 && rect.max_x() as i64 <= size.width as i64
            && rect.max_y() as i64 <= size.height as i64 {
            Some(SubImage { image: image, rect: rect })
        } else {
            None
        }
    }

    pub fn image(&self) -> (r: &Rc<Image>)
        ensures
            **r == self.shared(),
    {
        &self.image
    }

    pub fn rect(&self) -> (r: Rect)
        ensures
            r == self.region(),
    {
        self.rect
    }
}

impl Clone for SubImage {
    /// Shares the image.
    fn clone(&self) -> (r: Self)
        ensures
            r == *self,
    {
        proof {
            use_type_invariant(self);
        }
        SubImage { image: self.image.clone(), rect: self.rect }
    }
}

/// An image to composite from: a whole shared image, or a view of part of one.
/// A view composites only pixels inside its rectangle.
pub enum ImageDelegate {
    ImageBuf(Rc<Image>),
    ImageRef(SubImage),
}

impl Clone for ImageDelegate {
    /// Shares the image.
    fn clone(&self) -> (r: Self)
        ensures
            r == *self,
    {
        match self {
            ImageDelegate::ImageBuf(buf) => ImageDelegate::ImageBuf(buf.clone()),
            ImageDelegate::ImageRef(sub) => ImageDelegate::ImageRef(sub.clone()),
        }
    }
}

impl ImageDelegate {
    /// The image whose pixels are composited.
    pub open spec fn source(&self) -> Image {
        match self {
            ImageDelegate::ImageBuf(i) => **i,
            ImageDelegate::ImageRef(s) => s.shared(),
        }
    }

    /// The source rectangle the composite uses: for a view, the part of its own
    /// rectangle that lies in the given one (its own rectangle where none is given).
    pub open spec fn source_rect(&self, src: Option<RectModel>) -> Option<RectModel> {
        match self {
            ImageDelegate::ImageBuf(_) => src,
            ImageDelegate::ImageRef(s) => Some(
                match src {
                    Some(r) => s.region()@.intersect(r),
                    None => s.region()@,
                },
            ),
        }
    }

    /// The image whose pixels are composited.
    pub fn source_image(&self) -> (r: &Image)
        ensures
            *r == self.source(),
    {
        match self {
            ImageDelegate::ImageBuf(i) => &**i,
            ImageDelegate::ImageRef(s) => &*s.image,
        }
    }
}

/// Compositing a whole image or a view onto a whole image reads and writes
/// only inside both.
pub proof fn lemma_whole_blit_fits(d: ImageDelegate, target: ImageView)
    requires
        d.source()@.wf(),
        target.wf(),
        d matches ImageDelegate::ImageRef(s) ==> s.inv(),
    ensures
        d.can_blit(None, target, None),
{
}

/// Whatever the view composites lies inside its rectangle.
pub proof fn lemma_view_blit_inside(
    s: SubImage,
    src: Option<RectModel>,
    target: ImageView,
    dst: Option<RectModel>,
    x: int,
    y: int,
)
    requires
        target.wf(),
        target.in_bounds(x, y),
        !s.region()@.contains(x, y),
    ensures
        ImageDelegate::ImageRef(s).blitted(src, target, dst).pixel(x, y) == target.pixel(x, y),
{
    let w = target.width() as int;
    lemma_index_in_buffer(target, x, y);
    lemma_fundamental_div_mod_converse(target.index(x, y), w, y, x);
}

/// A view composited with a source rectangle changes only pixels that its
/// whole image composited with the same rectangles changes, and to the same value.
pub proof fn lemma_view_blit_within_whole(
    s: SubImage,
    src: RectModel,
    target: ImageView,
    dst: Option<RectModel>,
    x: int,
    y: int,
)
    requires
        target.wf(),
        target.in_bounds(x, y),
        ImageDelegate::ImageRef(s).blitted(Some(src), target, dst).pixel(x, y) != target.pixel(x, y),
    ensures
        s.shared().blitted(Some(src), target, dst).pixel(x, y) == ImageDelegate::ImageRef(s).blitted(
            Some(src),
            target,
            dst,
        ).pixel(x, y),
{
    let w = target.width() as int;
    lemma_index_in_buffer(target, x, y);
    lemma_fundamental_div_mod_converse(target.index(x, y), w, y, x);
}

impl Blit for ImageDelegate {
    open spec fn can_blit(
        &self,
        src: Option<RectModel>,
        target: ImageView,
        dst: Option<RectModel>,
    ) -> bool {
        self.source().can_blit(self.source_rect(src), target, dst)
    }

    open spec fn blitted(
        &self,
        src: Option<RectModel>,
        target: ImageView,
        dst: Option<RectModel>,
    ) -> ImageView {
        self.source().blitted(self.source_rect(src), target, dst)
    }

    fn blit_to(&self, src: Option<Rect>, target: &mut Image, dst: Option<Rect>) {
        match self {
            ImageDelegate::ImageBuf(i) => {
                let img: &Image = &**i;
                img.blit_to(src, target, dst)
            },
            ImageDelegate::ImageRef(s) => {
                let region = match src {
                    Some(r) => s.rect.intersect(&r),
                    None => s.rect,
                };
                let img: &Image = &*s.image;
                img.blit_to(Some(region), target, dst)
            },
        }
    }
}

} // verus!
