use vstd::prelude::*;

use super::size::Size;
use super::Position;

verus! {

/// The mathematical value of a rectangle: its top-left corner and its extent.
/// It covers the half-open ranges `[x, x + w)` and `[y, y + h)`.
pub struct RectModel {
    pub x: int,
    pub y: int,
    pub w: nat,
    pub h: nat,
}

impl RectModel {
    pub open spec fn max_x(self) -> int {
        self.x + self.w
    }

    pub open spec fn max_y(self) -> int {
        self.y + self.h
    }

    pub open spec fn is_zero(self) -> bool {
        self.w == 0 || self.h == 0
    }

    /// Whether the pixel at `(x, y)` lies inside the rectangle.
    pub open spec fn contains(self, x: int, y: int) -> bool {
        self.x <= x < self.max_x() && self.y <= y < self.max_y()
    }

    pub open spec fn zero() -> RectModel {
        RectModel { x: 0, y: 0, w: 0, h: 0 }
    }

    /// The rule by which `clip` finds that a rectangle lies wholly outside its bounds:
    /// it starts at or beyond a far edge of `b`, or ends strictly before a near edge.
    pub open spec fn misses(self, b: RectModel) -> bool {
        self.x >= b.max_x() || self.y >= b.max_y() || self.max_x() < b.x || self.max_y() < b.y
    }

    /// The pixels in both `self` and `b`; the zero rectangle where they share none.
    pub open spec fn intersect(self, b: RectModel) -> RectModel {
        let x = if self.x >= b.x { self.x } else { b.x };
        let y = if self.y >= b.y { self.y } else { b.y };
        let mx = if self.max_x() <= b.max_x() { self.max_x() } else { b.max_x() };
        let my = if self.max_y() <= b.max_y() { self.max_y() } else { b.max_y() };
        if mx <= x || my <= y {
            RectModel::zero()
        } else {
            RectModel { x: x, y: y, w: (mx - x) as nat, h: (my - y) as nat }
        }
    }

    /// `self` clipped into `b`. Only the far edges are trimmed: the result keeps
    /// the near edges of `self`, even where they lie before those of `b`.
    pub open spec fn clip(self, b: RectModel) -> RectModel {
        if self.misses(b) {
            RectModel::zero()
        } else {
            RectModel {
                x: self.x,
                y: self.y,
                w: if self.max_x() >= b.max_x() {
                    (b.max_x() - self.x) as nat
                } else {
                    self.w
                },
                h: if self.max_y() >= b.max_y() {
                    (b.max_y() - self.y) as nat
                } else {
                    self.h
                },
            }
        }
    }
}

/// An axis-aligned rectangle whose far edges are representable as `i32`.
#[derive(Copy, Clone, Debug)]
pub struct Rect {
    position: Position,
    size: Size,
}

impl View for Rect {
    type V = RectModel;

    closed spec fn view(&self) -> RectModel {
        RectModel {
            x: self.position.x as int,
            y: self.position.y as int,
            w: self.size.width as nat,
            h: self.size.height as nat,
        }
    }
}

/// Whether a rectangle with these bounds can be held by a `Rect`.
pub open spec fn rect_fits(x: int, y: int, w: int, h: int) -> bool {
    x + w <= i32::MAX && y + h <= i32::MAX
}

impl Rect {
    /// The far edges are representable, and the corner and extent are within
    /// the ranges of their field types. Every value of the type satisfies this
    /// (`use_type_invariant`).
    #[verifier::type_invariant]
    pub open spec fn inv(&self) -> bool {
        &&& rect_fits(self@.x, self@.y, self@.w as int, self@.h as int)
        &&& i32::MIN <= self@.x <= i32::MAX
        &&& i32::MIN <= self@.y <= i32::MAX
        &&& self@.w <= u32::MAX
        &&& self@.h <= u32::MAX
    }

    /// The empty rectangle at the origin.
    pub fn zero() -> (r: Self)
        ensures
            r@ == RectModel::zero(),
    {
        Self::new(0, 0, 0, 0)
    }

    pub fn new(x: i32, y: i32, w: u32, h: u32) -> (r: Self)
        requires
            rect_fits(x as int, y as int, w as int, h as int),
        ensures
            r@ == (RectModel { x: x as int, y: y as int, w: w as nat, h: h as nat }),
    {
        Rect { position: Position::new(x, y), size: Size::new(w, h) }
    }

    /// Clip this rectangle into `bounds` (see `RectModel::clip`).
    pub fn clip(&self, bounds: &Rect) -> (r: Self)
        ensures
            r@ == self@.clip(bounds@),
    {
        proof {
            use_type_invariant(self);
            use_type_invariant(bounds);
        }
        let b_max_x = bounds.max_x();
        let b_min_x = bounds.x();
        let b_max_y = bounds.max_y();
        let b_min_y = bounds.y();

        if self.x() >= b_max_x || self.y() >= b_max_y {
            return Self::zero();
        }
        if self.max_x() < b_min_x || self.max_y() < b_min_y {
            return Self::zero();
        }

        let mut width = self.w();
        let mut height = self.h();
        if self.max_x() >= b_max_x {
            let xclip = (self.max_x() as i64 - b_max_x as i64) as u32;
            width = width - xclip;
        }
        if self.max_y() >= b_max_y {
            let yclip = (self.max_y() as i64 - b_max_y as i64) as u32;
            height = height - yclip;
        }
        Rect { position: self.position, size: Size::new(width, height) }
    }

    /// The rectangle both cover (see `RectModel::intersect`).
    pub fn intersect(&self, other: &Rect) -> (r: Self)
        ensures
            r@ == self@.intersect(other@),
    {
        proof {
            use_type_invariant(self);
            use_type_invariant(other);
        }
        let x = if self.x() >= other.x() { self.x() } else { other.x() };
        let y = if self.y() >= other.y() { self.y() } else { other.y() };
        let mx = if self.max_x() <= other.max_x() { self.max_x() } else { other.max_x() };
        let my = if self.max_y() <= other.max_y() { self.max_y() } else { other.max_y() };
        if mx <= x || my <= y {
            Self::zero()
        } else {
            Self::new(x, y, (mx as i64 - x as i64) as u32, (my as i64 - y as i64) as u32)
        }
    }

    pub fn x(&self) -> (r: i32)
        ensures
            r == self@.x,
    {
        self.position.x
    }

    pub fn y(&self) -> (r: i32)
        ensures
            r == self@.y,
    {
        self.position.y
    }

    pub fn w(&self) -> (r: u32)
        ensures
            r == self@.w,
    {
        self.size.width
    }

    pub fn h(&self) -> (r: u32)
        ensures
            r == self@.h,
    {
        self.size.height
    }

    /// The first column past the right edge.
    pub fn max_x(&self) -> (r: i32)
        ensures
            r == self@.max_x(),
    {
        proof {
            use_type_invariant(self);
        }
        (self.position.x as i64 + self.size.width as i64) as i32
    }

    /// The first row past the bottom edge.
    pub fn max_y(&self) -> (r: i32)
        ensures
            r == self@.max_y(),
    {
        proof {
            use_type_invariant(self);
        }
        (self.position.y as i64 + self.size.height as i64) as i32
    }

    /// Whether the rectangle covers no pixel.
    pub fn is_zero(&self) -> (r: bool)
        ensures
            r == self@.is_zero(),
    {
        self.w() == 0 || self.h() == 0
    }
}

/// A clipped rectangle keeps the near edges of the clipped one and ends no later
/// than it; where it covers anything, it ends no later than the far edges of the
/// bounds, and it covers nothing exactly when the clipping rule finds the two
/// apart or the clipped rectangle is itself empty.
pub proof fn lemma_clip_within_bounds(a: Rect, b: Rect)
    ensures
        a@.clip(b@).is_zero() <==> (a@.misses(b@) || a@.is_zero()),
        !a@.clip(b@).is_zero() ==> {
            &&& a@.clip(b@).x == a@.x
            &&& a@.clip(b@).y == a@.y
            &&& a@.clip(b@).max_x() <= b@.max_x()
            &&& a@.clip(b@).max_y() <= b@.max_y()
            &&& a@.clip(b@).max_x() <= a@.max_x()
            &&& a@.clip(b@).max_y() <= a@.max_y()
        },
{
}

} // verus!
