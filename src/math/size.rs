use vstd::prelude::*;

verus! {

/// A width and a height in pixels.
#[derive(Copy, Clone, PartialEq, Eq, Debug, Structural)]
pub struct Size {
    pub width: u32,
    pub height: u32,
}

impl Size {
    /// Number of pixels that a buffer of this size holds.
    pub open spec fn area(self) -> nat {
        self.width as nat * self.height as nat
    }

    pub fn new(width: u32, height: u32) -> (r: Self)
        ensures
            r.width == width,
            r.height == height,
    {
        Size { width: width, height: height }
    }

    /// A row-major buffer with one copy of `initial` per element.
    pub fn buffer<T: Copy>(&self, initial: T) -> (r: Vec<T>)
        requires
            self.area() <= usize::MAX,
        ensures
            r@ == Seq::new(self.area(), |_i: int| initial),
    {
        let n = self.elements();
        let mut buffer: Vec<T> = Vec::with_capacity(n);
        let mut k: usize = 0;
        while k < n
            invariant
                n == self.area(),
                k <= n,
                buffer@ == Seq::new(k as nat, |_i: int| initial),
            decreases n - k,
        {
            buffer.push(initial);
            k = k + 1;
            assert(buffer@ =~= Seq::new(k as nat, |_i: int| initial));
        }
        buffer
    }

    /// `width * height`.
    pub fn elements(&self) -> (r: usize)
        requires
            self.area() <= usize::MAX,
        ensures
            r == self.area(),
    {
        (self.width as usize) * (self.height as usize)
    }
}

impl core::ops::Add for Size {
    type Output = Size;

    fn add(self, rhs: Size) -> (r: Size) {
        Size { width: self.width + rhs.width, height: self.height + rhs.height }
    }
}

impl vstd::std_specs::ops::AddSpecImpl for Size {
    open spec fn obeys_add_spec() -> bool {
        true
    }

    open spec fn add_req(self, rhs: Size) -> bool {
        self.width + rhs.width <= u32::MAX && self.height + rhs.height <= u32::MAX
    }

    open spec fn add_spec(self, rhs: Size) -> Size {
        Size { width: (self.width + rhs.width) as u32, height: (self.height + rhs.height) as u32 }
    }
}

/// `a - b`, or 0 where `b` is the larger.
pub open spec fn saturating_diff(a: u32, b: u32) -> u32 {
    if a >= b {
        (a - b) as u32
    } else {
        0
    }
}

impl core::ops::Sub for Size {
    type Output = Size;

    /// Shrinks each extent, stopping at 0.
    fn sub(self, rhs: Size) -> (r: Size) {
        Size {
            width: self.width.saturating_sub(rhs.width),
            height: self.height.saturating_sub(rhs.height),
        }
    }
}

impl vstd::std_specs::ops::SubSpecImpl for Size {
    open spec fn obeys_sub_spec() -> bool {
        true
    }

    open spec fn sub_req(self, rhs: Size) -> bool {
        true
    }

    open spec fn sub_spec(self, rhs: Size) -> Size {
        Size {
            width: saturating_diff(self.width, rhs.width),
            height: saturating_diff(self.height, rhs.height),
        }
    }
}

impl core::convert::From<(u32, u32)> for Size {
    fn from(wh: (u32, u32)) -> (r: Size) {
        Size { width: wh.0, height: wh.1 }
    }
}

impl vstd::std_specs::convert::FromSpecImpl<(u32, u32)> for Size {
    open spec fn obeys_from_spec() -> bool {
        true
    }

    open spec fn from_spec(wh: (u32, u32)) -> Size {
        Size { width: wh.0, height: wh.1 }
    }
}

} // verus!
