//! Geometric types for screenshot regions and coordinates.
use vstd::prelude::*;

verus! {

/// Logical size and position of a rectangle (left/top inclusive, right/bottom exclusive).
#[derive(Clone, Copy, Debug, PartialEq, Eq, Structural)]
pub struct Rect {
    pub left: i32,
    pub top: i32,
    pub right: i32,
    pub bottom: i32,
}

/// Whether a mathematical integer fits in an `i32`.
pub open spec fn fits_i32(v: int) -> bool {
    i32::MIN <= v <= i32::MAX
}

pub open spec fn spec_max(a: int, b: int) -> int {
    if a >= b { a } else { b }
}

pub open spec fn spec_min(a: int, b: int) -> int {
    if a <= b { a } else { b }
}

pub open spec fn spec_abs(a: int) -> int {
    if a < 0 { -a } else { a }
}

impl Rect {
    /// The width of the rectangle as a mathematical integer.
    pub open spec fn spec_width(self) -> int {
        self.right - self.left
    }

    /// The height of the rectangle as a mathematical integer.
    pub open spec fn spec_height(self) -> int {
        self.bottom - self.top
    }

    /// The intersection of two rectangles, `None` when it is empty.
    pub open spec fn spec_intersect(self, other: Rect) -> Option<Rect> {
        let l = spec_max(self.left as int, other.left as int);
        let t = spec_max(self.top as int, other.top as int);
        let r = spec_min(self.right as int, other.right as int);
        let b = spec_min(self.bottom as int, other.bottom as int);
        if l < r && t < b {
            Some(Rect { left: l as i32, top: t as i32, right: r as i32, bottom: b as i32 })
        } else {
            None
        }
    }

    /// Whether the point lies inside the rectangle.
    pub open spec fn spec_contains(self, x: int, y: int) -> bool {
        self.left <= x < self.right && self.top <= y < self.bottom
    }

    /// Create a new rectangle from coordinates.
    pub fn new(left: i32, top: i32, right: i32, bottom: i32) -> (r: Rect)
        ensures
            r == (Rect { left, top, right, bottom }),
    {
        Rect { left, top, right, bottom }
    }

    /// Calculate the intersection of two rectangles.
    pub fn intersect(&self, other: Rect) -> (r: Option<Rect>)
        ensures
            r == self.spec_intersect(other),
    {
        let left = if self.left >= other.left { self.left } else { other.left };
        let top = if self.top >= other.top { self.top } else { other.top };
        let right = if self.right <= other.right { self.right } else { other.right };
        let bottom = if self.bottom <= other.bottom { self.bottom } else { other.bottom };
        if left < right && top < bottom {
            Some(Rect { left, top, right, bottom })
        } else {
            None
        }
    }

    /// Translate the rectangle by the given offset.
    pub fn translate(&self, x: i32, y: i32) -> (r: Rect)
        requires
            fits_i32(self.left + x),
            fits_i32(self.right + x),
            fits_i32(self.top + y),
            fits_i32(self.bottom + y),
        ensures
            r.left == self.left + x,
            r.right == self.right + x,
            r.top == self.top + y,
            r.bottom == self.bottom + y,
    {
        Rect { left: self.left + x, top: self.top + y, right: self.right + x, bottom: self.bottom + y }
    }

    /// Get the width of the rectangle.
    pub fn width(&self) -> (w: i32)
        requires
            fits_i32(self.spec_width()),
        ensures
            w == self.spec_width(),
    {
        self.right - self.left
    }

    /// Get the height of the rectangle.
    pub fn height(&self) -> (h: i32)
        requires
            fits_i32(self.spec_height()),
        ensures
            h == self.spec_height(),
    {
        self.bottom - self.top
    }

    /// Convert to non-zero dimensions: the absolute width and height, or
    /// `None` when either is zero.
    pub fn dimensions(self) -> (d: Option<RectDimension>)
        requires
            fits_i32(self.spec_width()),
            fits_i32(self.spec_height()),
        ensures
            d is Some <==> (self.spec_width() != 0 && self.spec_height() != 0),
            d matches Some(dim) ==> dim.spec_width() == spec_abs(self.spec_width())
                && dim.spec_height() == spec_abs(self.spec_height()),
    {
        let w = abs_u32(self.width());
        if w == 0 {
            return None;
        }
        let h = abs_u32(self.height());
        if h == 0 {
            return None;
        }
        Some(RectDimension { width: w, height: h })
    }

    /// Check if this rectangle contains a point.
    pub fn contains_point(&self, x: i32, y: i32) -> (b: bool)
        ensures
            b == self.spec_contains(x as int, y as int),
    {
        x >= self.left && x < self.right && y >= self.top && y < self.bottom
    }
}

impl Default for Rect {
    fn default() -> (r: Rect)
        ensures
            r == (Rect { left: 0, top: 0, right: 0, bottom: 0 }),
    {
        Rect { left: 0, top: 0, right: 0, bottom: 0 }
    }
}

/// The absolute value of an `i32`, as a `u32`.
pub fn abs_u32(v: i32) -> (r: u32)
    ensures
        r == spec_abs(v as int),
{
    if v < 0 {
        let w: i64 = -(v as i64);
        w as u32
    } else {
        v as u32
    }
}

/// Non-zero dimensions of a rectangle.
#[derive(Clone, Copy, Debug)]
pub struct RectDimension {
    width: u32,
    height: u32,
}

impl RectDimension {
    #[verifier::type_invariant]
    spec fn nonzero(self) -> bool {
        self.width > 0 && self.height > 0
    }

    pub closed spec fn spec_width(self) -> nat {
        self.width as nat
    }

    pub closed spec fn spec_height(self) -> nat {
        self.height as nat
    }

    /// Get the width as u32.
    pub fn width(&self) -> (w: u32)
        ensures
            w == self.spec_width(),
            w > 0,
    {
        proof { use_type_invariant(self); }
        self.width
    }

    /// Get the height as u32.
    pub fn height(&self) -> (h: u32)
        ensures
            h == self.spec_height(),
            h > 0,
    {
        proof { use_type_invariant(self); }
        self.height
    }
}

} // verus!
