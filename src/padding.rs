use crate::bounds::{in_range, Bounds};
use vstd::prelude::*;

verus! {

/// Space kept free inside each side of a rectangle.
#[derive(Clone, Copy, Debug, PartialEq, Eq, Structural)]
pub struct Padding {
    pub top: i64,
    pub right: i64,
    pub bottom: i64,
    pub left: i64,
}

impl Padding {
    pub open spec fn wf(&self) -> bool {
        in_range(self.top as int) && in_range(self.right as int) && in_range(self.bottom as int)
            && in_range(self.left as int)
    }

    pub open spec fn spec_height(&self) -> int {
        self.top + self.bottom
    }

    pub open spec fn spec_width(&self) -> int {
        self.left + self.right
    }

    /// `b` with each side moved inwards by its padding.
    pub open spec fn spec_apply(&self, b: Bounds) -> Bounds {
        Bounds {
            left: (b.left + self.left) as i64,
            top: (b.top + self.top) as i64,
            right: (b.right - self.right) as i64,
            bottom: (b.bottom - self.bottom) as i64,
        }
    }

    /// Padding given side by side, clockwise from the top.
    pub fn sides(top: i64, right: i64, bottom: i64, left: i64) -> (r: Padding)
        ensures
            r == (Padding { top, right, bottom, left }),
    {
        Padding { top, right, bottom, left }
    }

    /// The same padding on every side.
    pub fn new(p: i64) -> (r: Padding)
        ensures
            r == (Padding { top: p, right: p, bottom: p, left: p }),
    {
        Padding { top: p, right: p, bottom: p, left: p }
    }

    /// The padding taken from the height: top plus bottom.
    pub fn height(&self) -> (r: i64)
        requires
            self.wf(),
        ensures
            r == self.spec_height(),
    {
        self.top + self.bottom
    }

    /// The padding taken from the width: left plus right.
    pub fn width(&self) -> (r: i64)
        requires
            self.wf(),
        ensures
            r == self.spec_width(),
    {
        self.left + self.right
    }

    /// The rectangle left inside `b` once the padding is taken.
    pub fn apply(&self, b: Bounds) -> (r: Bounds)
        requires
            self.wf(),
            b.wf(),
            self.spec_apply(b).wf(),
        ensures
            r == self.spec_apply(b),
    {
        Bounds {
            left: b.left + self.left,
            top: b.top + self.top,
            right: b.right - self.right,
            bottom: b.bottom - self.bottom,
        }
    }
}

} // verus!
