use vstd::prelude::*;

verus! {

/// The largest magnitude of a coordinate that the geometry accepts, so that
/// sums and differences of two coordinates always fit in an `i64`.
pub const COORD_LIMIT: i64 = 0x1000_0000_0000;

/// Whether `v` lies within the coordinate range.
pub open spec fn in_range(v: int) -> bool {
    -COORD_LIMIT <= v <= COORD_LIMIT
}

/// The midpoint of two coordinates, rounded down (towards negative infinity).
pub fn midpoint(a: i64, b: i64) -> (r: i64)
    requires
        in_range(a as int),
        in_range(b as int),
    ensures
        r == (a + b) / 2,
{
    let s: i64 = a + b;
    if s >= 0 {
        s / 2
    } else {
        -((1 - s) / 2)
    }
}

/// An axis-aligned pixel rectangle. A rectangle whose right edge lies left of
/// its left edge (or bottom above top) is degenerate: it has a non-positive
/// width or height and is still a valid value.
#[derive(Clone, Copy, Debug, PartialEq, Eq, Structural)]
pub struct Bounds {
    pub left: i64,
    pub top: i64,
    pub right: i64,
    pub bottom: i64,
}

impl Bounds {
    /// All four edges lie in the coordinate range.
    pub open spec fn wf(&self) -> bool {
        in_range(self.left as int) && in_range(self.top as int) && in_range(self.right as int)
            && in_range(self.bottom as int)
    }

    pub open spec fn spec_width(&self) -> int {
        self.right - self.left
    }

    pub open spec fn spec_height(&self) -> int {
        self.bottom - self.top
    }

    /// Whether the point lies inside the rectangle, edges included.
    pub open spec fn spec_contains(&self, x: int, y: int) -> bool {
        self.left <= x <= self.right && self.top <= y <= self.bottom
    }

    /// A rectangle of the given size with its top-left corner at the origin.
    pub fn new(width: i64, height: i64) -> (r: Bounds)
        requires
            in_range(width as int),
            in_range(height as int),
        ensures
            r.wf(),
            r == (Bounds { left: 0, top: 0, right: width, bottom: height }),
    {
        Bounds { left: 0, top: 0, right: width, bottom: height }
    }

    /// A rectangle given by its four edges.
    pub fn from_points(left: i64, top: i64, right: i64, bottom: i64) -> (r: Bounds)
        ensures
            r == (Bounds { left, top, right, bottom }),
    {
        Bounds { left, top, right, bottom }
    }

    pub fn width(&self) -> (r: i64)
        requires
            self.wf(),
        ensures
            r == self.spec_width(),
    {
        self.right - self.left
    }

    pub fn height(&self) -> (r: i64)
        requires
            self.wf(),
        ensures
            r == self.spec_height(),
    {
        self.bottom - self.top
    }

    pub fn left_x(&self) -> (r: i64)
        ensures
            r == self.left,
    {
        self.left
    }

    pub fn right_x(&self) -> (r: i64)
        ensures
            r == self.right,
    {
        self.right
    }

    pub fn top_y(&self) -> (r: i64)
        ensures
            r == self.top,
    {
        self.top
    }

    pub fn bottom_y(&self) -> (r: i64)
        ensures
            r == self.bottom,
    {
        self.bottom
    }

    /// The horizontal midpoint, rounded down.
    pub fn centre_x(&self) -> (r: i64)
        requires
            self.wf(),
        ensures
            r == (self.left + self.right) / 2,
    {
        midpoint(self.left, self.right)
    }

    /// The vertical midpoint, rounded down.
    pub fn centre_y(&self) -> (r: i64)
        requires
            self.wf(),
        ensures
            r == (self.top + self.bottom) / 2,
    {
        midpoint(self.top, self.bottom)
    }

    pub fn contains(&self, x: i64, y: i64) -> (r: bool)
        ensures
            r == self.spec_contains(x as int, y as int),
    {
        self.left <= x && x <= self.right && self.top <= y && y <= self.bottom
    }
}

/// Width and height are the differences of opposite edges, for every
/// rectangle; a degenerate one simply has a non-positive width or height.
pub proof fn lemma_extent(b: Bounds)
    requires
        b.wf(),
    ensures
        b.spec_width() == b.right - b.left,
        b.spec_height() == b.bottom - b.top,
        b.right < b.left ==> b.spec_width() < 0,
        b.bottom < b.top ==> b.spec_height() < 0,
{
}

} // verus!
