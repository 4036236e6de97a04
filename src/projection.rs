use crate::arith::{ceil_div, ceil_div_exec, floor_div, lemma_ceil_le, lemma_floor_bounds, lemma_floor_ge};
use crate::bounds::{in_range, midpoint, Bounds};
use vstd::prelude::*;

verus! {

/// The range of data values that one axis represents.
#[derive(Clone, Copy, Debug, PartialEq, Eq, Structural)]
pub struct Domain {
    pub min: i64,
    pub max: i64,
}

impl Domain {
    pub open spec fn wf(&self) -> bool {
        self.min <= self.max && in_range(self.min as int) && in_range(self.max as int)
    }

    pub open spec fn spec_extent(&self) -> int {
        self.max - self.min
    }

    pub fn new(min: i64, max: i64) -> (r: Domain)
        ensures
            r == (Domain { min, max }),
    {
        Domain { min, max }
    }
}

/// Pixel offset of the data value `v` along a pixel run of length `len`:
/// affine in `v`, rounded down.
pub open spec fn to_pixel(d: Domain, len: int, v: int) -> int {
    (v - d.min) * len / d.spec_extent()
}

/// The smallest data value whose pixel offset is at least `off`; the domain's
/// minimum where the domain is a single value or the run is empty.
pub open spec fn to_value(d: Domain, len: int, off: int) -> int {
    if d.max == d.min || len <= 0 {
        d.min as int
    } else {
        d.min + ceil_div(off * d.spec_extent(), len)
    }
}

/// Maps data coordinates to pixels inside `bounds` and back. The X domain's
/// minimum lies on the left edge and its maximum on the right; the Y domain's
/// minimum lies on the bottom edge and its maximum on the top, as pixel rows
/// grow downwards.
#[derive(Clone, Copy, Debug, PartialEq, Eq, Structural)]
pub struct Projection {
    pub bounds: Bounds,
    pub x: Domain,
    pub y: Domain,
}

impl Projection {
    pub open spec fn wf(&self) -> bool {
        self.bounds.wf() && self.x.wf() && self.y.wf()
    }

    /// The pixel column of the data value `x`.
    pub open spec fn spec_svg_x(&self, x: int) -> int {
        if self.x.max == self.x.min {
            (self.bounds.left + self.bounds.right) / 2
        } else {
            self.bounds.left + to_pixel(self.x, self.bounds.spec_width(), x)
        }
    }

    /// The pixel row of the data value `y`.
    pub open spec fn spec_svg_y(&self, y: int) -> int {
        if self.y.max == self.y.min {
            (self.bounds.top + self.bounds.bottom) / 2
        } else {
            self.bounds.bottom - to_pixel(self.y, self.bounds.spec_height(), y)
        }
    }

    /// The data value at pixel column `px`.
    pub open spec fn spec_pos_x(&self, px: int) -> int {
        to_value(self.x, self.bounds.spec_width(), px - self.bounds.left)
    }

    /// The data value at pixel row `py`.
    pub open spec fn spec_pos_y(&self, py: int) -> int {
        to_value(self.y, self.bounds.spec_height(), self.bounds.bottom - py)
    }

    pub fn new(bounds: Bounds, x: Domain, y: Domain) -> (r: Projection)
        ensures
            r == (Projection { bounds, x, y }),
    {
        Projection { bounds, x, y }
    }

    pub fn bounds(&self) -> (r: Bounds)
        ensures
            r == self.bounds,
    {
        self.bounds
    }

    /// The pixel column of `x`.
    pub fn x_to_svg(&self, x: i64) -> (r: i64)
        requires
            self.wf(),
            in_range(x as int),
            in_range(self.spec_svg_x(x as int)),
        ensures
            r == self.spec_svg_x(x as int),
    {
        if self.x.max == self.x.min {
            midpoint(self.bounds.left, self.bounds.right)
        } else {
            let w = self.bounds.width() as i128;
            let d = (self.x.max as i128) - (self.x.min as i128);
            let a = (x as i128) - (self.x.min as i128);
            proof {
                assert(-0x1_0000_0000_0000_0000_0000_0000 <= a * w <= 0x1_0000_0000_0000_0000_0000_0000) by (nonlinear_arith)
                    requires
                        -0x2000_0000_0000 <= a <= 0x2000_0000_0000,
                        -0x2000_0000_0000 <= w <= 0x2000_0000_0000,
                ;
            }
            let off = floor_div(a * w, d);
            (self.bounds.left as i128 + off) as i64
        }
    }

    /// The pixel row of `y`.
    pub fn y_to_svg(&self, y: i64) -> (r: i64)
        requires
            self.wf(),
            in_range(y as int),
            in_range(self.spec_svg_y(y as int)),
        ensures
            r == self.spec_svg_y(y as int),
    {
        if self.y.max == self.y.min {
            midpoint(self.bounds.top, self.bounds.bottom)
        } else {
            let h = self.bounds.height() as i128;
            let d = (self.y.max as i128) - (self.y.min as i128);
            let a = (y as i128) - (self.y.min as i128);
            proof {
                assert(-0x1_0000_0000_0000_0000_0000_0000 <= a * h <= 0x1_0000_0000_0000_0000_0000_0000) by (nonlinear_arith)
                    requires
                        -0x2000_0000_0000 <= a <= 0x2000_0000_0000,
                        -0x2000_0000_0000 <= h <= 0x2000_0000_0000,
                ;
            }
            let off = floor_div(a * h, d);
            (self.bounds.bottom as i128 - off) as i64
        }
    }

    /// The pixel position of the data point `(x, y)`.
    pub fn position_to_svg(&self, x: i64, y: i64) -> (r: (i64, i64))
        requires
            self.wf(),
            in_range(x as int),
            in_range(y as int),
            in_range(self.spec_svg_x(x as int)),
            in_range(self.spec_svg_y(y as int)),
        ensures
            r.0 == self.spec_svg_x(x as int),
            r.1 == self.spec_svg_y(y as int),
    {
        (self.x_to_svg(x), self.y_to_svg(y))
    }

    /// The data value at pixel column `px`.
    pub fn x_to_position(&self, px: i64) -> (r: i64)
        requires
            self.wf(),
            in_range(px as int),
            in_range(self.spec_pos_x(px as int)),
        ensures
            r == self.spec_pos_x(px as int),
    {
        let w = self.bounds.width();
        if self.x.max == self.x.min || w <= 0 {
            self.x.min
        } else {
            let d = (self.x.max as i128) - (self.x.min as i128);
            let off = (px as i128) - (self.bounds.left as i128);
            proof {
                assert(-0x1_0000_0000_0000_0000_0000_0000 <= off * d <= 0x1_0000_0000_0000_0000_0000_0000) by (nonlinear_arith)
                    requires
                        -0x2000_0000_0000 <= off <= 0x2000_0000_0000,
                        0 <= d <= 0x2000_0000_0000,
                ;
            }
            let v = ceil_div_exec(off * d, w as i128);
            (self.x.min as i128 + v) as i64
        }
    }

    /// The data value at pixel row `py`.
    pub fn y_to_position(&self, py: i64) -> (r: i64)
        requires
            self.wf(),
            in_range(py as int),
            in_range(self.spec_pos_y(py as int)),
        ensures
            r == self.spec_pos_y(py as int),
    {
        let h = self.bounds.height();
        if self.y.max == self.y.min || h <= 0 {
            self.y.min
        } else {
            let d = (self.y.max as i128) - (self.y.min as i128);
            let off = (self.bounds.bottom as i128) - (py as i128);
            proof {
                assert(-0x1_0000_0000_0000_0000_0000_0000 <= off * d <= 0x1_0000_0000_0000_0000_0000_0000) by (nonlinear_arith)
                    requires
                        -0x2000_0000_0000 <= off <= 0x2000_0000_0000,
                        0 <= d <= 0x2000_0000_0000,
                ;
            }
            let v = ceil_div_exec(off * d, h as i128);
            (self.y.min as i128 + v) as i64
        }
    }

    /// The data point at pixel position `(px, py)`.
    pub fn svg_to_position(&self, px: i64, py: i64) -> (r: (i64, i64))
        requires
            self.wf(),
            in_range(px as int),
            in_range(py as int),
            in_range(self.spec_pos_x(px as int)),
            in_range(self.spec_pos_y(py as int)),
        ensures
            r.0 == self.spec_pos_x(px as int),
            r.1 == self.spec_pos_y(py as int),
    {
        (self.x_to_position(px), self.y_to_position(py))
    }
}

/// Along one axis, the pixel offset of `v` reaches `off` exactly when `v`
/// reaches the value that `off` maps back to.
pub proof fn lemma_axis_galois(d: Domain, len: int, v: int, off: int)
    requires
        d.min < d.max,
        len > 0,
    ensures
        to_pixel(d, len, v) >= off <==> v >= to_value(d, len, off),
{
    lemma_floor_ge((v - d.min) * len, d.spec_extent(), off);
    lemma_ceil_le(off * d.spec_extent(), len, v - d.min);
}

/// Along one axis with at least one pixel per data unit, mapping a value to
/// its pixel offset and back gives the value again.
pub proof fn lemma_axis_value_round_trip(d: Domain, len: int, v: int)
    requires
        d.min < d.max,
        len >= d.spec_extent(),
    ensures
        to_value(d, len, to_pixel(d, len, v)) == v,
{
    let e = d.spec_extent();
    let a = v - d.min;
    let p = to_pixel(d, len, v);
    lemma_axis_galois(d, len, v, p);
    lemma_floor_bounds(a * len, e);
    lemma_ceil_le(p * e, len, a - 1);
    assert(p * e > (a - 1) * len) by (nonlinear_arith)
        requires
            a * len < p * e + e,
            e <= len,
    ;
}

/// Along one axis with at most one pixel per data unit, mapping a pixel
/// offset to its value and back gives the offset again.
pub proof fn lemma_axis_pixel_round_trip(d: Domain, len: int, off: int)
    requires
        d.min < d.max,
        0 < len <= d.spec_extent(),
    ensures
        to_pixel(d, len, to_value(d, len, off)) == off,
{
    let e = d.spec_extent();
    let v = to_value(d, len, off);
    let c = v - d.min;
    lemma_axis_galois(d, len, v, off);
    lemma_ceil_le(off * e, len, c - 1);
    lemma_floor_ge(c * len, e, off + 1);
    assert(c * len < (off + 1) * e) by (nonlinear_arith)
        requires
            (c - 1) * len < off * e,
            len <= e,
    ;
}

/// A value inside a domain of more than one value lands between the two ends
/// of the pixel run, whichever way the run points.
pub proof fn lemma_axis_within(d: Domain, len: int, v: int)
    requires
        d.min < d.max,
        d.min <= v <= d.max,
    ensures
        len >= 0 ==> 0 <= to_pixel(d, len, v) <= len,
        len < 0 ==> len <= to_pixel(d, len, v) <= 0,
{
    let e = d.spec_extent();
    let a = v - d.min;
    if len >= 0 {
        assert(0 <= a * len <= e * len) by (nonlinear_arith)
            requires
                0 <= a <= e,
                len >= 0,
        ;
        lemma_floor_ge(a * len, e, 0);
        lemma_floor_ge(a * len, e, len + 1);
        assert((len + 1) * e > e * len) by (nonlinear_arith)
            requires
                e > 0,
        ;
    } else {
        assert(e * len <= a * len <= 0) by (nonlinear_arith)
            requires
                0 <= a <= e,
                len < 0,
        ;
        lemma_floor_ge(a * len, e, len);
        lemma_floor_ge(a * len, e, 1);
        assert(len * e == e * len) by (nonlinear_arith);
    }
}

/// A data point inside both domains lands inside the bounds, or, for
/// degenerate bounds, between their edges.
pub proof fn lemma_inside_domain_lands_in_range(p: Projection, x: int, y: int)
    requires
        p.wf(),
        p.x.min <= x <= p.x.max,
        p.y.min <= y <= p.y.max,
    ensures
        in_range(p.spec_svg_x(x)),
        in_range(p.spec_svg_y(y)),
{
    if p.x.min < p.x.max {
        lemma_axis_within(p.x, p.bounds.spec_width(), x);
    }
    if p.y.min < p.y.max {
        lemma_axis_within(p.y, p.bounds.spec_height(), y);
    }
}

/// Round trip: with a domain of more than one value on each axis and bounds
/// of positive width and height, mapping a data point to pixels and back
/// never moves it up, and returns it exactly when each pixel extent is at
/// least its domain's extent. In general the point comes back as the
/// smallest data point that lands on the same pixels.
pub proof fn lemma_round_trip(p: Projection, x: int, y: int)
    requires
        p.wf(),
        p.x.min < p.x.max,
        p.y.min < p.y.max,
        p.bounds.spec_width() > 0,
        p.bounds.spec_height() > 0,
    ensures
        p.spec_pos_x(p.spec_svg_x(x)) <= x,
        p.spec_pos_y(p.spec_svg_y(y)) <= y,
        p.spec_svg_x(p.spec_pos_x(p.spec_svg_x(x))) == p.spec_svg_x(x),
        p.spec_svg_y(p.spec_pos_y(p.spec_svg_y(y))) == p.spec_svg_y(y),
        p.bounds.spec_width() >= p.x.spec_extent() ==> p.spec_pos_x(p.spec_svg_x(x)) == x,
        p.bounds.spec_height() >= p.y.spec_extent() ==> p.spec_pos_y(p.spec_svg_y(y)) == y,
{
    let w = p.bounds.spec_width();
    let h = p.bounds.spec_height();
    let px = to_pixel(p.x, w, x);
    let py = to_pixel(p.y, h, y);
    lemma_axis_galois(p.x, w, x, px);
    lemma_axis_galois(p.y, h, y, py);
    let vx = to_value(p.x, w, px);
    let vy = to_value(p.y, h, py);
    lemma_axis_galois(p.x, w, vx, px);
    lemma_axis_galois(p.y, h, vy, py);
    lemma_axis_galois(p.x, w, vx, px + 1);
    lemma_axis_galois(p.y, h, vy, py + 1);
    lemma_axis_galois(p.x, w, x, px + 1);
    lemma_axis_galois(p.y, h, y, py + 1);
    if w >= p.x.spec_extent() {
        lemma_axis_value_round_trip(p.x, w, x);
    }
    if h >= p.y.spec_extent() {
        lemma_axis_value_round_trip(p.y, h, y);
    }
}

/// With at most one pixel per data unit on each axis, mapping a pixel
/// position to data and back gives the same pixel position.
pub proof fn lemma_pixel_round_trip(p: Projection, px: int, py: int)
    requires
        p.wf(),
        p.x.min < p.x.max,
        p.y.min < p.y.max,
        0 < p.bounds.spec_width() <= p.x.spec_extent(),
        0 < p.bounds.spec_height() <= p.y.spec_extent(),
    ensures
        p.spec_svg_x(p.spec_pos_x(px)) == px,
        p.spec_svg_y(p.spec_pos_y(py)) == py,
{
    lemma_axis_pixel_round_trip(p.x, p.bounds.spec_width(), px - p.bounds.left);
    lemma_axis_pixel_round_trip(p.y, p.bounds.spec_height(), p.bounds.bottom - py);
}

/// A domain of a single value maps every data value to the midpoint of the
/// bounds along that axis.
pub proof fn lemma_single_value_midpoint(p: Projection, x: int, y: int)
    requires
        p.x.min == p.x.max,
        p.y.min == p.y.max,
    ensures
        p.spec_svg_x(x) == (p.bounds.left + p.bounds.right) / 2,
        p.spec_svg_y(y) == (p.bounds.top + p.bounds.bottom) / 2,
{
}

} // verus!
