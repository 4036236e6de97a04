use crate::anchor::Anchor;
use crate::bounds::{in_range, Bounds};
use crate::edge::Edge;
use crate::padding::Padding;
use vstd::prelude::*;

verus! {

/// A line of text placed along one edge, turned to run along it.
#[derive(Clone, Debug)]
pub struct RotatedLabel {
    pub text: String,
    pub anchor: Anchor,
}

/// The point and rotation of a label drawn inside `c`, the rectangle its
/// band leaves once padded: horizontal edges keep the text upright; the left
/// edge turns it to read upwards and the right edge to read downwards, so
/// their anchor points run in opposite directions.
pub open spec fn spec_label_position(edge: Edge, anchor: Anchor, c: Bounds) -> (u32, int, int) {
    let cx = (c.left + c.right) / 2;
    let cy = (c.top + c.bottom) / 2;
    let pick = |s: int, m: int, e: int|
        match anchor {
            Anchor::Start => s,
            Anchor::Middle => m,
            Anchor::End => e,
        };
    match edge {
        Edge::Top | Edge::Bottom => (0, pick(c.left as int, cx, c.right as int), cy),
        Edge::Left => (270, cx, pick(c.bottom as int, cy, c.top as int)),
        Edge::Right => (90, cx, pick(c.top as int, cy, c.bottom as int)),
    }
}

impl RotatedLabel {
    /// The label's extent across its edge: nothing for empty text, else one
    /// line of text plus the vertical padding.
    pub open spec fn spec_size(&self, font_height: int, padding: Padding) -> int {
        if self.text@.len() == 0 {
            0
        } else {
            font_height + padding.spec_height()
        }
    }

    pub fn new(anchor: Anchor, text: String) -> (r: RotatedLabel)
        ensures
            r.anchor == anchor,
            r.text == text,
    {
        RotatedLabel { text, anchor }
    }

    pub fn start(text: String) -> (r: RotatedLabel)
        ensures
            r.anchor == Anchor::Start,
            r.text == text,
    {
        Self::new(Anchor::Start, text)
    }

    pub fn middle(text: String) -> (r: RotatedLabel)
        ensures
            r.anchor == Anchor::Middle,
            r.text == text,
    {
        Self::new(Anchor::Middle, text)
    }

    pub fn end(text: String) -> (r: RotatedLabel)
        ensures
            r.anchor == Anchor::End,
            r.text == text,
    {
        Self::new(Anchor::End, text)
    }

    pub fn size(&self, font_height: i64, padding: Padding) -> (r: i64)
        requires
            in_range(font_height as int),
            padding.wf(),
        ensures
            r == self.spec_size(font_height as int, padding),
    {
        if self.text.as_str().is_empty() {
            0
        } else {
            font_height + padding.height()
        }
    }

    /// The height the label takes on a top or bottom edge.
    pub fn fixed_height(&self, font_height: i64, padding: Padding) -> (r: i64)
        requires
            in_range(font_height as int),
            padding.wf(),
        ensures
            r == self.spec_size(font_height as int, padding),
    {
        self.size(font_height, padding)
    }

    /// The width the label takes on a left or right edge: turned on its side,
    /// it is as wide as it is high upright.
    pub fn fixed_width(&self, font_height: i64, padding: Padding) -> (r: i64)
        requires
            in_range(font_height as int),
            padding.wf(),
        ensures
            r == self.spec_size(font_height as int, padding),
    {
        self.size(font_height, padding)
    }

    /// Rotation in degrees and the text's anchor point, for the label drawn
    /// in `bounds` on `edge` with `padding` taken inside.
    pub fn position(&self, edge: Edge, bounds: Bounds, padding: Padding) -> (r: (u32, i64, i64))
        requires
            bounds.wf(),
            padding.wf(),
            padding.spec_apply(bounds).wf(),
        ensures
            ({
                let s = spec_label_position(edge, self.anchor, padding.spec_apply(bounds));
                r.0 == s.0 && r.1 == s.1 && r.2 == s.2
            }),
    {
        let c = padding.apply(bounds);
        let cx = c.centre_x();
        let cy = c.centre_y();
        match edge {
            Edge::Top | Edge::Bottom => (0, self.anchor.map_points(c.left, cx, c.right), cy),
            Edge::Left => (270, cx, self.anchor.map_points(c.bottom, cy, c.top)),
            Edge::Right => (90, cx, self.anchor.map_points(c.top, cy, c.bottom)),
        }
    }
}

} // verus!
