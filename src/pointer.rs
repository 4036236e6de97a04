use crate::bounds::{in_range, Bounds};
use crate::projection::Projection;
use vstd::prelude::*;

verus! {

/// What is known of the chart's node and the pointer at one moment: the
/// node's page rectangle once observed, whether the pointer is over it, and
/// the pointer's page position and position relative to the node.
#[derive(Clone, Copy, Debug, PartialEq, Eq)]
pub struct UseWatchedNode {
    pub bounds: Option<Bounds>,
    pub mouse_hover: bool,
    pub mouse_abs: (i64, i64),
    pub mouse_rel: (i64, i64),
}

/// The pointer position relative to the node's top-left corner; the origin
/// while the node has not been observed.
pub open spec fn spec_relative(bounds: Option<Bounds>, x: int, y: int) -> (int, int) {
    match bounds {
        Some(b) => (x - b.left, y - b.top),
        None => (0, 0),
    }
}

/// The node's rectangle on the page: its rectangle in the viewport moved by
/// the page's scroll offset.
pub fn page_bounds(left: i64, top: i64, right: i64, bottom: i64, scroll_x: i64, scroll_y: i64) -> (r: Bounds)
    requires
        in_range(left as int),
        in_range(top as int),
        in_range(right as int),
        in_range(bottom as int),
        in_range(scroll_x as int),
        in_range(scroll_y as int),
    ensures
        r == (Bounds {
            left: (left + scroll_x) as i64,
            top: (top + scroll_y) as i64,
            right: (right + scroll_x) as i64,
            bottom: (bottom + scroll_y) as i64,
        }),
{
    Bounds::from_points(left + scroll_x, top + scroll_y, right + scroll_x, bottom + scroll_y)
}

/// Combines the node's observed rectangle and the pointer into one reading:
/// the pointer hovers the node when a pointer has been seen and lies inside
/// the node's rectangle.
pub fn use_watched_node(bounds: Option<Bounds>, pointer_seen: bool, x: i64, y: i64) -> (r: UseWatchedNode)
    requires
        in_range(x as int),
        in_range(y as int),
        bounds matches Some(b) ==> b.wf(),
    ensures
        r.bounds == bounds,
        r.mouse_abs == (x, y),
        r.mouse_hover == (pointer_seen && match bounds {
            Some(b) => b.spec_contains(x as int, y as int),
            None => false,
        }),
        r.mouse_rel.0 == spec_relative(bounds, x as int, y as int).0,
        r.mouse_rel.1 == spec_relative(bounds, x as int, y as int).1,
{
    let mouse_hover = pointer_seen && match bounds {
        Some(b) => b.contains(x, y),
        None => false,
    };
    let mouse_rel = match bounds {
        Some(b) => (x - b.left, y - b.top),
        None => (0, 0),
    };
    UseWatchedNode { bounds, mouse_hover, mouse_abs: (x, y), mouse_rel }
}

impl UseWatchedNode {
    /// Whether the pointer hovers the chart's inner plot area: it hovers the
    /// node and its position relative to the node lies in the projection's
    /// bounds.
    pub fn mouse_hover_inner(&self, proj: &Projection) -> (r: bool)
        ensures
            r == (self.mouse_hover && proj.bounds.spec_contains(
                self.mouse_rel.0 as int,
                self.mouse_rel.1 as int,
            )),
    {
        self.mouse_hover && proj.bounds().contains(self.mouse_rel.0, self.mouse_rel.1)
    }
}

} // verus!
