use vstd::prelude::*;

verus! {

/// A side of the chart along which an edge item takes space.
#[derive(Clone, Copy, Debug, PartialEq, Eq, Structural)]
pub enum Edge {
    Top,
    Bottom,
    Left,
    Right,
}

impl Edge {
    pub open spec fn spec_is_horizontal(self) -> bool {
        self == Edge::Top || self == Edge::Bottom
    }

    /// Top and bottom edges run horizontally and consume height; left and
    /// right edges consume width.
    pub fn is_horizontal(&self) -> (r: bool)
        ensures
            r == self.spec_is_horizontal(),
    {
        match self {
            Edge::Top | Edge::Bottom => true,
            Edge::Left | Edge::Right => false,
        }
    }
}

} // verus!
