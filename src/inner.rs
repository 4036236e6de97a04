use crate::bounds::Bounds;
use crate::colour::{
    colour_or, spec_colour_or, default_axis_marker_colour, default_grid_line_colour, default_guide_line_colour,
    Colour,
};
use crate::grid::{default_labels, first_indices, for_ticks, tick_pixel, GridMark};
use crate::legend::Legend;
use crate::path::decimal_of;
use crate::projection::{lemma_inside_domain_lands_in_range, Projection};
use crate::state::State;
use vstd::prelude::*;

verus! {

/// Styling of a line decoration: stroke width in pixels and an optional
/// colour that overrides the decoration's default.
#[derive(Clone, Copy, Debug, PartialEq, Eq, Structural)]
pub struct LineStyle {
    pub width: i64,
    pub colour: Option<Colour>,
}

impl LineStyle {
    /// One pixel wide, in the default colour.
    pub fn new() -> (r: LineStyle)
        ensures
            r == (LineStyle { width: 1, colour: None }),
    {
        LineStyle { width: 1, colour: None }
    }

    pub fn set_width(self, width: i64) -> (r: LineStyle)
        ensures
            r == (LineStyle { width, ..self }),
    {
        LineStyle { width, ..self }
    }

    pub fn set_colour(self, colour: Option<Colour>) -> (r: LineStyle)
        ensures
            r == (LineStyle { colour, ..self }),
    {
        LineStyle { colour, ..self }
    }
}

/// The decorations drawn inside the plot area.
#[derive(Clone, Copy, Debug, PartialEq, Eq, Structural)]
pub enum InnerLayout {
    /// A line along one side of the plot area.
    AxisMarker(LineStyle),
    /// Vertical lines across the plot at each X tick.
    XGridLine(LineStyle),
    /// Horizontal lines across the plot at each Y tick.
    YGridLine(LineStyle),
    /// A vertical line that follows the pointer.
    XGuideLine(LineStyle),
    /// A horizontal line that follows the pointer.
    YGuideLine(LineStyle),
    /// A legend drawn over the plot area.
    Legend(Legend),
}

/// A decoration made ready to draw against one chart state.
#[derive(Clone, Debug)]
pub enum UseInner {
    AxisMarker { colour: Colour, width: i64 },
    /// One line per mark, across the plot area.
    GridLine { colour: Colour, width: i64, is_x: bool, marks: Vec<GridMark> },
    GuideLine { colour: Colour, width: i64, is_x: bool },
    Legend(Legend),
}

/// The default labels of the ticks.
pub open spec fn decimal_labels(ticks: Seq<i64>) -> Seq<Seq<char>> {
    ticks.map_values(|v: i64| decimal_of(v as int))
}

/// `marks` are the grid marks of `ticks` under their default labels: the
/// first tick of each label, in order, at its pixel coordinate.
pub open spec fn marks_of(p: Projection, ticks: Seq<i64>, is_x: bool, marks: Seq<GridMark>) -> bool {
    let labels = decimal_labels(ticks);
    &&& marks.len() == first_indices(labels).len()
    &&& forall|a: int|
        0 <= a < marks.len() ==> {
            let k = #[trigger] first_indices(labels)[a];
            &&& marks[a].pixel == tick_pixel(p, ticks[k] as int, is_x)
            &&& marks[a].label@ == labels[k]
        }
}

impl InnerLayout {
    /// Readies the decoration for `state`: a grid line takes the marks of its
    /// axis' ticks; every line takes its stroke colour.
    pub fn into_use(self, state: &State) -> (r: UseInner)
        requires
            state.wf(),
        ensures
            match self {
                InnerLayout::AxisMarker(s) => r == (UseInner::AxisMarker {
                    colour: spec_colour_or(s.colour, Colour { red: 0xD2, green: 0xD2, blue: 0xD2 }),
                    width: s.width,
                }),
                InnerLayout::XGridLine(s) => r matches UseInner::GridLine { colour, width, is_x, marks }
                    && colour == spec_colour_or(s.colour, Colour { red: 0xEF, green: 0xF2, blue: 0xFA })
                    && width == s.width && is_x && marks_of(state.projection, state.x_ticks@, true, marks@),
                InnerLayout::YGridLine(s) => r matches UseInner::GridLine { colour, width, is_x, marks }
                    && colour == spec_colour_or(s.colour, Colour { red: 0xEF, green: 0xF2, blue: 0xFA })
                    && width == s.width && !is_x && marks_of(state.projection, state.y_ticks@, false, marks@),
                InnerLayout::XGuideLine(s) => r == (UseInner::GuideLine {
                    colour: spec_colour_or(s.colour, Colour { red: 0x9A, green: 0x9A, blue: 0x9A }),
                    width: s.width,
                    is_x: true,
                }),
                InnerLayout::YGuideLine(s) => r == (UseInner::GuideLine {
                    colour: spec_colour_or(s.colour, Colour { red: 0x9A, green: 0x9A, blue: 0x9A }),
                    width: s.width,
                    is_x: false,
                }),
                InnerLayout::Legend(l) => r == UseInner::Legend(l),
            },
    {
        match self {
            InnerLayout::AxisMarker(s) => UseInner::AxisMarker {
                colour: colour_or(s.colour, default_axis_marker_colour()),
                width: s.width,
            },
            InnerLayout::XGridLine(s) => {
                let marks = axis_marks(state, true);
                UseInner::GridLine {
                    colour: colour_or(s.colour, default_grid_line_colour()),
                    width: s.width,
                    is_x: true,
                    marks,
                }
            },
            InnerLayout::YGridLine(s) => {
                let marks = axis_marks(state, false);
                UseInner::GridLine {
                    colour: colour_or(s.colour, default_grid_line_colour()),
                    width: s.width,
                    is_x: false,
                    marks,
                }
            },
            InnerLayout::XGuideLine(s) => UseInner::GuideLine {
                colour: colour_or(s.colour, default_guide_line_colour()),
                width: s.width,
                is_x: true,
            },
            InnerLayout::YGuideLine(s) => UseInner::GuideLine {
                colour: colour_or(s.colour, default_guide_line_colour()),
                width: s.width,
                is_x: false,
            },
            InnerLayout::Legend(l) => UseInner::Legend(l),
        }
    }
}

/// The grid marks of one axis of `state`, under default labels.
fn axis_marks(state: &State, is_x: bool) -> (r: Vec<GridMark>)
    requires
        state.wf(),
    ensures
        marks_of(state.projection, if is_x { state.x_ticks@ } else { state.y_ticks@ }, is_x, r@),
{
    let ticks = if is_x {
        &state.x_ticks
    } else {
        &state.y_ticks
    };
    let labels = default_labels(ticks);
    proof {
        let p = state.projection;
        assert forall|i: int| 0 <= i < ticks@.len() implies crate::bounds::in_range(
            #[trigger] ticks@[i] as int,
        ) && crate::bounds::in_range(tick_pixel(p, ticks@[i] as int, is_x)) by {
            let v = ticks@[i] as int;
            if is_x {
                lemma_inside_domain_lands_in_range(p, v, p.y.min as int);
            } else {
                lemma_inside_domain_lands_in_range(p, p.x.min as int, v);
            }
        }
        assert(crate::grid::label_views(labels@) =~= decimal_labels(ticks@));
    }
    let r = for_ticks(&state.projection, ticks, &labels, is_x);
    proof {
        let lv = crate::grid::label_views(labels@);
        assert forall|a: int| 0 <= a < r@.len() implies {
            let k = #[trigger] first_indices(decimal_labels(ticks@))[a];
            &&& r@[a].pixel == tick_pixel(state.projection, ticks@[k] as int, is_x)
            &&& r@[a].label@ == decimal_labels(ticks@)[k]
        } by {
            let k = first_indices(lv)[a];
            crate::grid::lemma_first_indices(lv);
            assert(lv[k] == labels@[k]@);
        }
    }
    r
}

/// A straight line from one point to another.
#[derive(Clone, Copy, Debug, PartialEq, Eq, Structural)]
pub struct Segment {
    pub x1: i64,
    pub y1: i64,
    pub x2: i64,
    pub y2: i64,
}

/// The segment of the grid line at pixel `at` that spans the whole of `inner`.
pub open spec fn grid_segment(inner: Bounds, at: i64, is_x: bool) -> Segment {
    if is_x {
        Segment { x1: at, y1: inner.top, x2: at, y2: inner.bottom }
    } else {
        Segment { x1: inner.left, y1: at, x2: inner.right, y2: at }
    }
}

/// The grid lines at each mark, each spanning the whole plot area: top to
/// bottom for the X axis, left to right for the Y axis.
pub fn grid_segments(inner: Bounds, marks: &Vec<GridMark>, is_x: bool) -> (r: Vec<Segment>)
    ensures
        r@.len() == marks@.len(),
        forall|i: int| 0 <= i < marks@.len() ==> #[trigger] r@[i] == grid_segment(inner, marks@[i].pixel, is_x),
{
    let mut r: Vec<Segment> = Vec::new();
    let mut i: usize = 0;
    while i < marks.len()
        invariant
            i <= marks@.len(),
            r@.len() == i,
            forall|j: int| 0 <= j < i ==> #[trigger] r@[j] == grid_segment(inner, marks@[j].pixel, is_x),
        decreases marks@.len() - i,
    {
        let at = marks[i].pixel;
        let s = if is_x {
            Segment { x1: at, y1: inner.top, x2: at, y2: inner.bottom }
        } else {
            Segment { x1: inner.left, y1: at, x2: inner.right, y2: at }
        };
        r.push(s);
        i = i + 1;
    }
    r
}

} // verus!
