use crate::bounds::{in_range, Bounds};
use crate::edge::Edge;
use crate::label::RotatedLabel;
use crate::layout::{item_band, layout, layout_fits, remaining, sizes_nonneg};
use crate::legend::{max_name_width, names_fit, Legend};
use crate::padding::Padding;
use crate::projection::{Domain, Projection};
use crate::series::UseLine;
use crate::ticks::{generate, tick_values};
use vstd::prelude::*;

verus! {

/// An item that takes space along one edge of the chart.
#[derive(Clone, Debug)]
pub enum EdgeLayout {
    RotatedLabel(RotatedLabel),
    Legend(Legend),
}

/// What every part of a chart reads before layout: font metrics in pixels,
/// padding, and the series.
pub struct PreState {
    pub font_height: i64,
    pub font_width: i64,
    pub padding: Padding,
    pub lines: Vec<UseLine>,
}

impl PreState {
    /// Font metrics and padding are non-negative and small enough that sizes
    /// built from them fit, and so do the series names.
    pub open spec fn wf(&self) -> bool {
        &&& 0 <= self.font_height <= 0x0100_0000_0000
        &&& 0 <= self.font_width <= 0x0100_0000_0000
        &&& 0 <= self.padding.top <= 0x0100_0000_0000
        &&& 0 <= self.padding.right <= 0x0100_0000_0000
        &&& 0 <= self.padding.bottom <= 0x0100_0000_0000
        &&& 0 <= self.padding.left <= 0x0100_0000_0000
        &&& names_fit(self.lines@, self.font_width as int)
    }
}

/// The space an edge item takes: its height on a top or bottom edge, its
/// width on a left or right edge.
pub open spec fn spec_edge_size(pre: &PreState, edge: Edge, item: EdgeLayout) -> int {
    match item {
        EdgeLayout::RotatedLabel(l) => l.spec_size(pre.font_height as int, pre.padding),
        EdgeLayout::Legend(_) => if edge.spec_is_horizontal() {
            pre.font_height + pre.padding.spec_height()
        } else {
            3 * pre.font_width + max_name_width(pre.lines@, pre.font_width as int)
                + pre.padding.spec_width()
        },
    }
}

proof fn lemma_max_name_width_bounds(lines: Seq<UseLine>, fw: int)
    requires
        fw >= 0,
        names_fit(lines, fw),
    ensures
        0 <= max_name_width(lines, fw) <= 0x0800_0000_0000,
    decreases lines.len(),
{
    if lines.len() > 0 {
        let d = lines.drop_last();
        assert(names_fit(d, fw)) by {
            assert forall|i: int| 0 <= i < d.len() implies crate::legend::name_len(
                #[trigger] d[i].name,
            ) <= 0xffff_ffff && crate::legend::name_len(d[i].name) * fw <= 0x0800_0000_0000 by {
                assert(d[i] == lines[i]);
            }
        }
        lemma_max_name_width_bounds(d, fw);
        let n = crate::legend::name_len(lines.last().name);
        assert(lines.last() == lines[lines.len() - 1]);
        assert(n * fw >= 0) by (nonlinear_arith)
            requires
                n >= 0,
                fw >= 0,
        ;
    }
}

/// The size of an edge item.
pub fn edge_size(pre: &PreState, edge: Edge, item: &EdgeLayout) -> (r: i64)
    requires
        pre.wf(),
    ensures
        r == spec_edge_size(pre, edge, *item),
        0 <= r <= 0x1000_0000_0000,
{
    proof {
        lemma_max_name_width_bounds(pre.lines@, pre.font_width as int);
    }
    match item {
        EdgeLayout::RotatedLabel(l) => l.size(pre.font_height, pre.padding),
        EdgeLayout::Legend(_) => if edge.is_horizontal() {
            Legend::fixed_height(pre.font_height, pre.padding)
        } else {
            Legend::width(pre.font_height, pre.font_width, pre.padding, &pre.lines)
        },
    }
}

/// The sizes of the edge items, in order, paired with their edges.
pub open spec fn spec_sizes(pre: &PreState, items: Seq<(Edge, EdgeLayout)>) -> Seq<(Edge, i64)> {
    Seq::new(items.len(), |i: int| (items[i].0, spec_edge_size(pre, items[i].0, items[i].1) as i64))
}

/// Every derived value of a chart, computed from one set of inputs.
pub struct State {
    /// One band per edge item, in order.
    pub bands: Vec<Bounds>,
    /// The plot area left inside the edge items.
    pub inner: Bounds,
    pub projection: Projection,
    pub x_ticks: Vec<i64>,
    pub y_ticks: Vec<i64>,
}

impl State {
    /// The projection covers the plot area, its domains are valid, and every
    /// tick lies in its axis' domain.
    pub open spec fn wf(&self) -> bool {
        &&& self.projection.bounds == self.inner
        &&& self.projection.wf()
        &&& forall|i: int|
            0 <= i < self.x_ticks@.len() ==> self.projection.x.min <= #[trigger] self.x_ticks@[i]
                <= self.projection.x.max
        &&& forall|i: int|
            0 <= i < self.y_ticks@.len() ==> self.projection.y.min <= #[trigger] self.y_ticks@[i]
                <= self.projection.y.max
    }
}

/// The pixels available along a run of length `len`; none where it is empty
/// or negative.
pub open spec fn available(len: int) -> int {
    if len > 0 {
        len
    } else {
        0
    }
}

/// `r` is the state derived from these inputs: the bands and plot area of
/// the layout, the projection of the plot area, and the ticks of each axis.
pub open spec fn state_of(
    r: &State,
    pre: &PreState,
    outer: Bounds,
    items: Seq<(Edge, EdgeLayout)>,
    x: Domain,
    y: Domain,
    tick_width: int,
) -> bool {
    &&& r.wf()
    &&& r.inner == remaining(outer, spec_sizes(pre, items))
    &&& r.bands@.len() == items.len()
    &&& forall|i: int|
        0 <= i < items.len() ==> #[trigger] r.bands@[i] == item_band(outer, spec_sizes(pre, items), i)
    &&& r.projection == (Projection { bounds: r.inner, x, y })
    &&& r.x_ticks@ == tick_values(x, available(r.inner.spec_width()), tick_width)
    &&& r.y_ticks@ == tick_values(y, available(r.inner.spec_height()), tick_width)
}

/// Lays the chart out and derives its projection and ticks, all from the
/// same inputs: the edge items take their bands from `outer`, the plot area
/// left inside carries the projection of the two domains, and each axis
/// gets the ticks that fit its length, given `tick_width` pixels per label.
pub fn compute_state(
    pre: &PreState,
    outer: Bounds,
    items: &Vec<(Edge, EdgeLayout)>,
    x: Domain,
    y: Domain,
    tick_width: i64,
) -> (r: State)
    requires
        pre.wf(),
        outer.wf(),
        x.wf(),
        y.wf(),
        tick_width >= 1,
        layout_fits(outer, spec_sizes(pre, items@)),
    ensures
        state_of(&r, pre, outer, items@, x, y, tick_width as int),
        r.wf(),
        r.inner == remaining(outer, spec_sizes(pre, items@)),
        r.bands@.len() == items@.len(),
        forall|i: int|
            0 <= i < items@.len() ==> #[trigger] r.bands@[i] == item_band(
                outer,
                spec_sizes(pre, items@),
                i,
            ),
        r.projection == (Projection { bounds: r.inner, x, y }),
        r.x_ticks@ == tick_values(x, available(r.inner.spec_width()), tick_width as int),
        r.y_ticks@ == tick_values(y, available(r.inner.spec_height()), tick_width as int),
{
    let mut sizes: Vec<(Edge, i64)> = Vec::new();
    let mut i: usize = 0;
    while i < items.len()
        invariant
            pre.wf(),
            i <= items@.len(),
            sizes@ == spec_sizes(pre, items@).take(i as int),
        decreases items@.len() - i,
    {
        let e = items[i].0;
        let s = edge_size(pre, e, &items[i].1);
        sizes.push((e, s));
        proof {
            assert(sizes@ =~= spec_sizes(pre, items@).take(i as int + 1));
        }
        i = i + 1;
    }
    proof {
        assert(sizes@ =~= spec_sizes(pre, items@));
        assert forall|k: int| 0 <= k < sizes@.len() implies 0 <= #[trigger] sizes@[k].1 by {
            lemma_max_name_width_bounds(pre.lines@, pre.font_width as int);
        }
        assert(sizes_nonneg(sizes@));
    }
    let (bands, inner) = layout(outer, &sizes);
    let projection = Projection::new(inner, x, y);
    let w = inner.width();
    let h = inner.height();
    let x_ticks = generate(x, if w > 0 { w } else { 0 }, tick_width);
    let y_ticks = generate(y, if h > 0 { h } else { 0 }, tick_width);
    State { bands, inner, projection, x_ticks, y_ticks }
}

/// The inputs of a chart that change while it is shown: its rectangle and
/// the domains of its axes.
#[derive(Clone, Copy, Debug, PartialEq, Eq, Structural)]
pub struct ChartInputs {
    pub outer: Bounds,
    pub x: Domain,
    pub y: Domain,
}

impl ChartInputs {
    /// The inputs are valid and the edge items fit inside the rectangle.
    pub open spec fn fits(&self, pre: &PreState, items: Seq<(Edge, EdgeLayout)>) -> bool {
        &&& self.outer.wf()
        &&& self.x.wf()
        &&& self.y.wf()
        &&& layout_fits(self.outer, spec_sizes(pre, items))
    }
}

/// A chart's derived state, kept for its current inputs and recomputed only
/// when they change, so readers never see values derived from a mix of old
/// and new inputs.
pub struct ChartState {
    pre: PreState,
    items: Vec<(Edge, EdgeLayout)>,
    tick_width: i64,
    inputs: ChartInputs,
    state: State,
}

impl ChartState {
    pub closed spec fn spec_pre(&self) -> &PreState {
        &self.pre
    }

    pub closed spec fn spec_items(&self) -> Seq<(Edge, EdgeLayout)> {
        self.items@
    }

    pub closed spec fn spec_tick_width(&self) -> int {
        self.tick_width as int
    }

    pub closed spec fn spec_inputs(&self) -> ChartInputs {
        self.inputs
    }

    pub closed spec fn spec_state(&self) -> &State {
        &self.state
    }

    /// The state held is the one derived from the current inputs.
    pub open spec fn wf(&self) -> bool {
        &&& self.spec_pre().wf()
        &&& self.spec_tick_width() >= 1
        &&& self.spec_inputs().fits(self.spec_pre(), self.spec_items())
        &&& state_of(
            self.spec_state(),
            self.spec_pre(),
            self.spec_inputs().outer,
            self.spec_items(),
            self.spec_inputs().x,
            self.spec_inputs().y,
            self.spec_tick_width(),
        )
    }

    pub fn new(pre: PreState, items: Vec<(Edge, EdgeLayout)>, tick_width: i64, inputs: ChartInputs) -> (r: ChartState)
        requires
            pre.wf(),
            tick_width >= 1,
            inputs.fits(&pre, items@),
        ensures
            r.wf(),
            r.spec_pre() == &pre,
            r.spec_items() == items@,
            r.spec_tick_width() == tick_width,
            r.spec_inputs() == inputs,
    {
        let state = compute_state(&pre, inputs.outer, &items, inputs.x, inputs.y, tick_width);
        ChartState { pre, items, tick_width, inputs, state }
    }

    /// The state derived from the current inputs.
    pub fn state(&self) -> (r: &State)
        ensures
            r == self.spec_state(),
    {
        &self.state
    }

    /// Takes new inputs. The state is derived again only where they differ
    /// from the current ones; the result says whether it was.
    pub fn set_inputs(&mut self, inputs: ChartInputs) -> (changed: bool)
        requires
            old(self).wf(),
            inputs.fits(old(self).spec_pre(), old(self).spec_items()),
        ensures
            final(self).wf(),
            changed == (inputs != old(self).spec_inputs()),
            final(self).spec_inputs() == inputs,
            final(self).spec_pre() == old(self).spec_pre(),
            final(self).spec_items() == old(self).spec_items(),
            final(self).spec_tick_width() == old(self).spec_tick_width(),
            !changed ==> final(self).spec_state() == old(self).spec_state(),
    {
        if inputs == self.inputs {
            return false;
        }
        let state = compute_state(&self.pre, inputs.outer, &self.items, inputs.x, inputs.y, self.tick_width);
        self.state = state;
        self.inputs = inputs;
        true
    }
}

} // verus!
