use crate::bounds::{in_range, Bounds};
use crate::edge::Edge;
use vstd::prelude::*;

verus! {

/// The total size of the items placed on edge `e`.
pub open spec fn edge_total(items: Seq<(Edge, i64)>, e: Edge) -> int
    decreases items.len(),
{
    if items.len() == 0 {
        0
    } else {
        edge_total(items.drop_last(), e) + if items.last().0 == e {
            items.last().1 as int
        } else {
            0
        }
    }
}

/// Every item has a non-negative size.
pub open spec fn sizes_nonneg(items: Seq<(Edge, i64)>) -> bool {
    forall|i: int| 0 <= i < items.len() ==> 0 <= #[trigger] items[i].1
}

/// The space left inside `outer` once `items` have taken theirs: each side
/// moves inwards by the total size of the items on that side.
pub open spec fn remaining(outer: Bounds, items: Seq<(Edge, i64)>) -> Bounds {
    Bounds {
        left: (outer.left + edge_total(items, Edge::Left)) as i64,
        top: (outer.top + edge_total(items, Edge::Top)) as i64,
        right: (outer.right - edge_total(items, Edge::Right)) as i64,
        bottom: (outer.bottom - edge_total(items, Edge::Bottom)) as i64,
    }
}

/// The band that an item of size `s` on edge `e` takes from `r`.
pub open spec fn band(r: Bounds, e: Edge, s: int) -> Bounds {
    match e {
        Edge::Top => Bounds { bottom: (r.top + s) as i64, ..r },
        Edge::Bottom => Bounds { top: (r.bottom - s) as i64, ..r },
        Edge::Left => Bounds { right: (r.left + s) as i64, ..r },
        Edge::Right => Bounds { left: (r.right - s) as i64, ..r },
    }
}

/// The band of the item at `i`, cut from what the items before it left.
pub open spec fn item_band(outer: Bounds, items: Seq<(Edge, i64)>, i: int) -> Bounds {
    band(remaining(outer, items.take(i)), items[i].0, items[i].1 as int)
}

/// The sides of the rectangle left at the end lie in the coordinate range.
pub open spec fn layout_fits(outer: Bounds, items: Seq<(Edge, i64)>) -> bool {
    &&& in_range(outer.left + edge_total(items, Edge::Left))
    &&& in_range(outer.top + edge_total(items, Edge::Top))
    &&& in_range(outer.right - edge_total(items, Edge::Right))
    &&& in_range(outer.bottom - edge_total(items, Edge::Bottom))
}

/// With non-negative sizes, the total of a prefix lies between zero and the total.
pub proof fn lemma_prefix_total(items: Seq<(Edge, i64)>, i: int, e: Edge)
    requires
        sizes_nonneg(items),
        0 <= i <= items.len(),
    ensures
        0 <= edge_total(items.take(i), e) <= edge_total(items, e),
    decreases items.len(),
{
    if i < items.len() {
        let d = items.drop_last();
        assert(items.take(i) =~= d.take(i));
        lemma_prefix_total(d, i, e);
    } else {
        assert(items.take(i) =~= items);
        if items.len() > 0 {
            let d = items.drop_last();
            assert(d.take(d.len() as int) =~= d);
            lemma_prefix_total(d, d.len() as int, e);
        }
    }
}

/// Taking one more item adds its size to the total of its own edge alone.
pub proof fn lemma_total_step(items: Seq<(Edge, i64)>, i: int, e: Edge)
    requires
        0 <= i < items.len(),
    ensures
        edge_total(items.take(i + 1), e) == edge_total(items.take(i), e) + if items[i].0 == e {
            items[i].1 as int
        } else {
            0
        },
{
    assert(items.take(i + 1).drop_last() =~= items.take(i));
}

/// Splits `outer` into one band per item, in order, and the rectangle left
/// inside. Each item takes its size from the side of its edge of what the
/// items before it left; the result may be degenerate.
pub fn layout(outer: Bounds, items: &Vec<(Edge, i64)>) -> (r: (Vec<Bounds>, Bounds))
    requires
        outer.wf(),
        sizes_nonneg(items@),
        layout_fits(outer, items@),
    ensures
        r.1 == remaining(outer, items@),
        r.1.wf(),
        r.0@.len() == items@.len(),
        forall|i: int| 0 <= i < items@.len() ==> #[trigger] r.0@[i] == item_band(outer, items@, i),
{
    let mut bands: Vec<Bounds> = Vec::new();
    let mut rest = outer;
    let n = items.len();
    let mut i: usize = 0;
    proof {
        assert(items@.take(0) =~= Seq::<(Edge, i64)>::empty());
    }
    while i < n
        invariant
            n == items@.len(),
            0 <= i <= n,
            outer.wf(),
            sizes_nonneg(items@),
            layout_fits(outer, items@),
            rest == remaining(outer, items@.take(i as int)),
            rest.wf(),
            bands@.len() == i,
            forall|j: int| 0 <= j < i ==> #[trigger] bands@[j] == item_band(outer, items@, j),
        decreases n - i,
    {
        let (edge, size) = items[i];
        proof {
            lemma_total_step(items@, i as int, Edge::Top);
            lemma_total_step(items@, i as int, Edge::Bottom);
            lemma_total_step(items@, i as int, Edge::Left);
            lemma_total_step(items@, i as int, Edge::Right);
            lemma_prefix_total(items@, i as int + 1, Edge::Top);
            lemma_prefix_total(items@, i as int + 1, Edge::Bottom);
            lemma_prefix_total(items@, i as int + 1, Edge::Left);
            lemma_prefix_total(items@, i as int + 1, Edge::Right);
            lemma_prefix_total(items@, i as int, Edge::Top);
            lemma_prefix_total(items@, i as int, Edge::Bottom);
            lemma_prefix_total(items@, i as int, Edge::Left);
            lemma_prefix_total(items@, i as int, Edge::Right);
            assert(0 <= items@[i as int].1);
        }
        let b = match edge {
            Edge::Top => {
                let b = Bounds { bottom: rest.top + size, ..rest };
                rest.top = rest.top + size;
                b
            },
            Edge::Bottom => {
                let b = Bounds { top: rest.bottom - size, ..rest };
                rest.bottom = rest.bottom - size;
                b
            },
            Edge::Left => {
                let b = Bounds { right: rest.left + size, ..rest };
                rest.left = rest.left + size;
                b
            },
            Edge::Right => {
                let b = Bounds { left: rest.right - size, ..rest };
                rest.right = rest.right - size;
                b
            },
        };
        bands.push(b);
        i = i + 1;
    }
    proof {
        assert(items@.take(n as int) =~= items@);
    }
    (bands, rest)
}

/// Exact pixel accounting: the sizes of the items on the left and right
/// plus the width left inside make up the outer width, and the sizes of the
/// items on the top and bottom plus the height left inside make up the outer
/// height.
pub proof fn lemma_layout_accounting(outer: Bounds, items: Seq<(Edge, i64)>)
    requires
        outer.wf(),
        sizes_nonneg(items),
        layout_fits(outer, items),
    ensures
        edge_total(items, Edge::Left) + edge_total(items, Edge::Right) + remaining(
            outer,
            items,
        ).spec_width() == outer.spec_width(),
        edge_total(items, Edge::Top) + edge_total(items, Edge::Bottom) + remaining(
            outer,
            items,
        ).spec_height() == outer.spec_height(),
{
}

/// With no items the whole rectangle is left.
pub proof fn lemma_layout_empty(outer: Bounds)
    ensures
        remaining(outer, Seq::empty()) == outer,
{
}

} // verus!
