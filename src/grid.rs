use crate::bounds::in_range;
use crate::path::{decimal, decimal_of};
use crate::projection::Projection;
use vstd::prelude::*;

verus! {

/// The labels as character sequences.
pub open spec fn label_views(labels: Seq<String>) -> Seq<Seq<char>> {
    labels.map_values(|s: String| s@)
}

/// No label before index `i` equals the label at `i`.
pub open spec fn is_first(labels: Seq<Seq<char>>, i: int) -> bool {
    forall|j: int| 0 <= j < i ==> labels[j] != labels[i]
}

/// The indices of the first occurrence of each label, in increasing order.
pub open spec fn first_indices(labels: Seq<Seq<char>>) -> Seq<int>
    decreases labels.len(),
{
    if labels.len() == 0 {
        Seq::empty()
    } else {
        let rest = first_indices(labels.drop_last());
        if is_first(labels, labels.len() - 1) {
            rest.push(labels.len() - 1)
        } else {
            rest
        }
    }
}

/// The first indices are increasing, each names a first occurrence, and every
/// first occurrence is among them.
pub proof fn lemma_first_indices(labels: Seq<Seq<char>>)
    ensures
        forall|a: int, b: int|
            0 <= a < b < first_indices(labels).len() ==> first_indices(labels)[a] < first_indices(
                labels,
            )[b],
        forall|a: int|
            0 <= a < first_indices(labels).len() ==> 0 <= #[trigger] first_indices(labels)[a]
                < labels.len() && is_first(labels, first_indices(labels)[a]),
        forall|i: int|
            0 <= i < labels.len() && is_first(labels, i) ==> first_indices(labels).contains(i),
    decreases labels.len(),
{
    if labels.len() > 0 {
        let d = labels.drop_last();
        lemma_first_indices(d);
        assert forall|i: int| 0 <= i < d.len() implies is_first(d, i) == is_first(labels, i) by {
            assert forall|j: int| 0 <= j < i implies d[j] == labels[j] by {}
        }
        let r = first_indices(labels);
        let rd = first_indices(d);
        assert forall|i: int| 0 <= i < labels.len() && is_first(labels, i) implies r.contains(i) by {
            if i < d.len() {
                let a = choose|a: int| 0 <= a < rd.len() && rd[a] == i;
                assert(r[a] == i);
            } else {
                assert(r[r.len() - 1] == i);
            }
        }
    }
}

/// No two first indices carry the same label, and every label occurs at one
/// of them.
pub proof fn lemma_labels_unique(labels: Seq<Seq<char>>)
    ensures
        forall|a: int, b: int|
            0 <= a < b < first_indices(labels).len() ==> labels[first_indices(labels)[a]]
                != labels[first_indices(labels)[b]],
        forall|i: int|
            0 <= i < labels.len() ==> exists|a: int|
                0 <= a < first_indices(labels).len() && labels[#[trigger] first_indices(
                    labels,
                )[a]] == #[trigger] labels[i],
{
    lemma_first_indices(labels);
    let r = first_indices(labels);
    assert forall|i: int| 0 <= i < labels.len() implies exists|a: int|
        0 <= a < r.len() && labels[#[trigger] r[a]] == #[trigger] labels[i] by {
        lemma_earliest(labels, i, i);
        let k = choose|k: int| 0 <= k <= i && is_first(labels, k) && labels[k] == labels[i];
        assert(r.contains(k));
        let a = choose|a: int| 0 <= a < r.len() && r[a] == k;
        assert(labels[r[a]] == labels[i]);
    }
}

/// Some index up to `m` holds the first occurrence of the label at `i`.
proof fn lemma_earliest(labels: Seq<Seq<char>>, i: int, m: int)
    requires
        0 <= m <= i < labels.len(),
        labels[m] == labels[i],
    ensures
        exists|k: int| 0 <= k <= i && is_first(labels, k) && labels[k] == labels[i],
    decreases m,
{
    if is_first(labels, m) {
    } else {
        let j = choose|j: int| 0 <= j < m && labels[j] == labels[m];
        lemma_earliest(labels, i, j);
    }
}

/// The indices of the first tick of each label, in order.
pub fn first_label_indices(labels: &Vec<String>) -> (r: Vec<usize>)
    ensures
        r@.len() == first_indices(label_views(labels@)).len(),
        forall|a: int|
            0 <= a < r@.len() ==> r@[a] as int == #[trigger] first_indices(label_views(labels@))[a],
{
    let ghost lv = label_views(labels@);
    let mut r: Vec<usize> = Vec::new();
    let mut i: usize = 0;
    while i < labels.len()
        invariant
            lv == label_views(labels@),
            i <= labels@.len(),
            r@.len() == first_indices(lv.take(i as int)).len(),
            forall|a: int|
                0 <= a < r@.len() ==> r@[a] as int == #[trigger] first_indices(lv.take(i as int))[a],
        decreases labels@.len() - i,
    {
        let mut seen = false;
        let mut j: usize = 0;
        while j < i
            invariant
                lv == label_views(labels@),
                j <= i < labels@.len(),
                seen == exists|k: int| 0 <= k < j && lv[k] == lv[i as int],
            decreases i - j,
        {
            proof {
                assert(lv[j as int] == labels@[j as int]@);
                assert(lv[i as int] == labels@[i as int]@);
            }
            if labels[j] == labels[i] {
                seen = true;
            }
            proof {
                if exists|k: int| 0 <= k < j + 1 && lv[k] == lv[i as int] {
                    let k = choose|k: int| 0 <= k < j + 1 && lv[k] == lv[i as int];
                    if k < j {
                        assert(exists|k: int| 0 <= k < j && lv[k] == lv[i as int]);
                    }
                }
            }
            j = j + 1;
        }
        proof {
            let t = lv.take(i as int + 1);
            assert(t.drop_last() =~= lv.take(i as int));
            assert(is_first(t, i as int) == !seen) by {
                if seen {
                    let k = choose|k: int| 0 <= k < i && lv[k] == lv[i as int];
                    assert(t[k] == t[i as int]);
                }
            }
        }
        if !seen {
            r.push(i);
        }
        i = i + 1;
    }
    proof {
        assert(lv.take(labels@.len() as int) =~= lv);
    }
    r
}

/// The default labels of ticks: each value in decimal.
pub fn default_labels(ticks: &Vec<i64>) -> (r: Vec<String>)
    ensures
        r@.len() == ticks@.len(),
        forall|i: int| 0 <= i < ticks@.len() ==> (#[trigger] r@[i])@ == decimal_of(ticks@[i] as int),
{
    let mut r: Vec<String> = Vec::new();
    let mut i: usize = 0;
    while i < ticks.len()
        invariant
            i <= ticks@.len(),
            r@.len() == i,
            forall|j: int| 0 <= j < i ==> (#[trigger] r@[j])@ == decimal_of(ticks@[j] as int),
        decreases ticks@.len() - i,
    {
        r.push(decimal(ticks[i]));
        i = i + 1;
    }
    r
}

/// One grid line: its pixel coordinate across the axis and its label.
#[derive(Clone, Debug, PartialEq, Eq)]
pub struct GridMark {
    pub pixel: i64,
    pub label: String,
}

/// The pixel coordinate of a tick value: a column for the X axis, a row for
/// the Y axis.
pub open spec fn tick_pixel(p: Projection, v: int, is_x: bool) -> int {
    if is_x {
        p.spec_svg_x(v)
    } else {
        p.spec_svg_y(v)
    }
}

/// Every tick value and its pixel coordinate lie in the coordinate range.
pub open spec fn ticks_in_range(p: Projection, ticks: Seq<i64>, is_x: bool) -> bool {
    forall|i: int|
        0 <= i < ticks.len() ==> in_range(#[trigger] ticks[i] as int) && in_range(
            tick_pixel(p, ticks[i] as int, is_x),
        )
}

/// The grid lines of an axis: the first tick of each label, in order, at
/// its projected pixel coordinate. Ticks that repeat an earlier label are
/// left out, so no two lines share a label.
pub fn for_ticks(p: &Projection, ticks: &Vec<i64>, labels: &Vec<String>, is_x: bool) -> (r: Vec<
    GridMark,
>)
    requires
        p.wf(),
        ticks@.len() == labels@.len(),
        ticks_in_range(*p, ticks@, is_x),
    ensures
        r@.len() == first_indices(label_views(labels@)).len(),
        forall|a: int|
            0 <= a < r@.len() ==> {
                let k = #[trigger] first_indices(label_views(labels@))[a];
                &&& r@[a].pixel == tick_pixel(*p, ticks@[k] as int, is_x)
                &&& r@[a].label@ == labels@[k]@
            },
{
    let idx = first_label_indices(labels);
    proof {
        lemma_first_indices(label_views(labels@));
    }
    let mut r: Vec<GridMark> = Vec::new();
    let mut a: usize = 0;
    while a < idx.len()
        invariant
            p.wf(),
            ticks@.len() == labels@.len(),
            ticks_in_range(*p, ticks@, is_x),
            idx@.len() == first_indices(label_views(labels@)).len(),
            forall|b: int|
                0 <= b < idx@.len() ==> idx@[b] as int == #[trigger] first_indices(
                    label_views(labels@),
                )[b],
            forall|b: int|
                0 <= b < first_indices(label_views(labels@)).len() ==> 0 <= #[trigger] first_indices(
                    label_views(labels@),
                )[b] < label_views(labels@).len(),
            a <= idx@.len(),
            r@.len() == a,
            forall|b: int|
                0 <= b < a ==> {
                    let k = #[trigger] first_indices(label_views(labels@))[b];
                    &&& r@[b].pixel == tick_pixel(*p, ticks@[k] as int, is_x)
                    &&& r@[b].label@ == labels@[k]@
                },
        decreases idx@.len() - a,
    {
        let k = idx[a];
        assert(first_indices(label_views(labels@))[a as int] == k);
        let v = ticks[k];
        let pixel = if is_x {
            p.x_to_svg(v)
        } else {
            p.y_to_svg(v)
        };
        let label = labels[k].clone();
        r.push(GridMark { pixel, label });
        a = a + 1;
    }
    r
}

} // verus!
