use crate::arith::{ceil_div, ceil_div_exec, floor_div, lemma_floor_bounds};
use crate::bounds::in_range;
use crate::projection::Domain;
use vstd::arithmetic::div_mod::lemma_fundamental_div_mod_converse;
use vstd::prelude::*;

verus! {

pub open spec fn pow10(k: nat) -> int
    decreases k,
{
    if k == 0 {
        1
    } else {
        10 * pow10((k - 1) as nat)
    }
}

/// The leading digit of the `j`-th nice number within its decade.
pub open spec fn mantissa(j: int) -> int {
    if j == 0 {
        1
    } else if j == 1 {
        2
    } else {
        5
    }
}

/// The nice numbers in increasing order: 1, 2, 5, 10, 20, 50, 100, ...
pub open spec fn nice_at(i: nat) -> int {
    mantissa(i as int % 3) * pow10(i / 3)
}

/// `i` is the first index whose nice number, taken `count` times, covers `extent`.
pub open spec fn first_fit(i: nat, extent: int, count: int) -> bool {
    &&& nice_at(i) * count >= extent
    &&& forall|j: nat| j < i ==> #[trigger] nice_at(j) * count < extent
}

/// The number of ticks that fits: starting from `c`, halve while the spacing
/// of `c` ticks over `avail` pixels is under `need` pixels.
pub open spec fn fit_count(avail: int, need: int, c: int) -> int
    decreases c,
{
    if c <= 0 {
        0
    } else if avail / c >= need {
        c
    } else {
        fit_count(avail, need, c / 2)
    }
}

/// The aligned ticks of `step` within `d`: every multiple of `step` from the
/// domain's minimum to its maximum, in increasing order.
pub open spec fn aligned_ticks(d: Domain, step: int) -> Seq<int> {
    let first = ceil_div(d.min as int, step);
    let last = (d.max as int) / step;
    Seq::new(if last >= first { (last - first + 1) as nat } else { 0 }, |i: int| (first + i) * step)
}

/// The quotient rounded up, times the divisor, is at least the dividend.
proof fn lemma_ceil_times(n: int, d: int)
    requires
        d > 0,
    ensures
        ceil_div(n, d) * d >= n,
{
    lemma_floor_bounds(-n, d);
    assert(ceil_div(n, d) * d == -(((-n) / d) * d)) by (nonlinear_arith);
}

/// Only one index is the first to fit.
pub proof fn lemma_first_fit_unique(a: nat, b: nat, extent: int, count: int)
    requires
        first_fit(a, extent, count),
        first_fit(b, extent, count),
    ensures
        a == b,
{
    if a < b {
        assert(nice_at(a) * count < extent);
    } else if b < a {
        assert(nice_at(b) * count < extent);
    }
}

/// The ticks for a domain across `avail` pixels with `need` pixels per label.
pub open spec fn tick_values(d: Domain, avail: int, need: int) -> Seq<i64> {
    let c = fit_count(avail, need, avail);
    if c <= 0 {
        Seq::empty()
    } else {
        let k = choose|k: nat| first_fit(k, d.spec_extent(), c);
        aligned_ticks(d, nice_at(k)).map_values(|v: int| v as i64)
    }
}

proof fn lemma_pow10_pos(k: nat)
    ensures
        pow10(k) >= 1,
    decreases k,
{
    if k > 0 {
        lemma_pow10_pos((k - 1) as nat);
    }
}

/// The nice number after `nice_at(i)`.
proof fn lemma_nice_next(i: nat)
    ensures
        nice_at(i + 1) == if i % 3 == 2 {
            2 * nice_at(i)
        } else if i % 3 == 1 {
            (5 * nice_at(i)) / 2
        } else {
            2 * nice_at(i)
        },
        i % 3 == 2 ==> nice_at(i + 1) == pow10(i / 3 + 1),
        i % 3 == 1 ==> nice_at(i + 1) == 5 * pow10(i / 3),
        i % 3 == 0 ==> nice_at(i + 1) == 2 * pow10(i / 3),
{
    let k = i / 3;
    let j = i % 3;
    lemma_fundamental_div_mod_converse(i as int, 3, k as int, j as int);
    if j < 2 {
        lemma_fundamental_div_mod_converse(i + 1 as int, 3, k as int, j + 1 as int);
    } else {
        lemma_fundamental_div_mod_converse(i + 1 as int, 3, k + 1 as int, 0);
        assert(pow10(k + 1) == 10 * pow10(k));
    }
}

/// The smallest nice step that splits `extent` into at most `count` intervals.
pub fn nice_step(extent: u64, count: u64) -> (r: u64)
    requires
        count >= 1,
        extent <= 0x2000_0000_0000,
    ensures
        exists|i: nat| r == nice_at(i) && first_fit(i, extent as int, count as int),
        1 <= r <= 1 + 5 * extent,
{
    let mut p: u64 = 1;
    let mut j: u64 = 0;
    let mut s: u64 = 1;
    let ghost mut i: nat = 0;
    proof {
        lemma_pow10_pos(0);
    }
    loop
        invariant
            count >= 1,
            extent <= 0x2000_0000_0000,
            j < 3,
            i % 3 == j,
            p == pow10(i / 3),
            s == nice_at(i),
            s == mantissa(j as int) * p,
            1 <= p <= s,
            1 <= s <= 1 + 5 * extent,
            forall|t: nat| t < i ==> #[trigger] nice_at(t) * count < extent,
        ensures
            s == nice_at(i),
            1 <= s <= 1 + 5 * extent,
            nice_at(i) * count >= extent,
            forall|t: nat| t < i ==> #[trigger] nice_at(t) * count < extent,
        decreases 1 + 5 * extent - s,
    {
        proof {
            assert((s as u128) * (count as u128) <= 0x1_0000_0000_0000_0000_0000_0000_0000) by (nonlinear_arith)
                requires
                    s <= 0x1_0000_0000_0000,
                    count <= 0xffff_ffff_ffff_ffff,
            ;
        }
        if (s as u128) * (count as u128) >= extent as u128 {
            break;
        }
        proof {
            lemma_nice_next(i);
            assert(s * count >= s) by (nonlinear_arith)
                requires
                    count >= 1,
                    s >= 1,
            ;
            assert(nice_at(i) * count < extent);
            assert(s < extent);
        }
        if j == 0 {
            s = 2 * p;
            j = 1;
        } else if j == 1 {
            s = 5 * p;
            j = 2;
        } else {
            p = 10 * p;
            s = p;
            j = 0;
        }
        proof {
            i = i + 1;
            assert(forall|t: nat| t < i ==> #[trigger] nice_at(t) * count < extent);
        }
    }
    proof {
        assert(first_fit(i, extent as int, count as int));
    }
    s
}

/// The number of ticks that fits in `avail` pixels when each needs `need`
/// pixels, found by halving `start`.
pub fn fitting_count(avail: i64, need: i64, start: i64) -> (r: i64)
    requires
        avail >= 0,
        need >= 1,
    ensures
        r == fit_count(avail as int, need as int, start as int),
{
    let mut c = start;
    while c > 0 && avail / c < need
        invariant
            avail >= 0,
            need >= 1,
            fit_count(avail as int, need as int, c as int) == fit_count(
                avail as int,
                need as int,
                start as int,
            ),
        decreases c,
    {
        c = c / 2;
    }
    if c <= 0 {
        0
    } else {
        c
    }
}

/// Every multiple of `step` in the domain, in increasing order.
pub fn aligned(d: Domain, step: u64) -> (r: Vec<i64>)
    requires
        d.wf(),
        1 <= step <= 0x1_0000_0000_0000,
    ensures
        r@.len() == aligned_ticks(d, step as int).len(),
        forall|i: int| 0 <= i < r@.len() ==> r@[i] == #[trigger] aligned_ticks(d, step as int)[i],
{
    let st = step as i128;
    let first = ceil_div_exec(d.min as i128, st);
    let last = floor_div(d.max as i128, st);
    let mut r: Vec<i64> = Vec::new();
    let mut k = first;
    proof {
        lemma_ceil_times(d.min as int, st as int);
        lemma_floor_bounds(d.max as int, st as int);
    }
    while k <= last
        invariant
            st == step,
            1 <= step <= 0x1_0000_0000_0000,
            d.wf(),
            first == ceil_div(d.min as int, step as int),
            last == (d.max as int) / (step as int),
            first * st >= d.min,
            last * st <= d.max,
            first <= k,
            k <= last + 1 || last < first,
            r@.len() == k - first || (last < first && r@.len() == 0),
            last < first ==> k == first,
            forall|i: int| 0 <= i < r@.len() ==> r@[i] == (first + i) * step,
        decreases last + 1 - k,
    {
        proof {
            assert(d.min <= k * st <= d.max) by (nonlinear_arith)
                requires
                    first * st >= d.min,
                    last * st <= d.max,
                    first <= k <= last,
                    st >= 1,
            ;
        }
        r.push((k * st) as i64);
        k = k + 1;
    }
    r
}

/// The aligned ticks for a domain drawn across `avail` pixels, where each
/// label needs `need` pixels: no ticks where no pixel is available,
/// otherwise as many as fit, on the smallest nice step that covers the domain.
pub fn generate(d: Domain, avail: i64, need: i64) -> (r: Vec<i64>)
    requires
        d.wf(),
        0 <= avail <= 0x2000_0000_0000,
        need >= 1,
    ensures
        r@ == tick_values(d, avail as int, need as int),
        avail == 0 ==> r@.len() == 0,
        forall|i: int| 0 <= i < r@.len() ==> d.min <= #[trigger] r@[i] <= d.max,
        forall|i: int, j: int| 0 <= i < j < r@.len() ==> r@[i] < r@[j],
        ({
            let c = fit_count(avail as int, need as int, avail as int);
            &&& c <= 0 ==> r@.len() == 0
            &&& c > 0 ==> exists|k: nat|
                first_fit(k, d.spec_extent(), c) && r@ == aligned_ticks(d, nice_at(k)).map_values(
                    |v: int| v as i64,
                )
        }),
{
    let c = fitting_count(avail, need, avail);
    if c <= 0 {
        return Vec::new();
    }
    let step = nice_step((d.max - d.min) as u64, c as u64);
    let r = aligned(d, step);
    proof {
        let t = aligned_ticks(d, step as int);
        let first = ceil_div(d.min as int, step as int);
        lemma_floor_bounds(d.max as int, step as int);
        lemma_ceil_times(d.min as int, step as int);
        assert forall|i: int| 0 <= i < r@.len() implies d.min <= #[trigger] r@[i] <= d.max by {
            assert(r@[i] == t[i]);
            let last = (d.max as int) / (step as int);
            assert(d.min <= (first + i) * step <= d.max) by (nonlinear_arith)
                requires
                    first * step >= d.min,
                    last * step <= d.max,
                    0 <= i <= last - first,
                    step >= 1,
            ;
        }
        assert forall|i: int, j: int| 0 <= i < j < r@.len() implies r@[i] < r@[j] by {
            assert(r@[i] == t[i]);
            assert(r@[j] == t[j]);
            assert((first + i) * step < (first + j) * step) by (nonlinear_arith)
                requires
                    i < j,
                    step >= 1,
            ;
        }
        let k = choose|k: nat| step == nice_at(k) && first_fit(k, d.spec_extent(), c as int);
        assert(r@ =~= t.map_values(|v: int| v as i64));
        let k2 = choose|k: nat| first_fit(k, d.spec_extent(), c as int);
        lemma_first_fit_unique(k, k2, d.spec_extent(), c as int);
    }
    r
}

} // verus!
