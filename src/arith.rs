use vstd::arithmetic::div_mod::{lemma_fundamental_div_mod, lemma_fundamental_div_mod_converse, lemma_mod_bound};
use vstd::prelude::*;

verus! {

/// Division rounded up, for a positive divisor.
pub open spec fn ceil_div(n: int, d: int) -> int {
    -((-n) / d)
}

/// The quotient rounded down lies within one divisor of the dividend.
pub proof fn lemma_floor_bounds(n: int, d: int)
    requires
        d > 0,
    ensures
        (n / d) * d <= n < (n / d) * d + d,
{
    lemma_fundamental_div_mod(n, d);
    lemma_mod_bound(n, d);
    assert(d * (n / d) == (n / d) * d) by (nonlinear_arith);
}

/// The quotient rounded down is at least `q` exactly when `n` is at least `q * d`.
pub proof fn lemma_floor_ge(n: int, d: int, q: int)
    requires
        d > 0,
    ensures
        n / d >= q <==> n >= q * d,
{
    lemma_floor_bounds(n, d);
    let f = n / d;
    assert(f >= q ==> f * d >= q * d) by (nonlinear_arith)
        requires
            d > 0,
    ;
    assert(f < q ==> f * d + d <= q * d) by (nonlinear_arith)
        requires
            d > 0,
    ;
}

/// The quotient rounded up is at most `a` exactly when `n` is at most `a * d`.
pub proof fn lemma_ceil_le(n: int, d: int, a: int)
    requires
        d > 0,
    ensures
        ceil_div(n, d) <= a <==> n <= a * d,
{
    lemma_floor_ge(-n, d, -a);
    assert((-a) * d == -(a * d)) by (nonlinear_arith);
}

/// Division of a 128-bit integer by a positive one, rounded down.
pub fn floor_div(n: i128, d: i128) -> (r: i128)
    requires
        d > 0,
    ensures
        r == n / d,
{
    if n >= 0 {
        n / d
    } else {
        let m: i128 = -(n + 1);
        let q: i128 = m / d;
        proof {
            lemma_fundamental_div_mod(m as int, d as int);
            lemma_mod_bound(m as int, d as int);
            let r = (m as int) % (d as int);
            assert(n == (-q - 1) * d + (d - r - 1)) by (nonlinear_arith)
                requires
                    m == d * q + r,
                    n == -m - 1,
            ;
            lemma_fundamental_div_mod_converse(n as int, d as int, -q - 1, d - r - 1);
        }
        -q - 1
    }
}

/// Division of a 128-bit integer by a positive one, rounded up.
pub fn ceil_div_exec(n: i128, d: i128) -> (r: i128)
    requires
        d > 0,
        n > i128::MIN,
    ensures
        r == ceil_div(n as int, d as int),
{
    let q = floor_div(-n, d);
    proof {
        lemma_floor_bounds(-n, d as int);
        let mx = i128::MAX as int;
        if q < -mx {
            assert((q + 1) * d <= (-mx) * d) by (nonlinear_arith)
                requires
                    q + 1 <= -mx,
                    d > 0,
            ;
            assert((-mx) * d <= -mx) by (nonlinear_arith)
                requires
                    mx > 0,
                    d >= 1,
            ;
            assert((q + 1) * d == q * d + d) by (nonlinear_arith);
        }
    }
    -q
}

} // verus!
