use vstd::prelude::*;
use vstd::arithmetic::div_mod::lemma_div_is_ordered;
use crate::line::lemma_floor_div;

verus! {

/// `n / m` rounded to the nearest integer, halves rounded away from zero (`m > 0`).
pub open spec fn round_half_away(n: int, m: int) -> int {
    if n >= 0 {
        (2 * n + m) / (2 * m)
    } else {
        -((-2 * n + m) / (2 * m))
    }
}

/// Value of the linear function through `(i0, d0)` and `(i1, d1)` at `i0 + k`,
/// rounded to the nearest integer.
pub open spec fn interpolated_value(i0: int, d0: int, i1: int, d1: int, k: int) -> int {
    d0 + round_half_away(k * (d1 - d0), i1 - i0)
}

/// The values of the linear function through `(i0, d0)` and `(i1, d1)` at every integer
/// from `i0` to `i1` inclusive, rounded to the nearest integer; just `d0` when `i0 == i1`,
/// nothing when `i1 < i0`.
pub open spec fn interpolate_int_spec(i0: int, d0: int, i1: int, d1: int) -> Seq<int> {
    if i0 == i1 {
        seq![d0]
    } else if i1 < i0 {
        Seq::empty()
    } else {
        Seq::new((i1 - i0 + 1) as nat, |k: int| interpolated_value(i0, d0, i1, d1, k))
    }
}

/// Rounding `k * diff / m` for `0 <= k <= m` stays between 0 and `diff`.
pub proof fn lemma_round_between(k: int, diff: int, m: int)
    requires
        0 < m,
        0 <= k <= m,
    ensures
        diff >= 0 ==> 0 <= round_half_away(k * diff, m) <= diff,
        diff < 0 ==> diff <= round_half_away(k * diff, m) <= 0,
        round_half_away(0 * diff, m) == 0,
        round_half_away(m * diff, m) == diff,
{
    let mm = 2 * m;
    if diff >= 0 {
        assert(0 <= k * diff <= m * diff) by (nonlinear_arith)
            requires
                0 <= k <= m,
                diff >= 0,
        ;
        let n = 2 * (k * diff) + m;
        lemma_floor_div(n, mm);
        assert(0 <= n / mm <= diff) by (nonlinear_arith)
            requires
                mm * (n / mm) <= n < mm * (n / mm) + mm,
                n == 2 * (k * diff) + m,
                0 <= k * diff <= m * diff,
                mm == 2 * m,
                m > 0,
        ;
    } else {
        assert(0 <= -(k * diff) <= -(m * diff)) by (nonlinear_arith)
            requires
                0 <= k <= m,
                diff < 0,
        ;
        if k * diff >= 0 {
            assert(k * diff == 0);
            lemma_floor_div(m, mm);
            assert(m / mm == 0) by (nonlinear_arith)
                requires
                    mm * (m / mm) <= m < mm * (m / mm) + mm,
                    mm == 2 * m,
                    m > 0,
            ;
        } else {
            let n = -2 * (k * diff) + m;
            lemma_floor_div(n, mm);
            assert(0 <= n / mm <= -diff) by (nonlinear_arith)
                requires
                    mm * (n / mm) <= n < mm * (n / mm) + mm,
                    n == -2 * (k * diff) + m,
                    0 <= -(k * diff) <= -(m * diff),
                    mm == 2 * m,
                    m > 0,
            ;
        }
    }
    assert(0 * diff == 0);
    lemma_floor_div(m, mm);
    assert(m / mm == 0) by (nonlinear_arith)
        requires
            mm * (m / mm) <= m < mm * (m / mm) + mm,
            mm == 2 * m,
            m > 0,
    ;
    if diff >= 0 {
        let n = 2 * (m * diff) + m;
        lemma_floor_div(n, mm);
        assert(n / mm == diff) by (nonlinear_arith)
            requires
                mm * (n / mm) <= n < mm * (n / mm) + mm,
                n == 2 * (m * diff) + m,
                mm == 2 * m,
                m > 0,
        ;
    } else {
        assert(m * diff < 0) by (nonlinear_arith)
            requires
                m > 0,
                diff < 0,
        ;
        let n = -2 * (m * diff) + m;
        lemma_floor_div(n, mm);
        assert(n / mm == -diff) by (nonlinear_arith)
            requires
                mm * (n / mm) <= n < mm * (n / mm) + mm,
                n == -2 * (m * diff) + m,
                mm == 2 * m,
                m > 0,
        ;
    }
}

/// Linear interpolation of integer values: for every integer `i` from `i0` to `i1`
/// inclusive, the value at `i` of the line through `(i0, d0)` and `(i1, d1)`, rounded to
/// the nearest integer with halves rounded away from zero. The values are computed
/// exactly, in integer arithmetic, so none of them carries the rounding error that
/// adding a floating-point slope step by step would build up. When `i0 == i1` the result is `[d0]`; when `i1 < i0` it
/// is empty.
pub fn interpolate_int(i0: i32, d0: i32, i1: i32, d1: i32) -> (results: Vec<i32>)
    requires
        i0 != i1 ==> i32::MIN <= d1 - d0 <= i32::MAX,
        i0 != i1 ==> i32::MIN <= i1 - i0 <= i32::MAX,
        i0 != i1 ==> i1 < i32::MAX,
    ensures
        results@.map_values(|v: i32| v as int) == interpolate_int_spec(
            i0 as int,
            d0 as int,
            i1 as int,
            d1 as int,
        ),
{
    if i0 == i1 {
        let results = vec![d0];
        assert(results@.map_values(|v: i32| v as int) =~= seq![d0 as int]);
        return results;
    }
    let mut results: Vec<i32> = Vec::new();
    let diff: i128 = d1 as i128 - d0 as i128;
    let span: i128 = i1 as i128 - i0 as i128;
    let ghost spec_all = interpolate_int_spec(i0 as int, d0 as int, i1 as int, d1 as int);
    let mut k: i128 = 0;
    while k <= span
        invariant
            i0 != i1,
            diff == d1 - d0,
            span == i1 - i0,
            spec_all == interpolate_int_spec(i0 as int, d0 as int, i1 as int, d1 as int),
            0 <= k,
            span >= 0 ==> k <= span + 1,
            span < 0 ==> k == 0,
            results@.len() == k,
            forall|j: int|
                0 <= j < k ==> #[trigger] results@[j] as int == interpolated_value(
                    i0 as int,
                    d0 as int,
                    i1 as int,
                    d1 as int,
                    j,
                ),
        decreases span + 1 - k,
    {
        proof {
            lemma_round_between(k as int, diff as int, span as int);
            assert(-0x1_0000_0000i128 < diff < 0x1_0000_0000i128);
            assert(0 <= k <= 0x1_0000_0000i128);
            assert(-0x1_0000_0000_0000_0000i128 <= k * diff <= 0x1_0000_0000_0000_0000i128) by (nonlinear_arith)
                requires
                    -0x1_0000_0000i128 < diff < 0x1_0000_0000i128,
                    0 <= k <= 0x1_0000_0000i128,
            ;
        }
        let n: i128 = k * diff;
        let q: i128 = if n >= 0 {
            (2 * n + span) / (2 * span)
        } else {
            -((-2 * n + span) / (2 * span))
        };
        assert(q == round_half_away(k * diff, span as int));
        results.push((d0 as i128 + q) as i32);
        k = k + 1;
    }
    assert(results@.map_values(|v: i32| v as int) =~= spec_all);
    results
}

/// The interpolated values start at `d0`, end at `d1`, and move monotonically from one
/// to the other.
pub proof fn interpolation_endpoints_and_monotone(i0: int, d0: int, i1: int, d1: int, j: int, k: int)
    requires
        i0 < i1,
        0 <= j <= k <= i1 - i0,
    ensures
        interpolated_value(i0, d0, i1, d1, 0) == d0,
        interpolated_value(i0, d0, i1, d1, i1 - i0) == d1,
        d0 <= d1 ==> interpolated_value(i0, d0, i1, d1, j) <= interpolated_value(i0, d0, i1, d1, k),
        d1 <= d0 ==> interpolated_value(i0, d0, i1, d1, k) <= interpolated_value(i0, d0, i1, d1, j),
{
    let m = i1 - i0;
    let diff = d1 - d0;
    lemma_round_between(0, diff, m);
    lemma_round_between(j, diff, m);
    lemma_round_between(k, diff, m);
    if diff >= 0 {
        assert(j * diff <= k * diff) by (nonlinear_arith)
            requires
                j <= k,
                diff >= 0,
        ;
        assert(0 <= j * diff) by (nonlinear_arith)
            requires
                0 <= j,
                diff >= 0,
        ;
        lemma_div_is_ordered(2 * (j * diff) + m, 2 * (k * diff) + m, 2 * m);
    } else {
        assert(k * diff <= j * diff) by (nonlinear_arith)
            requires
                j <= k,
                diff < 0,
        ;
        assert(j * diff <= 0) by (nonlinear_arith)
            requires
                0 <= j,
                diff < 0,
        ;
        if j * diff < 0 {
            lemma_div_is_ordered(-2 * (j * diff) + m, -2 * (k * diff) + m, 2 * m);
        } else if k * diff < 0 {
            lemma_div_is_ordered(0, -2 * (k * diff) + m, 2 * m);
            lemma_div_is_ordered(m, -2 * (k * diff) + m, 2 * m);
        }
    }
}

} // verus!
