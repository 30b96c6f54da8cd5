//! The arithmetic of splitting a length by weights.
//!
//! A length `width` split by weights `a[0], ..., a[n-1]` of total `T > 0`
//! gives `n` parts.  Part `i` lies between the boundaries `i` and `i + 1`,
//! where boundary `k` is `width * (a[0] + ... + a[k-1]) / T`, rounded toward
//! zero.  So the parts lie side by side, cover the whole length, and each is
//! within one unit of its exact share `width * a[i] / T`.  Where all weights
//! are zero, every boundary is zero and every part empty.

use vstd::prelude::*;

use vstd::arithmetic::div_mod::{lemma_fundamental_div_mod, lemma_mod_bound};

verus! {

/// The sum of the weights.
pub open spec fn total_weight(weights: Seq<usize>) -> nat
    decreases weights.len(),
{
    if weights.len() == 0 {
        0
    } else {
        total_weight(weights.drop_last()) + weights.last() as nat
    }
}

/// `a / b`, rounded toward zero (for `b > 0`).
pub open spec fn div_toward_zero(a: int, b: int) -> int {
    if a >= 0 {
        a / b
    } else {
        -((-a) / b)
    }
}

/// The part of `width` that the weight `weight` gets, out of `total`.
pub open spec fn share(width: int, weight: int, total: int) -> int {
    div_toward_zero(width * weight, total)
}

/// Where part `i` begins, relative to the beginning of the split length: the
/// share of the weights before it.
pub open spec fn boundary(width: int, weights: Seq<usize>, total: int, i: int) -> int {
    if total == 0 {
        0
    } else {
        share(width, total_weight(weights.take(i)) as int, total)
    }
}

/// The width of part `i`: from its boundary to the next.
pub open spec fn part_width(width: int, weights: Seq<usize>, total: int, i: int) -> int {
    boundary(width, weights, total, i + 1) - boundary(width, weights, total, i)
}

/// Adding one more weight to a prefix adds that weight to its total.
pub proof fn lemma_total_weight_step(weights: Seq<usize>, i: int)
    requires
        0 <= i < weights.len(),
    ensures
        total_weight(weights.take(i + 1)) == total_weight(weights.take(i)) + weights[i],
{
    assert(weights.take(i + 1).drop_last() =~= weights.take(i));
}

/// The total of a prefix is at most the total.
pub proof fn lemma_total_weight_prefix(weights: Seq<usize>, i: int)
    requires
        0 <= i <= weights.len(),
    ensures
        total_weight(weights.take(i)) <= total_weight(weights),
    decreases weights.len() - i,
{
    if i == weights.len() {
        assert(weights.take(i) =~= weights);
    } else {
        lemma_total_weight_step(weights, i);
        lemma_total_weight_prefix(weights, i + 1);
    }
}

/// A part is the exact share rounded toward zero: it lies within one unit
/// (scaled by the total) of `width * weight / total`.
pub proof fn lemma_share_bounds(w: int, a: int, t: int)
    requires
        t > 0,
        a >= 0,
    ensures
        w >= 0 ==> {
            &&& 0 <= share(w, a, t)
            &&& share(w, a, t) * t <= w * a
            &&& w * a <= share(w, a, t) * t + (t - 1)
        },
        w < 0 ==> {
            &&& share(w, a, t) <= 0
            &&& w * a <= share(w, a, t) * t
            &&& share(w, a, t) * t <= w * a + (t - 1)
        },
{
    if w >= 0 {
        let x = w * a;
        assert(x >= 0) by (nonlinear_arith)
            requires
                w >= 0,
                a >= 0,
                x == w * a,
        ;
        lemma_fundamental_div_mod(x, t);
        lemma_mod_bound(x, t);
        let q = x / t;
        assert(q * t == t * q) by (nonlinear_arith);
        assert(q >= 0) by (nonlinear_arith)
            requires
                x == t * q + x % t,
                0 <= x % t < t,
                x >= 0,
                t > 0,
        ;
        assert(share(w, a, t) == q);
    } else {
        let x = -(w * a);
        assert(x >= 0) by (nonlinear_arith)
            requires
                w < 0,
                a >= 0,
                x == -(w * a),
        ;
        lemma_fundamental_div_mod(x, t);
        lemma_mod_bound(x, t);
        let q = x / t;
        assert(q * t == t * q) by (nonlinear_arith);
        assert(q >= 0) by (nonlinear_arith)
            requires
                x == t * q + x % t,
                0 <= x % t < t,
                x >= 0,
                t > 0,
        ;
        assert(share(w, a, t) == -q);
        assert((-q) * t == -(q * t)) by (nonlinear_arith);
    }
}

/// A boundary lies between the beginning of the length and its end, within
/// one unit (scaled by the total) of the exact share of the weights before it.
pub proof fn lemma_boundary_bounds(w: int, weights: Seq<usize>, t: int, i: int)
    requires
        t > 0,
        t == total_weight(weights),
        0 <= i <= weights.len(),
    ensures
        w >= 0 ==> {
            &&& 0 <= boundary(w, weights, t, i) <= w
            &&& boundary(w, weights, t, i) * t <= w * total_weight(weights.take(i))
            &&& w * total_weight(weights.take(i)) <= boundary(w, weights, t, i) * t + (t - 1)
        },
        w < 0 ==> {
            &&& w <= boundary(w, weights, t, i) <= 0
            &&& w * total_weight(weights.take(i)) <= boundary(w, weights, t, i) * t
            &&& boundary(w, weights, t, i) * t <= w * total_weight(weights.take(i)) + (t - 1)
        },
{
    let s = total_weight(weights.take(i)) as int;
    lemma_total_weight_prefix(weights, i);
    lemma_share_bounds(w, s, t);
    let b = share(w, s, t);
    if w >= 0 {
        assert(b <= w) by (nonlinear_arith)
            requires
                b * t <= w * s,
                s <= t,
                w >= 0,
                t > 0,
        ;
    } else {
        assert(w <= b) by (nonlinear_arith)
            requires
                w * s <= b * t,
                s <= t,
                w < 0,
                t > 0,
        ;
    }
}

/// The first boundary is the beginning of the length, and, for a positive
/// total, the last one is its end.
pub proof fn lemma_boundary_ends(w: int, weights: Seq<usize>, t: int)
    requires
        t == total_weight(weights),
    ensures
        boundary(w, weights, t, 0) == 0,
        t > 0 ==> boundary(w, weights, t, weights.len() as int) == w,
{
    assert(weights.take(0) =~= Seq::<usize>::empty());
    assert(total_weight(Seq::<usize>::empty()) == 0);
    assert(w * 0 == 0) by (nonlinear_arith);
    assert(weights.take(weights.len() as int) =~= weights);
    if t > 0 {
        if w >= 0 {
            assert(w * t >= 0 && (w * t) / t == w) by (nonlinear_arith)
                requires
                    t > 0,
                    w >= 0,
            ;
        } else {
            assert(w * t < 0 && (-(w * t)) / t == -w) by (nonlinear_arith)
                requires
                    t > 0,
                    w < 0,
            ;
        }
    }
}

/// Each part is within one unit of its exact share: `part * total` differs
/// from `width * weight` by less than the total.
pub proof fn lemma_part_width_bounds(w: int, weights: Seq<usize>, t: int, i: int)
    requires
        t > 0,
        t == total_weight(weights),
        0 <= i < weights.len(),
    ensures
        w * weights[i] - t < part_width(w, weights, t, i) * t < w * weights[i] + t,
        w >= 0 ==> 0 <= part_width(w, weights, t, i) <= w,
        w < 0 ==> w <= part_width(w, weights, t, i) <= 0,
{
    lemma_boundary_bounds(w, weights, t, i);
    lemma_boundary_bounds(w, weights, t, i + 1);
    lemma_total_weight_step(weights, i);
    let b0 = boundary(w, weights, t, i);
    let b1 = boundary(w, weights, t, i + 1);
    let s0 = total_weight(weights.take(i)) as int;
    let s1 = total_weight(weights.take(i + 1)) as int;
    let a = weights[i] as int;
    assert(w * s1 == w * s0 + w * a) by (nonlinear_arith)
        requires
            s1 == s0 + a,
    ;
    assert((b1 - b0) * t == b1 * t - b0 * t) by (nonlinear_arith);
    lemma_total_weight_prefix(weights, i + 1);
    let p = b1 - b0;
    assert(0 <= a <= t);
    if w >= 0 {
        assert(0 <= p <= w) by (nonlinear_arith)
            requires
                w * a - t < p * t < w * a + t,
                0 <= a <= t,
                w >= 0,
                t > 0,
        ;
    } else {
        assert(w <= p <= 0) by (nonlinear_arith)
            requires
                w * a - t < p * t < w * a + t,
                0 <= a <= t,
                w < 0,
                t > 0,
        ;
    }
}

} // verus!
